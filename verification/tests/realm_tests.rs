use qm_customer::realm::{
    apply_client_fixes, apply_realm_fix, apply_realm_fixes, find_execution, partition_errors,
    trim_slashes, ClientFixConfig, ClientSettings, FlowExecution, KeycloakFixConfig,
    RealmConfigError, RealmSettings,
};
use qm_customer::smtp::SmtpConfig;

fn empty_settings() -> RealmSettings {
    RealmSettings {
        default_locale: None,
        internationalization_enabled: None,
        login_theme: None,
        email_theme: None,
        password_policy: None,
        remember_me: None,
        registration_allowed: None,
        reset_password_allowed: None,
        supported_locales: None,
        smtp_server: None,
        browser_flow: None,
    }
}

fn config() -> KeycloakFixConfig {
    KeycloakFixConfig {
        theme: "qm".to_string(),
        email_theme: "qm-mail".to_string(),
        smtp: SmtpConfig {
            starttls: Some(true),
            port: Some(587),
            host: Some("mail.example".to_string()),
            from: None,
            from_display_name: None,
            ssl: None,
        },
        smtp_reply_to: Some("reply@example".to_string()),
        smtp_reply_to_display_name: None,
        browser_flow: "browser_email_otp".to_string(),
    }
}

#[test]
fn errors_are_routed_to_their_repair_pass() {
    let errors = vec![
        RealmConfigError::DefaultLocale,
        RealmConfigError::ClientEnabled,
        RealmConfigError::AuthenticationFlowsMissing,
        RealmConfigError::BrowserFlow,
        RealmConfigError::Unknown("something-else".to_string()),
        RealmConfigError::SmtpPort,
    ];
    let p = partition_errors(errors);
    assert_eq!(
        p.realm,
        vec![RealmConfigError::DefaultLocale, RealmConfigError::SmtpPort]
    );
    assert_eq!(p.clients, vec![RealmConfigError::ClientEnabled]);
    assert_eq!(p.flows, vec![RealmConfigError::AuthenticationFlowsMissing]);
    assert_eq!(p.browser, vec![RealmConfigError::BrowserFlow]);
    assert_eq!(
        p.unresolved,
        vec![RealmConfigError::Unknown("something-else".to_string())]
    );
}

#[test]
fn realm_fixes_set_the_prescribed_values() {
    let cfg = config();
    let s = apply_realm_fixes(
        empty_settings(),
        &cfg,
        &vec![
            RealmConfigError::DefaultLocale,
            RealmConfigError::LoginTheme,
            RealmConfigError::RegistrationAllowed,
            RealmConfigError::SupportedLocales,
            RealmConfigError::BrowserFlow,
        ],
    );
    assert_eq!(s.default_locale.as_deref(), Some("de"));
    assert_eq!(s.login_theme.as_deref(), Some("qm"));
    assert_eq!(s.registration_allowed, Some(false));
    assert_eq!(s.supported_locales, Some(vec!["de".to_string()]));
    assert_eq!(s.browser_flow.as_deref(), Some("browser_email_otp"));
}

#[test]
fn password_policy_clauses_accumulate() {
    let cfg = config();
    let s = apply_realm_fix(empty_settings(), &cfg, &RealmConfigError::PasswordPolicyLength);
    assert_eq!(s.password_policy.as_deref(), Some("length(8)"));
    let s = apply_realm_fix(s, &cfg, &RealmConfigError::PasswordPolicyDigit);
    assert_eq!(s.password_policy.as_deref(), Some("length(8) and digits(1)"));
    let s = apply_realm_fix(empty_settings(), &cfg, &RealmConfigError::PasswordPolicyMissing);
    assert_eq!(
        s.password_policy.as_deref(),
        Some("length(8) and specialChars(1) and upperCase(1) and lowerCase(1) and digits(1)")
    );
}

#[test]
fn smtp_repairs_fill_and_rebind_entries() {
    let cfg = config();
    let s = apply_realm_fix(empty_settings(), &cfg, &RealmConfigError::SmtpServerMissing);
    let entries = s.smtp_server.clone().unwrap();
    assert_eq!(entries.len(), 6);
    assert_eq!(entries[1], ("port".to_string(), "587".to_string()));

    // Rebinding replaces in place; a new key is appended.
    let s = apply_realm_fix(s, &cfg, &RealmConfigError::SmtpStarttls);
    let entries = s.smtp_server.clone().unwrap();
    assert_eq!(entries.len(), 6);
    assert_eq!(entries[0], ("starttls".to_string(), "true".to_string()));

    let s = apply_realm_fix(s, &cfg, &RealmConfigError::SmtpReplyTo);
    let entries = s.smtp_server.unwrap();
    assert_eq!(entries.len(), 7);
    assert_eq!(entries[6], ("replyTo".to_string(), "reply@example".to_string()));
}

#[test]
fn client_fixes_enable_direct_access_and_repair_each_error() {
    let cfg = ClientFixConfig {
        public_url: "https://app.example/".to_string(),
        backchannel_logout_url: "http://qm-backend:10220/api/logout".to_string(),
    };
    let client = ClientSettings {
        attributes: None,
        base_url: None,
        client_id: None,
        consent_required: None,
        direct_access_grants_enabled: None,
        enabled: None,
        implicit_flow_enabled: None,
        public_client: None,
        redirect_uris: None,
        root_url: None,
        service_accounts_enabled: None,
        standard_flow_enabled: None,
        frontchannel_logout: None,
    };
    let s = apply_client_fixes(
        client,
        &cfg,
        &vec![
            RealmConfigError::ClientBaseUrl,
            RealmConfigError::ClientClientId,
            RealmConfigError::ClientRedirectUris,
            RealmConfigError::ClientAttributesGrantEnabled,
        ],
    );
    assert_eq!(s.direct_access_grants_enabled, Some(true));
    assert_eq!(s.base_url.as_deref(), Some("https://app.example"));
    assert_eq!(s.client_id.as_deref(), Some("spa"));
    assert_eq!(s.redirect_uris, Some(vec!["https://app.example/*".to_string()]));
    let attrs = s.attributes.unwrap();
    assert_eq!(
        attrs[0],
        (
            "oauth2.device.authorization.grant.enabled".to_string(),
            "false".to_string()
        )
    );
}

#[test]
fn trailing_slashes_are_trimmed() {
    assert_eq!(trim_slashes("https://x/"), "https://x");
    assert_eq!(trim_slashes("https://x///"), "https://x");
    assert_eq!(trim_slashes("https://x"), "https://x");
    assert_eq!(trim_slashes("///"), "");
}

#[test]
fn executions_are_found_by_display_name() {
    let execs = vec![
        FlowExecution { id: Some("a".to_string()), display_name: None, requirement: None },
        FlowExecution {
            id: Some("b".to_string()),
            display_name: Some("browser_email_otp forms".to_string()),
            requirement: None,
        },
    ];
    assert_eq!(find_execution(&execs, "browser_email_otp forms"), Some(1));
    assert_eq!(find_execution(&execs, "Email_2FA"), None);
}
