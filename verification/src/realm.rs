//! Repairing identity-provider realm configuration.
//!
//! A validation pass over a realm yields a list of configuration errors.
//! Each error names one deviation from the deployment's expected settings;
//! repairing it is a pure rewrite of the realm's (or its client's)
//! settings, decided here.  Reading the current representation from the
//! provider and writing the repaired one back is the caller's plumbing.

use vstd::prelude::*;

verus! {

use crate::seqs::{filtered, mapped};
use crate::smtp::{SmtpConfig, smtp_starttls_value, smtp_port_value, smtp_host_value,
    smtp_from_value, smtp_from_display_name_value, smtp_ssl_value};

/// One realm-configuration error found by validation, by the deviation it
/// names.  Deviations whose repair is the same (a value missing, invalid
/// or mismatched) share a variant.
#[derive(Clone, Debug, PartialEq, Eq)]
pub enum RealmConfigError {
    DefaultLocale,
    InternationalizationEnabled,
    LoginTheme,
    EmailTheme,
    PasswordPolicyLength,
    PasswordPolicySymbol,
    PasswordPolicyUppercase,
    PasswordPolicyLowercase,
    PasswordPolicyDigit,
    PasswordPolicyMissing,
    RememberMe,
    RegistrationAllowed,
    ResetPasswordAllowed,
    SupportedLocales,
    SmtpServerMissing,
    SmtpReplyToDisplayName,
    SmtpStarttls,
    SmtpPort,
    SmtpHost,
    SmtpReplyTo,
    SmtpFrom,
    SmtpFromDisplayName,
    SmtpSsl,
    ClientAttributesGrantEnabled,
    ClientAttributesBackchannelLogout,
    ClientBaseUrl,
    ClientClientId,
    ClientConsentRequired,
    ClientDirectAccessGrantEnabled,
    ClientEnabled,
    ClientImplicitFlowEnabled,
    ClientPublicClient,
    ClientRedirectUris,
    ClientRootUrl,
    ClientServiceAccountsEnabled,
    ClientStandardFlowEnabled,
    ClientFrontchannelLogoutEnabled,
    AuthenticationFlowsMissing,
    BrowserFlow,
    Unknown(String),
}

/// Which repair pass an error belongs to.
#[derive(Clone, Copy, Debug, PartialEq, Eq, Structural)]
pub enum ErrorClass {
    Realm,
    Client,
    Flows,
    Browser,
    Unresolved,
}

/// The repair pass responsible for one error.
pub open spec fn error_class(e: RealmConfigError) -> ErrorClass {
    match e {
        RealmConfigError::DefaultLocale => ErrorClass::Realm,
        RealmConfigError::InternationalizationEnabled => ErrorClass::Realm,
        RealmConfigError::LoginTheme => ErrorClass::Realm,
        RealmConfigError::EmailTheme => ErrorClass::Realm,
        RealmConfigError::PasswordPolicyLength => ErrorClass::Realm,
        RealmConfigError::PasswordPolicySymbol => ErrorClass::Realm,
        RealmConfigError::PasswordPolicyUppercase => ErrorClass::Realm,
        RealmConfigError::PasswordPolicyLowercase => ErrorClass::Realm,
        RealmConfigError::PasswordPolicyDigit => ErrorClass::Realm,
        RealmConfigError::PasswordPolicyMissing => ErrorClass::Realm,
        RealmConfigError::RememberMe => ErrorClass::Realm,
        RealmConfigError::RegistrationAllowed => ErrorClass::Realm,
        RealmConfigError::ResetPasswordAllowed => ErrorClass::Realm,
        RealmConfigError::SupportedLocales => ErrorClass::Realm,
        RealmConfigError::SmtpServerMissing => ErrorClass::Realm,
        RealmConfigError::SmtpReplyToDisplayName => ErrorClass::Realm,
        RealmConfigError::SmtpStarttls => ErrorClass::Realm,
        RealmConfigError::SmtpPort => ErrorClass::Realm,
        RealmConfigError::SmtpHost => ErrorClass::Realm,
        RealmConfigError::SmtpReplyTo => ErrorClass::Realm,
        RealmConfigError::SmtpFrom => ErrorClass::Realm,
        RealmConfigError::SmtpFromDisplayName => ErrorClass::Realm,
        RealmConfigError::SmtpSsl => ErrorClass::Realm,
        RealmConfigError::ClientAttributesGrantEnabled => ErrorClass::Client,
        RealmConfigError::ClientAttributesBackchannelLogout => ErrorClass::Client,
        RealmConfigError::ClientBaseUrl => ErrorClass::Client,
        RealmConfigError::ClientClientId => ErrorClass::Client,
        RealmConfigError::ClientConsentRequired => ErrorClass::Client,
        RealmConfigError::ClientDirectAccessGrantEnabled => ErrorClass::Client,
        RealmConfigError::ClientEnabled => ErrorClass::Client,
        RealmConfigError::ClientImplicitFlowEnabled => ErrorClass::Client,
        RealmConfigError::ClientPublicClient => ErrorClass::Client,
        RealmConfigError::ClientRedirectUris => ErrorClass::Client,
        RealmConfigError::ClientRootUrl => ErrorClass::Client,
        RealmConfigError::ClientServiceAccountsEnabled => ErrorClass::Client,
        RealmConfigError::ClientStandardFlowEnabled => ErrorClass::Client,
        RealmConfigError::ClientFrontchannelLogoutEnabled => ErrorClass::Client,
        RealmConfigError::AuthenticationFlowsMissing => ErrorClass::Flows,
        RealmConfigError::BrowserFlow => ErrorClass::Browser,
        RealmConfigError::Unknown(_) => ErrorClass::Unresolved,
    }
}

impl RealmConfigError {
    /// The repair pass responsible for this error.
    pub fn class(&self) -> (r: ErrorClass)
        ensures
            r == error_class(*self),
    {
        match self {
            RealmConfigError::DefaultLocale => ErrorClass::Realm,
            RealmConfigError::InternationalizationEnabled => ErrorClass::Realm,
            RealmConfigError::LoginTheme => ErrorClass::Realm,
            RealmConfigError::EmailTheme => ErrorClass::Realm,
            RealmConfigError::PasswordPolicyLength => ErrorClass::Realm,
            RealmConfigError::PasswordPolicySymbol => ErrorClass::Realm,
            RealmConfigError::PasswordPolicyUppercase => ErrorClass::Realm,
            RealmConfigError::PasswordPolicyLowercase => ErrorClass::Realm,
            RealmConfigError::PasswordPolicyDigit => ErrorClass::Realm,
            RealmConfigError::PasswordPolicyMissing => ErrorClass::Realm,
            RealmConfigError::RememberMe => ErrorClass::Realm,
            RealmConfigError::RegistrationAllowed => ErrorClass::Realm,
            RealmConfigError::ResetPasswordAllowed => ErrorClass::Realm,
            RealmConfigError::SupportedLocales => ErrorClass::Realm,
            RealmConfigError::SmtpServerMissing => ErrorClass::Realm,
            RealmConfigError::SmtpReplyToDisplayName => ErrorClass::Realm,
            RealmConfigError::SmtpStarttls => ErrorClass::Realm,
            RealmConfigError::SmtpPort => ErrorClass::Realm,
            RealmConfigError::SmtpHost => ErrorClass::Realm,
            RealmConfigError::SmtpReplyTo => ErrorClass::Realm,
            RealmConfigError::SmtpFrom => ErrorClass::Realm,
            RealmConfigError::SmtpFromDisplayName => ErrorClass::Realm,
            RealmConfigError::SmtpSsl => ErrorClass::Realm,
            RealmConfigError::ClientAttributesGrantEnabled => ErrorClass::Client,
            RealmConfigError::ClientAttributesBackchannelLogout => ErrorClass::Client,
            RealmConfigError::ClientBaseUrl => ErrorClass::Client,
            RealmConfigError::ClientClientId => ErrorClass::Client,
            RealmConfigError::ClientConsentRequired => ErrorClass::Client,
            RealmConfigError::ClientDirectAccessGrantEnabled => ErrorClass::Client,
            RealmConfigError::ClientEnabled => ErrorClass::Client,
            RealmConfigError::ClientImplicitFlowEnabled => ErrorClass::Client,
            RealmConfigError::ClientPublicClient => ErrorClass::Client,
            RealmConfigError::ClientRedirectUris => ErrorClass::Client,
            RealmConfigError::ClientRootUrl => ErrorClass::Client,
            RealmConfigError::ClientServiceAccountsEnabled => ErrorClass::Client,
            RealmConfigError::ClientStandardFlowEnabled => ErrorClass::Client,
            RealmConfigError::ClientFrontchannelLogoutEnabled => ErrorClass::Client,
            RealmConfigError::AuthenticationFlowsMissing => ErrorClass::Flows,
            RealmConfigError::BrowserFlow => ErrorClass::Browser,
            RealmConfigError::Unknown(_) => ErrorClass::Unresolved,
        }
    }
}

/// The errors of one class, in their original order.
pub open spec fn errors_of_class(
    errors: Seq<RealmConfigError>,
    c: ErrorClass,
) -> Seq<RealmConfigError> {
    filtered(errors, |e: RealmConfigError| error_class(e) == c)
}

/// One repair plan: the errors routed to each pass.  Errors no pass can
/// repair stay behind in `unresolved`; resolving succeeds only when that
/// list is empty.
#[derive(Clone, Debug)]
pub struct ErrorPartition {
    pub realm: Vec<RealmConfigError>,
    pub clients: Vec<RealmConfigError>,
    pub flows: Vec<RealmConfigError>,
    pub browser: Vec<RealmConfigError>,
    pub unresolved: Vec<RealmConfigError>,
}

/// Route each error to its repair pass, keeping order within each pass.
pub fn partition_errors(errors: Vec<RealmConfigError>) -> (r: ErrorPartition)
    ensures
        r.realm@ == errors_of_class(errors@, ErrorClass::Realm),
        r.clients@ == errors_of_class(errors@, ErrorClass::Client),
        r.flows@ == errors_of_class(errors@, ErrorClass::Flows),
        r.browser@ == errors_of_class(errors@, ErrorClass::Browser),
        r.unresolved@ == errors_of_class(errors@, ErrorClass::Unresolved),
{
    let ghost orig = errors@;
    let mut realm: Vec<RealmConfigError> = Vec::new();
    let mut clients: Vec<RealmConfigError> = Vec::new();
    let mut flows: Vec<RealmConfigError> = Vec::new();
    let mut browser: Vec<RealmConfigError> = Vec::new();
    let mut unresolved: Vec<RealmConfigError> = Vec::new();
    let mut rest = errors;
    proof {
        assert(orig.subrange(0, 0) =~= Seq::<RealmConfigError>::empty());
    }
    let ghost mut i: int = 0;
    while rest.len() > 0
        invariant
            0 <= i <= orig.len(),
            i + rest@.len() == orig.len(),
            rest@ =~= orig.subrange(i as int, orig.len() as int),
            realm@ == errors_of_class(orig.subrange(0, i as int), ErrorClass::Realm),
            clients@ == errors_of_class(orig.subrange(0, i as int), ErrorClass::Client),
            flows@ == errors_of_class(orig.subrange(0, i as int), ErrorClass::Flows),
            browser@ == errors_of_class(orig.subrange(0, i as int), ErrorClass::Browser),
            unresolved@ == errors_of_class(orig.subrange(0, i as int), ErrorClass::Unresolved),
        decreases rest@.len(),
    {
        let e = rest.remove(0);
        proof {
            assert(e == orig[i as int]);
            assert(orig.subrange(0, i + 1).drop_last() =~= orig.subrange(0, i as int));
            assert(orig.subrange(0, i + 1).last() == orig[i as int]);
        }
        match e.class() {
            ErrorClass::Realm => realm.push(e),
            ErrorClass::Client => clients.push(e),
            ErrorClass::Flows => flows.push(e),
            ErrorClass::Browser => browser.push(e),
            ErrorClass::Unresolved => unresolved.push(e),
        }
        proof {
            i = i + 1;
            assert(rest@ =~= orig.subrange(i as int, orig.len() as int));
        }
    }
    proof {
        assert(orig.subrange(0, orig.len() as int) =~= orig);
    }
    ErrorPartition { realm, clients, flows, browser, unresolved }
}

/// View of an optional owned string.
pub open spec fn opt_str_view(o: Option<String>) -> Option<Seq<char>> {
    match o {
        Some(s) => Some(s@),
        None => None,
    }
}

/// Element-wise view of a string vector.
pub open spec fn strs_view(s: Seq<String>) -> Seq<Seq<char>> {
    mapped(s, |x: String| x@)
}

/// Element-wise view of a key-value vector.
pub open spec fn pairs_view(s: Seq<(String, String)>) -> Seq<(Seq<char>, Seq<char>)> {
    mapped(s, |p: (String, String)| (p.0@, p.1@))
}

/// The realm settings the repairs touch, as plain values; the mail-server
/// block is a key-value list as the provider holds it.
#[derive(Clone, Debug)]
pub struct RealmSettings {
    pub default_locale: Option<String>,
    pub internationalization_enabled: Option<bool>,
    pub login_theme: Option<String>,
    pub email_theme: Option<String>,
    pub password_policy: Option<String>,
    pub remember_me: Option<bool>,
    pub registration_allowed: Option<bool>,
    pub reset_password_allowed: Option<bool>,
    pub supported_locales: Option<Vec<String>>,
    pub smtp_server: Option<Vec<(String, String)>>,
    pub browser_flow: Option<String>,
}

#[verifier::ext_equal]
pub struct RealmSettingsView {
    pub default_locale: Option<Seq<char>>,
    pub internationalization_enabled: Option<bool>,
    pub login_theme: Option<Seq<char>>,
    pub email_theme: Option<Seq<char>>,
    pub password_policy: Option<Seq<char>>,
    pub remember_me: Option<bool>,
    pub registration_allowed: Option<bool>,
    pub reset_password_allowed: Option<bool>,
    pub supported_locales: Option<Seq<Seq<char>>>,
    pub smtp_server: Option<Seq<(Seq<char>, Seq<char>)>>,
    pub browser_flow: Option<Seq<char>>,
}

impl View for RealmSettings {
    type V = RealmSettingsView;

    open spec fn view(&self) -> RealmSettingsView {
        RealmSettingsView {
            default_locale: opt_str_view(self.default_locale),
            internationalization_enabled: self.internationalization_enabled,
            login_theme: opt_str_view(self.login_theme),
            email_theme: opt_str_view(self.email_theme),
            password_policy: opt_str_view(self.password_policy),
            remember_me: self.remember_me,
            registration_allowed: self.registration_allowed,
            reset_password_allowed: self.reset_password_allowed,
            supported_locales: match self.supported_locales {
                Some(v) => Some(strs_view(v@)),
                None => None,
            },
            smtp_server: match self.smtp_server {
                Some(v) => Some(pairs_view(v@)),
                None => None,
            },
            browser_flow: opt_str_view(self.browser_flow),
        }
    }
}

/// What the deployment configuration prescribes for a realm.
#[derive(Clone, Debug)]
pub struct KeycloakFixConfig {
    pub theme: String,
    pub email_theme: String,
    pub smtp: SmtpConfig,
    pub smtp_reply_to: Option<String>,
    pub smtp_reply_to_display_name: Option<String>,
    pub browser_flow: String,
}

/// An optional configured string, the empty string when not configured.
pub open spec fn cfg_str_value(o: Option<String>) -> Seq<char> {
    match o {
        Some(s) => s@,
        None => ""@,
    }
}

/// A key-value list with `k` now bound to `v`: the first entry under `k`
/// is replaced, or the pair is appended when the key is new.
pub open spec fn upserted(
    entries: Seq<(Seq<char>, Seq<char>)>,
    k: Seq<char>,
    v: Seq<char>,
) -> Seq<(Seq<char>, Seq<char>)>
    decreases entries.len(),
{
    if entries.len() == 0 {
        seq![(k, v)]
    } else if entries[0].0 == k {
        seq![(k, v)] + entries.drop_first()
    } else {
        seq![entries[0]] + upserted(entries.drop_first(), k, v)
    }
}

/// The mail-server block of the realm, an empty list when absent.
pub open spec fn smtp_entries(v: RealmSettingsView) -> Seq<(Seq<char>, Seq<char>)> {
    match v.smtp_server {
        Some(m) => m,
        None => Seq::empty(),
    }
}

/// A password policy extended by one clause.
pub open spec fn policy_with(p: Option<Seq<char>>, clause: Seq<char>) -> Seq<char> {
    match p {
        Some(s) => s + " and "@ + clause,
        None => clause,
    }
}

/// The six default mail-server entries, as the settings hold them.
pub open spec fn smtp_defaults_view(c: SmtpConfig) -> Seq<(Seq<char>, Seq<char>)> {
    seq![
        ("starttls"@, smtp_starttls_value(c)),
        ("port"@, smtp_port_value(c)),
        ("host"@, smtp_host_value(c)),
        ("from"@, smtp_from_value(c)),
        ("fromDisplayName"@, smtp_from_display_name_value(c)),
        ("ssl"@, smtp_ssl_value(c)),
    ]
}

/// One realm-settings repair.  Client, flow and unknown errors leave the
/// realm settings untouched.
pub open spec fn apply_realm_fix_spec(
    v: RealmSettingsView,
    cfg: KeycloakFixConfig,
    e: RealmConfigError,
) -> RealmSettingsView {
    match e {
        RealmConfigError::DefaultLocale => RealmSettingsView { default_locale: Some("de"@), ..v },
        RealmConfigError::InternationalizationEnabled => RealmSettingsView {
            internationalization_enabled: Some(true),
            ..v
        },
        RealmConfigError::LoginTheme => RealmSettingsView { login_theme: Some(cfg.theme@), ..v },
        RealmConfigError::EmailTheme => RealmSettingsView {
            email_theme: Some(cfg.email_theme@),
            ..v
        },
        RealmConfigError::PasswordPolicyLength => RealmSettingsView {
            password_policy: Some(policy_with(v.password_policy, "length(8)"@)),
            ..v
        },
        RealmConfigError::PasswordPolicySymbol => RealmSettingsView {
            password_policy: Some(policy_with(v.password_policy, "specialChars(1)"@)),
            ..v
        },
        RealmConfigError::PasswordPolicyUppercase => RealmSettingsView {
            password_policy: Some(policy_with(v.password_policy, "upperCase(1)"@)),
            ..v
        },
        RealmConfigError::PasswordPolicyLowercase => RealmSettingsView {
            password_policy: Some(policy_with(v.password_policy, "lowerCase(1)"@)),
            ..v
        },
        RealmConfigError::PasswordPolicyDigit => RealmSettingsView {
            password_policy: Some(policy_with(v.password_policy, "digits(1)"@)),
            ..v
        },
        RealmConfigError::PasswordPolicyMissing => RealmSettingsView {
            password_policy: Some(
                "length(8) and specialChars(1) and upperCase(1) and lowerCase(1) and digits(1)"@,
            ),
            ..v
        },
        RealmConfigError::RememberMe => RealmSettingsView { remember_me: Some(true), ..v },
        RealmConfigError::RegistrationAllowed => RealmSettingsView {
            registration_allowed: Some(false),
            ..v
        },
        RealmConfigError::ResetPasswordAllowed => RealmSettingsView {
            reset_password_allowed: Some(true),
            ..v
        },
        RealmConfigError::SupportedLocales => RealmSettingsView {
            supported_locales: Some(seq!["de"@]),
            ..v
        },
        RealmConfigError::SmtpServerMissing => RealmSettingsView {
            smtp_server: Some(smtp_defaults_view(cfg.smtp)),
            ..v
        },
        RealmConfigError::SmtpReplyToDisplayName => RealmSettingsView {
            smtp_server: Some(
                upserted(
                    smtp_entries(v),
                    "replyToDisplayName"@,
                    cfg_str_value(cfg.smtp_reply_to_display_name),
                ),
            ),
            ..v
        },
        RealmConfigError::SmtpStarttls => RealmSettingsView {
            smtp_server: Some(
                upserted(smtp_entries(v), "starttls"@, smtp_starttls_value(cfg.smtp)),
            ),
            ..v
        },
        RealmConfigError::SmtpPort => RealmSettingsView {
            smtp_server: Some(upserted(smtp_entries(v), "port"@, smtp_port_value(cfg.smtp))),
            ..v
        },
        RealmConfigError::SmtpHost => RealmSettingsView {
            smtp_server: Some(upserted(smtp_entries(v), "host"@, smtp_host_value(cfg.smtp))),
            ..v
        },
        RealmConfigError::SmtpReplyTo => RealmSettingsView {
            smtp_server: Some(
                upserted(smtp_entries(v), "replyTo"@, cfg_str_value(cfg.smtp_reply_to)),
            ),
            ..v
        },
        RealmConfigError::SmtpFrom => RealmSettingsView {
            smtp_server: Some(upserted(smtp_entries(v), "from"@, smtp_from_value(cfg.smtp))),
            ..v
        },
        RealmConfigError::SmtpFromDisplayName => RealmSettingsView {
            smtp_server: Some(
                upserted(
                    smtp_entries(v),
                    "fromDisplayName"@,
                    smtp_from_display_name_value(cfg.smtp),
                ),
            ),
            ..v
        },
        RealmConfigError::SmtpSsl => RealmSettingsView {
            smtp_server: Some(upserted(smtp_entries(v), "ssl"@, smtp_ssl_value(cfg.smtp))),
            ..v
        },
        RealmConfigError::BrowserFlow => RealmSettingsView {
            browser_flow: Some(cfg.browser_flow@),
            ..v
        },
        _ => v,
    }
}

/// Realm settings after repairing a list of errors, left to right.
pub open spec fn apply_realm_fixes_spec(
    v: RealmSettingsView,
    cfg: KeycloakFixConfig,
    errors: Seq<RealmConfigError>,
) -> RealmSettingsView
    decreases errors.len(),
{
    if errors.len() == 0 {
        v
    } else {
        apply_realm_fix_spec(
            apply_realm_fixes_spec(v, cfg, errors.drop_last()),
            cfg,
            errors.last(),
        )
    }
}

/// Where the first entry under `key` sits, when any does.
pub open spec fn key_index(entries: Seq<(Seq<char>, Seq<char>)>, k: Seq<char>) -> int
    decreases entries.len(),
{
    if entries.len() == 0 {
        0
    } else if entries[0].0 == k {
        0
    } else {
        1 + key_index(entries.drop_first(), k)
    }
}

pub open spec fn has_key(entries: Seq<(Seq<char>, Seq<char>)>, k: Seq<char>) -> bool {
    key_index(entries, k) < entries.len()
}

/// The rebinding either replaces the first entry under the key or appends.
proof fn lemma_upserted_shape(entries: Seq<(Seq<char>, Seq<char>)>, k: Seq<char>, v: Seq<char>)
    ensures
        0 <= key_index(entries, k) <= entries.len(),
        forall|j: int|
            0 <= j < key_index(entries, k) ==> #[trigger] entries[j].0 != k,
        has_key(entries, k) ==> entries[key_index(entries, k)].0 == k,
        has_key(entries, k) ==> upserted(entries, k, v) =~= entries.update(
            key_index(entries, k),
            (k, v),
        ),
        !has_key(entries, k) ==> upserted(entries, k, v) =~= entries.push((k, v)),
    decreases entries.len(),
{
    if entries.len() > 0 && entries[0].0 != k {
        lemma_upserted_shape(entries.drop_first(), k, v);
        let rest = entries.drop_first();
        assert forall|j: int|
            0 <= j < key_index(entries, k) implies #[trigger] entries[j].0 != k by {
            if j > 0 {
                assert(rest[j - 1].0 != k);
            }
        }
        if has_key(entries, k) {
            assert(upserted(entries, k, v) =~= seq![entries[0]] + rest.update(
                key_index(rest, k),
                (k, v),
            ));
            assert(seq![entries[0]] + rest.update(key_index(rest, k), (k, v)) =~= entries.update(
                key_index(entries, k),
                (k, v),
            ));
        } else {
            assert(upserted(entries, k, v) =~= seq![entries[0]] + rest.push((k, v)));
            assert(seq![entries[0]] + rest.push((k, v)) =~= entries.push((k, v)));
        }
    }
}

/// Bind `k` to `v` in a key-value list, replacing the first entry under
/// the key or appending the pair when the key is new.
fn upsert_entry(entries: &Vec<(String, String)>, k: &str, v: String) -> (r: Vec<(String, String)>)
    ensures
        pairs_view(r@) == upserted(pairs_view(entries@), k@, v@),
{
    let ghost orig = pairs_view(entries@);
    proof {
        crate::seqs::lemma_mapped_index(entries@, |p: (String, String)| (p.0@, p.1@));
        lemma_upserted_shape(orig, k@, v@);
    }
    let mut at: usize = 0;
    let mut found = false;
    let mut i: usize = 0;
    while i < entries.len()
        invariant
            i <= entries@.len(),
            orig == pairs_view(entries@),
            orig.len() == entries@.len(),
            forall|j: int| 0 <= j < entries@.len() ==> #[trigger] orig[j] == (entries@[j].0@,
                entries@[j].1@),
            !found ==> forall|j: int| 0 <= j < i ==> #[trigger] orig[j].0 != k@,
            found ==> at < i && orig[at as int].0 == k@ && (forall|j: int|
                0 <= j < at ==> #[trigger] orig[j].0 != k@),
        decreases entries@.len() - i,
    {
        if !found && crate::json::str_eq(entries[i].0.as_str(), k) {
            at = i;
            found = true;
        }
        i = i + 1;
    }
    proof {
        if found {
            assert(key_index(orig, k@) == at as int) by {
                lemma_key_index_pin(orig, k@, at as int);
            }
        } else {
            assert(!has_key(orig, k@)) by {
                if has_key(orig, k@) {
                    assert(orig[key_index(orig, k@)].0 == k@);
                }
            }
        }
    }
    let mut out: Vec<(String, String)> = Vec::new();
    let mut j: usize = 0;
    let ghost target = upserted(orig, k@, v@);
    while j < entries.len()
        invariant
            j <= entries@.len(),
            orig == pairs_view(entries@),
            orig.len() == entries@.len(),
            forall|jj: int| 0 <= jj < entries@.len() ==> #[trigger] orig[jj] == (
                entries@[jj].0@,
                entries@[jj].1@,
            ),
            target == upserted(orig, k@, v@),
            found ==> at < entries@.len() && target =~= orig.update(at as int, (k@, v@)),
            !found ==> target =~= orig.push((k@, v@)),
            pairs_view(out@).len() == j,
            forall|jj: int| 0 <= jj < j ==> #[trigger] pairs_view(out@)[jj] == target[jj],
            v@ == v@,
        decreases entries@.len() - j,
    {
        let ghost pvec = out@;
        let ghost pout = pairs_view(out@);
        if found && j == at {
            let ghost pair = (k@, v@);
            out.push((String::from_str(k), v.clone()));
            proof {
                assert(out@.drop_last() =~= pvec);
                assert(pairs_view(out@) == pairs_view(out@.drop_last()).push(
                    (out@.last().0@, out@.last().1@),
                ));
                assert(pairs_view(out@) =~= pout.push(pair));
            }
        } else {
            let e = (entries[j].0.clone(), entries[j].1.clone());
            let ghost pair = (entries@[j as int].0@, entries@[j as int].1@);
            out.push(e);
            proof {
                assert(out@.drop_last() =~= pvec);
                assert(pairs_view(out@) == pairs_view(out@.drop_last()).push(
                    (out@.last().0@, out@.last().1@),
                ));
                assert(pairs_view(out@) =~= pout.push(pair));
            }
        }
        j = j + 1;
    }
    if !found {
        let ghost pvec = out@;
        let ghost pout = pairs_view(out@);
        out.push((String::from_str(k), v));
        proof {
            assert(out@.drop_last() =~= pvec);
            assert(pairs_view(out@) == pairs_view(out@.drop_last()).push(
                (out@.last().0@, out@.last().1@),
            ));
            assert(pairs_view(out@) =~= pout.push((k@, v@)));
        }
    }
    proof {
        assert(pairs_view(out@) =~= target);
    }
    out
}

/// A prefix free of the key pins the key's first index.
proof fn lemma_key_index_pin(entries: Seq<(Seq<char>, Seq<char>)>, k: Seq<char>, at: int)
    requires
        0 <= at < entries.len(),
        entries[at].0 == k,
        forall|j: int| 0 <= j < at ==> #[trigger] entries[j].0 != k,
    ensures
        key_index(entries, k) == at,
    decreases entries.len(),
{
    if entries[0].0 != k {
        let rest = entries.drop_first();
        assert(forall|j: int| 0 <= j < at - 1 ==> #[trigger] rest[j].0 != k);
        assert(rest[at - 1].0 == k);
        lemma_key_index_pin(rest, k, at - 1);
    }
}

/// Copy a key-value list.
fn copy_pairs(v: &Vec<(String, String)>) -> (r: Vec<(String, String)>)
    ensures
        pairs_view(r@) == pairs_view(v@),
{
    let ghost orig = pairs_view(v@);
    proof {
        crate::seqs::lemma_mapped_index(v@, |p: (String, String)| (p.0@, p.1@));
    }
    let mut out: Vec<(String, String)> = Vec::new();
    let mut i: usize = 0;
    while i < v.len()
        invariant
            i <= v@.len(),
            orig == pairs_view(v@),
            orig.len() == v@.len(),
            forall|j: int| 0 <= j < v@.len() ==> #[trigger] orig[j] == (v@[j].0@, v@[j].1@),
            pairs_view(out@).len() == i,
            forall|j: int| 0 <= j < i ==> #[trigger] pairs_view(out@)[j] == orig[j],
        decreases v@.len() - i,
    {
        let ghost pvec = out@;
        let ghost pout = pairs_view(out@);
        out.push((v[i].0.clone(), v[i].1.clone()));
        proof {
            assert(out@.drop_last() =~= pvec);
            assert(pairs_view(out@) == pairs_view(out@.drop_last()).push(
                (out@.last().0@, out@.last().1@),
            ));
        }
        i = i + 1;
    }
    proof {
        assert(pairs_view(out@) =~= orig);
    }
    out
}

/// The realm's mail-server entries, an empty list when the block is absent.
fn smtp_entries_of(o: &Option<Vec<(String, String)>>) -> (r: Vec<(String, String)>)
    ensures
        match o {
            Some(m) => pairs_view(r@) == pairs_view(m@),
            None => pairs_view(r@) == Seq::<(Seq<char>, Seq<char>)>::empty(),
        },
{
    match o {
        Some(m) => copy_pairs(m),
        None => Vec::new(),
    }
}

/// A password policy extended by one clause.
fn policy_concat(p: &Option<String>, clause: &str) -> (r: String)
    ensures
        r@ == policy_with(opt_str_view(*p), clause@),
{
    proof {
        reveal_strlit(" and ");
    }
    match p {
        Some(s) => s.clone().concat(" and ").concat(clause),
        None => String::from_str(clause),
    }
}

/// An optional configured string, empty when not configured.
fn cfg_str_of(o: &Option<String>) -> (r: String)
    ensures
        r@ == cfg_str_value(*o),
{
    proof {
        reveal_strlit("");
    }
    match o {
        Some(s) => s.clone(),
        None => String::new(),
    }
}

/// The six default mail-server entries.
fn smtp_defaults_vec(c: &SmtpConfig) -> (r: Vec<(String, String)>)
    ensures
        pairs_view(r@) == smtp_defaults_view(*c),
{
    let defs = match crate::smtp::get_smtp_server_defaults(c) {
        Some(v) => v,
        None => Vec::new(),
    };
    proof {
        crate::seqs::lemma_mapped_index(defs@, |p: (String, String)| (p.0@, p.1@));
        assert(pairs_view(defs@) =~= smtp_defaults_view(*c));
    }
    defs
}

/// Apply one repair to the realm settings.
pub fn apply_realm_fix(
    settings: RealmSettings,
    cfg: &KeycloakFixConfig,
    e: &RealmConfigError,
) -> (r: RealmSettings)
    ensures
        r@ == apply_realm_fix_spec(settings@, *cfg, *e),
{
    let mut s = settings;
    match e {
        RealmConfigError::DefaultLocale => {
            s.default_locale = Some(String::from_str("de"));
        },
        RealmConfigError::InternationalizationEnabled => {
            s.internationalization_enabled = Some(true);
        },
        RealmConfigError::LoginTheme => {
            s.login_theme = Some(cfg.theme.clone());
        },
        RealmConfigError::EmailTheme => {
            s.email_theme = Some(cfg.email_theme.clone());
        },
        RealmConfigError::PasswordPolicyLength => {
            s.password_policy = Some(policy_concat(&s.password_policy, "length(8)"));
        },
        RealmConfigError::PasswordPolicySymbol => {
            s.password_policy = Some(policy_concat(&s.password_policy, "specialChars(1)"));
        },
        RealmConfigError::PasswordPolicyUppercase => {
            s.password_policy = Some(policy_concat(&s.password_policy, "upperCase(1)"));
        },
        RealmConfigError::PasswordPolicyLowercase => {
            s.password_policy = Some(policy_concat(&s.password_policy, "lowerCase(1)"));
        },
        RealmConfigError::PasswordPolicyDigit => {
            s.password_policy = Some(policy_concat(&s.password_policy, "digits(1)"));
        },
        RealmConfigError::PasswordPolicyMissing => {
            s.password_policy = Some(
                String::from_str(
                    "length(8) and specialChars(1) and upperCase(1) and lowerCase(1) and digits(1)",
                ),
            );
        },
        RealmConfigError::RememberMe => {
            s.remember_me = Some(true);
        },
        RealmConfigError::RegistrationAllowed => {
            s.registration_allowed = Some(false);
        },
        RealmConfigError::ResetPasswordAllowed => {
            s.reset_password_allowed = Some(true);
        },
        RealmConfigError::SupportedLocales => {
            let mut locs: Vec<String> = Vec::new();
            locs.push(String::from_str("de"));
            proof {
                assert(locs@.drop_last() =~= Seq::<String>::empty());
                assert(strs_view(locs@) == strs_view(locs@.drop_last()).push(locs@.last()@));
                assert(strs_view(locs@) =~= seq!["de"@]);
            }
            s.supported_locales = Some(locs);
        },
        RealmConfigError::SmtpServerMissing => {
            s.smtp_server = Some(smtp_defaults_vec(&cfg.smtp));
        },
        RealmConfigError::SmtpReplyToDisplayName => {
            let entries = smtp_entries_of(&s.smtp_server);
            let value = cfg_str_of(&cfg.smtp_reply_to_display_name);
            s.smtp_server = Some(upsert_entry(&entries, "replyToDisplayName", value));
        },
        RealmConfigError::SmtpStarttls => {
            let entries = smtp_entries_of(&s.smtp_server);
            let defs = smtp_defaults_vec(&cfg.smtp);
            proof {
                crate::seqs::lemma_mapped_index(defs@, |p: (String, String)| (p.0@, p.1@));
            }
            let value = defs[0].1.clone();
            s.smtp_server = Some(upsert_entry(&entries, "starttls", value));
        },
        RealmConfigError::SmtpPort => {
            let entries = smtp_entries_of(&s.smtp_server);
            let defs = smtp_defaults_vec(&cfg.smtp);
            proof {
                crate::seqs::lemma_mapped_index(defs@, |p: (String, String)| (p.0@, p.1@));
            }
            let value = defs[1].1.clone();
            s.smtp_server = Some(upsert_entry(&entries, "port", value));
        },
        RealmConfigError::SmtpHost => {
            let entries = smtp_entries_of(&s.smtp_server);
            let defs = smtp_defaults_vec(&cfg.smtp);
            proof {
                crate::seqs::lemma_mapped_index(defs@, |p: (String, String)| (p.0@, p.1@));
            }
            let value = defs[2].1.clone();
            s.smtp_server = Some(upsert_entry(&entries, "host", value));
        },
        RealmConfigError::SmtpReplyTo => {
            let entries = smtp_entries_of(&s.smtp_server);
            let value = cfg_str_of(&cfg.smtp_reply_to);
            s.smtp_server = Some(upsert_entry(&entries, "replyTo", value));
        },
        RealmConfigError::SmtpFrom => {
            let entries = smtp_entries_of(&s.smtp_server);
            let defs = smtp_defaults_vec(&cfg.smtp);
            proof {
                crate::seqs::lemma_mapped_index(defs@, |p: (String, String)| (p.0@, p.1@));
            }
            let value = defs[3].1.clone();
            s.smtp_server = Some(upsert_entry(&entries, "from", value));
        },
        RealmConfigError::SmtpFromDisplayName => {
            let entries = smtp_entries_of(&s.smtp_server);
            let defs = smtp_defaults_vec(&cfg.smtp);
            proof {
                crate::seqs::lemma_mapped_index(defs@, |p: (String, String)| (p.0@, p.1@));
            }
            let value = defs[4].1.clone();
            s.smtp_server = Some(upsert_entry(&entries, "fromDisplayName", value));
        },
        RealmConfigError::SmtpSsl => {
            let entries = smtp_entries_of(&s.smtp_server);
            let defs = smtp_defaults_vec(&cfg.smtp);
            proof {
                crate::seqs::lemma_mapped_index(defs@, |p: (String, String)| (p.0@, p.1@));
            }
            let value = defs[5].1.clone();
            s.smtp_server = Some(upsert_entry(&entries, "ssl", value));
        },
        RealmConfigError::BrowserFlow => {
            s.browser_flow = Some(cfg.browser_flow.clone());
        },
        _ => {},
    }
    s
}

/// Repair the realm settings for a list of errors, left to right.
pub fn apply_realm_fixes(
    settings: RealmSettings,
    cfg: &KeycloakFixConfig,
    errors: &Vec<RealmConfigError>,
) -> (r: RealmSettings)
    ensures
        r@ == apply_realm_fixes_spec(settings@, *cfg, errors@),
{
    let ghost v0 = settings@;
    let mut s = settings;
    let mut i: usize = 0;
    while i < errors.len()
        invariant
            i <= errors@.len(),
            s@ == apply_realm_fixes_spec(v0, *cfg, errors@.subrange(0, i as int)),
        decreases errors@.len() - i,
    {
        proof {
            assert(errors@.subrange(0, i + 1).drop_last() =~= errors@.subrange(0, i as int));
            assert(errors@.subrange(0, i + 1).last() == errors@[i as int]);
        }
        s = apply_realm_fix(s, cfg, &errors[i]);
        i = i + 1;
    }
    proof {
        assert(errors@.subrange(0, errors@.len() as int) =~= errors@);
    }
    s
}

/// The single-page-application client settings the repairs touch.
#[derive(Clone, Debug)]
pub struct ClientSettings {
    pub attributes: Option<Vec<(String, String)>>,
    pub base_url: Option<String>,
    pub client_id: Option<String>,
    pub consent_required: Option<bool>,
    pub direct_access_grants_enabled: Option<bool>,
    pub enabled: Option<bool>,
    pub implicit_flow_enabled: Option<bool>,
    pub public_client: Option<bool>,
    pub redirect_uris: Option<Vec<String>>,
    pub root_url: Option<String>,
    pub service_accounts_enabled: Option<bool>,
    pub standard_flow_enabled: Option<bool>,
    pub frontchannel_logout: Option<bool>,
}

#[verifier::ext_equal]
pub struct ClientSettingsView {
    pub attributes: Option<Seq<(Seq<char>, Seq<char>)>>,
    pub base_url: Option<Seq<char>>,
    pub client_id: Option<Seq<char>>,
    pub consent_required: Option<bool>,
    pub direct_access_grants_enabled: Option<bool>,
    pub enabled: Option<bool>,
    pub implicit_flow_enabled: Option<bool>,
    pub public_client: Option<bool>,
    pub redirect_uris: Option<Seq<Seq<char>>>,
    pub root_url: Option<Seq<char>>,
    pub service_accounts_enabled: Option<bool>,
    pub standard_flow_enabled: Option<bool>,
    pub frontchannel_logout: Option<bool>,
}

impl View for ClientSettings {
    type V = ClientSettingsView;

    open spec fn view(&self) -> ClientSettingsView {
        ClientSettingsView {
            attributes: match self.attributes {
                Some(v) => Some(pairs_view(v@)),
                None => None,
            },
            base_url: opt_str_view(self.base_url),
            client_id: opt_str_view(self.client_id),
            consent_required: self.consent_required,
            direct_access_grants_enabled: self.direct_access_grants_enabled,
            enabled: self.enabled,
            implicit_flow_enabled: self.implicit_flow_enabled,
            public_client: self.public_client,
            redirect_uris: match self.redirect_uris {
                Some(v) => Some(strs_view(v@)),
                None => None,
            },
            root_url: opt_str_view(self.root_url),
            service_accounts_enabled: self.service_accounts_enabled,
            standard_flow_enabled: self.standard_flow_enabled,
            frontchannel_logout: self.frontchannel_logout,
        }
    }
}

/// What the deployment prescribes for the client.
#[derive(Clone, Debug)]
pub struct ClientFixConfig {
    pub public_url: String,
    pub backchannel_logout_url: String,
}

/// A URL with its trailing slashes removed.
pub open spec fn trimmed_slashes(s: Seq<char>) -> Seq<char>
    decreases s.len(),
{
    if s.len() > 0 && s.last() == '/' {
        trimmed_slashes(s.drop_last())
    } else {
        s
    }
}

/// Remove a URL's trailing slashes.
pub fn trim_slashes(s: &str) -> (r: String)
    ensures
        r@ == trimmed_slashes(s@),
{
    let len = s.unicode_len();
    let mut k: usize = len;
    proof {
        assert(s@.subrange(0, len as int) =~= s@);
    }
    while k > 0 && s.get_char(k - 1) == '/'
        invariant
            k <= len,
            len == s@.len(),
            trimmed_slashes(s@) == trimmed_slashes(s@.subrange(0, k as int)),
        decreases k,
    {
        proof {
            assert(s@.subrange(0, k as int).drop_last() =~= s@.subrange(0, k - 1));
        }
        k = k - 1;
    }
    proof {
        if k > 0 {
            assert(s@.subrange(0, k as int).last() == s@[k - 1]);
        }
        assert(trimmed_slashes(s@.subrange(0, k as int)) == s@.subrange(0, k as int));
    }
    let r = s.substring_char(0, k);
    proof {
        assert(r@ == s@.subrange(0, k as int));
    }
    String::from_str(r)
}

/// The attribute block created when the client has none.
pub open spec fn client_default_attributes() -> Seq<(Seq<char>, Seq<char>)> {
    seq![
        ("oauth2.device.authorization.grant.enabled"@, "false"@),
        ("backchannel.logout.url"@, "http://qm-backend:10220/api/logout"@),
    ]
}

/// One client-settings repair.  Realm, flow and unknown errors leave the
/// client settings untouched.
pub open spec fn apply_client_fix_spec(
    v: ClientSettingsView,
    cfg: ClientFixConfig,
    e: RealmConfigError,
) -> ClientSettingsView {
    match e {
        RealmConfigError::ClientAttributesGrantEnabled => ClientSettingsView {
            attributes: Some(
                match v.attributes {
                    Some(m) => upserted(
                        m,
                        "oauth2.device.authorization.grant.enabled"@,
                        "false"@,
                    ),
                    None => client_default_attributes(),
                },
            ),
            ..v
        },
        RealmConfigError::ClientAttributesBackchannelLogout => ClientSettingsView {
            attributes: Some(
                match v.attributes {
                    Some(m) => upserted(
                        m,
                        "backchannel.logout.url"@,
                        cfg.backchannel_logout_url@,
                    ),
                    None => client_default_attributes(),
                },
            ),
            ..v
        },
        RealmConfigError::ClientBaseUrl => ClientSettingsView {
            base_url: Some(trimmed_slashes(cfg.public_url@)),
            ..v
        },
        RealmConfigError::ClientClientId => ClientSettingsView {
            client_id: Some("spa"@),
            ..v
        },
        RealmConfigError::ClientConsentRequired => ClientSettingsView {
            consent_required: Some(false),
            ..v
        },
        RealmConfigError::ClientDirectAccessGrantEnabled => ClientSettingsView {
            direct_access_grants_enabled: Some(false),
            ..v
        },
        RealmConfigError::ClientEnabled => ClientSettingsView { enabled: Some(true), ..v },
        RealmConfigError::ClientImplicitFlowEnabled => ClientSettingsView {
            implicit_flow_enabled: Some(false),
            ..v
        },
        RealmConfigError::ClientPublicClient => ClientSettingsView {
            public_client: Some(true),
            ..v
        },
        RealmConfigError::ClientRedirectUris => ClientSettingsView {
            redirect_uris: Some(
                match v.redirect_uris {
                    Some(_) => seq![cfg.public_url@, cfg.public_url@ + "*"@],
                    None => seq![cfg.public_url@ + "*"@],
                },
            ),
            ..v
        },
        RealmConfigError::ClientRootUrl => ClientSettingsView {
            root_url: Some(trimmed_slashes(cfg.public_url@)),
            ..v
        },
        RealmConfigError::ClientServiceAccountsEnabled => ClientSettingsView {
            service_accounts_enabled: Some(false),
            ..v
        },
        RealmConfigError::ClientStandardFlowEnabled => ClientSettingsView {
            standard_flow_enabled: Some(true),
            ..v
        },
        RealmConfigError::ClientFrontchannelLogoutEnabled => ClientSettingsView {
            frontchannel_logout: Some(false),
            ..v
        },
        _ => v,
    }
}

/// Client settings after the repair pass: direct access grants are enabled
/// up front, then each error is repaired left to right.
pub open spec fn apply_client_fixes_spec(
    v: ClientSettingsView,
    cfg: ClientFixConfig,
    errors: Seq<RealmConfigError>,
) -> ClientSettingsView
    decreases errors.len(),
{
    if errors.len() == 0 {
        ClientSettingsView { direct_access_grants_enabled: Some(true), ..v }
    } else {
        apply_client_fix_spec(
            apply_client_fixes_spec(v, cfg, errors.drop_last()),
            cfg,
            errors.last(),
        )
    }
}

/// Build the attribute block for a client that has none.
fn client_default_attributes_vec() -> (r: Vec<(String, String)>)
    ensures
        pairs_view(r@) == client_default_attributes(),
{
    let mut out: Vec<(String, String)> = Vec::new();
    let ghost p0 = out@;
    out.push(
        (
            String::from_str("oauth2.device.authorization.grant.enabled"),
            String::from_str("false"),
        ),
    );
    proof {
        assert(out@.drop_last() =~= p0);
        assert(pairs_view(out@) == pairs_view(out@.drop_last()).push(
            (out@.last().0@, out@.last().1@),
        ));
        assert(pairs_view(p0) =~= Seq::<(Seq<char>, Seq<char>)>::empty());
    }
    let ghost p1 = out@;
    out.push(
        (
            String::from_str("backchannel.logout.url"),
            String::from_str("http://qm-backend:10220/api/logout"),
        ),
    );
    proof {
        assert(out@.drop_last() =~= p1);
        assert(pairs_view(out@) == pairs_view(out@.drop_last()).push(
            (out@.last().0@, out@.last().1@),
        ));
        assert(pairs_view(out@) =~= client_default_attributes());
    }
    out
}

/// Apply one repair to the client settings.
pub fn apply_client_fix(
    settings: ClientSettings,
    cfg: &ClientFixConfig,
    e: &RealmConfigError,
) -> (r: ClientSettings)
    ensures
        r@ == apply_client_fix_spec(settings@, *cfg, *e),
{
    let mut s = settings;
    match e {
        RealmConfigError::ClientAttributesGrantEnabled => {
            let next = match &s.attributes {
                Some(m) => upsert_entry(
                    m,
                    "oauth2.device.authorization.grant.enabled",
                    String::from_str("false"),
                ),
                None => client_default_attributes_vec(),
            };
            s.attributes = Some(next);
        },
        RealmConfigError::ClientAttributesBackchannelLogout => {
            let next = match &s.attributes {
                Some(m) => upsert_entry(
                    m,
                    "backchannel.logout.url",
                    cfg.backchannel_logout_url.clone(),
                ),
                None => client_default_attributes_vec(),
            };
            s.attributes = Some(next);
        },
        RealmConfigError::ClientBaseUrl => {
            s.base_url = Some(trim_slashes(cfg.public_url.as_str()));
        },
        RealmConfigError::ClientClientId => {
            s.client_id = Some(String::from_str("spa"));
        },
        RealmConfigError::ClientConsentRequired => {
            s.consent_required = Some(false);
        },
        RealmConfigError::ClientDirectAccessGrantEnabled => {
            s.direct_access_grants_enabled = Some(false);
        },
        RealmConfigError::ClientEnabled => {
            s.enabled = Some(true);
        },
        RealmConfigError::ClientImplicitFlowEnabled => {
            s.implicit_flow_enabled = Some(false);
        },
        RealmConfigError::ClientPublicClient => {
            s.public_client = Some(true);
        },
        RealmConfigError::ClientRedirectUris => {
            let star = cfg.public_url.clone().concat("*");
            proof {
                reveal_strlit("*");
            }
            let mut uris: Vec<String> = Vec::new();
            match &s.redirect_uris {
                Some(_) => {
                    uris.push(cfg.public_url.clone());
                    proof {
                        assert(uris@.drop_last() =~= Seq::<String>::empty());
                        assert(strs_view(uris@) == strs_view(uris@.drop_last()).push(
                            uris@.last()@,
                        ));
                    }
                    let ghost p1 = uris@;
                    uris.push(star);
                    proof {
                        assert(uris@.drop_last() =~= p1);
                        assert(strs_view(uris@) == strs_view(uris@.drop_last()).push(
                            uris@.last()@,
                        ));
                        assert(strs_view(uris@) =~= seq![
                            cfg.public_url@,
                            cfg.public_url@ + "*"@,
                        ]);
                    }
                },
                None => {
                    uris.push(star);
                    proof {
                        assert(uris@.drop_last() =~= Seq::<String>::empty());
                        assert(strs_view(uris@) == strs_view(uris@.drop_last()).push(
                            uris@.last()@,
                        ));
                        assert(strs_view(uris@) =~= seq![cfg.public_url@ + "*"@]);
                    }
                },
            }
            s.redirect_uris = Some(uris);
        },
        RealmConfigError::ClientRootUrl => {
            s.root_url = Some(trim_slashes(cfg.public_url.as_str()));
        },
        RealmConfigError::ClientServiceAccountsEnabled => {
            s.service_accounts_enabled = Some(false);
        },
        RealmConfigError::ClientStandardFlowEnabled => {
            s.standard_flow_enabled = Some(true);
        },
        RealmConfigError::ClientFrontchannelLogoutEnabled => {
            s.frontchannel_logout = Some(false);
        },
        _ => {},
    }
    s
}

/// Repair the client settings for a list of errors, left to right, after
/// enabling direct access grants.
pub fn apply_client_fixes(
    settings: ClientSettings,
    cfg: &ClientFixConfig,
    errors: &Vec<RealmConfigError>,
) -> (r: ClientSettings)
    ensures
        r@ == apply_client_fixes_spec(settings@, *cfg, errors@),
{
    let ghost v0 = settings@;
    let mut s = settings;
    s.direct_access_grants_enabled = Some(true);
    proof {
        assert(errors@.subrange(0, 0) =~= Seq::<RealmConfigError>::empty());
        assert(s@ == apply_client_fixes_spec(v0, *cfg, errors@.subrange(0, 0)));
    }
    let mut i: usize = 0;
    while i < errors.len()
        invariant
            i <= errors@.len(),
            s@ == apply_client_fixes_spec(v0, *cfg, errors@.subrange(0, i as int)),
        decreases errors@.len() - i,
    {
        proof {
            assert(errors@.subrange(0, i + 1).drop_last() =~= errors@.subrange(0, i as int));
            assert(errors@.subrange(0, i + 1).last() == errors@[i as int]);
            lemma_client_fixes_snoc(v0, *cfg, errors@.subrange(0, i + 1));
        }
        s = apply_client_fix(s, cfg, &errors[i]);
        i = i + 1;
    }
    proof {
        assert(errors@.subrange(0, errors@.len() as int) =~= errors@);
    }
    s
}

/// Unfolding step of the client repair fold.
proof fn lemma_client_fixes_snoc(
    v: ClientSettingsView,
    cfg: ClientFixConfig,
    errors: Seq<RealmConfigError>,
)
    requires
        errors.len() > 0,
    ensures
        apply_client_fixes_spec(v, cfg, errors) == apply_client_fix_spec(
            apply_client_fixes_spec(v, cfg, errors.drop_last()),
            cfg,
            errors.last(),
        ),
{
}

/// One execution step of an authentication flow, as the provider lists it.
#[derive(Clone, Debug)]
pub struct FlowExecution {
    pub id: Option<String>,
    pub display_name: Option<String>,
    pub requirement: Option<String>,
}

/// Whether an execution carries the wanted display name.
pub open spec fn execution_named(e: FlowExecution, name: Seq<char>) -> bool {
    match e.display_name {
        Some(d) => d@ == name,
        None => false,
    }
}

/// Find the first execution with the given display name.
pub fn find_execution(execs: &Vec<FlowExecution>, name: &str) -> (r: Option<usize>)
    ensures
        match r {
            Some(ix) => ix < execs@.len() && execution_named(execs@[ix as int], name@) && (
            forall|j: int| 0 <= j < ix ==> !execution_named(#[trigger] execs@[j], name@)),
            None => forall|j: int|
                0 <= j < execs@.len() ==> !execution_named(#[trigger] execs@[j], name@),
        },
{
    let mut i: usize = 0;
    while i < execs.len()
        invariant
            i <= execs@.len(),
            forall|j: int| 0 <= j < i ==> !execution_named(#[trigger] execs@[j], name@),
        decreases execs@.len() - i,
    {
        let hit = match &execs[i].display_name {
            Some(d) => crate::json::str_eq(d.as_str(), name),
            None => false,
        };
        if hit {
            return Some(i);
        }
        i = i + 1;
    }
    None
}

} // verus!
