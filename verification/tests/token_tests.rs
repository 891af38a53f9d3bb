use base64::Engine;
use qm_customer::json::get_attribute;
use qm_customer::token::KeycloakSession;

fn session(token: &str) -> KeycloakSession {
    KeycloakSession {
        access_token: token.to_string(),
        expires_in: 60,
        not_before_policy: None,
        refresh_expires_in: None,
        refresh_token: None,
        scope: "openid".to_string(),
        session_state: None,
        token_type: "Bearer".to_string(),
        parsed_access_token: None,
    }
}

#[test]
fn parse_access_token_reads_the_payload_claims() {
    let mut m = serde_json::Map::new();
    m.insert("exp".to_string(), serde_json::Value::from(1677048774u64));
    m.insert("iat".to_string(), serde_json::Value::from(1677048714u64));
    m.insert("email_verified".to_string(), serde_json::Value::Bool(false));
    m.insert(
        "preferred_username".to_string(),
        serde_json::Value::String("admin".to_string()),
    );
    m.insert(
        "iss".to_string(),
        serde_json::Value::String("https://id.example/realms/master".to_string()),
    );
    let claims = serde_json::Value::Object(m);
    let payload =
        base64::engine::general_purpose::STANDARD_NO_PAD.encode(claims.to_string().as_bytes());
    let token = format!("head.{payload}.sig");
    let parsed = KeycloakSession::parse_access_token(session(&token));
    let claims = parsed.parsed_access_token.expect("claims parsed");
    assert_eq!(claims.exp, 1677048774);
    assert_eq!(claims.iat, 1677048714);
    assert!(!claims.email_verified);
    assert_eq!(claims.preferred_username.as_deref(), Some("admin"));
    assert_eq!(claims.iss.as_deref(), Some("https://id.example/realms/master"));
    assert_eq!(claims.sub, None);
    assert_eq!(parsed.access_token, token);
    assert_eq!(parsed.token_type, "Bearer");
}

#[test]
fn parse_access_token_without_payload_keeps_the_claims_absent() {
    let parsed = KeycloakSession::parse_access_token(session("no-dots-here"));
    assert_eq!(parsed.parsed_access_token, None);
}

#[test]
fn parse_access_token_requires_the_mandatory_claims() {
    let mut m = serde_json::Map::new();
    m.insert("exp".to_string(), serde_json::Value::from(1u64));
    let claims = serde_json::Value::Object(m);
    let payload =
        base64::engine::general_purpose::STANDARD_NO_PAD.encode(claims.to_string().as_bytes());
    let token = format!("h.{payload}");
    let parsed = KeycloakSession::parse_access_token(session(&token));
    assert_eq!(parsed.parsed_access_token, None);
}

#[test]
fn user_details_are_built_from_representation_parts() {
    let attrs = vec![
        ("phone".to_string(), serde_json::Value::String("555".to_string())),
        (
            "job-title".to_string(),
            serde_json::Value::Array(vec![serde_json::Value::String("Ops".to_string())]),
        ),
    ];
    let d = qm_customer::json::build_user_details(
        9,
        Some("Ada".to_string()),
        None,
        Some("ada".to_string()),
        Some("ada@example".to_string()),
        Some(true),
        Some(&attrs),
    );
    assert_eq!(d.user_id, 9);
    assert_eq!(d.firstname, "Ada");
    assert_eq!(d.lastname, "");
    assert!(d.enabled);
    assert_eq!(d.phone.as_deref(), Some("555"));
    assert_eq!(d.salutation, None);
    assert_eq!(d.job_title.as_deref(), Some("Ops"));
}

#[test]
fn get_attribute_reads_strings_and_first_array_elements() {
    let attrs = vec![
        ("phone".to_string(), serde_json::Value::String("123".to_string())),
        (
            "salutation".to_string(),
            serde_json::Value::Array(vec![
                serde_json::Value::String("Dr".to_string()),
                serde_json::Value::String("Prof".to_string()),
            ]),
        ),
        ("job-title".to_string(), serde_json::Value::Bool(true)),
    ];
    assert_eq!(get_attribute(Some(&attrs), "phone"), Some("123".to_string()));
    assert_eq!(get_attribute(Some(&attrs), "salutation"), Some("Dr".to_string()));
    assert_eq!(get_attribute(Some(&attrs), "job-title"), None);
    assert_eq!(get_attribute(Some(&attrs), "missing"), None);
    assert_eq!(get_attribute(None, "phone"), None);
}
