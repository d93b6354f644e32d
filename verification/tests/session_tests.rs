use wiki_server::session::{login_check, PasswordCheck};
use wiki_server::session::{auth_decision, bearer_token, choose_jwt_secret, generate_jwt_secret, AuthDecision, JwtSecretChoice};

#[test]
fn bearer_tokens() {
    assert_eq!(bearer_token("Bearer abc.def"), Some("abc.def".to_string()));
    assert_eq!(bearer_token("Bearer "), Some(String::new()));
    assert_eq!(bearer_token("bearer abc"), None);
    assert_eq!(bearer_token("Basic xyz"), None);
}

#[test]
fn legacy_token_runs_as_service() {
    let h = Some("Bearer s3cret".to_string());
    assert!(matches!(auth_decision(&h, "s3cret"), AuthDecision::Legacy));
    assert!(matches!(auth_decision(&h, "other"), AuthDecision::Jwt(t) if t == "s3cret"));
    let empty = Some("Bearer ".to_string());
    assert!(matches!(auth_decision(&empty, ""), AuthDecision::Jwt(t) if t.is_empty()));
}

#[test]
fn missing_or_malformed_header_refused() {
    assert!(matches!(auth_decision(&None, "tok"), AuthDecision::Missing));
    assert!(matches!(auth_decision(&Some("Token x".to_string()), "tok"), AuthDecision::Missing));
}

#[test]
fn jwt_secret_precedence() {
    assert!(matches!(choose_jwt_secret("conf", &Some("old".to_string())), JwtSecretChoice::Configured(s) if s == "conf"));
    assert!(matches!(choose_jwt_secret("", &Some("old".to_string())), JwtSecretChoice::Persisted(s) if s == "old"));
    assert!(matches!(choose_jwt_secret("", &Some(String::new())), JwtSecretChoice::Generate));
    assert!(matches!(choose_jwt_secret("", &None), JwtSecretChoice::Generate));
}

#[test]
fn generated_secret_is_64_hex_digits() {
    let a = generate_jwt_secret();
    let b = generate_jwt_secret();
    assert_eq!(a.len(), 64);
    assert!(a.chars().all(|c| c.is_ascii_hexdigit() && !c.is_ascii_uppercase()));
    assert_ne!(a, b);
}

#[test]
fn logins_are_refused_alike() {
    assert_eq!(login_check(&PasswordCheck::Checked(true)), Ok(()));
    for c in [PasswordCheck::Checked(false), PasswordCheck::UnknownUser, PasswordCheck::Failed] {
        assert_eq!(login_check(&c), Err("Invalid username or password".to_string()));
    }
}
