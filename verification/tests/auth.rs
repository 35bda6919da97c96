use phylum_cli::auth::{
    build_auth_url, build_grant_type_auth_code_post_body, build_grant_type_refresh_token_post_body,
    is_locksmith_token, locksmith_access_token, parts, payload_text, AuthAction,
    AuthorizationCode, ChallengeCode, CodeVerifier, JwtError, PkceError, RealmRole, RefreshToken,
};

#[test]
fn locksmith_tokens_are_recognised_by_prefix() {
    assert!(is_locksmith_token("ph0_abc"));
    assert!(!is_locksmith_token("ph1_abc"));
    assert!(!is_locksmith_token("ph0"));
    let token = RefreshToken("ph0_secret".to_string());
    assert_eq!(locksmith_access_token(&token).unwrap().0, "ph0_secret");
    assert!(locksmith_access_token(&RefreshToken("other".to_string())).is_none());
}

#[test]
fn pkce_length_must_be_in_range() {
    assert_eq!(CodeVerifier::generate(42).unwrap_err(), PkceError::InvalidLength);
    assert_eq!(CodeVerifier::generate(129).unwrap_err(), PkceError::InvalidLength);
    let (verifier, challenge) = CodeVerifier::generate(43).unwrap();
    assert_eq!(verifier.0.len(), 43);
    assert!(verifier.0.chars().all(|c| c.is_ascii_alphanumeric()));
    // A SHA-256 digest is 32 bytes: 43 characters of unpadded base64.
    assert_eq!(challenge.0.len(), 43);
    assert_ne!(challenge.0, verifier.0);
    assert!(CodeVerifier::generate(128).is_ok());
}

#[test]
fn auth_code_body_has_all_fields_in_order() {
    let body = build_grant_type_auth_code_post_body(
        "http://127.0.0.1:1234/",
        &AuthorizationCode("code1".to_string()),
        &CodeVerifier("verifier1".to_string()),
    );
    let expected = [
        ("client_id", "phylum_cli"),
        ("code", "code1"),
        ("code_verifier", "verifier1"),
        ("grant_type", "authorization_code"),
        ("redirect_uri", "http://127.0.0.1:1234/"),
    ];
    assert_eq!(body.len(), expected.len());
    for ((k, v), (ek, ev)) in body.iter().zip(expected.iter()) {
        assert_eq!(k, ek);
        assert_eq!(v, ev);
    }
}

#[test]
fn refresh_body_has_all_fields_in_order() {
    let body = build_grant_type_refresh_token_post_body(&RefreshToken("tok".to_string()));
    assert_eq!(body[0], ("client_id".to_string(), "phylum_cli".to_string()));
    assert_eq!(body[1], ("grant_type".to_string(), "refresh_token".to_string()));
    assert_eq!(body[2], ("refresh_token".to_string(), "tok".to_string()));
}

#[test]
fn login_url_carries_the_pkce_request() {
    let url = build_auth_url(
        AuthAction::Login,
        "https://auth.example.com/realms/phylum/protocol/openid-connect/auth?x=1",
        "http://127.0.0.1:8080/",
        &ChallengeCode("abc".to_string()),
        "st",
    )
    .unwrap();
    assert_eq!(
        url,
        "https://auth.example.com/realms/phylum/protocol/openid-connect/auth?client_id=phylum_cli&\
         code_challenge=abc&code_challenge_method=S256&redirect_uri=http%3A%2F%2F127.0.0.1%3A8080%\
         2F&response_type=code&response_mode=query&scope=openid+offline_access&state=st"
    );
}

#[test]
fn register_and_reauth_urls() {
    let url = build_auth_url(
        AuthAction::Register,
        "https://auth.example.com/openid-connect/auth",
        "http://localhost/",
        &ChallengeCode("c".to_string()),
        "s",
    )
    .unwrap();
    assert!(url.starts_with("https://auth.example.com/openid-connect/registrations?client_id="));
    let url = build_auth_url(
        AuthAction::Reauth,
        "https://auth.example.com/auth",
        "http://localhost/",
        &ChallengeCode("c".to_string()),
        "s",
    )
    .unwrap();
    assert!(url.ends_with("&state=s&prompt=login"));
    assert!(build_auth_url(
        AuthAction::Register,
        "mailto:x@example.com",
        "http://localhost/",
        &ChallengeCode("c".to_string()),
        "s",
    )
    .is_err());
}

#[test]
fn jwt_parts_are_counted() {
    assert!(matches!(parts("a"), Err(JwtError::MissingPayload)));
    assert!(matches!(parts("a.b"), Err(JwtError::MissingSignature)));
    assert!(matches!(parts("a.b.c.d"), Err(JwtError::UnexpectedComponent)));
    let (h, p, s) = parts("a.b.c").unwrap();
    assert_eq!((h.as_str(), p.as_str(), s.as_str()), ("a", "b", "c"));
}

#[test]
fn jwt_payload_is_decoded() {
    // {"realm_access":{"roles":["pro-account"]}}
    let payload = "eyJyZWFsbV9hY2Nlc3MiOnsicm9sZXMiOlsicHJvLWFjY291bnQiXX19";
    let token = format!("hdr.{payload}.sig");
    assert_eq!(payload_text(&token).unwrap(), r#"{"realm_access":{"roles":["pro-account"]}}"#);
    assert!(matches!(payload_text("hdr.!!!.sig"), Err(JwtError::InvalidBase64(_))));
    // 0xff 0xfe is not UTF-8.
    assert!(matches!(payload_text("hdr.//4=.sig"), Err(JwtError::InvalidUtf8(_))));
}

#[test]
fn realm_roles_by_name() {
    assert_eq!(RealmRole::from_name("pro-account"), RealmRole::Pro);
    assert_eq!(RealmRole::from_name("vulnreach"), RealmRole::Vulnreach);
    assert_eq!(RealmRole::from_name("admin"), RealmRole::Unknown);
}
