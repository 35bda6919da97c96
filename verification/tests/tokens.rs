use phylum_cli::exit_code::ExitCode;
use phylum_cli::tokens::{auth_method, auth_status_exit, revoked_token_names, AuthMethod};

#[test]
fn tokens_tell_the_auth_method() {
    assert_eq!(auth_method(Some("ph0_abc")), Some(AuthMethod::ApiKey));
    assert_eq!(auth_method(Some("eyJhbGciOi")), Some(AuthMethod::OpenIdConnect));
    assert_eq!(auth_method(None), None);
    assert_eq!(AuthMethod::ApiKey.name(), "API key");
    assert_eq!(AuthMethod::OpenIdConnect.name(), "OpenID Connect");
}

#[test]
fn auth_status_exit_codes() {
    assert_eq!(auth_status_exit(None, true), ExitCode::NotAuthenticated);
    assert_eq!(auth_status_exit(Some(AuthMethod::ApiKey), true), ExitCode::Success);
    assert_eq!(auth_status_exit(Some(AuthMethod::OpenIdConnect), false), ExitCode::AuthenticationFailure);
}

#[test]
fn selected_tokens_are_revoked_last_first() {
    let names: Vec<String> = ["a", "b", "c", "d", "e"].iter().map(|s| s.to_string()).collect();
    assert_eq!(revoked_token_names(names.clone(), &vec![0, 2, 4]), vec!["e", "c", "a"]);
    assert_eq!(revoked_token_names(names.clone(), &vec![1, 3]), vec!["d", "b"]);
    assert_eq!(revoked_token_names(names.clone(), &vec![0, 1, 2, 3, 4]), vec!["e", "d", "c", "b", "a"]);
    assert!(revoked_token_names(names, &vec![]).is_empty());
}
