use base64::Engine;
use sha2::Digest;
use phylum_cli::api::JobId;
use phylum_cli::deno_error::{format_js_error_colored, JsError};
use phylum_cli::permissions::Permission;

fn strings(v: &[&str]) -> Vec<String> {
    v.iter().map(|s| s.to_string()).collect()
}

#[test]
fn every_path_list_lies_within_itself() {
    let paths = strings(&["/tmp", "/etc/ssl", "relative/dir", "/"]);
    assert!(Permission::paths_subset(&paths, &paths).is_ok());
    assert!(Permission::paths_subset(&paths, &Vec::new()).is_ok());
}

#[test]
fn lying_within_is_transitive() {
    let a = strings(&["/tmp/x/y", "/etc/ssl/certs"]);
    let b = strings(&["/tmp/x", "/etc/ssl"]);
    let c = strings(&["/tmp", "/etc"]);
    assert!(Permission::paths_subset(&b, &a).is_ok());
    assert!(Permission::paths_subset(&c, &b).is_ok());
    assert!(Permission::paths_subset(&c, &a).is_ok());
    // More parents never hurt.
    let mut more = c.clone();
    more.push("/var".to_string());
    assert!(Permission::paths_subset(&more, &a).is_ok());
}

#[test]
fn narrowing_a_permission_to_itself_keeps_it() {
    for p in [
        Permission::Boolean(true),
        Permission::Boolean(false),
        Permission::List(strings(&["/a", "/b/c"])),
        Permission::List(Vec::new()),
    ] {
        assert_eq!(p.subset_of(&p), Ok(p.clone()));
    }
}

#[test]
fn narrowing_never_exceeds_the_parent() {
    let parent = Permission::List(strings(&["/a"]));
    assert_eq!(Permission::Boolean(true).subset_of(&parent), Ok(parent.clone()));
    assert_eq!(Permission::Boolean(true).subset_of(&Permission::Boolean(false)), Ok(Permission::Boolean(false)));
    assert_eq!(Permission::List(strings(&["/x"])).subset_of(&Permission::Boolean(false)), Ok(Permission::Boolean(false)));
}

#[test]
fn distinct_job_ids_read_differently() {
    let a = JobId { value: 1 };
    let b = JobId { value: 1 << 64 };
    assert_ne!(a.to_string(), b.to_string());
    assert_eq!(a.to_string(), "00000000-0000-0000-0000-000000000001");
    assert_eq!(b.to_string(), "00000000-0000-0001-0000-000000000000");
}

#[test]
fn nested_errors_lose_every_uncaught_prefix() {
    let cause = JsError {
        exception_message: "Uncaught Uncaught Uncaught TypeError: x".to_string(),
        frames: Vec::new(),
        source_line: None,
        source_line_frame_index: None,
        aggregated: None,
        cause: None,
    };
    let e = JsError {
        exception_message: "Uncaught Error: outer".to_string(),
        frames: Vec::new(),
        source_line: None,
        source_line_frame_index: None,
        aggregated: None,
        cause: Some(Box::new(cause)),
    };
    assert_eq!(format_js_error_colored(&e, false), "Uncaught Error: outer\nCaused by: TypeError: x");
}

#[test]
fn pkce_challenges_are_43_url_safe_characters() {
    for length in [43u8, 64, 128] {
        let (verifier, challenge) = phylum_cli::auth::CodeVerifier::generate(length).unwrap();
        assert_eq!(verifier.0.len(), length as usize);
        assert_eq!(challenge.0.len(), 43);
        assert!(challenge.0.chars().all(|c| c.is_ascii_alphanumeric() || c == '-' || c == '_'));
    }
}

#[test]
fn pkce_challenge_is_the_hashed_verifier() {
    let (verifier, challenge) = phylum_cli::auth::CodeVerifier::generate(50).unwrap();
    let digest = sha2::Sha256::digest(verifier.0.as_bytes());
    let expected = base64::engine::general_purpose::URL_SAFE_NO_PAD.encode(digest);
    assert_eq!(challenge.0, expected);
}
