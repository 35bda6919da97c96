use phylum_cli::auth::keycloak_callback_handler;
use phylum_cli::extension::{extension_state_path, Extension, ExtensionManifest};
use phylum_cli::fs_compare::{
    compare_step, entry_step, size_step, CompareStep, EntryInfo, EntryKind, EntryStep,
};
use phylum_cli::permissions::{expand_home_paths, first_existing, resolve_bin_path};
use phylum_cli::report::{format_project_reference_colored, ListGroupsEntry};
use phylum_cli::uninstall::{ignore_not_found, IoErrorKind};

const TEMPLATE: &str = "<html><p>{{}}</p><p>{{}}</p></html>";

#[test]
fn callback_with_code_succeeds() {
    let reply = keycloak_callback_handler(
        "nonce",
        Some("nonce".into()),
        Some("abc".into()),
        Some("old".into()),
        TEMPLATE,
    );
    assert_eq!(reply.status, 200);
    assert_eq!(reply.code.as_deref(), Some("abc"));
    assert_eq!(reply.auth_code.as_deref(), Some("abc"));
    assert_eq!(
        reply.headers,
        vec![
            ("Content-Type".to_string(), "text/html".to_string()),
            ("Cache-Control".to_string(), "no-cache".to_string()),
        ]
    );
    assert!(reply.shutdown);
    assert_eq!(
        reply.body,
        "<html><p>Login / Registration succeeded</p><p>Login / Registration succeeded</p></html>"
    );
}

#[test]
fn callback_without_code_fails_politely() {
    let reply = keycloak_callback_handler("nonce", Some("nonce".into()), None, Some("old".into()), "[{{}}]");
    assert_eq!(reply.status, 200);
    assert!(reply.code.is_none());
    assert_eq!(reply.auth_code.as_deref(), Some("old"));
    assert_eq!(reply.headers.len(), 2);
    assert!(reply.shutdown);
    assert_eq!(reply.body, "[Login / Registration failed, did not get authorization code]");
}

#[test]
fn callback_checks_the_state() {
    let wrong =
        keycloak_callback_handler("nonce", Some("other".into()), Some("abc".into()), Some("old".into()), TEMPLATE);
    assert_eq!(wrong.status, 500);
    assert_eq!(wrong.body, "OAuth server returned wrong XSRF prevention state nonce");
    assert!(wrong.code.is_none() && !wrong.shutdown && wrong.headers.is_empty());
    assert_eq!(wrong.auth_code.as_deref(), Some("old"));
    let missing = keycloak_callback_handler("nonce", None, Some("abc".into()), None, TEMPLATE);
    assert_eq!(missing.status, 500);
    assert_eq!(missing.body, "Oauth server did return XSRF prevention state nonce");
    assert!(missing.code.is_none() && !missing.shutdown);
    assert!(missing.auth_code.is_none());
}

#[test]
fn absolute_and_unresolvable_programs_stay() {
    assert_eq!(resolve_bin_path("/bin/sh", Some("/usr/bin")), "/bin/sh");
    assert_eq!(resolve_bin_path("git", None), "git");
    assert_eq!(
        resolve_bin_path("surely-not-a-program-xyz", Some("/nonexistent-a:/nonexistent-b")),
        "surely-not-a-program-xyz"
    );
}

#[test]
fn programs_resolve_to_the_first_path_entry_holding_them() {
    let first = tempfile::tempdir().unwrap();
    let second = tempfile::tempdir().unwrap();
    let tool = tempfile::NamedTempFile::new_in(second.path()).unwrap();
    let name = tool.path().file_name().unwrap().to_str().unwrap().to_string();
    let path_var = format!("{}:{}", first.path().display(), second.path().display());
    assert_eq!(
        resolve_bin_path(&name, Some(&path_var)),
        format!("{}/{}", second.path().display(), name)
    );
}

#[test]
fn the_first_existing_candidate_wins() {
    let cands = vec!["/a/git".to_string(), "/b/git".to_string(), "/c/git".to_string()];
    assert_eq!(first_existing(&cands, &vec![false, true, true], "git"), "/b/git");
    assert_eq!(first_existing(&cands, &vec![true, true, false], "git"), "/a/git");
    assert_eq!(first_existing(&cands, &vec![false, false, true], "git"), "/c/git");
    assert_eq!(first_existing(&cands, &vec![false, false, false], "git"), "git");
    assert_eq!(first_existing(&vec![], &vec![], "git"), "git");
}

#[test]
fn home_paths_in_permission_lists() {
    assert_eq!(
        expand_home_paths(vec!["~/a".into(), "/b".into(), "~".into()], "/home/u"),
        vec!["/home/u/a".to_string(), "/b".to_string(), "/home/u/".to_string()]
    );
}

#[test]
fn project_references() {
    assert_eq!(
        format_project_reference_colored(Some("acme"), Some("devs"), "web", Some("42"), false),
        "web (id: 42, org: acme, group: devs)"
    );
    assert_eq!(
        format_project_reference_colored(Some("acme"), None, "web", None, false),
        "web (org: -, group: -)"
    );
    assert_eq!(
        format_project_reference_colored(None, Some("devs"), "web", None, true),
        "\x1b[32mweb\x1b[0m (org: -, group: \x1b[32mdevs\x1b[0m)"
    );
    let entry = ListGroupsEntry { org: None, name: "devs".to_string() };
    assert_eq!(entry.name, "devs");
}

#[test]
fn file_comparison_steps() {
    assert_eq!(size_step(3, 4), CompareStep::Differ);
    assert_eq!(size_step(3, 3), CompareStep::Advance(0));
    assert_eq!(compare_step(b"", b""), CompareStep::Same);
    assert_eq!(compare_step(b"a", b""), CompareStep::Differ);
    assert_eq!(compare_step(b"abc", b"ab"), CompareStep::Advance(2));
    assert_eq!(compare_step(b"abc", b"abd"), CompareStep::Differ);
}

fn entry(depth: usize, name: &str, kind: EntryKind) -> EntryInfo {
    EntryInfo { depth, file_name: name.as_bytes().to_vec(), kind }
}

#[test]
fn directory_entry_steps() {
    assert_eq!(entry_step(&entry(0, "a", EntryKind::Dir), &entry(0, "b", EntryKind::Dir)), EntryStep::Skip);
    assert_eq!(
        entry_step(&entry(1, "foo.txt", EntryKind::File), &entry(1, "foo.txt", EntryKind::File)),
        EntryStep::CompareFiles
    );
    assert_eq!(entry_step(&entry(1, "d", EntryKind::Dir), &entry(1, "d", EntryKind::Dir)), EntryStep::Continue);
    assert_eq!(
        entry_step(&entry(1, "bar.bin", EntryKind::File), &entry(1, "foo.txt", EntryKind::File)),
        EntryStep::Mismatch
    );
    assert_eq!(entry_step(&entry(1, "x", EntryKind::File), &entry(2, "x", EntryKind::File)), EntryStep::Mismatch);
    assert_eq!(entry_step(&entry(1, "x", EntryKind::File), &entry(1, "x", EntryKind::Dir)), EntryStep::Mismatch);
}

#[test]
fn missing_files_are_no_error() {
    let missing = std::io::Error::from(std::io::ErrorKind::NotFound);
    assert!(ignore_not_found(missing, IoErrorKind::NotFound).is_ok());
    let denied = std::io::Error::from(std::io::ErrorKind::PermissionDenied);
    assert_eq!(ignore_not_found(denied, IoErrorKind::Other).unwrap_err().kind(), std::io::ErrorKind::PermissionDenied);
}

#[test]
fn extension_state_lives_in_the_state_directory() {
    assert_eq!(
        extension_state_path(Some("/state".into()), "hello").unwrap(),
        "/state/phylum/extensions/hello"
    );
    let ext = Extension::from_manifest("/ext/hello".into(), ExtensionManifest::new("hello".into()))
        .unwrap();
    assert_eq!(
        ext.state_path(Some("/ext/hello".into()), Some("/state".into())),
        Some("/state/phylum/extensions/hello".to_string())
    );
    assert_eq!(ext.state_path(Some("/elsewhere".into()), Some("/state".into())), None);
    assert_eq!(ext.state_path(None, Some("/state".into())), None);
}
