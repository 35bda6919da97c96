use phylum_cli::auth::RefreshToken;
use phylum_cli::config::{get_home_settings_path, ApiKeyOutcome, AuthInfo, Config};
use phylum_cli::dirs::{env_path, expand_home_path, xdg_dir_from, DirsError};
use phylum_cli::exit_code::{exit_code_from_status, sandbox_exit_code, ExitCode};
use phylum_cli::extension::{
    extension_path, validate_name, Extension, ExtensionError, ExtensionManifest, MANIFEST_NAME,
};
use phylum_cli::paths::{join_str, relative_path, starts_with_path};
use phylum_cli::permissions::Permission;
use phylum_cli::uninstall::{remove_source_lines, Shell};

#[test]
fn test_relative_path() {
    let sample_dir = "/tmp/work/sample";
    let lockfile_path = "/tmp/work/sample/Cargo.lock";
    assert_eq!(relative_path(sample_dir, lockfile_path), "Cargo.lock");
    assert_eq!(relative_path("/tmp/work/sample/sub", lockfile_path), "../Cargo.lock");
    assert_eq!(relative_path("/tmp/work/sample/sub/sub", lockfile_path), "../../Cargo.lock");
    assert_eq!(relative_path("/a/b", "/c/d"), "../../c/d");
}

#[test]
fn joining_paths() {
    assert_eq!(join_str("/home/u", ".config"), "/home/u/.config");
    assert_eq!(join_str("/home/u/", "x"), "/home/u/x");
    assert_eq!(join_str("", "x"), "x");
    assert_eq!(join_str("/home/u", "/etc"), "/etc");
}

#[test]
fn path_prefixes_are_by_component() {
    assert!(starts_with_path("/tmp/a", "/tmp"));
    assert!(starts_with_path("/tmp//a/", "/tmp/"));
    assert!(starts_with_path("/tmp", "/tmp"));
    assert!(!starts_with_path("/tmpx", "/tmp"));
    assert!(!starts_with_path("/tmp", "/tmp/a"));
    assert!(starts_with_path("/anything", "/"));
}

#[test]
fn home_paths_expand() {
    assert_eq!(expand_home_path("~/code", "/home/u"), "/home/u/code");
    assert_eq!(expand_home_path("~", "/home/u"), "/home/u/");
    assert_eq!(expand_home_path("~other/code", "/home/u"), "~other/code");
    assert_eq!(expand_home_path("/abs/~/x", "/home/u"), "/abs/~/x");
}

#[test]
fn xdg_directories() {
    assert_eq!(env_path(Some("".into())), None);
    assert_eq!(env_path(Some("/x".into())), Some("/x".to_string()));
    assert_eq!(
        xdg_dir_from(Some("/xdg".into()), Some("/home/u".into()), ".local/share"),
        Ok("/xdg".to_string())
    );
    assert_eq!(
        xdg_dir_from(Some("".into()), Some("/home/u".into()), ".local/share"),
        Ok("/home/u/.local/share".to_string())
    );
    assert_eq!(xdg_dir_from(None, None, ".config"), Err(DirsError::NoHome));
    assert_eq!(
        get_home_settings_path(Some("/cfg".into())),
        Ok("/cfg/phylum/settings.yaml".to_string())
    );
}

#[test]
fn extension_names_are_checked() {
    assert!(validate_name("my-ext1").is_ok());
    assert!(matches!(validate_name("My-ext"), Err(ExtensionError::InvalidName(n)) if n == "My-ext"));
    assert!(validate_name("a").is_err());
    assert!(validate_name("1abc").is_err());
    assert!(validate_name("ab_c").is_err());
}

#[test]
fn extensions_from_manifests() {
    assert_eq!(MANIFEST_NAME, "PhylumExt.toml");
    let mut manifest = ExtensionManifest::new("hello".to_string());
    assert_eq!(manifest.entry_point(), "main.ts");
    manifest.entry_point = Some("src/index.ts".to_string());
    manifest.description = Some("Says hello".to_string());
    let ext = Extension::from_manifest("/ext/hello".to_string(), manifest).unwrap();
    assert_eq!(ext.name(), "hello");
    assert_eq!(ext.description(), Some("Says hello"));
    assert_eq!(ext.entry_point(), "/ext/hello/src/index.ts");
    assert_eq!(ext.path(), "/ext/hello");
    assert_eq!(ext.permissions().read, Permission::Boolean(false));
    assert!(ext.installed(Some("/ext/hello".to_string())));
    assert!(!ext.installed(Some("/elsewhere".to_string())));
    assert!(!ext.installed(None));

    let bad = Extension::from_manifest("/x".to_string(), ExtensionManifest::new("Bad".into()));
    assert!(bad.is_err());
}

#[test]
fn extension_paths_live_in_the_data_directory() {
    assert_eq!(
        extension_path(Some("/data".into()), "hello").unwrap(),
        "/data/phylum/extensions/hello"
    );
}

#[test]
fn config_defaults_and_overrides() {
    let mut config = Config::default();
    assert_eq!(config.connection.uri, "https://api.phylum.io");
    assert!(!config.ignore_certs());
    config.set_ignore_certs_cli(true);
    assert!(config.ignore_certs());
    assert_eq!(config.org(), None);
    config.set_org(Some("acme".into()));
    assert_eq!(config.org(), Some("acme"));
    config.org_cli = Some("cli-org".into());
    assert_eq!(config.org(), Some("cli-org"));
}

#[test]
fn environment_token_wins_over_stored_one() {
    let mut config = Config::default();
    config.auth_info = AuthInfo::new(Some(RefreshToken("stored".into())));
    assert_eq!(config.auth_info.offline_access().map(|t| t.0.as_str()), Some("stored"));
    assert_eq!(config.use_env_api_key(None), ApiKeyOutcome::NotPresent);
    assert_eq!(config.use_env_api_key(Some("".into())), ApiKeyOutcome::Empty);
    assert_eq!(config.auth_info.offline_access().map(|t| t.0.as_str()), Some("stored"));
    assert_eq!(config.use_env_api_key(Some("env".into())), ApiKeyOutcome::Used);
    assert_eq!(config.auth_info.offline_access().map(|t| t.0.as_str()), Some("env"));

    let mut empty = AuthInfo::new(Some(RefreshToken(String::new())));
    assert!(empty.offline_access().is_none());
    empty.set_offline_access(RefreshToken("new".into()));
    assert_eq!(empty.offline_access().map(|t| t.0.as_str()), Some("new"));
}

#[test]
fn shell_rc_cleanup() {
    assert_eq!(Shell::Bash.phylum_path("/data"), "/data/phylum/bashrc");
    assert_eq!(Shell::Zsh.phylum_path("/data/"), "/data/phylum/zshrc");
    let rc = "export A=1\nsource /data/phylum/bashrc\nalias x=y\nsource /data/phylum/bashrc\n";
    assert_eq!(
        remove_source_lines(rc, "/data/phylum/bashrc"),
        Some("export A=1\nalias x=y\n".to_string())
    );
    assert_eq!(remove_source_lines("export A=1\n", "/data/phylum/bashrc"), None);
}

#[test]
fn exit_codes() {
    assert_eq!(ExitCode::Success.code(), 0);
    assert_eq!(ExitCode::Generic.code(), 1);
    assert_eq!(ExitCode::FailedPolicy.code(), 100);
    assert_eq!(ExitCode::SandboxStartCollision.code(), 118);
    assert_eq!(i32::from(&ExitCode::Custom(42)), 42);
    assert_eq!(exit_code_from_status(Some(3), false), ExitCode::Custom(3));
    assert_eq!(exit_code_from_status(None, false), ExitCode::Generic);
    assert_eq!(exit_code_from_status(None, true), ExitCode::Success);
}

const CONFIG_TOKEN: &str = "FAKE TOKEN";
const ENV_TOKEN: &str = "ENV TOKEN";

#[test]
fn prefer_env_token() {
    let auth = AuthInfo {
        offline_access: Some(RefreshToken(CONFIG_TOKEN.to_string())),
        env_token: Some(RefreshToken(ENV_TOKEN.to_string())),
    };
    assert_eq!(auth.offline_access().map(|t| t.0.as_str()), Some(ENV_TOKEN));
}

#[test]
fn update_checks_are_daily() {
    let mut config = Config::default();
    assert!(config.note_update_check(1000));
    assert_eq!(config.last_update, Some(1000));
    assert!(!config.note_update_check(1000 + 86400));
    assert_eq!(config.last_update, Some(1000));
    assert!(config.note_update_check(1000 + 86401));
    assert_eq!(config.last_update, Some(87401));
}

#[test]
fn sandbox_start_failures_stay_distinct() {
    assert_eq!(sandbox_exit_code(0), ExitCode::Custom(0));
    assert_eq!(sandbox_exit_code(3), ExitCode::Custom(3));
    assert_eq!(sandbox_exit_code(117), ExitCode::Custom(118));
    assert_eq!(sandbox_exit_code(118), ExitCode::Custom(118));
}
