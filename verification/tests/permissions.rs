use phylum_cli::permissions::{
    check_net_permission, default_exceptions, depfile_sandbox, depfile_sandbox_exceptions, ecosystem_bins,
    push_permission_args, sandbox_command_args, sandbox_command_exceptions, Exception, NetPermissionError, Permission, Permissions,
    PermissionsOptions,
};

/// A permission as a manifest writes it: a list of strings or a boolean.
fn permission_of(value: Option<&toml::Value>) -> Permission {
    match value {
        None => Permission::Boolean(false),
        Some(toml::Value::Boolean(b)) => Permission::Boolean(*b),
        Some(toml::Value::Array(items)) => Permission::List(
            items.iter().map(|item| item.as_str().expect("string entry").to_string()).collect(),
        ),
        Some(other) => panic!("not a permission: {other:?}"),
    }
}

/// Reads the permissions section of a manifest.
fn read_permissions(text: &str) -> Result<Permissions, NetPermissionError> {
    let table: toml::Table = toml::from_str(text).unwrap();
    Permissions::from_read(
        permission_of(table.get("read")),
        permission_of(table.get("write")),
        permission_of(table.get("env")),
        permission_of(table.get("run")),
        permission_of(table.get("net")),
        "/home/user",
    )
}

#[test]
fn deserialize_valid_permissions() {
    let valid_toml = r#"net = ["api.phylum.io"]"#;

    let permissions = read_permissions(valid_toml).unwrap();

    assert_eq!(permissions.net, Permission::List(vec!["api.phylum.io".into()]));
}

#[test]
fn deserialize_invalid_net_permissions() {
    let invalid_toml = r#"net = ["https://api.phylum.io/test"]"#;

    let result = read_permissions(invalid_toml);

    result.unwrap_err();
}

#[test]
fn deserialize_bool_permissions() {
    let toml = "read = true\nnet = false";

    let permissions = read_permissions(toml).unwrap();

    assert_eq!(permissions.read.get(), Some(Vec::new()));
    assert_eq!(permissions.net.get(), None);
}

#[test]
fn listed_paths_are_read_below_home() {
    let permissions = read_permissions("read = [\"~/code\", \"/etc\"]\nwrite = [\"~\"]").unwrap();
    assert_eq!(permissions.read, Permission::List(vec!["/home/user/code".into(), "/etc".into()]));
    assert_eq!(permissions.write, Permission::List(vec!["/home/user/".into()]));
    assert_eq!(permissions.run, Permission::Boolean(false));
    let err = read_permissions("net = [\"a.io\", \"b.io/x\", \"c.io/y\"]").unwrap_err();
    assert_eq!(err.url, "b.io/x");
    // A home-relative network entry becomes a path, which is refused.
    assert!(read_permissions("net = [\"~\"]").is_err());
}

#[test]
fn dependency_file_sandbox_exceptions() {
    let bins = vec!["/usr/bin/cargo".to_string(), "npm".to_string()];
    let es = depfile_sandbox_exceptions(Some("/opt/bin"), "/usr/bin/phylum", "/work/project", "/home/u", &bins);
    let base = default_exceptions(Some("/opt/bin")).len();
    assert_eq!(es.len(), base + 3 + 2 + 21);
    assert!(matches!(&es[base - 1], Exception::ExecuteAndRead(p) if p == "/opt/bin"));
    assert!(matches!(&es[base], Exception::Networking));
    assert!(matches!(&es[base + 1], Exception::ExecuteAndRead(p) if p == "/usr/bin/phylum"));
    assert!(matches!(&es[base + 2], Exception::WriteAndRead(p) if p == "/work/project"));
    assert!(matches!(&es[base + 3], Exception::ExecuteAndRead(p) if p == "/usr/bin/cargo"));
    assert!(matches!(&es[base + 4], Exception::ExecuteAndRead(p) if p == "npm"));
    assert!(matches!(&es[base + 5], Exception::ExecuteAndRead(p) if p == "/usr/bin"));
    assert!(matches!(&es[base + 7], Exception::ExecuteAndRead(p) if p == "/home/u/.rustup"));
    assert!(matches!(&es[base + 11], Exception::WriteAndRead(p) if p == "/home/u/.m2"));
    assert!(matches!(&es[base + 19], Exception::WriteAndRead(p) if p == "/home/u/.gradle"));
    assert!(matches!(&es[es.len() - 2], Exception::Read(p) if p == "/tmp"));
    assert!(matches!(&es[es.len() - 1], Exception::Read(p) if p == "/home/u/./yarn"));
}

#[test]
fn dependency_file_sandbox_resolves_ecosystem_programs() {
    assert_eq!(ecosystem_bins().len(), 12);
    assert_eq!(ecosystem_bins()[0], "cargo");
    assert_eq!(ecosystem_bins()[11], "dotnet");
    let es = depfile_sandbox(None, "/usr/bin/phylum", "/work", "/home/u");
    let base = default_exceptions(None).len();
    assert_eq!(es.len(), base + 3 + 12 + 21);
    assert!(matches!(&es[base + 3], Exception::ExecuteAndRead(p) if p == "cargo"));
    assert!(matches!(&es[base + 14], Exception::ExecuteAndRead(p) if p == "dotnet"));
}

fn paths_subset(a: &[&str], b: &[&str]) -> Result<(), Vec<String>> {
    Permission::paths_subset(
        &a.iter().map(|s| s.to_string()).collect::<Vec<_>>(),
        &b.iter().map(|s| s.to_string()).collect::<Vec<_>>(),
    )
}

#[test]
fn empty_vecs_are_turned_into_none() {
    let permissions = Permissions {
        read: Permission::List(vec![]),
        write: Permission::List(vec![]),
        env: Permission::List(vec![]),
        run: Permission::List(vec![]),
        net: Permission::List(vec![]),
    };

    let permissions_options = PermissionsOptions::from_permissions(&permissions);

    assert!(permissions.is_allow_none());
    assert!(permissions_options.allow_read.is_none());
    assert!(permissions_options.allow_write.is_none());
    assert!(permissions_options.allow_env.is_none());
    assert!(permissions_options.allow_run.is_none());
    assert!(permissions_options.allow_net.is_none());
}

#[test]
fn paths_subset_algorithm() {
    // {} << A.
    assert!(paths_subset(&["/tmp"], &[]).is_ok());

    // A << A.
    assert!(paths_subset(&["/tmp"], &["/tmp"]).is_ok());
    assert!(paths_subset(&["/etc", "/tmp"], &["/tmp", "/etc"]).is_ok());
    assert!(paths_subset(&["/etc", "/tmp", "/"], &["/tmp", "/", "/etc"]).is_ok());

    // A << B if A = {a}, B = {b} and a < b.
    assert!(paths_subset(&["/"], &["/tmp"]).is_ok());
    assert!(paths_subset(&["/tmp"], &["/tmp/something"]).is_ok());

    // Not A << B if A = {a}, B = {b} and not a < b.
    assert!(paths_subset(&["/tmp"], &["/"]).is_err());
    assert!(paths_subset(&["/tmp"], &["/etc/something"]).is_err());

    // A << B if for each a in A, there exist at least one b in B such that a < b.
    assert!(paths_subset(&["/tmp", "/etc"], &["/etc/something"]).is_ok());
    assert!(paths_subset(&["/tmp", "/etc"], &["/etc", "/tmp/something"]).is_ok());
    assert!(paths_subset(&["/tmp", "/etc"], &["/tmp", "/etc/something"]).is_ok());
    assert!(paths_subset(&["/tmp", "/etc"], &["/etc/something", "/tmp/something"]).is_ok());

    // Not A << B if there exists one a in A such that for each b in B, not a < b.
    assert!(paths_subset(&["/tmp", "/etc"], &["/something"]).is_err());
    assert!(paths_subset(&["/tmp", "/etc"], &["/tmp", "/etc", "/something"]).is_err());
    assert!(paths_subset(&["/tmp", "/etc"], &["/tmp/a", "/etc/b", "/something"]).is_err());
}

#[test]
fn paths_outside_the_parent_are_reported() {
    assert_eq!(
        paths_subset(&["/tmp", "/etc"], &["/tmp/a", "/var", "/etc/b", "/home/x"]),
        Err(vec!["/var".to_string(), "/home/x".to_string()])
    );
    // Components, not characters, decide.
    assert_eq!(paths_subset(&["/tm"], &["/tmp"]), Err(vec!["/tmp".to_string()]));
}

#[test]
fn get_turns_lists_and_booleans_into_allow_lists() {
    assert_eq!(Permission::List(vec![]).get(), None);
    assert_eq!(Permission::List(vec!["a".into()]).get(), Some(vec!["a".to_string()]));
    assert_eq!(Permission::Boolean(true).get(), Some(Vec::new()));
    assert_eq!(Permission::Boolean(false).get(), None);
}

#[test]
fn sandbox_paths_of_booleans() {
    assert_eq!(Permission::Boolean(true).sandbox_paths(), vec!["/".to_string()]);
    assert!(Permission::Boolean(false).sandbox_paths().is_empty());
    assert_eq!(Permission::List(vec!["/x".into()]).sandbox_paths(), vec!["/x".to_string()]);
}

#[test]
fn validate_needs_the_resource_listed() {
    let p = Permission::List(vec!["api.phylum.io".into()]);
    assert!(p.validate(&"api.phylum.io".to_string(), "net").is_ok());
    let err = p.validate(&"example.com".to_string(), "net").unwrap_err();
    assert_eq!(err.resource_type, "net");
    assert_eq!(err.resource, "example.com");
    // `true` permits everything, `false` nothing.
    assert!(Permission::Boolean(true).validate(&"x".to_string(), "read").is_ok());
    assert!(Permission::Boolean(false).validate(&"x".to_string(), "read").is_err());
    assert!(Permission::List(vec![]).validate(&"x".to_string(), "read").is_err());
}

#[test]
fn subset_of_narrows_permissions() {
    let (Boolean, List) = (Permission::Boolean, Permission::List);
    assert_eq!(Boolean(true).subset_of(&Boolean(false)), Ok(Boolean(false)));
    assert_eq!(Boolean(true).subset_of(&Boolean(true)), Ok(Boolean(true)));
    assert_eq!(
        Boolean(true).subset_of(&List(vec!["/tmp".into()])),
        Ok(List(vec!["/tmp".into()]))
    );
    assert_eq!(Boolean(false).subset_of(&List(vec!["/tmp".into()])), Ok(Boolean(false)));
    assert_eq!(List(vec!["/a".into()]).subset_of(&Boolean(true)), Ok(List(vec!["/a".into()])));
    assert_eq!(List(vec!["/a".into()]).subset_of(&Boolean(false)), Ok(Boolean(false)));
    assert_eq!(
        List(vec!["/a/b".into()]).subset_of(&List(vec!["/a".into()])),
        Ok(List(vec!["/a/b".into()]))
    );
    assert_eq!(
        List(vec!["/b".into()]).subset_of(&List(vec!["/a".into()])),
        Err(vec!["/b".to_string()])
    );
}

#[test]
fn net_permissions_hold_domains_only() {
    let ok = check_net_permission(Permission::List(vec!["api.phylum.io".into()]));
    assert_eq!(ok.unwrap(), Permission::List(vec!["api.phylum.io".into()]));
    let err = check_net_permission(Permission::List(vec![
        "a.io".into(),
        "https://api.phylum.io/test".into(),
        "b/c".into(),
    ]))
    .unwrap_err();
    assert_eq!(err.url, "https://api.phylum.io/test");
    assert_eq!(check_net_permission(Permission::Boolean(false)).unwrap(), Permission::Boolean(false));
}

#[test]
fn sandbox_exceptions_follow_the_permissions() {
    let permissions = Permissions {
        read: Permission::List(vec!["/r".into()]),
        write: Permission::Boolean(true),
        env: Permission::Boolean(false),
        run: Permission::List(vec!["git".into()]),
        net: Permission::Boolean(true),
    };
    let es = permissions.sandbox_exceptions();
    assert_eq!(es.len(), 4);
    assert!(matches!(&es[0], Exception::Read(p) if p == "/r"));
    assert!(matches!(&es[1], Exception::Write(p) if p == "/"));
    assert!(matches!(&es[2], Exception::ExecuteAndRead(p) if p == "git"));
    assert!(matches!(&es[3], Exception::Networking));
    assert!(!permissions.is_allow_none());
    assert!(Permissions::default().is_allow_none());
}

#[test]
fn default_sandbox_opens_path_directories() {
    let es = default_exceptions(Some("/usr/bin:/opt/tools/bin"));
    let n = es.len();
    assert!(matches!(&es[n - 2], Exception::ExecuteAndRead(p) if p == "/usr/bin"));
    assert!(matches!(&es[n - 1], Exception::ExecuteAndRead(p) if p == "/opt/tools/bin"));
    assert!(matches!(&es[0], Exception::ExecuteAndRead(p) if p == "/usr/lib"));
    assert_eq!(default_exceptions(None).len(), n - 2);
}

#[test]
fn options_carry_the_allow_lists() {
    let permissions = Permissions {
        read: Permission::Boolean(true),
        net: Permission::List(vec!["api.phylum.io".into()]),
        ..Permissions::default()
    };
    let options = PermissionsOptions::from_permissions(&permissions);
    assert_eq!(options.allow_read, Some(Vec::new()));
    assert_eq!(options.allow_net, Some(vec!["api.phylum.io".to_string()]));
    assert!(options.allow_write.is_none());
    assert!(options.allow_sys.is_none() && options.allow_ffi.is_none());
    assert!(!options.allow_hrtime && !options.prompt);
}

#[test]
fn sandbox_arguments_grant_the_permissions() {
    let permissions = Permissions {
        read: Permission::List(vec!["~/data".into(), "/etc".into()]),
        write: Permission::Boolean(true),
        env: Permission::List(vec!["HOME".into(), "*".into(), "PATH".into()]),
        run: Permission::List(vec!["git".into()]),
        net: Permission::List(vec!["api.phylum.io".into()]),
    };
    let mut args = vec!["first".to_string()];
    push_permission_args(&mut args, &permissions, true, "/home/u");
    assert_eq!(
        args,
        vec![
            "first", "--strict", "--allow-read", "/home/u/data", "--allow-read", "/etc",
            "--allow-write", "/", "--allow-run", "git", "--allow-env", "HOME", "--allow-env", "PATH",
        ]
    );

    let open = Permissions {
        net: Permission::Boolean(true),
        env: Permission::Boolean(true),
        ..Permissions::default()
    };
    let args = sandbox_command_args("npm", &vec!["install".into(), "-g".into()], &open, false, "/h");
    assert_eq!(args, vec!["sandbox", "--allow-net", "--allow-env", "--", "npm", "install", "-g"]);
}

#[test]
fn sandbox_command_exceptions_follow_the_flags() {
    let reads = vec!["/data".to_string()];
    let writes = vec!["/out".to_string()];
    let runs = vec!["/bin/sh".to_string()];
    let envs = vec!["HOME".to_string(), "*".to_string()];
    let es = sandbox_command_exceptions(true, None, &reads, &writes, &runs, true, &envs);
    assert_eq!(es.len(), 6);
    assert!(matches!(&es[0], Exception::Read(p) if p == "/data"));
    assert!(matches!(&es[1], Exception::WriteAndRead(p) if p == "/out"));
    assert!(matches!(&es[2], Exception::ExecuteAndRead(p) if p == "/bin/sh"));
    assert!(matches!(&es[3], Exception::Networking));
    assert!(matches!(&es[4], Exception::Environment(v) if v == "HOME"));
    assert!(matches!(&es[5], Exception::FullEnvironment));
    let es = sandbox_command_exceptions(false, Some("/opt/bin"), &Vec::new(), &Vec::new(), &Vec::new(), false, &Vec::new());
    assert_eq!(es.len(), default_exceptions(Some("/opt/bin")).len());
}
