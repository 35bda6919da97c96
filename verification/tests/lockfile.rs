use phylum_cli::lockfile::{
    choose_depfiles, kinds_to_try, lockfile_kind, DepfileConfig, LockfileKind, MissingDepfile,
};

#[test]
fn lockfiles_are_known_by_name() {
    assert_eq!(lockfile_kind("Gemfile.lock"), Some(LockfileKind::GemLock));
    assert_eq!(lockfile_kind("package-lock.json"), Some(LockfileKind::PackageLock));
    assert_eq!(lockfile_kind("yarn.lock"), Some(LockfileKind::YarnLock));
    assert_eq!(lockfile_kind("requirements.txt"), Some(LockfileKind::PyRequirements));
    assert_eq!(lockfile_kind("Pipfile.lock"), Some(LockfileKind::PipFile));
    assert_eq!(lockfile_kind("Pipfile.txt"), Some(LockfileKind::PipFile));
    assert_eq!(lockfile_kind("poetry.lock"), Some(LockfileKind::Poetry));
    assert_eq!(lockfile_kind("effective-pom.xml"), Some(LockfileKind::Pom));
    assert_eq!(lockfile_kind("gradle-dependencies.txt"), Some(LockfileKind::GradleDeps));
}

#[test]
fn any_csproj_file_is_a_project() {
    assert_eq!(lockfile_kind("sample.csproj"), Some(LockfileKind::CSProj));
    assert_eq!(lockfile_kind(".csproj"), Some(LockfileKind::CSProj));
    assert_eq!(lockfile_kind("a.b.csproj"), Some(LockfileKind::CSProj));
    assert_eq!(lockfile_kind("csproj"), None);
}

#[test]
fn unknown_names_try_every_format() {
    assert_eq!(lockfile_kind("yarn-v1.lock"), None);
    assert_eq!(lockfile_kind("Pipfile"), None);
    let kinds = kinds_to_try();
    assert_eq!(kinds.len(), 9);
    assert_eq!(kinds[0], LockfileKind::YarnLock);
    assert_eq!(kinds[8], LockfileKind::CSProj);
}

fn depfile(path: &str, ty: &str) -> DepfileConfig {
    DepfileConfig { path: path.to_string(), depfile_type: ty.to_string() }
}

#[test]
fn command_line_depfiles_come_first() {
    let cli = vec!["a.lock".to_string(), "b.txt".to_string()];
    let project = vec![depfile("p.lock", "yarn")];
    assert_eq!(
        choose_depfiles(Some(&cli), None, Some(&project), None),
        Ok(vec![depfile("a.lock", "auto"), depfile("b.txt", "auto")])
    );
    assert_eq!(choose_depfiles(Some(&cli), Some("npm"), None, None).unwrap()[1], depfile("b.txt", "npm"));
}

#[test]
fn project_depfiles_then_found_ones() {
    let project = vec![depfile("p.lock", "yarn")];
    let found = vec![depfile("f.lock", "cargo")];
    assert_eq!(choose_depfiles(None, None, Some(&project), Some(&found)), Ok(vec![depfile("p.lock", "yarn")]));
    assert_eq!(choose_depfiles(None, None, None, Some(&found)), Ok(vec![depfile("f.lock", "cargo")]));
    assert_eq!(choose_depfiles(None, None, None, Some(&Vec::new())), Err(MissingDepfile));
    assert_eq!(choose_depfiles(None, None, Some(&Vec::new()), Some(&found)), Err(MissingDepfile));
}
