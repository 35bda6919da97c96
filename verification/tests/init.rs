use phylum_cli::init::{add_typed_depfiles, select_depfiles};

fn strings(v: &[&str]) -> Vec<String> {
    v.iter().map(|s| s.to_string()).collect()
}

#[test]
fn selected_depfiles_are_kept() {
    let found = strings(&["package-lock.json", "Cargo.lock", "poetry.lock"]);
    assert_eq!(select_depfiles(&found, &vec![0, 2]), (strings(&["package-lock.json", "poetry.lock"]), false));
    assert_eq!(select_depfiles(&found, &vec![1]), (strings(&["Cargo.lock"]), false));
}

#[test]
fn choosing_others_asks_for_more_files() {
    let found = strings(&["package-lock.json", "Cargo.lock"]);
    assert_eq!(select_depfiles(&found, &vec![1, 2]), (strings(&["Cargo.lock"]), true));
    assert_eq!(select_depfiles(&found, &vec![2]), (Vec::new(), true));
    assert_eq!(select_depfiles(&found, &vec![]), (Vec::new(), true));
}

#[test]
fn typed_depfiles_are_trimmed() {
    assert_eq!(
        add_typed_depfiles(strings(&["a.lock"]), " b.lock , ,c/requirements.txt\t,"),
        strings(&["a.lock", "b.lock", "c/requirements.txt"])
    );
    assert_eq!(add_typed_depfiles(Vec::new(), ""), Vec::<String>::new());
    assert_eq!(add_typed_depfiles(Vec::new(), "\u{3000}x\u{a0}"), strings(&["x"]));
}
