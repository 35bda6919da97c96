use phylum_cli::groups::sort_groups;
use phylum_cli::report::ListGroupsEntry;

fn entry(org: Option<&str>, name: &str) -> ListGroupsEntry {
    ListGroupsEntry { org: org.map(String::from), name: name.to_string() }
}

fn keys(v: &[ListGroupsEntry]) -> Vec<(Option<String>, String)> {
    v.iter().map(|e| (e.org.clone(), e.name.clone())).collect()
}

#[test]
fn groups_are_listed_by_organization_then_name() {
    let groups = vec![
        entry(Some("zeta"), "a"),
        entry(None, "legacy-b"),
        entry(Some("acme"), "web"),
        entry(Some("acme"), "api"),
        entry(None, "legacy-a"),
        entry(Some("acme"), "api"),
        entry(Some("Acme"), "x"),
    ];
    let sorted = sort_groups(&groups);
    let mut expected = keys(&groups);
    expected.sort();
    assert_eq!(keys(&sorted), expected);
    assert_eq!(keys(&sorted)[0], (None, "legacy-a".to_string()));
    assert_eq!(keys(&sorted)[2], (Some("Acme".to_string()), "x".to_string()));
}

#[test]
fn names_sort_by_characters_prefixes_first() {
    let groups = vec![entry(None, "ab"), entry(None, "a"), entry(None, "é"), entry(None, "z"), entry(None, "")];
    let names: Vec<String> = sort_groups(&groups).into_iter().map(|e| e.name).collect();
    assert_eq!(names, vec!["", "a", "ab", "z", "é"]);
    assert!(sort_groups(&Vec::new()).is_empty());
}
