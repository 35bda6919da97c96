use phylum_cli::exception::{
    filter_issues, filter_packages, package_matches, package_query, package_suppression, removal_candidates,
    version_plan, IgnoredIssue, IgnoredPackage, InvalidPurl, PackageQuery, Preferences, PurlComponents,
    RemoveFilter, VersionPlan,
};

fn issue(id: &str, tag: &str) -> IgnoredIssue {
    IgnoredIssue { id: id.to_string(), tag: tag.to_string(), reason: "accepted".to_string() }
}

fn package(purl: &str) -> IgnoredPackage {
    IgnoredPackage { purl: purl.to_string(), reason: "accepted".to_string() }
}

fn ids(issues: &[IgnoredIssue]) -> Vec<String> {
    issues.iter().map(|i| format!("{}/{}", i.id, i.tag)).collect()
}

fn purls(pkgs: &[IgnoredPackage]) -> Vec<String> {
    pkgs.iter().map(|p| p.purl.clone()).collect()
}

fn no_filter() -> RemoveFilter {
    RemoveFilter { id: None, tag: None, ecosystem: None, name: None, version: None, purl: None }
}

#[test]
fn issues_are_found_by_id_and_tag() {
    let issues = vec![issue("1", "HM1"), issue("2", "HM1"), issue("3", "CV2")];
    assert_eq!(ids(&filter_issues(&issues, None, None)), vec!["1/HM1", "2/HM1", "3/CV2"]);
    assert_eq!(ids(&filter_issues(&issues, None, Some("HM1"))), vec!["1/HM1", "2/HM1"]);
    assert_eq!(ids(&filter_issues(&issues, Some("2"), Some("HM1"))), vec!["2/HM1"]);
    assert!(filter_issues(&issues, Some("3"), Some("HM1")).is_empty());
}

#[test]
fn package_queries_come_from_a_purl_or_its_parts() {
    let q = package_query(Some("pkg:npm/lodash@4.17.21"), Some("pypi"), None, None).unwrap();
    assert_eq!(q, PackageQuery {
        ecosystem: Some("npm".into()),
        namespace: None,
        name: Some("lodash".into()),
        version: Some("4.17.21".into()),
    });
    let q = package_query(Some("pkg:maven/org.apache/commons"), None, None, None).unwrap();
    assert_eq!(q.namespace, Some("org.apache".to_string()));
    assert_eq!(q.version, None);
    let q = package_query(None, Some("npm"), Some("react"), None).unwrap();
    assert_eq!(q, PackageQuery {
        ecosystem: Some("npm".into()),
        namespace: None,
        name: Some("react".into()),
        version: None,
    });
    assert_eq!(
        package_query(Some("lodash"), None, None, None).unwrap_err(),
        InvalidPurl { purl: "lodash".into() }
    );
}

#[test]
fn packages_are_matched_part_by_part() {
    let parts = Some(PurlComponents {
        package_type: "npm".into(),
        namespace: None,
        name: "lodash".into(),
        version: Some("1.0.0".into()),
    });
    let mut q = PackageQuery { ecosystem: Some("npm".into()), namespace: None, name: None, version: None };
    assert!(package_matches(&parts, &q));
    q.namespace = Some("scope".into());
    assert!(!package_matches(&parts, &q));
    q.namespace = None;
    q.version = Some("2.0.0".into());
    assert!(!package_matches(&parts, &q));
    assert!(!package_matches(&None, &PackageQuery { ecosystem: None, namespace: None, name: None, version: None }));
}

#[test]
fn package_suppressions_are_filtered_by_purl() {
    let pkgs = vec![
        package("pkg:npm/lodash@1.0.0"),
        package("pkg:npm/lodash@2.0.0"),
        package("pkg:pypi/requests@2.0.0"),
        package("garbage"),
    ];
    let q = package_query(None, Some("npm"), Some("lodash"), None).unwrap();
    assert_eq!(purls(&filter_packages(&pkgs, &q)), vec!["pkg:npm/lodash@1.0.0", "pkg:npm/lodash@2.0.0"]);
    let q = package_query(None, None, None, Some("2.0.0")).unwrap();
    assert_eq!(purls(&filter_packages(&pkgs, &q)), vec!["pkg:npm/lodash@2.0.0", "pkg:pypi/requests@2.0.0"]);
}

#[test]
fn removal_candidates_follow_the_command_line() {
    let prefs = Preferences {
        ignored_issues: vec![issue("1", "HM1"), issue("2", "CV2")],
        ignored_packages: vec![package("pkg:npm/lodash@1.0.0"), package("garbage")],
    };
    // Without package filters every package stays, readable or not.
    let all = removal_candidates(&prefs, &no_filter()).unwrap();
    assert_eq!(ids(&all.ignored_issues), vec!["1/HM1", "2/CV2"]);
    assert_eq!(purls(&all.ignored_packages), vec!["pkg:npm/lodash@1.0.0", "garbage"]);

    let mut filter = no_filter();
    filter.tag = Some("CV2".into());
    filter.purl = Some("pkg:npm/lodash".into());
    let some = removal_candidates(&prefs, &filter).unwrap();
    assert_eq!(ids(&some.ignored_issues), vec!["2/CV2"]);
    assert_eq!(purls(&some.ignored_packages), vec!["pkg:npm/lodash@1.0.0"]);

    filter.purl = Some("npm/lodash".into());
    assert_eq!(removal_candidates(&prefs, &filter).unwrap_err().purl, "npm/lodash");
}

#[test]
fn suppression_versions_come_from_the_purl_first() {
    assert_eq!(version_plan(Some("1.0".into()), Some("2.0".into()), true, false), VersionPlan::Known("1.0".into()));
    assert_eq!(version_plan(None, Some("2.0".into()), true, false), VersionPlan::Known("2.0".into()));
    assert_eq!(version_plan(None, None, true, false), VersionPlan::SuggestThenPrompt);
    assert_eq!(version_plan(None, None, true, true), VersionPlan::Prompt);
    assert_eq!(version_plan(None, None, false, false), VersionPlan::Prompt);
}

#[test]
fn package_suppressions_carry_the_version() {
    let s = package_suppression("pkg:npm/lodash", "4.17.21", "not reachable").unwrap();
    assert_eq!(s.purl, "pkg:npm/lodash@4.17.21");
    assert_eq!(s.reason, "not reachable");
    let s = package_suppression("pkg:npm/lodash@1.0.0", "2.0.0", "r").unwrap();
    assert_eq!(s.purl, "pkg:npm/lodash@2.0.0");
    assert_eq!(package_suppression("lodash", "1.0.0", "r").unwrap_err().purl, "lodash");
}
