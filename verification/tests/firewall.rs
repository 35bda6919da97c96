use phylum_cli::firewall::{firewall_log_filter, FirewallLogFilter};

#[test]
fn firewall_filters_come_from_a_purl() {
    let f = firewall_log_filter(Some("pkg:npm/%40angular/core@1.0.0"), Some("pypi"), Some("2024-01-01"), None, 100)
        .unwrap();
    assert_eq!(f, FirewallLogFilter {
        ecosystem: Some("npm".into()),
        namespace: Some("@angular".into()),
        name: Some("core".into()),
        version: Some("1.0.0".into()),
        before: Some("2024-01-01".into()),
        after: None,
        limit: Some(100),
    });
    assert_eq!(firewall_log_filter(Some("core"), None, None, None, 1).unwrap_err().purl, "core");
}

#[test]
fn firewall_filters_without_a_purl() {
    let f = firewall_log_filter(None, Some("NPM"), None, Some("2024-02-02"), 5_000_000_000).unwrap();
    assert_eq!(f.ecosystem, Some("npm".to_string()));
    assert_eq!(f.name, None);
    assert_eq!(f.after, Some("2024-02-02".to_string()));
    assert_eq!(f.limit, Some(705_032_704));
    assert_eq!(firewall_log_filter(None, Some("cran"), None, None, 1).unwrap().ecosystem, None);
}
