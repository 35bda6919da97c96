use std::str::FromStr;

use phylum_cli::filter::{
    should_filter_issue, Filter, FilterIssues, Issue, JobStatusResponse, Package, RiskDomain,
    RiskLevel,
};

#[test]
fn it_can_parse_filter_levels() {
    let filter_string = "crit,author,med,engineering";

    let filter = Filter::from_str(filter_string).expect("Failed to parse filter string: {}");

    assert_eq!(filter.level, Some(RiskLevel::Medium));

    let filter_string = "foo,crit,author,engineering";

    let filter = Filter::from_str(filter_string).expect("Failed to parse filter string: {}");

    assert_eq!(filter.level, Some(RiskLevel::Critical));
}

#[test]
fn it_can_parse_filter_domains() {
    let filter_string = "crit,author,med,engineering";

    let filter = Filter::from_str(filter_string).expect("Failed to parse filter string: {}");

    let domains = filter.domains.expect("No risk domains parsed from filter string");

    assert_eq!(domains.len(), 2);
    assert!(domains.contains(&RiskDomain::AuthorRisk));
    assert!(domains.contains(&RiskDomain::EngineeringRisk));

    let filter_string = "crit,author,AUT,med,ENG,foo,engineering,VLN";

    let filter = Filter::from_str(filter_string).expect("Failed to parse filter string: {}");

    let domains = filter.domains.expect("No risk domains parsed from filter string");

    assert_eq!(domains.len(), 3);
    assert!(domains.contains(&RiskDomain::AuthorRisk));
    assert!(domains.contains(&RiskDomain::EngineeringRisk));
    assert!(domains.contains(&RiskDomain::Vulnerabilities));
}

fn license_issue() -> Issue {
    Issue {
        title: "Commercial license risk in xmlrpc@0.3.0".to_string(),
        description: "license is medium risk".to_string(),
        severity: RiskLevel::Medium,
        domain: RiskDomain::LicenseRisk,
    }
}

#[test]
fn test_filter_check() {
    let filter_string = "lic";
    let filter = Filter::from_str(filter_string).expect("Failed to parse filter string: {}");

    let issue = license_issue();

    let should_filter = should_filter_issue(&filter, issue.severity, issue.domain);
    assert!(!should_filter);

    let filter_string = "mal";
    let filter = Filter::from_str(filter_string).expect("Failed to parse filter string: {}");
    let should_filter = should_filter_issue(&filter, issue.severity, issue.domain);
    assert!(should_filter);
}

#[test]
fn unknown_tokens_only_is_an_error() {
    assert!(Filter::from_str("foo,bar").is_err());
    assert!(Filter::from_str("").is_err());
    assert!(Filter::from_str(",,").is_err());
}

#[test]
fn level_only_filter_has_no_domains() {
    let filter = Filter::from_str("hi,lo").unwrap();
    assert_eq!(filter.level, Some(RiskLevel::Low));
    assert!(filter.domains.is_none());
}

#[test]
fn every_spelling_is_recognised() {
    let filter = Filter::from_str("info,code,vuln,license,auth,eng").unwrap();
    assert_eq!(filter.level, Some(RiskLevel::Info));
    assert_eq!(filter.domains.unwrap().len(), 5);
}

#[test]
fn filtering_keeps_issues_at_or_above_level_in_allowed_domains() {
    let mut package = Package {
        name: "xmlrpc".to_string(),
        version: "0.3.0".to_string(),
        registry: "npm".to_string(),
        issues: vec![
            license_issue(),
            Issue { severity: RiskLevel::Low, ..license_issue() },
            Issue { domain: RiskDomain::Malicious, ..license_issue() },
            Issue { severity: RiskLevel::Critical, ..license_issue() },
        ],
    };
    let filter = Filter::from_str("med,lic").unwrap();
    package.filter(&filter);
    assert_eq!(package.issues.len(), 2);
    assert_eq!(package.issues[0].severity, RiskLevel::Medium);
    assert_eq!(package.issues[1].severity, RiskLevel::Critical);

    // Filtering a second time changes nothing.
    package.filter(&filter);
    assert_eq!(package.issues.len(), 2);
}

#[test]
fn job_filtering_filters_every_package() {
    let package = Package {
        name: "a".to_string(),
        version: "1".to_string(),
        registry: "npm".to_string(),
        issues: vec![license_issue()],
    };
    let mut job = JobStatusResponse { packages: vec![package.clone(), package] };
    job.filter(&Filter::from_str("crit").unwrap());
    assert!(job.packages.iter().all(|p| p.issues.is_empty()));
}
