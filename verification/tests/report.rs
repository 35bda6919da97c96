use phylum_cli::api::JobId;
use phylum_cli::extension::{list_extensions, Extension, ExtensionManifest};
use phylum_cli::filter::{RiskDomain, RiskLevel};
use phylum_cli::report::{
    history_table, job_date, jobs_pretty, write_fields, AllJobsStatusResponse, DepFile,
    EvaluatedDependency, GetProjectResponse, HistoryJob, JobDescriptor, Org, OrgsResponse,
    PhylumStatus, PolicyEvaluationResponseRaw, PolicyRejection, RejectionSource, Vulnerability,
};

fn rejection(title: &str, domain: Option<RiskDomain>, severity: Option<RiskLevel>, suppressed: bool) -> PolicyRejection {
    PolicyRejection {
        title: title.to_string(),
        source: RejectionSource {
            source_type: "issue".to_string(),
            tag: None,
            domain,
            severity,
            description: None,
            reason: None,
        },
        suppressed,
    }
}

fn dependency(name: &str, rejections: Vec<PolicyRejection>) -> EvaluatedDependency {
    EvaluatedDependency {
        purl: format!("pkg:npm/{name}@1.0.0"),
        registry: "npm".to_string(),
        name: name.to_string(),
        version: "1.0.0".to_string(),
        rejections,
    }
}

#[test]
fn evaluation_report_lists_active_rejections() {
    let response = PolicyEvaluationResponseRaw {
        is_failure: true,
        incomplete_packages_count: 0,
        help: "help".to_string(),
        dependencies: vec![
            dependency("left-pad", vec![
                rejection("Bad author", Some(RiskDomain::AuthorRisk), Some(RiskLevel::Low), false),
                rejection("Hidden", None, Some(RiskLevel::High), true),
                rejection("No domain", None, Some(RiskLevel::Critical), false),
            ]),
            dependency("quiet", vec![rejection("Hidden", None, None, true)]),
        ],
        job_link: Some("https://app.phylum.io/jobs/1".to_string()),
    };
    assert_eq!(
        response.pretty_colored(false),
        "\nPhylum Supply Chain Risk Analysis \u{2014} FAILURE\n\n[npm] left-pad@1.0.0\n  [AUT] Bad \
         author\n        No domain\n\nYou can find the interactive report here:\n  \
         https://app.phylum.io/jobs/1\n"
    );
    assert_eq!(
        response.pretty_colored(true),
        "\nPhylum Supply Chain Risk Analysis \u{2014} \x1b[31mFAILURE\x1b[0m\n\n[npm] \
         left-pad@1.0.0\n  \x1b[32m[AUT] Bad author\x1b[0m\n  \x1b[31m      No \
         domain\x1b[0m\n\nYou can find the interactive report here:\n  \
         https://app.phylum.io/jobs/1\n"
    );
}

#[test]
fn evaluation_report_of_a_clean_run() {
    let response = PolicyEvaluationResponseRaw {
        is_failure: false,
        incomplete_packages_count: 0,
        help: String::new(),
        dependencies: Vec::new(),
        job_link: None,
    };
    assert_eq!(response.pretty_colored(false), "\nPhylum Supply Chain Risk Analysis \u{2014} SUCCESS\n\n");
}

#[test]
fn evaluation_report_notes_unprocessed_packages() {
    let response = PolicyEvaluationResponseRaw {
        is_failure: false,
        incomplete_packages_count: 1,
        help: String::new(),
        dependencies: Vec::new(),
        job_link: None,
    };
    let text = response.pretty_colored(false);
    assert!(text.starts_with("\nPhylum Supply Chain Risk Analysis \u{2014} INCOMPLETE\n\n"));
    assert!(text.contains("The analysis contains 1 unprocessed package, preventing"));
    assert!(text.lines().all(|l| l.chars().count() <= 80));
    let many = PolicyEvaluationResponseRaw { incomplete_packages_count: 3, ..response };
    assert!(many.pretty_colored(false).contains("3 unprocessed packages"));
}

#[test]
fn fields_are_aligned() {
    let labels = vec!["Name".to_string(), "Creation Time".to_string()];
    let values = vec!["demo".to_string(), "now".to_string()];
    assert_eq!(
        write_fields(&labels, &values, false),
        "  Name           demo\n  Creation Time  now\n"
    );
}

fn job(pass: bool, num_incomplete: u32) -> JobDescriptor {
    JobDescriptor {
        job_id: JobId { value: 0xe00ad8fd73b24259b4eda188a405f5eb },
        project: "demo".to_string(),
        label: "main".to_string(),
        num_dependencies: 12,
        pass,
        msg: "done".to_string(),
        date: "not a date".to_string(),
        ecosystems: vec!["npm".to_string(), "pypi".to_string()],
        num_incomplete,
    }
}

#[test]
fn job_lists_show_status_and_fields() {
    let jobs = vec![job(true, 0), job(false, 2)];
    let dates = vec!["2024-01-02 03:04".to_string(), "UNKNOWN".to_string()];
    let text = jobs_pretty(&jobs, &dates, false);
    assert_eq!(
        text,
        "Last 2 runs\n\nJob ID: e00ad8fd-73b2-4259-b4ed-a188a405f5eb\n  Project Name   demo\n  \
         Label          main\n  Creation Time  2024-01-02 03:04\n  Status         SUCCESS\n  \
         Ecosystems     npm,pypi\n  Dependencies   12\n  Message        done\n\nJob ID: \
         e00ad8fd-73b2-4259-b4ed-a188a405f5eb\n  Project Name   demo\n  Label          main\n  \
         Creation Time  UNKNOWN\n  Status         INCOMPLETE WITH FAILURE\n  Ecosystems     \
         npm,pypi\n  Dependencies   12\n  Message        done\n\n"
    );
    let all = AllJobsStatusResponse { jobs: vec![job(false, 0)], total_jobs: 7 };
    let text = all.pretty_colored(&vec!["x".to_string()], false);
    assert!(text.starts_with("Total jobs: 7\nLast 1 runs\n\n"));
    assert!(text.contains("Status         FAILED\n"));
    let text = jobs_pretty(&vec![job(true, 1)], &vec!["x".to_string()], false);
    assert!(text.contains("Status         INCOMPLETE\n"));
}

#[test]
fn unreadable_dates_are_unknown() {
    assert_eq!(job_date("yesterday"), "UNKNOWN");
    assert_ne!(job_date("2024-01-02T03:04:05Z"), "UNKNOWN");
    assert!(job_date("2024-01-02T03:04:05Z").contains(':'));
}

#[test]
fn project_details() {
    let mut project = GetProjectResponse {
        id: "12345678-90ab-cdef-1234-567890abcdef".to_string(),
        name: "demo".to_string(),
        repository_url: None,
        default_label: Some("main".to_string()),
    };
    assert_eq!(
        project.pretty_colored(false),
        "ID: 12345678-90ab-cdef-1234-567890abcdef\nName: demo\nDefault Label: main\n"
    );
    project.repository_url = Some("https://git.example/demo".to_string());
    project.default_label = None;
    assert_eq!(
        project.pretty_colored(true),
        "\x1b[34mID\x1b[0m: 12345678-90ab-cdef-1234-567890abcdef\n\x1b[34mName\x1b[0m: \
         demo\n\x1b[34mRepository URL\x1b[0m: https://git.example/demo\n"
    );
}

#[test]
fn organizations() {
    let none = OrgsResponse { organizations: Vec::new() };
    assert_eq!(none.pretty(), "User is not part of any organizations\n");
    let some = OrgsResponse {
        organizations: vec![Org { name: "acme".to_string() }, Org { name: "initech".to_string() }],
    };
    assert_eq!(some.pretty(), "acme\ninitech\n");
}

#[test]
fn project_status() {
    let mut status = PhylumStatus {
        project: Some("demo".to_string()),
        group: None,
        root: Some("/src/demo".to_string()),
        dependency_files: Vec::new(),
    };
    assert_eq!(
        status.pretty_colored(false),
        "Project: demo\nGroup: null\nProject Root: /src/demo\nDependency Files: null\n"
    );
    status.dependency_files = vec![DepFile {
        path: "package-lock.json".to_string(),
        depfile_type: "npm".to_string(),
    }];
    assert_eq!(
        status.pretty_colored(false),
        "Project: demo\nGroup: null\nProject Root: /src/demo\nDependency Files:\n - path: \
         package-lock.json\n   type: npm\n"
    );
    assert!(status.pretty_colored(true).contains("Group\x1b[0m: \x1b[32m\x1b[3mnull\x1b[0m\n"));
}

#[test]
fn history_tables() {
    let jobs = vec![
        HistoryJob { id: "j1".to_string(), label: Some("main".to_string()), created: 0 },
        HistoryJob { id: "job-two".to_string(), label: None, created: 0 },
    ];
    let created = vec!["2024-01-01 00:00".to_string(), "2024-01-02 00:00".to_string()];
    assert_eq!(
        history_table(&jobs, &created, false),
        "Job ID   Label  Creation Time\nj1       main   2024-01-01 00:00\njob-two         2024-01-02 \
         00:00"
    );
}

#[test]
fn vulnerability_headings() {
    let v = Vulnerability {
        name: "CVE-1".to_string(),
        summary: "Bad thing".to_string(),
        vulnerable_dependencies: Vec::new(),
    };
    assert_eq!(v.pretty_colored(false), "[unaffected] CVE-1 \u{2014} Bad thing\n");
    assert_eq!(v.pretty_verbose_colored(false), "[unaffected] CVE-1 \u{2014} Bad thing\n");
}

#[test]
fn reachability_paths_are_listed_once_each() {
    let path = |names: &[&str]| names.iter().map(|n| n.to_string()).collect::<Vec<_>>();
    let v = Vulnerability {
        name: "CVE-2".to_string(),
        summary: "Reachable".to_string(),
        vulnerable_dependencies: vec![
            path(&["app", "lib", "vuln"]),
            path(&[]),
            path(&["app", "vuln"]),
            path(&["app", "lib", "vuln"]),
        ],
    };
    assert_eq!(
        v.pretty_verbose_colored(false),
        "[affected] CVE-2 \u{2014} Reachable\nReachability paths:\n    app -> lib -> vuln\n    app -> vuln\n"
    );
    assert!(v.pretty_verbose_colored(true).contains("    app \x1b[34m->\x1b[0m vuln\n"));
}

#[test]
fn extension_listings() {
    assert_eq!(list_extensions(&Vec::new()), "No extensions are currently installed.\n");
    let mut manifest = ExtensionManifest::new("hello".to_string());
    manifest.description = Some("Says hello".to_string());
    let a = Extension::from_manifest("/x/hello".to_string(), manifest).unwrap();
    let b = Extension::from_manifest("/x/a-very-long-extension-name".to_string(), ExtensionManifest::new("a-very-long-extension-name".to_string())).unwrap();
    assert_eq!(
        list_extensions(&vec![a, b]),
        "\x1b[34mExtension Name         Description\x1b[0m\nhello                  Says hello\na-very-long-extension-name   \n"
    );
}
