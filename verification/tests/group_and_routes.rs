use phylum_cli::api::job::{
    delete_job, get_all_jobs_status, get_auth_status, get_job_status, get_package_status,
    get_ping, get_project_details, put_submit_package, PackageDescriptor,
};
use phylum_cli::api::project::{get_project_summary, put_create_project};
use phylum_cli::api::user_settings::{get_user_settings, put_user_settings};
use phylum_cli::api::{Group, JobId};

#[test]
fn groups_with_and_without_organization() {
    assert!(Group::try_new(Some("acme".to_string()), None).is_none());
    let legacy = Group::try_new(None, Some("devs".to_string())).unwrap();
    assert_eq!(legacy.org(), None);
    assert_eq!(legacy.name(), "devs");
    assert_eq!(legacy.combined_format(), "devs");
    let org = Group::try_new(Some("acme".to_string()), Some("devs".to_string())).unwrap();
    assert_eq!(org.org(), Some("acme"));
    assert_eq!(org.name(), "devs");
    assert_eq!(org.combined_format(), "acme/devs");
}

const URI: &str = "https://api.example.com";

#[test]
fn job_service_routes() {
    let id = JobId::parse_str("e00ad8fd-73b2-4259-b4ed-a188a405f5eb").unwrap();
    assert_eq!(put_submit_package(URI), "https://api.example.com/api/v0/job");
    assert_eq!(get_auth_status(URI), "https://api.example.com/api/v0/job/auth_status");
    assert_eq!(get_ping(URI), "https://api.example.com/api/v0/job/heartbeat");
    assert_eq!(
        get_all_jobs_status(URI, 30),
        "https://api.example.com/api/v0/job/?limit=30&verbose=1"
    );
    assert_eq!(
        get_job_status(URI, &id, true),
        "https://api.example.com/api/v0/job/e00ad8fd-73b2-4259-b4ed-a188a405f5eb?verbose=True"
    );
    assert_eq!(
        get_job_status(URI, &id, false),
        "https://api.example.com/api/v0/job/e00ad8fd-73b2-4259-b4ed-a188a405f5eb"
    );
    assert_eq!(
        delete_job(URI, &id),
        "https://api.example.com/api/v0/job/e00ad8fd-73b2-4259-b4ed-a188a405f5eb"
    );
    let pkg = PackageDescriptor {
        name: "@angular/core".to_string(),
        version: "9.1.9".to_string(),
        package_type: "npm".to_string(),
    };
    assert_eq!(
        get_package_status(URI, &pkg),
        "https://api.example.com/api/v0/job/packages/npm/@angular~core/9.1.9"
    );
    assert_eq!(
        get_project_details(URI, "proj"),
        "https://api.example.com/api/v0/job/projects/name/proj"
    );
}

#[test]
fn project_and_settings_routes() {
    assert_eq!(get_project_summary(URI), "https://api.example.com/api/v0/job/projects/overview");
    assert_eq!(put_create_project(URI), "https://api.example.com/api/v0/job/projects");
    assert_eq!(get_user_settings(URI), "https://api.example.com/api/v0/settings/current-user");
    assert_eq!(put_user_settings(URI), "https://api.example.com/api/v0/settings/current-user");
}

#[test]
fn zero_limit_is_written_as_zero() {
    assert_eq!(get_all_jobs_status(URI, 0), "https://api.example.com/api/v0/job/?limit=0&verbose=1");
    assert_eq!(
        get_all_jobs_status(URI, u32::MAX),
        "https://api.example.com/api/v0/job/?limit=4294967295&verbose=1"
    );
}
