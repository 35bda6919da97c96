use phylum_cli::api::endpoints::{
    delete_project, get_all_jobs_status, get_api_path, get_group_project_history, get_job_status,
    get_ping, get_project_history, get_project_summary, group_create, group_delete, group_list,
    group_members, group_project_summary, group_usermod, oidc_discovery, parse_base_url,
    post_create_project, post_submit_job, post_submit_package, set_owner,
};
use phylum_cli::api::JobId;
use phylum_cli::api::project::{project_list_url, project_page_url};

const API_URI: &str = "https://example.com/a";
const API_PATH: &str = "api/v0/";

#[test]
fn get_api_path_returns_api_base() {
    assert_eq!(get_api_path("https://example.com/").unwrap().as_str(), "https://example.com/api/v0/",);
    assert_eq!(
        get_api_path("https://example.com/a").unwrap().as_str(),
        "https://example.com/a/api/v0/",
    );
    assert_eq!(
        get_api_path("https://example.com/search?q=invalid#search").unwrap().as_str(),
        "https://example.com/search/api/v0/",
    );
}

#[test]
fn put_submit_job_is_correct() {
    assert_eq!(post_submit_job(API_URI).unwrap().as_str(), format!("{API_URI}/{API_PATH}data/jobs"),);
}

#[test]
fn get_ping_is_correct() {
    assert_eq!(get_ping(API_URI).unwrap().as_str(), format!("{API_URI}/{API_PATH}health"),);
}

#[test]
fn get_all_jobs_status_is_correct() {
    assert_eq!(
        get_all_jobs_status(API_URI, 123).unwrap().as_str(),
        format!("{API_URI}/{API_PATH}data/jobs/?limit=123&verbose=1"),
    );
}

#[test]
fn get_job_status_is_correct() {
    const JOB_ID: &str = "e00ad8fd-73b2-4259-b4ed-a188a405f5eb";
    let job_id = JobId::parse_str(JOB_ID).unwrap();

    assert_eq!(
        get_job_status(API_URI, &job_id, false).unwrap().as_str(),
        format!("{API_URI}/{API_PATH}data/jobs/{JOB_ID}"),
    );
    assert_eq!(
        get_job_status(API_URI, &job_id, true).unwrap().as_str(),
        format!("{API_URI}/{API_PATH}data/jobs/{JOB_ID}?verbose=True"),
    );
}

#[test]
fn post_submit_package_is_correct() {
    assert_eq!(
        post_submit_package(API_URI).unwrap().as_str(),
        format!("{API_URI}/{API_PATH}data/packages/submit"),
    );
}

#[test]
fn get_project_summary_is_correct() {
    assert_eq!(
        get_project_summary(API_URI).unwrap().as_str(),
        format!("{API_URI}/{API_PATH}data/projects/overview"),
    );
}

#[test]
fn put_create_project_is_correct() {
    assert_eq!(
        post_create_project(API_URI).unwrap().as_str(),
        format!("{API_URI}/{API_PATH}data/projects"),
    );
}

#[test]
fn delete_project_is_correct() {
    assert_eq!(
        delete_project(API_URI, "12345678-90ab-cdef-1234-567890abcdef").unwrap().as_str(),
        format!("{API_URI}/{API_PATH}data/projects/12345678-90ab-cdef-1234-567890abcdef"),
    );
}

#[test]
fn group_list_is_correct() {
    assert_eq!(group_list(API_URI).unwrap().as_str(), format!("{API_URI}/{API_PATH}groups"),);
}

#[test]
fn group_create_is_correct() {
    assert_eq!(group_create(API_URI).unwrap().as_str(), format!("{API_URI}/{API_PATH}groups"),);
}

#[test]
fn group_project_summary_is_correct() {
    assert_eq!(
        group_project_summary(API_URI, "acme/misc. projects").unwrap().as_str(),
        format!("{API_URI}/{API_PATH}groups/acme%2Fmisc.%20projects/projects"),
    );
}

#[test]
fn oidc_discovery_is_correct() {
    assert_eq!(
        oidc_discovery(API_URI).unwrap().as_str(),
        format!("{API_URI}/{API_PATH}.well-known/openid-configuration"),
    );
}

#[test]
fn base_url_strips_query_and_fragment() {
    assert_eq!(
        parse_base_url("https://example.com/x?y=1#z").unwrap().as_str(),
        "https://example.com/x/"
    );
}

#[test]
fn unparsable_api_url_is_an_error() {
    assert!(get_ping("not a url").is_err());
    assert!(parse_base_url("mailto:someone@example.com").is_err());
}

#[test]
fn segment_routes_are_escaped_and_joined() {
    assert_eq!(
        get_project_history(API_URI, "p1").unwrap().as_str(),
        format!("{API_URI}/{API_PATH}data/projects/p1/history"),
    );
    assert_eq!(
        get_group_project_history(API_URI, "p1", "g 1").unwrap().as_str(),
        format!("{API_URI}/{API_PATH}groups/g%201/projects/p1/history"),
    );
    assert_eq!(
        group_delete(API_URI, "g").unwrap().as_str(),
        format!("{API_URI}/{API_PATH}groups/g"),
    );
    assert_eq!(
        group_usermod(API_URI, "g", "a@b.c").unwrap().as_str(),
        format!("{API_URI}/{API_PATH}groups/g/members/a@b.c"),
    );
    assert_eq!(
        group_members(API_URI, "g").unwrap().as_str(),
        format!("{API_URI}/{API_PATH}groups/g/members"),
    );
    assert_eq!(
        set_owner(API_URI, "g", "o").unwrap().as_str(),
        format!("{API_URI}/{API_PATH}groups/g/owner/o"),
    );
}

#[test]
fn job_id_round_trips_through_its_display_form() {
    let id = JobId::parse_str("E00AD8FD-73B2-4259-B4ED-A188A405F5EB").unwrap();
    assert_eq!(id.to_string(), "e00ad8fd-73b2-4259-b4ed-a188a405f5eb");
    assert_eq!(id.value, 0xe00ad8fd73b24259b4eda188a405f5eb);
    assert!(JobId::parse_str("not-a-uuid").is_err());
}

#[test]
fn project_listings_are_filtered_and_paged() {
    let base = "https://api.phylum.io/api/v0/data/projects";
    let url = project_list_url(base, Some("org"), Some("grp"), Some("web")).unwrap();
    assert_eq!(url, format!("{base}?filter.group=org%2Fgrp&filter.name=web&paginate.limit=100"));
    assert_eq!(
        project_list_url(base, Some("org"), None, None).unwrap(),
        format!("{base}?filter.organization=org&paginate.limit=100")
    );
    assert_eq!(
        project_list_url(base, None, Some("grp"), None).unwrap(),
        format!("{base}?filter.group=grp&paginate.limit=100")
    );
    assert_eq!(project_list_url(base, None, None, None).unwrap(), format!("{base}?paginate.limit=100"));
    assert_eq!(project_page_url(&url, None).unwrap(), url);
    assert_eq!(project_page_url(&url, Some("abc")).unwrap(), format!("{url}&paginate.cursor=abc"));
    assert!(project_list_url("not a url", None, None, None).is_none());
}

#[test]
fn job_ids_read_simple_and_hyphenated_forms() {
    let id = JobId::parse_str("550e8400-e29b-41d4-a716-446655440000").unwrap();
    assert_eq!(id.value, 0x550e8400_e29b_41d4_a716_446655440000);
    let simple = JobId::parse_str("550E8400E29B41D4A716446655440000").unwrap();
    assert_eq!(simple, id);
    assert!(JobId::parse_str("550e8400-e29b-41d4-a716-44665544000g").is_err());
}
