//! API endpoint URLs.
//!
//! URLs are carried as their serialization (`Url::as_str`); every step that
//! interprets one goes through the `url` crate.

use vstd::prelude::*;

use crate::api::{hyphenated, JobId};
use crate::text::{decimal, decimal_of, hex_digits, push_lit, string_of};

verus! {

/// The error the `url` crate reports for an unusable URL.
#[verifier::external_type_specification]
#[verifier::external_body]
pub struct ExUrlParseError(url::ParseError);

/// The configured API URL could not be used as a base URL.
#[derive(Debug)]
pub struct BaseUriError(pub url::ParseError);

/// Serialization of `url::Url::parse(input)`, or `None` where it fails.
pub uninterp spec fn url_parsed(input: Seq<char>) -> Option<Seq<char>>;

/// Serialization of `Url::join` of `input` onto the URL serialized as `base`.
pub uninterp spec fn url_joined(base: Seq<char>, input: Seq<char>) -> Option<Seq<char>>;

/// The URL serialized as `url` after `path_segments_mut().pop_if_empty().push("")`;
/// `None` where it cannot be a base.
pub uninterp spec fn url_as_directory(url: Seq<char>) -> Option<Seq<char>>;

/// The URL serialized as `url` after `set_query(None)`.
pub uninterp spec fn url_query_cleared(url: Seq<char>) -> Option<Seq<char>>;

/// The URL serialized as `url` after `set_fragment(None)`.
pub uninterp spec fn url_fragment_cleared(url: Seq<char>) -> Option<Seq<char>>;

/// The URL serialized as `url` after `path_segments_mut().pop_if_empty().extend(segments)`.
pub uninterp spec fn url_path_extended(url: Seq<char>, segments: Seq<Seq<char>>) -> Option<
    Seq<char>,
>;

/// The URL serialized as `url` after `query_pairs_mut().append_pair(key, value)`.
pub uninterp spec fn url_query_appended(url: Seq<char>, key: Seq<char>, value: Seq<char>) -> Option<
    Seq<char>,
>;

/// Calls `url::Url::parse`. Trusted: success and the serialization are the
/// ones `url_parsed` names; the error kind is not described.
#[verifier::external_body]
fn parse_url(input: &str) -> (r: Result<String, url::ParseError>)
    ensures
        r is Ok <==> url_parsed(input@) is Some,
        r matches Ok(u) ==> url_parsed(input@) == Some(u@),
{
    let u = url::Url::parse(input)?;
    Ok(u.to_string())
}

/// Calls `Url::join` on the URL that `base` serializes. Trusted: success and
/// the serialization are the ones `url_joined` names.
#[verifier::external_body]
fn join_url(base: &str, input: &str) -> (r: Result<String, url::ParseError>)
    ensures
        r is Ok <==> url_joined(base@, input@) is Some,
        r matches Ok(u) ==> url_joined(base@, input@) == Some(u@),
{
    let b = url::Url::parse(base)?;
    let u = b.join(input)?;
    Ok(u.to_string())
}

/// Calls `path_segments_mut().pop_if_empty().push("")` on the URL that `url`
/// serializes. Trusted: the outcome is the one `url_as_directory` names.
#[verifier::external_body]
fn as_directory(url: &str) -> (r: Option<String>)
    ensures
        r.is_some() <==> url_as_directory(url@) is Some,
        r matches Some(u) ==> url_as_directory(url@) == Some(u@),
{
    let mut u = url::Url::parse(url).ok()?;
    u.path_segments_mut().ok()?.pop_if_empty().push("");
    Some(u.to_string())
}

/// Calls `set_query(None)` on the URL that `url` serializes. Trusted: the
/// outcome is the one `url_query_cleared` names.
#[verifier::external_body]
fn clear_query(url: &str) -> (r: Option<String>)
    ensures
        r.is_some() <==> url_query_cleared(url@) is Some,
        r matches Some(u) ==> url_query_cleared(url@) == Some(u@),
{
    let mut u = url::Url::parse(url).ok()?;
    u.set_query(None);
    Some(u.to_string())
}

/// Calls `set_fragment(None)` on the URL that `url` serializes. Trusted: the
/// outcome is the one `url_fragment_cleared` names.
#[verifier::external_body]
fn clear_fragment(url: &str) -> (r: Option<String>)
    ensures
        r.is_some() <==> url_fragment_cleared(url@) is Some,
        r matches Some(u) ==> url_fragment_cleared(url@) == Some(u@),
{
    let mut u = url::Url::parse(url).ok()?;
    u.set_fragment(None);
    Some(u.to_string())
}

/// Calls `path_segments_mut().pop_if_empty().extend(segments)` on the URL that
/// `url` serializes. Trusted: the outcome is the one `url_path_extended` names.
#[verifier::external_body]
fn extend_path(url: &str, segments: &Vec<String>) -> (r: Option<String>)
    ensures
        r.is_some() <==> url_path_extended(url@, segments.deep_view()) is Some,
        r matches Some(u) ==> url_path_extended(url@, segments.deep_view()) == Some(u@),
{
    let mut u = url::Url::parse(url).ok()?;
    u.path_segments_mut().ok()?.pop_if_empty().extend(segments);
    Some(u.to_string())
}

/// Calls `query_pairs_mut().append_pair(key, value)` on the URL that `url`
/// serializes. Trusted: the outcome is the one `url_query_appended` names.
#[verifier::external_body]
pub(crate) fn append_query_pair(url: &str, key: &str, value: &str) -> (r: Option<String>)
    ensures
        r.is_some() <==> url_query_appended(url@, key@, value@) is Some,
        r matches Some(u) ==> url_query_appended(url@, key@, value@) == Some(u@),
{
    let mut u = url::Url::parse(url).ok()?;
    u.query_pairs_mut().append_pair(key, value);
    Some(u.to_string())
}

/// The URL serialized as `url` after `path_segments_mut().pop().push(segment)`.
pub uninterp spec fn url_last_segment_replaced(url: Seq<char>, segment: Seq<char>) -> Option<
    Seq<char>,
>;

/// The URL serialized as `url` after `query_pairs_mut().clear()`.
pub uninterp spec fn url_query_pairs_cleared(url: Seq<char>) -> Option<Seq<char>>;

/// Calls `path_segments_mut().pop().push(segment)` on the URL that `url`
/// serializes. Trusted: the outcome is the one `url_last_segment_replaced` names.
#[verifier::external_body]
pub(crate) fn replace_last_segment(url: &str, segment: &str) -> (r: Option<String>)
    ensures
        r.is_some() <==> url_last_segment_replaced(url@, segment@) is Some,
        r matches Some(u) ==> url_last_segment_replaced(url@, segment@) == Some(u@),
{
    let mut u = url::Url::parse(url).ok()?;
    u.path_segments_mut().ok()?.pop().push(segment);
    Some(u.to_string())
}

/// Calls `query_pairs_mut().clear()` on the URL that `url` serializes.
/// Trusted: the outcome is the one `url_query_pairs_cleared` names.
#[verifier::external_body]
pub(crate) fn clear_query_pairs(url: &str) -> (r: Option<String>)
    ensures
        r.is_some() <==> url_query_pairs_cleared(url@) is Some,
        r matches Some(u) ==> url_query_pairs_cleared(url@) == Some(u@),
{
    let mut u = url::Url::parse(url).ok()?;
    u.query_pairs_mut().clear();
    Some(u.to_string())
}

/// The error `url` reports for a URL that cannot be a base.
#[verifier::external_body]
pub(crate) fn cannot_be_a_base() -> url::ParseError {
    url::ParseError::RelativeUrlWithCannotBeABaseBase
}

/// The base URL made from the configured API URL: parsed, its path ending in
/// a slash, without query and fragment.
pub open spec fn base_url(api_uri: Seq<char>) -> Option<Seq<char>> {
    match url_parsed(api_uri) {
        None => None,
        Some(u) => match url_as_directory(u) {
            None => None,
            Some(d) => match url_query_cleared(d) {
                None => None,
                Some(q) => url_fragment_cleared(q),
            },
        },
    }
}

/// The API root: `api/v0/` joined onto the base URL.
pub open spec fn api_path(api_uri: Seq<char>) -> Option<Seq<char>> {
    match base_url(api_uri) {
        None => None,
        Some(b) => url_joined(b, "api/v0/"@),
    }
}

/// A relative reference joined onto the API root.
pub open spec fn api_route(api_uri: Seq<char>, rel: Seq<char>) -> Option<Seq<char>> {
    match api_path(api_uri) {
        None => None,
        Some(a) => url_joined(a, rel),
    }
}

/// Path segments appended to the API root.
pub open spec fn api_segments(api_uri: Seq<char>, segs: Seq<Seq<char>>) -> Option<Seq<char>> {
    match api_path(api_uri) {
        None => None,
        Some(a) => url_path_extended(a, segs),
    }
}

/// Whether a URL result agrees with a spec-level outcome.
pub open spec fn url_result_is(r: Result<String, BaseUriError>, spec: Option<Seq<char>>) -> bool {
    &&& (r is Ok <==> spec is Some)
    &&& (r matches Ok(u) ==> spec == Some(u@))
}

/// Normalizes the configured API URL into a base URL.
pub fn parse_base_url(api_uri: &str) -> (r: Result<String, BaseUriError>)
    ensures
        url_result_is(r, base_url(api_uri@)),
{
    let url = match parse_url(api_uri) {
        Ok(u) => u,
        Err(e) => return Err(BaseUriError(e)),
    };
    // Ensure the path can be a base and ends with a slash so it can be safely
    // joined to.
    let url = match as_directory(url.as_str()) {
        Some(u) => u,
        None => return Err(BaseUriError(cannot_be_a_base())),
    };
    // Ensure there are no extra bits.
    let url = match clear_query(url.as_str()) {
        Some(u) => u,
        None => return Err(BaseUriError(cannot_be_a_base())),
    };
    match clear_fragment(url.as_str()) {
        Some(u) => Ok(u),
        None => Err(BaseUriError(cannot_be_a_base())),
    }
}

/// The API root URL for the configured API URL.
pub fn get_api_path(api_uri: &str) -> (r: Result<String, BaseUriError>)
    ensures
        url_result_is(r, api_path(api_uri@)),
{
    let base = parse_base_url(api_uri)?;
    match join_url(base.as_str(), "api/v0/") {
        Ok(u) => Ok(u),
        Err(e) => Err(BaseUriError(e)),
    }
}

/// Joins a relative reference onto the API root.
fn api_join(api_uri: &str, rel: &str) -> (r: Result<String, BaseUriError>)
    ensures
        url_result_is(r, api_route(api_uri@, rel@)),
{
    let api = get_api_path(api_uri)?;
    match join_url(api.as_str(), rel) {
        Ok(u) => Ok(u),
        Err(e) => Err(BaseUriError(e)),
    }
}

/// Appends path segments to the API root.
fn api_extend(api_uri: &str, segments: &Vec<String>) -> (r: Result<String, BaseUriError>)
    ensures
        url_result_is(r, api_segments(api_uri@, segments.deep_view())),
{
    let api = get_api_path(api_uri)?;
    match extend_path(api.as_str(), segments) {
        Some(u) => Ok(u),
        None => Err(BaseUriError(cannot_be_a_base())),
    }
}

/// POST /data/jobs
pub fn post_submit_job(api_uri: &str) -> (r: Result<String, BaseUriError>)
    ensures
        url_result_is(r, api_route(api_uri@, "data/jobs"@)),
{
    api_join(api_uri, "data/jobs")
}

/// GET /health
pub fn get_ping(api_uri: &str) -> (r: Result<String, BaseUriError>)
    ensures
        url_result_is(r, api_route(api_uri@, "health"@)),
{
    api_join(api_uri, "health")
}

/// The relative reference listing jobs: `data/jobs/?limit=<limit>&verbose=1`.
pub open spec fn all_jobs_reference(limit: u32) -> Seq<char> {
    "data/jobs/?limit="@ + decimal(limit as nat) + "&verbose=1"@
}

/// GET /data/jobs/
pub fn get_all_jobs_status(api_uri: &str, limit: u32) -> (r: Result<String, BaseUriError>)
    ensures
        url_result_is(r, api_route(api_uri@, all_jobs_reference(limit))),
{
    let mut rel: Vec<char> = Vec::new();
    push_lit(&mut rel, "data/jobs/?limit=");
    let digits = decimal_of(limit as u64);
    let mut i: usize = 0;
    let ghost start = rel@;
    while i < digits.len()
        invariant
            i <= digits@.len(),
            rel@ == start + digits@.take(i as int),
        decreases digits@.len() - i,
    {
        rel.push(digits[i]);
        i = i + 1;
        assert(digits@.take(i as int) =~= digits@.take(i - 1).push(digits@[i - 1]));
    }
    assert(digits@.take(digits@.len() as int) =~= digits@);
    push_lit(&mut rel, "&verbose=1");
    let rel = string_of(&rel);
    api_join(api_uri, rel.as_str())
}

/// The URL of one job, `verbose=True` appended as query pair when asked for.
pub open spec fn job_status_url(api_uri: Seq<char>, job_id: JobId, verbose: bool) -> Option<
    Seq<char>,
> {
    let segs = seq!["data"@, "jobs"@, hyphenated(hex_digits(job_id.value as nat, 32))];
    match api_segments(api_uri, segs) {
        None => None,
        Some(u) => if verbose {
            url_query_appended(u, "verbose"@, "True"@)
        } else {
            Some(u)
        },
    }
}

/// GET /data/jobs/<job_id>
pub fn get_job_status(api_uri: &str, job_id: &JobId, verbose: bool) -> (r: Result<
    String,
    BaseUriError,
>)
    ensures
        url_result_is(r, job_status_url(api_uri@, *job_id, verbose)),
{
    let segments = vec![String::from_str("data"), String::from_str("jobs"), job_id.to_string()];
    proof {
        assert(segments.deep_view() =~= seq![
            "data"@,
            "jobs"@,
            hyphenated(hex_digits(job_id.value as nat, 32)),
        ]);
    }
    let url = api_extend(api_uri, &segments)?;
    if verbose {
        match append_query_pair(url.as_str(), "verbose", "True") {
            Some(u) => Ok(u),
            None => Err(BaseUriError(cannot_be_a_base())),
        }
    } else {
        Ok(url)
    }
}

/// POST /data/packages/submit
pub fn post_submit_package(api_uri: &str) -> (r: Result<String, BaseUriError>)
    ensures
        url_result_is(r, api_route(api_uri@, "data/packages/submit"@)),
{
    api_join(api_uri, "data/packages/submit")
}

/// GET /data/projects/<project_id>/history
pub fn get_project_history(api_uri: &str, project_id: &str) -> (r: Result<String, BaseUriError>)
    ensures
        url_result_is(
            r,
            api_segments(api_uri@, seq!["data"@, "projects"@, project_id@, "history"@]),
        ),
{
    let segments = vec![
        String::from_str("data"),
        String::from_str("projects"),
        String::from_str(project_id),
        String::from_str("history"),
    ];
    proof {
        assert(segments.deep_view() =~= seq!["data"@, "projects"@, project_id@, "history"@]);
    }
    api_extend(api_uri, &segments)
}

/// GET /groups/<group_name>/projects/<project_id>/history
pub fn get_group_project_history(api_uri: &str, project_id: &str, group_name: &str) -> (r: Result<
    String,
    BaseUriError,
>)
    ensures
        url_result_is(
            r,
            api_segments(
                api_uri@,
                seq!["groups"@, group_name@, "projects"@, project_id@, "history"@],
            ),
        ),
{
    let segments = vec![
        String::from_str("groups"),
        String::from_str(group_name),
        String::from_str("projects"),
        String::from_str(project_id),
        String::from_str("history"),
    ];
    proof {
        assert(segments.deep_view() =~= seq![
            "groups"@,
            group_name@,
            "projects"@,
            project_id@,
            "history"@,
        ]);
    }
    api_extend(api_uri, &segments)
}

/// GET /data/projects/overview
pub fn get_project_summary(api_uri: &str) -> (r: Result<String, BaseUriError>)
    ensures
        url_result_is(r, api_route(api_uri@, "data/projects/overview"@)),
{
    api_join(api_uri, "data/projects/overview")
}

/// POST /data/projects
pub fn post_create_project(api_uri: &str) -> (r: Result<String, BaseUriError>)
    ensures
        url_result_is(r, api_route(api_uri@, "data/projects"@)),
{
    api_join(api_uri, "data/projects")
}

/// DELETE /data/projects/<project_id>
pub fn delete_project(api_uri: &str, project_id: &str) -> (r: Result<String, BaseUriError>)
    ensures
        url_result_is(r, api_segments(api_uri@, seq!["data"@, "projects"@, project_id@])),
{
    let segments = vec![
        String::from_str("data"),
        String::from_str("projects"),
        String::from_str(project_id),
    ];
    proof {
        assert(segments.deep_view() =~= seq!["data"@, "projects"@, project_id@]);
    }
    api_extend(api_uri, &segments)
}

/// GET /groups
pub fn group_list(api_uri: &str) -> (r: Result<String, BaseUriError>)
    ensures
        url_result_is(r, api_route(api_uri@, "groups"@)),
{
    api_join(api_uri, "groups")
}

/// POST /groups
pub fn group_create(api_uri: &str) -> (r: Result<String, BaseUriError>)
    ensures
        url_result_is(r, api_route(api_uri@, "groups"@)),
{
    api_join(api_uri, "groups")
}

/// DELETE /groups/<groupName>
pub fn group_delete(api_uri: &str, group: &str) -> (r: Result<String, BaseUriError>)
    ensures
        url_result_is(r, api_segments(api_uri@, seq!["groups"@, group@])),
{
    let segments = vec![String::from_str("groups"), String::from_str(group)];
    proof {
        assert(segments.deep_view() =~= seq!["groups"@, group@]);
    }
    api_extend(api_uri, &segments)
}

/// GET /groups/<groupName>/projects
pub fn group_project_summary(api_uri: &str, group: &str) -> (r: Result<String, BaseUriError>)
    ensures
        url_result_is(r, api_segments(api_uri@, seq!["groups"@, group@, "projects"@])),
{
    let segments = vec![
        String::from_str("groups"),
        String::from_str(group),
        String::from_str("projects"),
    ];
    proof {
        assert(segments.deep_view() =~= seq!["groups"@, group@, "projects"@]);
    }
    api_extend(api_uri, &segments)
}

/// POST/DELETE /groups/<groupName>/members/<userEmail>
pub fn group_usermod(api_uri: &str, group: &str, user: &str) -> (r: Result<String, BaseUriError>)
    ensures
        url_result_is(r, api_segments(api_uri@, seq!["groups"@, group@, "members"@, user@])),
{
    let segments = vec![
        String::from_str("groups"),
        String::from_str(group),
        String::from_str("members"),
        String::from_str(user),
    ];
    proof {
        assert(segments.deep_view() =~= seq!["groups"@, group@, "members"@, user@]);
    }
    api_extend(api_uri, &segments)
}

/// GET /groups/<groupName>/members
pub fn group_members(api_uri: &str, group: &str) -> (r: Result<String, BaseUriError>)
    ensures
        url_result_is(r, api_segments(api_uri@, seq!["groups"@, group@, "members"@])),
{
    let segments = vec![
        String::from_str("groups"),
        String::from_str(group),
        String::from_str("members"),
    ];
    proof {
        assert(segments.deep_view() =~= seq!["groups"@, group@, "members"@]);
    }
    api_extend(api_uri, &segments)
}

/// PUT /groups/<groupName>/owner/<userEmail>
pub fn set_owner(api_uri: &str, group: &str, owner: &str) -> (r: Result<String, BaseUriError>)
    ensures
        url_result_is(r, api_segments(api_uri@, seq!["groups"@, group@, "owner"@, owner@])),
{
    let segments = vec![
        String::from_str("groups"),
        String::from_str(group),
        String::from_str("owner"),
        String::from_str(owner),
    ];
    proof {
        assert(segments.deep_view() =~= seq!["groups"@, group@, "owner"@, owner@]);
    }
    api_extend(api_uri, &segments)
}

/// GET /.well-known/openid-configuration
pub fn oidc_discovery(api_uri: &str) -> (r: Result<String, BaseUriError>)
    ensures
        url_result_is(r, api_route(api_uri@, ".well-known/openid-configuration"@)),
{
    api_join(api_uri, ".well-known/openid-configuration")
}

} // verus!
