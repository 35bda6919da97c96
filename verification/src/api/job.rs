//! Routes of the job service (`<api>/api/v0/job/...`).

use vstd::prelude::*;

use crate::api::{hyphenated, JobId};
use crate::text::{decimal, decimal_of, hex_digits, push_all, push_lit, push_str, string_of};

verus! {

/// Path of the API below the service URL.
pub const API_PATH: &'static str = "api/v0";

/// `<api_uri>/api/v0/` followed by `rest`.
pub open spec fn legacy_url(api_uri: Seq<char>, rest: Seq<char>) -> Seq<char> {
    api_uri + "/"@ + API_PATH@ + "/"@ + rest
}

/// Builds `<api_uri>/api/v0/<rest>` from its parts.
pub fn legacy_url_of(api_uri: &str, rest: &Vec<char>) -> (r: String)
    ensures
        r@ == legacy_url(api_uri@, rest@),
{
    let mut out: Vec<char> = Vec::new();
    push_str(&mut out, api_uri);
    push_lit(&mut out, "/");
    push_lit(&mut out, API_PATH);
    push_lit(&mut out, "/");
    push_all(&mut out, rest);
    string_of(&out)
}

/// A package to look up: its ecosystem, name and version.
pub struct PackageDescriptor {
    pub name: String,
    pub version: String,
    pub package_type: String,
}

/// `s` with every `/` replaced by `~`.
pub open spec fn slash_to_tilde(s: Seq<char>) -> Seq<char> {
    s.map_values(|c: char| if c == '/' { '~' } else { c })
}

/// PUT /job
pub fn put_submit_package(api_uri: &str) -> (r: String)
    ensures
        r@ == legacy_url(api_uri@, "job"@),
{
    let mut rest: Vec<char> = Vec::new();
    push_lit(&mut rest, "job");
    legacy_url_of(api_uri, &rest)
}

/// GET /job/auth_status
pub fn get_auth_status(api_uri: &str) -> (r: String)
    ensures
        r@ == legacy_url(api_uri@, "job/auth_status"@),
{
    let mut rest: Vec<char> = Vec::new();
    push_lit(&mut rest, "job/auth_status");
    legacy_url_of(api_uri, &rest)
}

/// GET /job/heartbeat
pub fn get_ping(api_uri: &str) -> (r: String)
    ensures
        r@ == legacy_url(api_uri@, "job/heartbeat"@),
{
    let mut rest: Vec<char> = Vec::new();
    push_lit(&mut rest, "job/heartbeat");
    legacy_url_of(api_uri, &rest)
}

/// GET /job/
pub fn get_all_jobs_status(api_uri: &str, limit: u32) -> (r: String)
    ensures
        r@ == legacy_url(api_uri@, "job/?limit="@ + decimal(limit as nat) + "&verbose=1"@),
{
    let mut rest: Vec<char> = Vec::new();
    push_lit(&mut rest, "job/?limit=");
    let digits = decimal_of(limit as u64);
    push_all(&mut rest, &digits);
    push_lit(&mut rest, "&verbose=1");
    legacy_url_of(api_uri, &rest)
}

/// Get /job/<job_id>
pub fn get_job_status(api_uri: &str, job_id: &JobId, verbose: bool) -> (r: String)
    ensures
        r@ == legacy_url(
            api_uri@,
            "job/"@ + hyphenated(hex_digits(job_id.value as nat, 32)) + if verbose {
                "?verbose=True"@
            } else {
                Seq::<char>::empty()
            },
        ),
{
    let mut rest: Vec<char> = Vec::new();
    push_lit(&mut rest, "job/");
    let id = job_id.to_string();
    push_str(&mut rest, id.as_str());
    if verbose {
        push_lit(&mut rest, "?verbose=True");
    }
    proof {
        if !verbose {
            assert(rest@ =~= "job/"@ + hyphenated(hex_digits(job_id.value as nat, 32))
                + Seq::<char>::empty());
        }
    }
    legacy_url_of(api_uri, &rest)
}

/// DELETE /request/packages/<job_id>
pub fn delete_job(api_uri: &str, job_id: &JobId) -> (r: String)
    ensures
        r@ == legacy_url(api_uri@, "job/"@ + hyphenated(hex_digits(job_id.value as nat, 32))),
{
    let mut rest: Vec<char> = Vec::new();
    push_lit(&mut rest, "job/");
    let id = job_id.to_string();
    push_str(&mut rest, id.as_str());
    legacy_url_of(api_uri, &rest)
}

/// GET /job/packages/<type>/<name>/<version>, with `/` in the name replaced by `~`.
pub fn get_package_status(api_uri: &str, pkg: &PackageDescriptor) -> (r: String)
    ensures
        r@ == legacy_url(
            api_uri@,
            "job/packages/"@ + pkg.package_type@ + "/"@ + slash_to_tilde(pkg.name@) + "/"@
                + pkg.version@,
        ),
{
    let name = crate::text::chars_of(pkg.name.as_str());
    let mut escaped: Vec<char> = Vec::new();
    let mut i: usize = 0;
    while i < name.len()
        invariant
            i <= name@.len(),
            escaped@ == slash_to_tilde(name@.take(i as int)),
        decreases name@.len() - i,
    {
        let c = name[i];
        escaped.push(if c == '/' { '~' } else { c });
        i = i + 1;
        assert(slash_to_tilde(name@.take(i as int)) =~= slash_to_tilde(name@.take(i - 1)).push(
            if c == '/' { '~' } else { c },
        ));
    }
    assert(name@.take(name@.len() as int) =~= name@);
    let mut rest: Vec<char> = Vec::new();
    push_lit(&mut rest, "job/packages/");
    push_str(&mut rest, pkg.package_type.as_str());
    push_lit(&mut rest, "/");
    push_all(&mut rest, &escaped);
    push_lit(&mut rest, "/");
    push_str(&mut rest, pkg.version.as_str());
    legacy_url_of(api_uri, &rest)
}

/// GET /job/projects/name/<pkg_id>
pub fn get_project_details(api_uri: &str, pkg_id: &str) -> (r: String)
    ensures
        r@ == legacy_url(api_uri@, "job/projects/name/"@ + pkg_id@),
{
    let mut rest: Vec<char> = Vec::new();
    push_lit(&mut rest, "job/projects/name/");
    push_str(&mut rest, pkg_id);
    legacy_url_of(api_uri, &rest)
}

} // verus!
