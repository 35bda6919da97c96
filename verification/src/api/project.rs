//! Routes of the project service.

use vstd::prelude::*;

use crate::api::endpoints::{append_query_pair, url_query_appended};
use crate::api::job::{legacy_url, legacy_url_of};
use crate::auth::{form_view, lemma_with_query_pairs_none, with_query_pairs};
use crate::text::{opt_str, opt_view, push_lit};

verus! {

/// GET /job/projects/overview
pub fn get_project_summary(api_uri: &str) -> (r: String)
    ensures
        r@ == legacy_url(api_uri@, "job/projects/overview"@),
{
    let mut rest: Vec<char> = Vec::new();
    push_lit(&mut rest, "job/projects/overview");
    legacy_url_of(api_uri, &rest)
}

/// PUT /job/projects
pub fn put_create_project(api_uri: &str) -> (r: String)
    ensures
        r@ == legacy_url(api_uri@, "job/projects"@),
{
    let mut rest: Vec<char> = Vec::new();
    push_lit(&mut rest, "job/projects");
    legacy_url_of(api_uri, &rest)
}

/// Appends query pairs to a URL, in order, as `query_pairs_mut` would; `None`
/// where the URL cannot take them.
pub fn append_query_pairs(url: &str, pairs: &Vec<(String, String)>) -> (r: Option<String>)
    ensures
        opt_view(r) == with_query_pairs(Some(url@), form_view(pairs@)),
{
    let ghost wanted = form_view(pairs@);
    let mut cur = String::from_str(url);
    assert(wanted.take(0) =~= Seq::<(Seq<char>, Seq<char>)>::empty());
    let mut i: usize = 0;
    while i < pairs.len()
        invariant
            wanted == form_view(pairs@),
            i <= pairs@.len(),
            with_query_pairs(Some(url@), wanted.take(i as int)) == Some(cur@),
        decreases pairs@.len() - i,
    {
        proof {
            assert(wanted.take(i + 1).drop_last() =~= wanted.take(i as int));
            assert(wanted[i as int] == (pairs@[i as int].0@, pairs@[i as int].1@));
        }
        match append_query_pair(cur.as_str(), pairs[i].0.as_str(), pairs[i].1.as_str()) {
            Some(u) => {
                cur = u;
            },
            None => {
                proof {
                    lemma_with_query_pairs_none(Some(url@), wanted, i + 1);
                    assert(wanted.take(wanted.len() as int) =~= wanted);
                }
                return None;
            },
        }
        i = i + 1;
    }
    proof {
        assert(wanted.take(wanted.len() as int) =~= wanted);
    }
    Some(cur)
}

/// The query of a project listing: the organization and group filter (a
/// group of an organization as `org/group`), the name filter, and the
/// largest page size.
pub open spec fn project_list_pairs(
    org: Option<Seq<char>>,
    group: Option<Seq<char>>,
    name_filter: Option<Seq<char>>,
) -> Seq<(Seq<char>, Seq<char>)> {
    let owner = match (org, group) {
        (Some(o), Some(g)) => seq![("filter.group"@, o + "/"@ + g)],
        (Some(o), None) => seq![("filter.organization"@, o)],
        (None, Some(g)) => seq![("filter.group"@, g)],
        (None, None) => Seq::<(Seq<char>, Seq<char>)>::empty(),
    };
    let name = match name_filter {
        Some(n) => seq![("filter.name"@, n)],
        None => Seq::<(Seq<char>, Seq<char>)>::empty(),
    };
    owner + name + seq![("paginate.limit"@, "100"@)]
}

/// The URL listing the projects at `url`, filtered by organization, group
/// and name where given, with the largest page size.
pub fn project_list_url(url: &str, org: Option<&str>, group: Option<&str>, name_filter: Option<&str>) -> (r:
    Option<String>)
    ensures
        opt_view(r) == with_query_pairs(Some(url@), project_list_pairs(opt_str(org), opt_str(group), opt_str(name_filter))),
{
    let mut pairs: Vec<(String, String)> = Vec::new();
    match (org, group) {
        (Some(o), Some(g)) => {
            let mut v: Vec<char> = Vec::new();
            crate::text::push_str(&mut v, o);
            push_lit(&mut v, "/");
            crate::text::push_str(&mut v, g);
            pairs.push((String::from_str("filter.group"), crate::text::string_of(&v)));
        },
        (Some(o), None) => {
            pairs.push((String::from_str("filter.organization"), String::from_str(o)));
        },
        (None, Some(g)) => {
            pairs.push((String::from_str("filter.group"), String::from_str(g)));
        },
        (None, None) => {},
    }
    if let Some(n) = name_filter {
        pairs.push((String::from_str("filter.name"), String::from_str(n)));
    }
    pairs.push((String::from_str("paginate.limit"), String::from_str("100")));
    proof {
        assert(form_view(pairs@) =~= project_list_pairs(opt_str(org), opt_str(group), opt_str(name_filter)));
    }
    append_query_pairs(url, &pairs)
}

/// The URL of the next page of a project listing: after the first page,
/// the cursor is the ID of the last project received.
pub fn project_page_url(list_url: &str, last_project_id: Option<&str>) -> (r: Option<String>)
    ensures
        opt_view(r) == match last_project_id {
            None => Some(list_url@),
            Some(id) => url_query_appended(list_url@, "paginate.cursor"@, id@),
        },
{
    match last_project_id {
        None => Some(String::from_str(list_url)),
        Some(id) => append_query_pair(list_url, "paginate.cursor", id),
    }
}

} // verus!
