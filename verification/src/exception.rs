//! `phylum exception`: building a package suppression, and narrowing the
//! suppressions of a project or group down to those the command line names.

use vstd::prelude::*;

use crate::text::{chars_of, eq_lit, opt_str, opt_view};

verus! {

/// A suppressed issue.
#[derive(Debug)]
pub struct IgnoredIssue {
    pub id: String,
    pub tag: String,
    pub reason: String,
}

/// A suppressed package, named by its package URL.
#[derive(Debug)]
pub struct IgnoredPackage {
    pub purl: String,
    pub reason: String,
}

/// The suppressions of a project or group.
#[derive(Debug)]
pub struct Preferences {
    pub ignored_issues: Vec<IgnoredIssue>,
    pub ignored_packages: Vec<IgnoredPackage>,
}

/// The parts of a package URL that suppressions are found by.
#[derive(Debug, PartialEq, Eq)]
pub struct PurlComponents {
    /// The package type, as the package URL writes it (`npm`, `pypi`, ...).
    pub package_type: String,
    /// The namespace, where it is not empty.
    pub namespace: Option<String>,
    pub name: String,
    /// The version, where it is not empty.
    pub version: Option<String>,
}

/// The view of package URL parts: type, namespace, name, version.
pub open spec fn purl_view(c: PurlComponents) -> (Seq<char>, Option<Seq<char>>, Seq<char>, Option<Seq<char>>) {
    (c.package_type@, opt_view(c.namespace), c.name@, opt_view(c.version))
}

/// The view of optional package URL parts.
pub open spec fn opt_purl_view(c: Option<PurlComponents>) -> Option<
    (Seq<char>, Option<Seq<char>>, Seq<char>, Option<Seq<char>>),
> {
    match c {
        Some(c) => Some(purl_view(c)),
        None => None,
    }
}

/// The type, namespace, name and version that `purl::Purl::from_str` reads
/// from `text`, or `None` where it rejects it.
pub uninterp spec fn purl_parsed(text: Seq<char>) -> Option<
    (Seq<char>, Option<Seq<char>>, Seq<char>, Option<Seq<char>>),
>;

/// Parses a package URL with the `purl` crate (`Purl::from_str`) and takes
/// its type (as `Display` writes it), namespace, name and version apart.
/// Trusted: the result is the one `purl_parsed` names.
#[verifier::external_body]
pub(crate) fn parse_purl(text: &str) -> (r: Option<PurlComponents>)
    ensures
        opt_purl_view(r) == purl_parsed(text@),
{
    let purl = <purl::Purl as std::str::FromStr>::from_str(text).ok()?;
    Some(PurlComponents {
        package_type: purl.package_type().to_string(),
        namespace: purl.namespace().map(String::from),
        name: purl.name().to_string(),
        version: purl.version().map(String::from),
    })
}

/// Whether an optional filter lets `value` through: no filter, or an equal
/// one.
pub open spec fn passes(filter: Option<Seq<char>>, value: Seq<char>) -> bool {
    match filter {
        None => true,
        Some(f) => f == value,
    }
}

/// Whether an issue is named by the given ID and tag, where given.
pub open spec fn issue_named(issue: IgnoredIssue, id: Option<Seq<char>>, tag: Option<Seq<char>>) -> bool {
    passes(id, issue.id@) && passes(tag, issue.tag@)
}

/// The issues named by the given ID and tag, in order.
pub open spec fn named_issues(issues: Seq<IgnoredIssue>, id: Option<Seq<char>>, tag: Option<Seq<char>>) -> Seq<
    IgnoredIssue,
>
    decreases issues.len(),
{
    if issues.len() == 0 {
        Seq::<IgnoredIssue>::empty()
    } else {
        let rest = named_issues(issues.drop_last(), id, tag);
        if issue_named(issues.last(), id, tag) {
            rest.push(issues.last())
        } else {
            rest
        }
    }
}

/// Without an ID or a tag, every issue suppression is offered for removal.
pub proof fn law_unfiltered_issues_all_offered(issues: Seq<IgnoredIssue>)
    ensures
        named_issues(issues, None, None) == issues,
    decreases issues.len(),
{
    if issues.len() > 0 {
        law_unfiltered_issues_all_offered(issues.drop_last());
        assert(issues.drop_last().push(issues.last()) =~= issues);
    }
}

/// The issues offered for removal are among the suppressed ones, and each
/// is named by the given ID and tag.
pub proof fn law_offered_issues_are_named(issues: Seq<IgnoredIssue>, id: Option<Seq<char>>, tag: Option<Seq<char>>)
    ensures
        forall|k: int|
            0 <= k < named_issues(issues, id, tag).len() ==> issues.contains(
                #[trigger] named_issues(issues, id, tag)[k],
            ) && issue_named(named_issues(issues, id, tag)[k], id, tag),
    decreases issues.len(),
{
    if issues.len() > 0 {
        let init = issues.drop_last();
        law_offered_issues_are_named(init, id, tag);
        let rest = named_issues(init, id, tag);
        assert forall|k: int| 0 <= k < named_issues(issues, id, tag).len() implies issues.contains(
            #[trigger] named_issues(issues, id, tag)[k],
        ) && issue_named(named_issues(issues, id, tag)[k], id, tag) by {
            if k < rest.len() {
                let x = rest[k];
                assert(init.contains(x));
                let j = choose|j: int| 0 <= j < init.len() && init[j] == x;
                assert(issues[j] == x);
            } else {
                assert(issues[issues.len() - 1] == issues.last());
            }
        }
    }
}

/// Whether `a` and `b` have the same fields.
pub open spec fn same_issue(a: IgnoredIssue, b: IgnoredIssue) -> bool {
    a.id@ == b.id@ && a.tag@ == b.tag@ && a.reason@ == b.reason@
}

/// Whether two lists of issues agree entry by entry.
pub open spec fn same_issues(a: Seq<IgnoredIssue>, b: Seq<IgnoredIssue>) -> bool {
    a.len() == b.len() && forall|i: int| 0 <= i < a.len() ==> same_issue(#[trigger] a[i], b[i])
}

/// Whether two string slices are equal.
fn str_eq(a: &str, b: &str) -> (r: bool)
    ensures
        r == (a@ == b@),
{
    eq_lit(&chars_of(b), a)
}

/// Tests an optional filter on a string.
fn passes_filter(filter: Option<&str>, value: &String) -> (r: bool)
    ensures
        r == passes(opt_str(filter), value@),
{
    match filter {
        None => true,
        Some(f) => str_eq(f, value.as_str()),
    }
}

/// Copies an issue.
fn copy_issue(issue: &IgnoredIssue) -> (r: IgnoredIssue)
    ensures
        same_issue(r, *issue),
{
    IgnoredIssue { id: issue.id.clone(), tag: issue.tag.clone(), reason: issue.reason.clone() }
}

/// The issue suppressions named by `id` and `tag`, where given, in order.
pub fn filter_issues(issues: &Vec<IgnoredIssue>, id: Option<&str>, tag: Option<&str>) -> (r: Vec<IgnoredIssue>)
    ensures
        same_issues(r@, named_issues(issues@, opt_str(id), opt_str(tag))),
{
    let ghost idv = opt_str(id);
    let ghost tagv = opt_str(tag);
    let mut out: Vec<IgnoredIssue> = Vec::new();
    let mut i: usize = 0;
    while i < issues.len()
        invariant
            i <= issues@.len(),
            idv == opt_str(id),
            tagv == opt_str(tag),
            same_issues(out@, named_issues(issues@.take(i as int), idv, tagv)),
        decreases issues@.len() - i,
    {
        let issue = &issues[i];
        proof {
            assert(issues@.take(i + 1).drop_last() =~= issues@.take(i as int));
            assert(issues@.take(i + 1).last() == issues@[i as int]);
        }
        let keep = passes_filter(id, &issue.id) && passes_filter(tag, &issue.tag);
        let ghost rest = named_issues(issues@.take(i as int), idv, tagv);
        let ghost want = named_issues(issues@.take(i + 1), idv, tagv);
        if keep {
            let ghost before = out@;
            out.push(copy_issue(issue));
            proof {
                assert(want == rest.push(issues@[i as int]));
                assert forall|k: int| 0 <= k < out@.len() implies same_issue(#[trigger] out@[k], want[k]) by {
                    if k < before.len() {
                        assert(out@[k] == before[k]);
                        assert(want[k] == rest[k]);
                    }
                }
            }
        } else {
            assert(want == rest);
        }
        i = i + 1;
    }
    proof {
        assert(issues@.take(issues@.len() as int) =~= issues@);
    }
    out
}

/// What package suppressions are looked for: each part where given.
#[derive(Debug, PartialEq, Eq)]
pub struct PackageQuery {
    pub ecosystem: Option<String>,
    pub namespace: Option<String>,
    pub name: Option<String>,
    pub version: Option<String>,
}

/// The view of a package query: ecosystem, namespace, name, version.
pub open spec fn query_view(q: PackageQuery) -> (
    Option<Seq<char>>,
    Option<Seq<char>>,
    Option<Seq<char>>,
    Option<Seq<char>>,
) {
    (opt_view(q.ecosystem), opt_view(q.namespace), opt_view(q.name), opt_view(q.version))
}

/// A package URL given on the command line could not be read.
#[derive(Debug, PartialEq, Eq)]
pub struct InvalidPurl {
    pub purl: String,
}

/// Copies an optional string slice.
fn owned(o: Option<&str>) -> (r: Option<String>)
    ensures
        opt_view(r) == opt_str(o),
{
    match o {
        Some(s) => Some(String::from_str(s)),
        None => None,
    }
}

/// The package query of the command line: a package URL names type,
/// namespace, name and version (the last two where it has them); without
/// one, the ecosystem, name and version given, and no namespace.
pub fn package_query(
    purl: Option<&str>,
    ecosystem: Option<&str>,
    name: Option<&str>,
    version: Option<&str>,
) -> (r: Result<PackageQuery, InvalidPurl>)
    ensures
        match purl {
            Some(text) => match purl_parsed(text@) {
                Some(parts) => r matches Ok(q) && query_view(q) == (
                    Some(parts.0),
                    parts.1,
                    Some(parts.2),
                    parts.3,
                ),
                None => r matches Err(e) && e.purl@ == text@,
            },
            None => r matches Ok(q) && query_view(q) == (
                opt_str(ecosystem),
                None::<Seq<char>>,
                opt_str(name),
                opt_str(version),
            ),
        },
{
    match purl {
        Some(text) => match parse_purl(text) {
            Some(parts) => Ok(
                PackageQuery {
                    ecosystem: Some(parts.package_type),
                    namespace: parts.namespace,
                    name: Some(parts.name),
                    version: parts.version,
                },
            ),
            None => Err(InvalidPurl { purl: String::from_str(text) }),
        },
        None => Ok(
            PackageQuery {
                ecosystem: owned(ecosystem),
                namespace: None,
                name: owned(name),
                version: owned(version),
            },
        ),
    }
}

/// Whether optional parts agree: both missing, or both there and equal.
pub open spec fn same_part(filter: Option<Seq<char>>, part: Option<Seq<char>>) -> bool {
    match filter {
        None => true,
        Some(f) => part == Some(f),
    }
}

/// Whether a suppressed package, read as a package URL, is one the query
/// looks for. A package whose URL cannot be read never is.
pub open spec fn package_found(
    parts: Option<(Seq<char>, Option<Seq<char>>, Seq<char>, Option<Seq<char>>)>,
    q: (Option<Seq<char>>, Option<Seq<char>>, Option<Seq<char>>, Option<Seq<char>>),
) -> bool {
    match parts {
        None => false,
        Some(p) => passes(q.0, p.0) && same_part(q.1, p.1) && passes(q.2, p.2) && same_part(q.3, p.3),
    }
}

/// The packages the query finds, in order.
pub open spec fn found_packages(
    pkgs: Seq<IgnoredPackage>,
    q: (Option<Seq<char>>, Option<Seq<char>>, Option<Seq<char>>, Option<Seq<char>>),
) -> Seq<IgnoredPackage>
    decreases pkgs.len(),
{
    if pkgs.len() == 0 {
        Seq::<IgnoredPackage>::empty()
    } else {
        let rest = found_packages(pkgs.drop_last(), q);
        if package_found(purl_parsed(pkgs.last().purl@), q) {
            rest.push(pkgs.last())
        } else {
            rest
        }
    }
}

/// Whether `a` and `b` have the same fields.
pub open spec fn same_package(a: IgnoredPackage, b: IgnoredPackage) -> bool {
    a.purl@ == b.purl@ && a.reason@ == b.reason@
}

/// Whether two lists of packages agree entry by entry.
pub open spec fn same_packages(a: Seq<IgnoredPackage>, b: Seq<IgnoredPackage>) -> bool {
    a.len() == b.len() && forall|i: int| 0 <= i < a.len() ==> same_package(#[trigger] a[i], b[i])
}

/// Tests an optional filter against an optional part.
fn same_part_exec(filter: &Option<String>, part: &Option<String>) -> (r: bool)
    ensures
        r == same_part(opt_view(*filter), opt_view(*part)),
{
    match (filter, part) {
        (None, _) => true,
        (Some(f), Some(p)) => str_eq(f.as_str(), p.as_str()),
        (Some(_), None) => false,
    }
}

/// Tests an optional filter on a string.
fn passes_owned(filter: &Option<String>, value: &String) -> (r: bool)
    ensures
        r == passes(opt_view(*filter), value@),
{
    match filter {
        None => true,
        Some(f) => str_eq(f.as_str(), value.as_str()),
    }
}

/// Whether the package URL parts are found by the query.
pub fn package_matches(parts: &Option<PurlComponents>, q: &PackageQuery) -> (r: bool)
    ensures
        r == package_found(opt_purl_view(*parts), query_view(*q)),
{
    match parts {
        None => false,
        Some(p) => passes_owned(&q.ecosystem, &p.package_type) && same_part_exec(&q.namespace, &p.namespace)
            && passes_owned(&q.name, &p.name) && same_part_exec(&q.version, &p.version),
    }
}

/// The package suppressions the query finds, each read as a package URL,
/// in order.
pub fn filter_packages(pkgs: &Vec<IgnoredPackage>, q: &PackageQuery) -> (r: Vec<IgnoredPackage>)
    ensures
        same_packages(r@, found_packages(pkgs@, query_view(*q))),
{
    let ghost qv = query_view(*q);
    let mut out: Vec<IgnoredPackage> = Vec::new();
    let mut i: usize = 0;
    while i < pkgs.len()
        invariant
            i <= pkgs@.len(),
            qv == query_view(*q),
            same_packages(out@, found_packages(pkgs@.take(i as int), qv)),
        decreases pkgs@.len() - i,
    {
        let pkg = &pkgs[i];
        proof {
            assert(pkgs@.take(i + 1).drop_last() =~= pkgs@.take(i as int));
            assert(pkgs@.take(i + 1).last() == pkgs@[i as int]);
        }
        let parts = parse_purl(pkg.purl.as_str());
        let keep = package_matches(&parts, q);
        let ghost rest = found_packages(pkgs@.take(i as int), qv);
        let ghost want = found_packages(pkgs@.take(i + 1), qv);
        if keep {
            let ghost before = out@;
            out.push(IgnoredPackage { purl: pkg.purl.clone(), reason: pkg.reason.clone() });
            proof {
                assert(want == rest.push(pkgs@[i as int]));
                assert forall|k: int| 0 <= k < out@.len() implies same_package(#[trigger] out@[k], want[k]) by {
                    if k < before.len() {
                        assert(out@[k] == before[k]);
                        assert(want[k] == rest[k]);
                    }
                }
            }
        } else {
            assert(want == rest);
        }
        i = i + 1;
    }
    proof {
        assert(pkgs@.take(pkgs@.len() as int) =~= pkgs@);
    }
    out
}

/// What `phylum exception remove` was given to find suppressions by.
#[derive(Debug)]
pub struct RemoveFilter {
    pub id: Option<String>,
    pub tag: Option<String>,
    pub ecosystem: Option<String>,
    pub name: Option<String>,
    pub version: Option<String>,
    pub purl: Option<String>,
}

/// The view of an optional string, borrowed.
fn as_str_opt(o: &Option<String>) -> (r: Option<&str>)
    ensures
        opt_str(r) == opt_view(*o),
{
    match o {
        Some(s) => Some(s.as_str()),
        None => None,
    }
}

/// The suppressions to choose the one to remove from: the issues named by
/// ID and tag, where given; and, where any package part or a package URL is
/// given, the packages the query finds (else all of them). A package URL
/// that cannot be read is an error.
pub fn removal_candidates(prefs: &Preferences, filter: &RemoveFilter) -> (r: Result<Preferences, InvalidPurl>)
    ensures
        r matches Ok(p) ==> same_issues(
            p.ignored_issues@,
            named_issues(prefs.ignored_issues@, opt_view(filter.id), opt_view(filter.tag)),
        ),
        match filter.purl {
            Some(text) => purl_parsed(text@) is None <==> r is Err,
            None => r is Ok,
        },
        r matches Err(e) ==> filter.purl matches Some(text) && e.purl@ == text@,
        r matches Ok(p) ==> same_packages(
            p.ignored_packages@,
            if filter.ecosystem is None && filter.name is None && filter.version is None && filter.purl is None {
                prefs.ignored_packages@
            } else {
                found_packages(
                    prefs.ignored_packages@,
                    match filter.purl {
                        Some(text) => match purl_parsed(text@) {
                            Some(parts) => (Some(parts.0), parts.1, Some(parts.2), parts.3),
                            None => (None, None, None, None),
                        },
                        None => (opt_view(filter.ecosystem), None, opt_view(filter.name), opt_view(filter.version)),
                    },
                )
            },
        ),
{
    let issues = filter_issues(&prefs.ignored_issues, as_str_opt(&filter.id), as_str_opt(&filter.tag));
    let packages = if filter.ecosystem.is_none() && filter.name.is_none() && filter.version.is_none()
        && filter.purl.is_none() {
        let mut all: Vec<IgnoredPackage> = Vec::new();
        let mut i: usize = 0;
        while i < prefs.ignored_packages.len()
            invariant
                i <= prefs.ignored_packages@.len(),
                all@.len() == i,
                forall|k: int| 0 <= k < i ==> same_package(#[trigger] all@[k], prefs.ignored_packages@[k]),
            decreases prefs.ignored_packages@.len() - i,
        {
            let pkg = &prefs.ignored_packages[i];
            all.push(IgnoredPackage { purl: pkg.purl.clone(), reason: pkg.reason.clone() });
            i = i + 1;
        }
        all
    } else {
        let q = match package_query(
            as_str_opt(&filter.purl),
            as_str_opt(&filter.ecosystem),
            as_str_opt(&filter.name),
            as_str_opt(&filter.version),
        ) {
            Ok(q) => q,
            Err(e) => {
                return Err(e);
            },
        };
        filter_packages(&prefs.ignored_packages, &q)
    };
    Ok(Preferences { ignored_issues: issues, ignored_packages: packages })
}

/// Where the version of a new package suppression comes from.
#[derive(Debug, PartialEq, Eq)]
pub enum VersionPlan {
    /// The package URL or the command line gave it.
    Known(String),
    /// Versions that recently failed analysis in the group are looked up
    /// and offered in the prompt.
    SuggestThenPrompt,
    /// The user is asked for it.
    Prompt,
}

/// Where the version of a new package suppression comes from: the package
/// URL's own version, else the one given; without either, a prompt, with
/// suggestions where a group is given and suggestions are not turned off.
pub fn version_plan(
    purl_version: Option<String>,
    given: Option<String>,
    group_given: bool,
    no_suggestions: bool,
) -> (r: VersionPlan)
    ensures
        match (purl_version, given) {
            (Some(v), _) => r matches VersionPlan::Known(k) && k@ == v@,
            (None, Some(v)) => r matches VersionPlan::Known(k) && k@ == v@,
            (None, None) => r == if group_given && !no_suggestions {
                VersionPlan::SuggestThenPrompt
            } else {
                VersionPlan::Prompt
            },
        },
{
    match purl_version {
        Some(v) => VersionPlan::Known(v),
        None => match given {
            Some(v) => VersionPlan::Known(v),
            None => if group_given && !no_suggestions {
                VersionPlan::SuggestThenPrompt
            } else {
                VersionPlan::Prompt
            },
        },
    }
}

/// The text of the package URL `text` with its version set to `version`,
/// as `purl` writes it, or `None` where `purl` cannot read or rebuild it.
pub uninterp spec fn purl_versioned(text: Seq<char>, version: Seq<char>) -> Option<Seq<char>>;

/// Reads a package URL with the `purl` crate (`Purl::from_str`), sets its
/// version through its builder and writes it out again (`Display`).
/// Trusted: the result is the one `purl_versioned` names.
#[verifier::external_body]
fn with_purl_version(text: &str, version: &str) -> (r: Option<String>)
    ensures
        opt_view(r) == purl_versioned(text@, version@),
{
    let purl = <purl::Purl as std::str::FromStr>::from_str(text).ok()?;
    let purl = purl.into_builder().with_version(version).build().ok()?;
    Some(purl.to_string())
}

/// The suppression of a package version: its package URL with the
/// version set, and the reason. A package URL that cannot be read or
/// rebuilt is an error.
pub fn package_suppression(purl: &str, version: &str, reason: &str) -> (r: Result<IgnoredPackage, InvalidPurl>)
    ensures
        match purl_versioned(purl@, version@) {
            Some(text) => r matches Ok(p) && p.purl@ == text && p.reason@ == reason@,
            None => r matches Err(e) && e.purl@ == purl@,
        },
{
    match with_purl_version(purl, version) {
        Some(text) => Ok(IgnoredPackage { purl: text, reason: String::from_str(reason) }),
        None => Err(InvalidPurl { purl: String::from_str(purl) }),
    }
}

} // verus!
