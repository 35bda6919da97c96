//! `phylum firewall log`: the filter of a firewall log request.

use vstd::prelude::*;

use crate::exception::{parse_purl, purl_parsed, InvalidPurl};
use crate::text::{opt_str, opt_view};

verus! {

/// The name (as `Display` writes it) of the package type that
/// `purl::PackageType::from_str` reads from `text`, or `None` where it
/// knows no such type.
pub uninterp spec fn package_type_parsed(text: Seq<char>) -> Option<Seq<char>>;

/// Whether `text` is `name` (lowercase) up to the case of ASCII letters.
pub open spec fn ascii_case_eq(text: Seq<char>, name: Seq<char>) -> bool {
    &&& text.len() == name.len()
    &&& forall|i: int|
        0 <= i < text.len() ==> (#[trigger] text[i] == name[i] || ('a' <= name[i] <= 'z' && (text[i] as int)
            == (name[i] as int) - 32))
}

/// Whether every character of `text` is ASCII.
pub open spec fn all_ascii(text: Seq<char>) -> bool {
    forall|i: int| 0 <= i < text.len() ==> (#[trigger] text[i] as int) < 128
}

/// The package type `purl` knows by the name `text` spells, in any case of
/// its ASCII letters.
pub open spec fn known_package_type(text: Seq<char>) -> Option<Seq<char>> {
    if ascii_case_eq(text, "cargo"@) {
        Some("cargo"@)
    } else if ascii_case_eq(text, "gem"@) {
        Some("gem"@)
    } else if ascii_case_eq(text, "golang"@) {
        Some("golang"@)
    } else if ascii_case_eq(text, "maven"@) {
        Some("maven"@)
    } else if ascii_case_eq(text, "npm"@) {
        Some("npm"@)
    } else if ascii_case_eq(text, "nuget"@) {
        Some("nuget"@)
    } else if ascii_case_eq(text, "pypi"@) {
        Some("pypi"@)
    } else {
        None
    }
}

/// Reads a package type with the `purl` crate (`PackageType::from_str`).
/// Trusted: the result is the one `package_type_parsed` names; and for ASCII
/// text, as `purl`'s table of types and `unicase`'s ASCII comparison give it,
/// it is the one `known_package_type` gives.
#[verifier::external_body]
fn parse_package_type(text: &str) -> (r: Option<String>)
    ensures
        opt_view(r) == package_type_parsed(text@),
        all_ascii(text@) ==> opt_view(r) == known_package_type(text@),
{
    let t = <purl::PackageType as std::str::FromStr>::from_str(text).ok()?;
    Some(t.to_string())
}

/// What firewall log entries are asked for.
#[derive(Debug, PartialEq, Eq)]
pub struct FirewallLogFilter {
    pub ecosystem: Option<String>,
    pub namespace: Option<String>,
    pub name: Option<String>,
    pub version: Option<String>,
    pub before: Option<String>,
    pub after: Option<String>,
    pub limit: Option<i32>,
}

/// The filter of `phylum firewall log`: a package URL names ecosystem,
/// namespace, name and version (the last three where it has them); without
/// one, the package type given, where `purl` knows it. The time bounds are
/// passed on, and the limit is cut to 32 bits. A package URL that cannot be
/// read is an error.
pub fn firewall_log_filter(
    purl: Option<&str>,
    package_type: Option<&str>,
    before: Option<&str>,
    after: Option<&str>,
    limit: i64,
) -> (r: Result<FirewallLogFilter, InvalidPurl>)
    ensures
        match purl {
            Some(text) => match purl_parsed(text@) {
                Some(p) => r matches Ok(f) && opt_view(f.ecosystem) == Some(p.0) && opt_view(f.namespace) == p.1
                    && opt_view(f.name) == Some(p.2) && opt_view(f.version) == p.3,
                None => r matches Err(e) && e.purl@ == text@,
            },
            None => r matches Ok(f) && opt_view(f.ecosystem) == (match package_type {
                Some(t) => package_type_parsed(t@),
                None => None,
            }) && f.namespace is None && f.name is None && f.version is None,
        },
        (purl is None && package_type is Some && all_ascii(package_type->0@)) ==> (r matches Ok(f)
            && opt_view(f.ecosystem) == known_package_type(package_type->0@)),
        r matches Ok(f) ==> opt_view(f.before) == opt_str(before) && opt_view(f.after) == opt_str(after)
            && f.limit == Some(limit as i32),
{
    let (ecosystem, namespace, name, version) = match purl {
        Some(text) => match parse_purl(text) {
            Some(p) => (Some(p.package_type), p.namespace, Some(p.name), p.version),
            None => {
                return Err(InvalidPurl { purl: String::from_str(text) });
            },
        },
        None => {
            let ecosystem = match package_type {
                Some(t) => parse_package_type(t),
                None => None,
            };
            (ecosystem, None, None, None)
        },
    };
    let before = match before {
        Some(b) => Some(String::from_str(b)),
        None => None,
    };
    let after = match after {
        Some(a) => Some(String::from_str(a)),
        None => None,
    };
    Ok(FirewallLogFilter { ecosystem, namespace, name, version, before, after, limit: Some(limit as i32) })
}

} // verus!
