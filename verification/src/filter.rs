//! Removing package issues by risk level and risk domain.

use vstd::prelude::*;

use crate::text::{chars_of, eq_lit, lemma_split_on_nonempty, split_on};

verus! {

/// Severity of a package issue, from least to most severe.
#[derive(Clone, Copy, Debug, PartialEq, Eq, Structural, Hash)]
pub enum RiskLevel {
    Info,
    Low,
    Medium,
    High,
    Critical,
}

/// The area of risk a package issue belongs to.
#[derive(Clone, Copy, Debug, PartialEq, Eq, Structural, Hash)]
pub enum RiskDomain {
    Malicious,
    Vulnerabilities,
    EngineeringRisk,
    AuthorRisk,
    LicenseRisk,
}

impl RiskLevel {
    /// Position of the level in the order `Info < Low < Medium < High < Critical`.
    pub open spec fn rank(self) -> int {
        match self {
            RiskLevel::Info => 0,
            RiskLevel::Low => 1,
            RiskLevel::Medium => 2,
            RiskLevel::High => 3,
            RiskLevel::Critical => 4,
        }
    }

    /// Position of the level in the severity order.
    pub fn severity_rank(&self) -> (r: u8)
        ensures
            r == self.rank(),
    {
        match self {
            RiskLevel::Info => 0,
            RiskLevel::Low => 1,
            RiskLevel::Medium => 2,
            RiskLevel::High => 3,
            RiskLevel::Critical => 4,
        }
    }

    /// Whether `self` is strictly less severe than `other`.
    pub fn is_below(&self, other: &RiskLevel) -> (b: bool)
        ensures
            b == (self.rank() < other.rank()),
    {
        self.severity_rank() < other.severity_rank()
    }
}

impl RiskLevel {
    /// The level as it is displayed.
    pub open spec fn display(self) -> Seq<char> {
        match self {
            RiskLevel::Info => "info"@,
            RiskLevel::Low => "low"@,
            RiskLevel::Medium => "medium"@,
            RiskLevel::High => "high"@,
            RiskLevel::Critical => "critical"@,
        }
    }

    /// The level's display name.
    pub fn to_str(&self) -> (r: &'static str)
        ensures
            r@ == self.display(),
    {
        match self {
            RiskLevel::Info => "info",
            RiskLevel::Low => "low",
            RiskLevel::Medium => "medium",
            RiskLevel::High => "high",
            RiskLevel::Critical => "critical",
        }
    }
}

impl RiskDomain {
    /// The three-letter code a domain is displayed as.
    pub open spec fn code(self) -> Seq<char> {
        match self {
            RiskDomain::Malicious => "MAL"@,
            RiskDomain::Vulnerabilities => "VLN"@,
            RiskDomain::EngineeringRisk => "ENG"@,
            RiskDomain::AuthorRisk => "AUT"@,
            RiskDomain::LicenseRisk => "LIC"@,
        }
    }

    /// The domain's display code.
    pub fn to_str(&self) -> (r: &'static str)
        ensures
            r@ == self.code(),
    {
        match self {
            RiskDomain::Malicious => "MAL",
            RiskDomain::Vulnerabilities => "VLN",
            RiskDomain::EngineeringRisk => "ENG",
            RiskDomain::AuthorRisk => "AUT",
            RiskDomain::LicenseRisk => "LIC",
        }
    }
}

/// A filter on issues: a minimum level and an allowed set of domains.
pub struct Filter {
    pub level: Option<RiskLevel>,
    pub domains: Option<Vec<RiskDomain>>,
}

/// The level a filter token names, if any.
pub open spec fn level_of_token(t: Seq<char>) -> Option<RiskLevel> {
    if t == "crit"@ || t == "critical"@ {
        Some(RiskLevel::Critical)
    } else if t == "high"@ || t == "hi"@ {
        Some(RiskLevel::High)
    } else if t == "med"@ || t == "medium"@ {
        Some(RiskLevel::Medium)
    } else if t == "info"@ {
        Some(RiskLevel::Info)
    } else if t == "low"@ || t == "lo"@ {
        Some(RiskLevel::Low)
    } else {
        None
    }
}

/// The domain a filter token names, if any.
pub open spec fn domain_of_token(t: Seq<char>) -> Option<RiskDomain> {
    if t == "aut"@ || t == "AUT"@ || t == "auth"@ || t == "author"@ {
        Some(RiskDomain::AuthorRisk)
    } else if t == "eng"@ || t == "ENG"@ || t == "engineering"@ {
        Some(RiskDomain::EngineeringRisk)
    } else if t == "code"@ || t == "malicious_code"@ || t == "malicious"@ || t == "mal"@
        || t == "MAL"@ {
        Some(RiskDomain::Malicious)
    } else if t == "vuln"@ || t == "vulnerability"@ || t == "VLN"@ || t == "vln"@ {
        Some(RiskDomain::Vulnerabilities)
    } else if t == "license"@ || t == "lic"@ || t == "LIC"@ {
        Some(RiskDomain::LicenseRisk)
    } else {
        None
    }
}

/// The less severe of two optional levels, ignoring absent ones.
pub open spec fn min_level(a: Option<RiskLevel>, b: Option<RiskLevel>) -> Option<RiskLevel> {
    match (a, b) {
        (Some(x), Some(y)) => if y.rank() < x.rank() { Some(y) } else { Some(x) },
        (Some(x), None) => Some(x),
        (None, _) => b,
    }
}

/// The least severe level named by any of the tokens.
pub open spec fn tokens_level(ts: Seq<Seq<char>>) -> Option<RiskLevel>
    decreases ts.len(),
{
    if ts.len() == 0 {
        None
    } else {
        min_level(tokens_level(ts.drop_last()), level_of_token(ts.last()))
    }
}

/// The set of domains named by the tokens.
pub open spec fn tokens_domains(ts: Seq<Seq<char>>) -> Set<RiskDomain> {
    Set::new(|d: RiskDomain| exists|i: int| 0 <= i < ts.len() && domain_of_token(ts[i]) == Some(d))
}

/// Whether an issue of the given level and domain is removed by `filter`.
pub open spec fn filtered_out(filter: &Filter, level: RiskLevel, domain: RiskDomain) -> bool {
    ||| (filter.level matches Some(min) && level.rank() < min.rank())
    ||| (filter.domains matches Some(ds) && !ds@.contains(domain))
}

/// What parsing `input` as a comma-separated filter gives: the least severe
/// level named and the set of domains named.
pub open spec fn parsed_filter_matches(input: Seq<char>, f: &Filter) -> bool {
    let ts = split_on(input, ',');
    &&& f.level == tokens_level(ts)
    &&& (f.domains is None <==> tokens_domains(ts).is_empty())
    &&& (f.domains matches Some(ds) ==> ds@.to_set() == tokens_domains(ts) && ds@.no_duplicates())
}

/// The level a token names.
fn token_level(t: &Vec<char>) -> (r: Option<RiskLevel>)
    ensures
        r == level_of_token(t@),
{
    if eq_lit(t, "crit") || eq_lit(t, "critical") {
        Some(RiskLevel::Critical)
    } else if eq_lit(t, "high") || eq_lit(t, "hi") {
        Some(RiskLevel::High)
    } else if eq_lit(t, "med") || eq_lit(t, "medium") {
        Some(RiskLevel::Medium)
    } else if eq_lit(t, "info") {
        Some(RiskLevel::Info)
    } else if eq_lit(t, "low") || eq_lit(t, "lo") {
        Some(RiskLevel::Low)
    } else {
        None
    }
}

/// The domain a token names.
fn token_domain(t: &Vec<char>) -> (r: Option<RiskDomain>)
    ensures
        r == domain_of_token(t@),
{
    if eq_lit(t, "aut") || eq_lit(t, "AUT") || eq_lit(t, "auth") || eq_lit(t, "author") {
        Some(RiskDomain::AuthorRisk)
    } else if eq_lit(t, "eng") || eq_lit(t, "ENG") || eq_lit(t, "engineering") {
        Some(RiskDomain::EngineeringRisk)
    } else if eq_lit(t, "code") || eq_lit(t, "malicious_code") || eq_lit(t, "malicious") || eq_lit(
        t,
        "mal",
    ) || eq_lit(t, "MAL") {
        Some(RiskDomain::Malicious)
    } else if eq_lit(t, "vuln") || eq_lit(t, "vulnerability") || eq_lit(t, "VLN") || eq_lit(
        t,
        "vln",
    ) {
        Some(RiskDomain::Vulnerabilities)
    } else if eq_lit(t, "license") || eq_lit(t, "lic") || eq_lit(t, "LIC") {
        Some(RiskDomain::LicenseRisk)
    } else {
        None
    }
}

/// The tokens after one more completed token: the domain set grows by the
/// token's domain.
proof fn lemma_tokens_domains_push(ts: Seq<Seq<char>>, t: Seq<char>)
    ensures
        tokens_domains(ts.push(t)) == (match domain_of_token(t) {
            Some(d) => tokens_domains(ts).insert(d),
            None => tokens_domains(ts),
        }),
{
    let l = ts.push(t);
    assert(l.drop_last() =~= ts);
    match domain_of_token(t) {
        Some(d) => {
            assert forall|x: RiskDomain| tokens_domains(l).contains(x) <==> tokens_domains(
                ts,
            ).insert(d).contains(x) by {
                if tokens_domains(l).contains(x) {
                    let i = choose|i: int| 0 <= i < l.len() && domain_of_token(l[i]) == Some(x);
                    if i < ts.len() {
                        assert(l[i] == ts[i]);
                    }
                }
                if tokens_domains(ts).contains(x) {
                    let i = choose|i: int| 0 <= i < ts.len() && domain_of_token(ts[i]) == Some(x);
                    assert(l[i] == ts[i]);
                }
                if x == d {
                    assert(l[ts.len() as int] == t);
                }
            }
            assert(tokens_domains(l) =~= tokens_domains(ts).insert(d));
        },
        None => {
            assert forall|x: RiskDomain| tokens_domains(l).contains(x) <==> tokens_domains(
                ts,
            ).contains(x) by {
                if tokens_domains(l).contains(x) {
                    let i = choose|i: int| 0 <= i < l.len() && domain_of_token(l[i]) == Some(x);
                    if i < ts.len() {
                        assert(l[i] == ts[i]);
                    }
                }
                if tokens_domains(ts).contains(x) {
                    let i = choose|i: int| 0 <= i < ts.len() && domain_of_token(ts[i]) == Some(x);
                    assert(l[i] == ts[i]);
                }
            }
            assert(tokens_domains(l) =~= tokens_domains(ts));
        },
    }
}

/// Adds a domain to a duplicate-free list unless it is already present.
fn add_domain(ds: &mut Vec<RiskDomain>, d: RiskDomain)
    requires
        old(ds)@.no_duplicates(),
    ensures
        final(ds)@.no_duplicates(),
        final(ds)@.to_set() == old(ds)@.to_set().insert(d),
{
    let mut i: usize = 0;
    while i < ds.len()
        invariant
            ds@ == old(ds)@,
            ds@.no_duplicates(),
            i <= ds@.len(),
            forall|j: int| 0 <= j < i ==> ds@[j] != d,
        decreases ds@.len() - i,
    {
        if ds[i] == d {
            assert(ds@.to_set() =~= ds@.to_set().insert(d)) by {
                assert(ds@.contains(d));
            }
            return;
        }
        i = i + 1;
    }
    let ghost before = ds@;
    ds.push(d);
    assert(ds@.to_set() =~= before.to_set().insert(d)) by {
        assert forall|x: RiskDomain| ds@.contains(x) <==> before.contains(x) || x == d by {
            if ds@.contains(x) {
                let k = choose|k: int| 0 <= k < ds@.len() && ds@[k] == x;
                if k < before.len() {
                    assert(before[k] == x);
                }
            }
            if before.contains(x) {
                let k = choose|k: int| 0 <= k < before.len() && before[k] == x;
                assert(ds@[k] == x);
            }
            if x == d {
                assert(ds@[before.len() as int] == d);
            }
        }
    }
}

impl Filter {
    /// Parses a comma-separated list of level and domain names.
    ///
    /// The filter keeps the least severe level named and every domain named;
    /// unknown tokens are ignored. It is an error when no token names a
    /// level or a domain.
    pub fn parse(input: &str) -> (r: Result<Filter, ()>)
        ensures
            r is Err <==> (tokens_level(split_on(input@, ',')) is None && tokens_domains(
                split_on(input@, ','),
            ).is_empty()),
            r matches Ok(f) ==> parsed_filter_matches(input@, &f),
    {
        let chars = chars_of(input);
        let ghost s = input@;
        let mut level: Option<RiskLevel> = None;
        let mut domains: Vec<RiskDomain> = Vec::new();
        let mut cur: Vec<char> = Vec::new();
        let mut i: usize = 0;
        proof {
            assert(s.take(0) =~= Seq::<char>::empty());
        }
        while i < chars.len()
            invariant
                chars@ == s,
                i <= s.len(),
                split_on(s.take(i as int), ',').len() >= 1,
                cur@ == split_on(s.take(i as int), ',').last(),
                level == tokens_level(split_on(s.take(i as int), ',').drop_last()),
                domains@.no_duplicates(),
                domains@.to_set() == tokens_domains(split_on(s.take(i as int), ',').drop_last()),
            decreases s.len() - i,
        {
            let c = chars[i];
            let ghost prev = split_on(s.take(i as int), ',');
            proof {
                assert(s.take(i + 1).drop_last() =~= s.take(i as int));
                lemma_split_on_nonempty(s.take(i + 1), ',');
            }
            if c == ',' {
                let l = token_level(&cur);
                level = if let Some(x) = level {
                    if let Some(y) = l {
                        if y.is_below(&x) {
                            Some(y)
                        } else {
                            Some(x)
                        }
                    } else {
                        Some(x)
                    }
                } else {
                    l
                };
                if let Some(d) = token_domain(&cur) {
                    add_domain(&mut domains, d);
                }
                proof {
                    let next = split_on(s.take(i + 1), ',');
                    assert(next == prev.push(Seq::<char>::empty()));
                    assert(next.drop_last() =~= prev);
                    assert(prev =~= prev.drop_last().push(prev.last()));
                    lemma_tokens_domains_push(prev.drop_last(), prev.last());
                    assert(prev.drop_last().push(prev.last()).drop_last() =~= prev.drop_last());
                }
                cur = Vec::new();
            } else {
                cur.push(c);
                proof {
                    let next = split_on(s.take(i + 1), ',');
                    assert(next == prev.update(prev.len() - 1, prev.last().push(c)));
                    assert(next.drop_last() =~= prev.drop_last());
                }
            }
            i = i + 1;
        }
        // The last piece has no separator after it.
        let ghost all = split_on(s, ',');
        proof {
            assert(s.take(s.len() as int) =~= s);
            assert(all =~= all.drop_last().push(all.last()));
            lemma_tokens_domains_push(all.drop_last(), all.last());
        }
        let l = token_level(&cur);
        level = if let Some(x) = level {
            if let Some(y) = l {
                if y.is_below(&x) {
                    Some(y)
                } else {
                    Some(x)
                }
            } else {
                Some(x)
            }
        } else {
            l
        };
        if let Some(d) = token_domain(&cur) {
            add_domain(&mut domains, d);
        }
        proof {
            assert(all.drop_last().push(all.last()).drop_last() =~= all.drop_last());
            assert(tokens_level(all) == level);
            if domains@.len() == 0 {
                assert(domains@.to_set() =~= Set::<RiskDomain>::empty());
            } else {
                assert(domains@.to_set().contains(domains@[0]));
            }
        }
        let domains = if domains.len() == 0 {
            None
        } else {
            Some(domains)
        };
        if level.is_none() && domains.is_none() {
            Err(())
        } else {
            Ok(Filter { level, domains })
        }
    }
}

impl core::str::FromStr for Filter {
    type Err = ();

    fn from_str(input: &str) -> (r: Result<Self, Self::Err>)
        ensures
            r is Err <==> (tokens_level(split_on(input@, ',')) is None && tokens_domains(
                split_on(input@, ','),
            ).is_empty()),
            r matches Ok(f) ==> parsed_filter_matches(input@, &f),
    {
        Filter::parse(input)
    }
}

/// Check if an issue should be filtered out.
pub fn should_filter_issue(filter: &Filter, level: RiskLevel, risk_domain: RiskDomain) -> (b:
    bool)
    ensures
        b == filtered_out(filter, level, risk_domain),
{
    if let Some(filter_level) = filter.level {
        if level.is_below(&filter_level) {
            return true;
        }
    }
    if let Some(domains) = &filter.domains {
        let mut i: usize = 0;
        while i < domains.len()
            invariant
                filter.domains == Some(*domains),
                !(filter.level matches Some(m) && level.rank() < m.rank()),
                i <= domains@.len(),
                forall|j: int| 0 <= j < i ==> domains@[j] != risk_domain,
            decreases domains@.len() - i,
        {
            if domains[i] == risk_domain {
                assert(domains@[i as int] == risk_domain);
                assert(domains@.contains(risk_domain));
                return false;
            }
            i = i + 1;
        }
        return true;
    }
    false
}

/// A package issue.
#[derive(Debug)]
pub struct Issue {
    pub title: String,
    pub description: String,
    pub severity: RiskLevel,
    pub domain: RiskDomain,
}

impl Clone for Issue {
    fn clone(&self) -> (r: Self)
        ensures
            r == *self,
    {
        Issue {
            title: self.title.clone(),
            description: self.description.clone(),
            severity: self.severity,
            domain: self.domain,
        }
    }
}

/// A package and the issues found in it.
#[derive(Debug)]
pub struct Package {
    pub name: String,
    pub version: String,
    pub registry: String,
    pub issues: Vec<Issue>,
}

impl Clone for Package {
    fn clone(&self) -> (r: Self)
        ensures
            r.name == self.name,
            r.version == self.version,
            r.registry == self.registry,
            r.issues@ == self.issues@,
    {
        let issues = self.issues.clone();
        proof {
            assert(issues@ =~= self.issues@);
        }
        Package {
            name: self.name.clone(),
            version: self.version.clone(),
            registry: self.registry.clone(),
            issues,
        }
    }
}

/// The issues of `issues` that `filter` keeps, in their order.
pub open spec fn kept_issues(issues: Seq<Issue>, filter: &Filter) -> Seq<Issue>
    decreases issues.len(),
{
    if issues.len() == 0 {
        Seq::<Issue>::empty()
    } else {
        let rest = kept_issues(issues.drop_last(), filter);
        if filtered_out(filter, issues.last().severity, issues.last().domain) {
            rest
        } else {
            rest.push(issues.last())
        }
    }
}

/// Filtering twice keeps the same issues as filtering once.
pub proof fn law_filter_idempotent(issues: Seq<Issue>, filter: &Filter)
    ensures
        kept_issues(kept_issues(issues, filter), filter) == kept_issues(issues, filter),
    decreases issues.len(),
{
    if issues.len() > 0 {
        law_filter_idempotent(issues.drop_last(), filter);
        let rest = kept_issues(issues.drop_last(), filter);
        if !filtered_out(filter, issues.last().severity, issues.last().domain) {
            assert(rest.push(issues.last()).drop_last() =~= rest);
        }
    }
}

/// The kept issues are the issues the filter does not remove, in their
/// order: each one is one of the input issues and passes the filter.
pub proof fn law_filter_keeps_passing_issues(issues: Seq<Issue>, filter: &Filter)
    ensures
        kept_issues(issues, filter).len() <= issues.len(),
        forall|i: int|
            0 <= i < kept_issues(issues, filter).len() ==> issues.contains(
                #[trigger] kept_issues(issues, filter)[i],
            ) && !filtered_out(
                filter,
                kept_issues(issues, filter)[i].severity,
                kept_issues(issues, filter)[i].domain,
            ),
        forall|i: int|
            0 <= i < issues.len() && !filtered_out(filter, issues[i].severity, issues[i].domain)
                ==> kept_issues(issues, filter).contains(#[trigger] issues[i]),
    decreases issues.len(),
{
    if issues.len() > 0 {
        let init = issues.drop_last();
        law_filter_keeps_passing_issues(init, filter);
        let rest = kept_issues(init, filter);
        let k = kept_issues(issues, filter);
        assert forall|i: int| 0 <= i < k.len() implies issues.contains(#[trigger] k[i]) && !filtered_out(
            filter,
            k[i].severity,
            k[i].domain,
        ) by {
            if i < rest.len() {
                assert(k[i] == rest[i]);
                assert(init.contains(rest[i]));
                let j = choose|j: int| 0 <= j < init.len() && init[j] == rest[i];
                assert(issues[j] == init[j]);
            } else {
                assert(k[i] == issues.last());
                assert(issues[issues.len() - 1] == issues.last());
            }
        }
        assert forall|i: int|
            0 <= i < issues.len() && !filtered_out(filter, issues[i].severity, issues[i].domain) implies k.contains(
            #[trigger] issues[i],
        ) by {
            if i < init.len() {
                assert(init[i] == issues[i]);
                assert(rest.contains(init[i]));
                let j = choose|j: int| 0 <= j < rest.len() && rest[j] == init[i];
                if !filtered_out(filter, issues.last().severity, issues.last().domain) {
                    assert(k[j] == rest[j]);
                }
            } else {
                assert(k[k.len() - 1] == issues.last());
            }
        }
    }
}

/// Remove issues based on a filter.
pub trait FilterIssues {
    fn filter(&mut self, filter: &Filter);
}

impl FilterIssues for Package {
    /// Keeps exactly the issues that `filter` does not remove, in order.
    fn filter(&mut self, filter: &Filter)
        ensures
            final(self).issues@ == kept_issues(old(self).issues@, filter),
            final(self).name == old(self).name,
            final(self).version == old(self).version,
            final(self).registry == old(self).registry,
    {
        let mut kept: Vec<Issue> = Vec::new();
        let mut i: usize = 0;
        while i < self.issues.len()
            invariant
                i <= self.issues@.len(),
                kept@ == kept_issues(self.issues@.take(i as int), filter),
            decreases self.issues@.len() - i,
        {
            let issue = self.issues[i].clone();
            proof {
                assert(self.issues@.take(i + 1).drop_last() =~= self.issues@.take(i as int));
            }
            if !should_filter_issue(filter, issue.severity, issue.domain) {
                kept.push(issue);
            }
            i = i + 1;
        }
        proof {
            assert(self.issues@.take(self.issues@.len() as int) =~= self.issues@);
        }
        self.issues = kept;
    }
}

/// A job status: the packages analysed for a job.
pub struct JobStatusResponse {
    pub packages: Vec<Package>,
}

impl FilterIssues for JobStatusResponse {
    /// Filters the issues of every package.
    fn filter(&mut self, filter: &Filter)
        ensures
            final(self).packages@.len() == old(self).packages@.len(),
            forall|k: int|
                0 <= k < old(self).packages@.len() ==> (#[trigger] final(self).packages@[k]).issues@
                    == kept_issues(old(self).packages@[k].issues@, filter)
                    && final(self).packages@[k].name == old(self).packages@[k].name,
    {
        let mut packages: Vec<Package> = Vec::new();
        let mut i: usize = 0;
        let n = self.packages.len();
        while i < n
            invariant
                n == self.packages@.len(),
                i <= n,
                packages@.len() == i,
                forall|k: int|
                    0 <= k < i ==> (#[trigger] packages@[k]).issues@ == kept_issues(
                        self.packages@[k].issues@,
                        filter,
                    ) && packages@[k].name == self.packages@[k].name,
            decreases n - i,
        {
            let mut p = self.packages[i].clone();
            p.filter(filter);
            packages.push(p);
            i = i + 1;
        }
        self.packages = packages;
    }
}

} // verus!
