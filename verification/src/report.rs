//! Human-readable reports of analysis results, projects, jobs and
//! organizations, as the command line prints them.

use vstd::prelude::*;

use crate::filter::{RiskDomain, RiskLevel};
use crate::api::JobId;
use crate::format::{
    cells_view, colors_enabled, format_table_colored, leftpad, paint, padded, painted, table_text,
    Paint,
};
use crate::markdown::{join_strings, joined, views};
use vstd::utf8::encode_utf8;
use crate::text::{chars_of, decimal, decimal_of, opt_str, push_all, push_lit, push_str, string_of};

verus! {

/// The text `textwrap::fill` makes of `text` for lines of `width` columns.
pub uninterp spec fn filled(text: Seq<char>, width: usize) -> Seq<char>;

/// Wraps text with `textwrap::fill`. Trusted: the result is the one `filled`
/// names for the text and width.
#[verifier::external_body]
fn fill(text: &str, width: usize) -> (r: String)
    ensures
        r@ == filled(text@, width),
{
    textwrap::fill(text, width)
}

/// Where a policy rejection comes from.
#[derive(Debug)]
pub struct RejectionSource {
    pub source_type: String,
    pub tag: Option<String>,
    pub domain: Option<RiskDomain>,
    pub severity: Option<RiskLevel>,
    pub description: Option<String>,
    pub reason: Option<String>,
}

/// A policy rejection of a dependency.
#[derive(Debug)]
pub struct PolicyRejection {
    pub title: String,
    pub source: RejectionSource,
    pub suppressed: bool,
}

/// A dependency with the policy rejections it received.
#[derive(Debug)]
pub struct EvaluatedDependency {
    pub purl: String,
    pub registry: String,
    pub name: String,
    pub version: String,
    pub rejections: Vec<PolicyRejection>,
}

/// The raw result of evaluating a job against its policy.
#[derive(Debug)]
pub struct PolicyEvaluationResponseRaw {
    pub is_failure: bool,
    pub incomplete_packages_count: u32,
    pub help: String,
    pub dependencies: Vec<EvaluatedDependency>,
    pub job_link: Option<String>,
}

/// The summary status of an evaluation.
pub open spec fn status_text(r: &PolicyEvaluationResponseRaw, colors: bool) -> Seq<char> {
    if r.is_failure {
        painted("FAILURE"@, Paint::Red, colors)
    } else if r.incomplete_packages_count > 0 {
        painted("INCOMPLETE"@, Paint::Yellow, colors)
    } else {
        painted("SUCCESS"@, Paint::Green, colors)
    }
}

/// The note on packages that are not processed yet, before wrapping.
pub open spec fn incomplete_message(n: nat, colors: bool) -> Seq<char> {
    let unprocessed = decimal(n) + " unprocessed package"@ + if n == 1 {
        Seq::<char>::empty()
    } else {
        "s"@
    };
    "The analysis contains "@ + painted(unprocessed, Paint::Yellow, colors)
        + ", preventing a complete risk analysis. Phylum is currently processing these packages and should complete soon. Please wait for up to 30 minutes, then re-run the analysis.\n"@
}

/// How a rejection's domain is shown: its code in brackets, or blanks.
pub open spec fn domain_label(d: Option<RiskDomain>) -> Seq<char> {
    match d {
        Some(d) => "["@ + d.code() + "]"@,
        None => "     "@,
    }
}

/// The color of a rejection: green for low and info, yellow for medium, red
/// otherwise.
pub open spec fn severity_paint(s: Option<RiskLevel>) -> Paint {
    match s {
        Some(RiskLevel::Low) | Some(RiskLevel::Info) => Paint::Green,
        Some(RiskLevel::Medium) => Paint::Yellow,
        _ => Paint::Red,
    }
}

/// The line of one rejection.
pub open spec fn rejection_line(r: PolicyRejection, colors: bool) -> Seq<char> {
    "  "@ + painted(
        domain_label(r.source.domain) + " "@ + r.title@,
        severity_paint(r.source.severity),
        colors,
    ) + "\n"@
}

/// The lines of the rejections that are not suppressed, in order.
pub open spec fn rejections_text(rs: Seq<PolicyRejection>, colors: bool) -> Seq<char>
    decreases rs.len(),
{
    if rs.len() == 0 {
        Seq::<char>::empty()
    } else {
        rejections_text(rs.drop_last(), colors) + if rs.last().suppressed {
            Seq::<char>::empty()
        } else {
            rejection_line(rs.last(), colors)
        }
    }
}

/// Whether some rejection is not suppressed.
pub open spec fn has_active(rs: Seq<PolicyRejection>) -> bool {
    exists|i: int| 0 <= i < rs.len() && !(#[trigger] rs[i]).suppressed
}

/// The block of a dependency: its heading and its rejections, where some
/// rejection is not suppressed.
pub open spec fn dependency_text(d: EvaluatedDependency, colors: bool) -> Seq<char> {
    if has_active(d.rejections@) {
        "["@ + d.registry@ + "] "@ + d.name@ + "@"@ + d.version@ + "\n"@ + rejections_text(
            d.rejections@,
            colors,
        )
    } else {
        Seq::<char>::empty()
    }
}

/// The blocks of all dependencies, in order.
pub open spec fn dependencies_text(ds: Seq<EvaluatedDependency>, colors: bool) -> Seq<char>
    decreases ds.len(),
{
    if ds.len() == 0 {
        Seq::<char>::empty()
    } else {
        dependencies_text(ds.drop_last(), colors) + dependency_text(ds.last(), colors)
    }
}

/// The report of an evaluation: status, the note on unprocessed packages,
/// the rejected dependencies and the link to the full report.
pub open spec fn evaluation_text(r: &PolicyEvaluationResponseRaw, colors: bool) -> Seq<char> {
    heading_text(r, colors) + incomplete_text(r.incomplete_packages_count, colors)
        + dependencies_block(r.dependencies@, colors) + link_text(r.job_link)
}

/// Appends `text` in style `p`.
fn push_painted(out: &mut Vec<char>, text: &str, p: Paint, colors: bool)
    ensures
        final(out)@ == old(out)@ + painted(text@, p, colors),
{
    let s = paint(text, p, colors);
    push_str(out, s.as_str());
}

/// Appends the line of one rejection.
fn push_rejection_line(out: &mut Vec<char>, r: &PolicyRejection, colors: bool)
    ensures
        final(out)@ == old(out)@ + rejection_line(*r, colors),
{
    let mut message: Vec<char> = Vec::new();
    match r.source.domain {
        Some(d) => {
            push_lit(&mut message, "[");
            push_str(&mut message, d.to_str());
            push_lit(&mut message, "]");
        },
        None => push_lit(&mut message, "     "),
    }
    push_lit(&mut message, " ");
    push_str(&mut message, r.title.as_str());
    let paint_kind = match r.source.severity {
        Some(RiskLevel::Low) | Some(RiskLevel::Info) => Paint::Green,
        Some(RiskLevel::Medium) => Paint::Yellow,
        _ => Paint::Red,
    };
    let message = string_of(&message);
    push_lit(out, "  ");
    push_painted(out, message.as_str(), paint_kind, colors);
    push_lit(out, "\n");
}

/// Appends the block of one dependency.
fn push_dependency(out: &mut Vec<char>, d: &EvaluatedDependency, colors: bool)
    ensures
        final(out)@ == old(out)@ + dependency_text(*d, colors),
{
    if any_active(&d.rejections) {
        push_lit(out, "[");
        push_str(out, d.registry.as_str());
        push_lit(out, "] ");
        push_str(out, d.name.as_str());
        push_lit(out, "@");
        push_str(out, d.version.as_str());
        push_lit(out, "\n");
        push_rejections(out, &d.rejections, colors);
    }
}

/// Appends the lines of the rejections that are not suppressed.
fn push_rejections(out: &mut Vec<char>, rs: &Vec<PolicyRejection>, colors: bool)
    ensures
        final(out)@ == old(out)@ + rejections_text(rs@, colors),
{
    let ghost start = out@;
    let mut i: usize = 0;
    proof {
        assert(rs@.take(0) =~= Seq::<PolicyRejection>::empty());
    }
    while i < rs.len()
        invariant
            i <= rs@.len(),
            out@ == start + rejections_text(rs@.take(i as int), colors),
        decreases rs@.len() - i,
    {
        proof {
            assert(rs@.take(i + 1).drop_last() =~= rs@.take(i as int));
            assert(rs@.take(i + 1).last() == rs@[i as int]);
        }
        let r = &rs[i];
        if !r.suppressed {
            push_rejection_line(out, r, colors);
        }
        i = i + 1;
    }
    proof {
        assert(rs@.take(rs@.len() as int) =~= rs@);
    }
}

/// Whether some rejection is not suppressed.
fn any_active(rs: &Vec<PolicyRejection>) -> (b: bool)
    ensures
        b == has_active(rs@),
{
    let mut i: usize = 0;
    while i < rs.len()
        invariant
            i <= rs@.len(),
            forall|j: int| 0 <= j < i ==> (#[trigger] rs@[j]).suppressed,
        decreases rs@.len() - i,
    {
        if !rs[i].suppressed {
            assert(!rs@[i as int].suppressed);
            return true;
        }
        i = i + 1;
    }
    false
}

/// The heading of an evaluation report.
pub open spec fn heading_text(r: &PolicyEvaluationResponseRaw, colors: bool) -> Seq<char> {
    "\n"@ + "Phylum Supply Chain Risk Analysis \u{2014} "@ + status_text(r, colors) + "\n\n"@
}

/// The note on unprocessed packages, wrapped, if there are any.
pub open spec fn incomplete_text(n: u32, colors: bool) -> Seq<char> {
    if n > 0 {
        filled(incomplete_message(n as nat, colors), 80) + "\n"@
    } else {
        Seq::<char>::empty()
    }
}

/// The rejected dependencies, with a blank line after any dependencies.
pub open spec fn dependencies_block(ds: Seq<EvaluatedDependency>, colors: bool) -> Seq<char> {
    dependencies_text(ds, colors) + if ds.len() > 0 {
        "\n"@
    } else {
        Seq::<char>::empty()
    }
}

/// The link to the interactive report, if there is one.
pub open spec fn link_text(link: Option<String>) -> Seq<char> {
    match link {
        Some(link) => "You can find the interactive report here:\n  "@ + link@ + "\n"@,
        None => Seq::<char>::empty(),
    }
}

fn push_heading(out: &mut Vec<char>, r: &PolicyEvaluationResponseRaw, colors: bool)
    ensures
        final(out)@ == old(out)@ + heading_text(r, colors),
{
    push_lit(out, "\n");
    push_lit(out, "Phylum Supply Chain Risk Analysis \u{2014} ");
    if r.is_failure {
        push_painted(out, "FAILURE", Paint::Red, colors);
    } else if r.incomplete_packages_count > 0 {
        push_painted(out, "INCOMPLETE", Paint::Yellow, colors);
    } else {
        push_painted(out, "SUCCESS", Paint::Green, colors);
    }
    push_lit(out, "\n\n");
}

fn push_incomplete(out: &mut Vec<char>, n: u32, colors: bool)
    ensures
        final(out)@ == old(out)@ + incomplete_text(n, colors),
{
    if n > 0 {
        let mut unprocessed: Vec<char> = decimal_of(n as u64);
        push_lit(&mut unprocessed, " unprocessed package");
        if n != 1 {
            push_lit(&mut unprocessed, "s");
        }
        let unprocessed = string_of(&unprocessed);
        let mut message: Vec<char> = chars_of("The analysis contains ");
        push_painted(&mut message, unprocessed.as_str(), Paint::Yellow, colors);
        push_lit(
            &mut message,
            ", preventing a complete risk analysis. Phylum is currently processing these packages and should complete soon. Please wait for up to 30 minutes, then re-run the analysis.\n",
        );
        let message = string_of(&message);
        let wrapped = fill(message.as_str(), 80);
        push_str(out, wrapped.as_str());
        push_lit(out, "\n");
    }
}

fn push_dependencies(out: &mut Vec<char>, deps: &Vec<EvaluatedDependency>, colors: bool)
    ensures
        final(out)@ == old(out)@ + dependencies_block(deps@, colors),
{
    let ghost before_deps = out@;
    let mut i: usize = 0;
    proof {
        assert(deps@.take(0) =~= Seq::<EvaluatedDependency>::empty());
    }
    while i < deps.len()
        invariant
            i <= deps@.len(),
            out@ == before_deps + dependencies_text(deps@.take(i as int), colors),
        decreases deps@.len() - i,
    {
        proof {
            assert(deps@.take(i + 1).drop_last() =~= deps@.take(i as int));
            assert(deps@.take(i + 1).last() == deps@[i as int]);
        }
        push_dependency(out, &deps[i], colors);
        i = i + 1;
    }
    proof {
        assert(deps@.take(deps@.len() as int) =~= deps@);
    }
    if deps.len() > 0 {
        push_lit(out, "\n");
    }
}

impl PolicyEvaluationResponseRaw {
    /// The report of this evaluation, colored when `colors` is set.
    pub fn pretty_colored(&self, colors: bool) -> (r: String)
        ensures
            r@ == evaluation_text(self, colors),
    {
        let mut out: Vec<char> = Vec::new();
        push_heading(&mut out, self, colors);
        push_incomplete(&mut out, self.incomplete_packages_count, colors);
        push_dependencies(&mut out, &self.dependencies, colors);
        if let Some(link) = &self.job_link {
            push_lit(&mut out, "You can find the interactive report here:\n  ");
            push_str(&mut out, link.as_str());
            push_lit(&mut out, "\n");
        }
        proof {
            assert(out@ =~= evaluation_text(self, colors));
        }
        string_of(&out)
    }

    /// The report of this evaluation, colored when the terminal takes colors.
    pub fn pretty(&self) -> (r: String)
        ensures
            r@ == evaluation_text(self, true) || r@ == evaluation_text(self, false),
    {
        let colors = colors_enabled();
        self.pretty_colored(colors)
    }
}

/// `n` occurs in `a + n + b`.
proof fn lemma_occurs_between(a: Seq<char>, n: Seq<char>, b: Seq<char>)
    ensures
        crate::text::contains_seq(a + n + b, n),
{
    assert((a + n + b).subrange(a.len() as int, (a.len() + n.len()) as int) =~= n);
    assert(crate::text::occurs_at(a + n + b, n, a.len() as int));
}

/// What occurs in `x` occurs in `a + x + b`.
proof fn lemma_occurs_widen(a: Seq<char>, x: Seq<char>, b: Seq<char>, n: Seq<char>)
    requires
        crate::text::contains_seq(x, n),
    ensures
        crate::text::contains_seq(a + x + b, n),
{
    let i = choose|i: int| crate::text::occurs_at(x, n, i);
    assert((a + x + b).subrange(a.len() + i, a.len() + i + n.len()) =~= x.subrange(i, i + n.len()));
    assert(crate::text::occurs_at(a + x + b, n, a.len() + i));
}

/// What occurs in a text occurs in it painted.
proof fn lemma_occurs_painted(x: Seq<char>, p: Paint, colors: bool, n: Seq<char>)
    requires
        crate::text::contains_seq(x, n),
    ensures
        crate::text::contains_seq(painted(x, p, colors), n),
{
    if colors {
        lemma_occurs_widen(crate::format::paint_prefix(p), x, "\x1b[0m"@, n);
    } else {
        lemma_occurs_widen(Seq::<char>::empty(), x, Seq::<char>::empty(), n);
        assert(Seq::<char>::empty() + x + Seq::<char>::empty() =~= x);
    }
}

/// The rejection lines of two lists of rejections, one after the other.
proof fn lemma_rejections_concat(a: Seq<PolicyRejection>, b: Seq<PolicyRejection>, colors: bool)
    ensures
        rejections_text(a + b, colors) == rejections_text(a, colors) + rejections_text(b, colors),
    decreases b.len(),
{
    if b.len() == 0 {
        assert(a + b =~= a);
        assert(rejections_text(a, colors) + rejections_text(b, colors) =~= rejections_text(a, colors));
    } else {
        lemma_rejections_concat(a, b.drop_last(), colors);
        assert((a + b).drop_last() =~= a + b.drop_last());
        assert((a + b).last() == b.last());
    }
}

/// The blocks of two lists of dependencies, one after the other.
proof fn lemma_dependencies_concat(a: Seq<EvaluatedDependency>, b: Seq<EvaluatedDependency>, colors: bool)
    ensures
        dependencies_text(a + b, colors) == dependencies_text(a, colors) + dependencies_text(b, colors),
    decreases b.len(),
{
    if b.len() == 0 {
        assert(a + b =~= a);
        assert(dependencies_text(a, colors) + dependencies_text(b, colors) =~= dependencies_text(a, colors));
    } else {
        lemma_dependencies_concat(a, b.drop_last(), colors);
        assert((a + b).drop_last() =~= a + b.drop_last());
        assert((a + b).last() == b.last());
    }
}

/// The blocks of a list with one dependency inserted at `k`.
proof fn lemma_dependencies_around(ds: Seq<EvaluatedDependency>, k: int, colors: bool)
    requires
        0 <= k < ds.len(),
    ensures
        dependencies_text(ds, colors) == dependencies_text(ds.take(k), colors) + dependency_text(ds[k], colors)
            + dependencies_text(ds.skip(k + 1), colors),
{
    assert(ds =~= ds.take(k) + (seq![ds[k]] + ds.skip(k + 1)));
    lemma_dependencies_concat(ds.take(k), seq![ds[k]] + ds.skip(k + 1), colors);
    lemma_dependencies_concat(seq![ds[k]], ds.skip(k + 1), colors);
    assert(seq![ds[k]].drop_last() =~= Seq::<EvaluatedDependency>::empty());
    assert(dependencies_text(Seq::<EvaluatedDependency>::empty(), colors) =~= Seq::<char>::empty());
    assert(dependencies_text(seq![ds[k]], colors) =~= dependency_text(ds[k], colors));
}

/// The report heading of an evaluation, given its status word and color.
pub open spec fn report_heading(word: Seq<char>, p: Paint, colors: bool) -> Seq<char> {
    "\n"@ + "Phylum Supply Chain Risk Analysis \u{2014} "@ + painted(word, p, colors) + "\n\n"@
}

/// A failed evaluation is reported as a failure, whatever else it says; it is
/// reported as incomplete only when it did not fail and some packages are
/// still being processed, and as a success otherwise.
pub proof fn law_report_status(r: &PolicyEvaluationResponseRaw, colors: bool)
    ensures
        r.is_failure ==> crate::text::is_prefix(
            report_heading("FAILURE"@, Paint::Red, colors),
            evaluation_text(r, colors),
        ),
        !r.is_failure && r.incomplete_packages_count > 0 ==> crate::text::is_prefix(
            report_heading("INCOMPLETE"@, Paint::Yellow, colors),
            evaluation_text(r, colors),
        ),
        !r.is_failure && r.incomplete_packages_count == 0 ==> crate::text::is_prefix(
            report_heading("SUCCESS"@, Paint::Green, colors),
            evaluation_text(r, colors),
        ),
{
    let h = heading_text(r, colors);
    let t = evaluation_text(r, colors);
    assert(h =~= report_heading(
        if r.is_failure {
            "FAILURE"@
        } else if r.incomplete_packages_count > 0 {
            "INCOMPLETE"@
        } else {
            "SUCCESS"@
        },
        if r.is_failure {
            Paint::Red
        } else if r.incomplete_packages_count > 0 {
            Paint::Yellow
        } else {
            Paint::Green
        },
        colors,
    ));
    assert(t.take(h.len() as int) =~= h);
}

/// A dependency is listed in the report, with the title of every rejection
/// that is not suppressed, as soon as any one of its rejections, at any
/// position, is not suppressed.
pub proof fn law_active_rejections_reported(r: &PolicyEvaluationResponseRaw, colors: bool, k: int, i: int)
    requires
        0 <= k < r.dependencies@.len(),
        0 <= i < r.dependencies@[k].rejections@.len(),
        !r.dependencies@[k].rejections@[i].suppressed,
    ensures
        crate::text::contains_seq(
            evaluation_text(r, colors),
            "["@ + r.dependencies@[k].registry@ + "] "@ + r.dependencies@[k].name@ + "@"@
                + r.dependencies@[k].version@ + "\n"@,
        ),
        crate::text::contains_seq(evaluation_text(r, colors), r.dependencies@[k].rejections@[i].title@),
{
    let ds = r.dependencies@;
    let d = ds[k];
    let head = "["@ + d.registry@ + "] "@ + d.name@ + "@"@ + d.version@ + "\n"@;
    let title = d.rejections@[i].title@;
    lemma_dependency_lists_title(d, i, colors);
    lemma_dependencies_around(ds, k, colors);
    let before = dependencies_text(ds.take(k), colors);
    let after = dependencies_text(ds.skip(k + 1), colors);
    let nl = if ds.len() > 0 {
        "\n"@
    } else {
        Seq::<char>::empty()
    };
    let pre = heading_text(r, colors) + incomplete_text(r.incomplete_packages_count, colors) + before;
    let post = after + nl + link_text(r.job_link);
    assert(evaluation_text(r, colors) =~= pre + dependency_text(d, colors) + post);
    lemma_occurs_widen(pre, dependency_text(d, colors), post, title);
    lemma_occurs_widen(pre, dependency_text(d, colors), post, head);
}

/// The block of a dependency with a rejection `i` that is not suppressed
/// holds its heading and that rejection's title.
proof fn lemma_dependency_lists_title(d: EvaluatedDependency, i: int, colors: bool)
    requires
        0 <= i < d.rejections@.len(),
        !d.rejections@[i].suppressed,
    ensures
        crate::text::contains_seq(
            dependency_text(d, colors),
            "["@ + d.registry@ + "] "@ + d.name@ + "@"@ + d.version@ + "\n"@,
        ),
        crate::text::contains_seq(dependency_text(d, colors), d.rejections@[i].title@),
{
    let rs = d.rejections@;
    let title = rs[i].title@;
    lemma_rejections_list_title(rs, i, colors);
    assert(has_active(rs));
    let head = "["@ + d.registry@ + "] "@ + d.name@ + "@"@ + d.version@ + "\n"@;
    let rt = rejections_text(rs, colors);
    assert(dependency_text(d, colors) == head + rt);
    lemma_occurs_widen(head, rt, Seq::<char>::empty(), title);
    assert(head + rt + Seq::<char>::empty() =~= head + rt);
    lemma_occurs_between(Seq::<char>::empty(), head, rt);
    assert(Seq::<char>::empty() + head + rt =~= head + rt);
}

/// The rejection lines hold the title of every rejection not suppressed.
proof fn lemma_rejections_list_title(rs: Seq<PolicyRejection>, i: int, colors: bool)
    requires
        0 <= i < rs.len(),
        !rs[i].suppressed,
    ensures
        crate::text::contains_seq(rejections_text(rs, colors), rs[i].title@),
{
    let rej = rs[i];
    let title = rej.title@;
    let label = domain_label(rej.source.domain) + " "@;
    lemma_occurs_between(label, title, Seq::<char>::empty());
    assert(label + title + Seq::<char>::empty() =~= domain_label(rej.source.domain) + " "@ + title);
    let msg = domain_label(rej.source.domain) + " "@ + title;
    lemma_occurs_painted(msg, severity_paint(rej.source.severity), colors, title);
    let pt = painted(msg, severity_paint(rej.source.severity), colors);
    lemma_occurs_widen("  "@, pt, "\n"@, title);
    assert(rejection_line(rej, colors) == "  "@ + pt + "\n"@);
    assert(rs =~= rs.take(i) + (seq![rej] + rs.skip(i + 1)));
    lemma_rejections_concat(rs.take(i), seq![rej] + rs.skip(i + 1), colors);
    lemma_rejections_concat(seq![rej], rs.skip(i + 1), colors);
    assert(seq![rej].drop_last() =~= Seq::<PolicyRejection>::empty());
    assert(rejections_text(Seq::<PolicyRejection>::empty(), colors) =~= Seq::<char>::empty());
    assert(rejections_text(seq![rej], colors) =~= rejection_line(rej, colors));
    assert(rejections_text(rs, colors) =~= rejections_text(rs.take(i), colors) + rejection_line(rej, colors)
        + rejections_text(rs.skip(i + 1), colors));
    lemma_occurs_widen(
        rejections_text(rs.take(i), colors),
        rejection_line(rej, colors),
        rejections_text(rs.skip(i + 1), colors),
        title,
    );
}

/// A dependency whose rejections are all suppressed leaves no trace: the
/// report is the same with or without it (among other dependencies).
pub proof fn law_suppressed_dependency_unreported(
    with: &PolicyEvaluationResponseRaw,
    without: &PolicyEvaluationResponseRaw,
    colors: bool,
    k: int,
)
    requires
        without.dependencies@.len() > 0,
        0 <= k <= without.dependencies@.len(),
        with.dependencies@.len() == without.dependencies@.len() + 1,
        with.dependencies@.take(k) == without.dependencies@.take(k),
        with.dependencies@.skip(k + 1) == without.dependencies@.skip(k),
        forall|i: int|
            0 <= i < with.dependencies@[k].rejections@.len() ==> (#[trigger] with.dependencies@[k].rejections@[i]).suppressed,
        with.is_failure == without.is_failure,
        with.incomplete_packages_count == without.incomplete_packages_count,
        with.job_link == without.job_link,
    ensures
        evaluation_text(with, colors) == evaluation_text(without, colors),
{
    let ws = with.dependencies@;
    let os = without.dependencies@;
    assert(!has_active(ws[k].rejections@));
    lemma_dependencies_around(ws, k, colors);
    assert(os =~= os.take(k) + os.skip(k));
    lemma_dependencies_concat(os.take(k), os.skip(k), colors);
    assert(dependency_text(ws[k], colors) =~= Seq::<char>::empty());
    assert(dependencies_text(ws, colors) =~= dependencies_text(os, colors));
    assert(heading_text(with, colors) == heading_text(without, colors));
}

/// The length in bytes of a text, as `str::len` gives it.
pub open spec fn byte_len(s: Seq<char>) -> usize {
    encode_utf8(s).len() as usize
}

/// The longest label, in bytes, among the first `n` fields.
pub open spec fn label_width(labels: Seq<Seq<char>>, n: nat) -> usize
    decreases n,
{
    if n == 0 || n > labels.len() {
        0
    } else {
        let w = label_width(labels, (n - 1) as nat);
        let x = byte_len(labels[n - 1]);
        if x > w {
            x
        } else {
            w
        }
    }
}

/// One line per field: the label padded to `width` in blue, then the value.
pub open spec fn fields_lines(labels: Seq<Seq<char>>, values: Seq<Seq<char>>, width: usize, colors: bool) -> Seq<char>
    decreases labels.len(),
{
    if labels.len() == 0 {
        Seq::<char>::empty()
    } else {
        let k = labels.len() - 1;
        fields_lines(labels.drop_last(), values, width, colors) + "  "@ + painted(
            padded(labels[k], width as nat),
            Paint::Blue,
            colors,
        ) + "  "@ + values[k] + "\n"@
    }
}

/// The fields of an object, labels aligned to the longest one.
pub open spec fn fields_text(labels: Seq<Seq<char>>, values: Seq<Seq<char>>, colors: bool) -> Seq<char> {
    fields_lines(labels, values, label_width(labels, labels.len()), colors)
}

/// Writes object fields, one per line, labels padded to the longest.
pub fn write_fields(labels: &Vec<String>, values: &Vec<String>, colors: bool) -> (r: String)
    requires
        labels@.len() == values@.len(),
    ensures
        r@ == fields_text(views(labels@), views(values@), colors),
{
    let ghost lv = views(labels@);
    let ghost vv = views(values@);
    let mut width: usize = 0;
    let mut i: usize = 0;
    while i < labels.len()
        invariant
            lv == views(labels@),
            i <= labels@.len(),
            width == label_width(lv, i as nat),
        decreases labels@.len() - i,
    {
        let x = labels[i].as_str().len();
        proof {
            assert(lv[i as int] == labels@[i as int]@);
        }
        if x > width {
            width = x;
        }
        i = i + 1;
    }
    let mut out: Vec<char> = Vec::new();
    let mut k: usize = 0;
    proof {
        assert(lv.take(0) =~= Seq::<Seq<char>>::empty());
    }
    while k < labels.len()
        invariant
            lv == views(labels@),
            vv == views(values@),
            labels@.len() == values@.len(),
            k <= labels@.len(),
            out@ == fields_lines(lv.take(k as int), vv, width, colors),
        decreases labels@.len() - k,
    {
        proof {
            assert(lv.take(k + 1).drop_last() =~= lv.take(k as int));
            assert(lv.take(k + 1)[k as int] == labels@[k as int]@);
            assert(vv[k as int] == values@[k as int]@);
        }
        let label = leftpad(labels[k].as_str(), width);
        push_lit(&mut out, "  ");
        push_painted(&mut out, label.as_str(), Paint::Blue, colors);
        push_lit(&mut out, "  ");
        push_str(&mut out, values[k].as_str());
        push_lit(&mut out, "\n");
        k = k + 1;
    }
    proof {
        assert(lv.take(labels@.len() as int) =~= lv);
    }
    string_of(&out)
}

/// A past analysis job.
#[derive(Debug)]
pub struct JobDescriptor {
    pub job_id: JobId,
    pub project: String,
    pub label: String,
    pub num_dependencies: u32,
    pub pass: bool,
    pub msg: String,
    /// When the job was created, as the server reports it.
    pub date: String,
    pub ecosystems: Vec<String>,
    pub num_incomplete: u32,
}

/// The status of a job: failed or passed, complete or not.
pub open spec fn job_status_text(j: JobDescriptor, colors: bool) -> Seq<char> {
    if !j.pass {
        if j.num_incomplete == 0 {
            painted("FAILED"@, Paint::Red, colors)
        } else {
            painted("INCOMPLETE WITH FAILURE"@, Paint::Red, colors)
        }
    } else if j.num_incomplete == 0 {
        painted("SUCCESS"@, Paint::Green, colors)
    } else {
        painted("INCOMPLETE"@, Paint::Yellow, colors)
    }
}

/// The labels of a job's fields.
pub open spec fn job_labels() -> Seq<Seq<char>> {
    seq!["Project Name"@, "Label"@, "Creation Time"@, "Status"@, "Ecosystems"@, "Dependencies"@, "Message"@]
}

/// The block of a job, with its creation time as shown.
pub open spec fn job_text(j: JobDescriptor, date: Seq<char>, colors: bool) -> Seq<char> {
    "Job ID: "@ + painted(crate::api::hyphenated(crate::text::hex_digits(j.job_id.value as nat, 32)), Paint::Cyan, colors)
        + "\n"@ + fields_text(
        job_labels(),
        seq![
            j.project@,
            j.label@,
            date,
            job_status_text(j, colors),
            joined(views(j.ecosystems@), ","@),
            decimal(j.num_dependencies as nat),
            j.msg@,
        ],
        colors,
    ) + "\n"@
}

/// The blocks of the first `n` jobs.
pub open spec fn jobs_blocks(jobs: Seq<JobDescriptor>, dates: Seq<Seq<char>>, n: nat, colors: bool) -> Seq<char>
    decreases n,
{
    if n == 0 {
        Seq::<char>::empty()
    } else {
        jobs_blocks(jobs, dates, (n - 1) as nat, colors) + job_text(jobs[n - 1], dates[n - 1], colors)
    }
}

/// The list of past jobs: how many, then one block each.
pub open spec fn jobs_text(jobs: Seq<JobDescriptor>, dates: Seq<Seq<char>>, colors: bool) -> Seq<char> {
    "Last "@ + decimal(jobs.len()) + " runs\n\n"@ + jobs_blocks(jobs, dates, jobs.len(), colors)
}

/// Appends one job block.
fn push_job(out: &mut Vec<char>, j: &JobDescriptor, date: &String, colors: bool)
    ensures
        final(out)@ == old(out)@ + job_text(*j, date@, colors),
{
    let status = if !j.pass {
        if j.num_incomplete == 0 {
            paint("FAILED", Paint::Red, colors)
        } else {
            paint("INCOMPLETE WITH FAILURE", Paint::Red, colors)
        }
    } else if j.num_incomplete == 0 {
        paint("SUCCESS", Paint::Green, colors)
    } else {
        paint("INCOMPLETE", Paint::Yellow, colors)
    };
    let ecosystems = string_of(&join_strings(&j.ecosystems, ","));
    let deps = string_of(&decimal_of(j.num_dependencies as u64));
    let labels: Vec<String> = vec![
        String::from_str("Project Name"),
        String::from_str("Label"),
        String::from_str("Creation Time"),
        String::from_str("Status"),
        String::from_str("Ecosystems"),
        String::from_str("Dependencies"),
        String::from_str("Message"),
    ];
    let values: Vec<String> = vec![
        j.project.clone(),
        j.label.clone(),
        date.clone(),
        status,
        ecosystems,
        deps,
        j.msg.clone(),
    ];
    proof {
        assert(views(labels@) =~= job_labels());
    }
    let fields = write_fields(&labels, &values, colors);
    let id = j.job_id.to_string();
    push_lit(out, "Job ID: ");
    push_painted(out, id.as_str(), Paint::Cyan, colors);
    push_lit(out, "\n");
    push_str(out, fields.as_str());
    push_lit(out, "\n");
    proof {
        assert(views(values@) =~= seq![
            j.project@,
            j.label@,
            date@,
            job_status_text(*j, colors),
            joined(views(j.ecosystems@), ","@),
            decimal(j.num_dependencies as nat),
            j.msg@,
        ]);
    }
}

/// The list of past jobs, with each job's creation time as shown.
pub fn jobs_pretty(jobs: &Vec<JobDescriptor>, dates: &Vec<String>, colors: bool) -> (r: String)
    requires
        dates@.len() == jobs@.len(),
    ensures
        r@ == jobs_text(jobs@, views(dates@), colors),
{
    let ghost dv = views(dates@);
    let mut out: Vec<char> = chars_of("Last ");
    let n = decimal_of(jobs.len() as u64);
    push_all(&mut out, &n);
    push_lit(&mut out, " runs\n\n");
    let ghost start = out@;
    let mut i: usize = 0;
    while i < jobs.len()
        invariant
            dv == views(dates@),
            dates@.len() == jobs@.len(),
            i <= jobs@.len(),
            out@ == start + jobs_blocks(jobs@, dv, i as nat, colors),
        decreases jobs@.len() - i,
    {
        proof {
            assert(dv[i as int] == dates@[i as int]@);
        }
        push_job(&mut out, &jobs[i], &dates[i], colors);
        i = i + 1;
    }
    string_of(&out)
}

/// The instant, in whole seconds since the Unix epoch, that
/// `DateTime<Utc>::from_str` reads from `text`, or `None` where it rejects it.
pub uninterp spec fn utc_parsed(text: Seq<char>) -> Option<i64>;

/// Whether whole seconds since the Unix epoch name an instant that `chrono`
/// can hold: from the first second of year -262143 to the last of year
/// 262142, UTC.
pub open spec fn chrono_seconds_in_range(secs: i64) -> bool {
    -8334601315200 <= secs <= 8210266876799
}

/// Parses a timestamp with `chrono` (`str::parse::<DateTime<Utc>>`) and keeps
/// its whole seconds. Trusted: the result is the one `utc_parsed` names, and
/// as a `DateTime` only holds dates within `chrono`'s range, so do its
/// seconds.
#[verifier::external_body]
fn parse_utc(text: &str) -> (r: Option<i64>)
    ensures
        r == utc_parsed(text@),
        r matches Some(secs) ==> chrono_seconds_in_range(secs),
{
    let d = text.parse::<chrono::DateTime<chrono::Utc>>().ok()?;
    Some(d.timestamp())
}

/// Formats an instant as local date and time with `chrono`, or `None` where
/// the instant is out of range. Only the format `%F %R` is taken: a format
/// with a specifier `chrono` does not know would make the formatting fail.
/// Trusted: `DateTime::from_timestamp` fails only outside `chrono`'s range,
/// and the `%R` of `%F %R` writes hour and minute with a `:` between them.
/// The text itself depends on the machine's time zone, so nothing more is
/// claimed of it.
#[verifier::external_body]
fn local_datetime(secs: i64, format: &str) -> (r: Option<String>)
    requires
        format@ == "%F %R"@,
    ensures
        chrono_seconds_in_range(secs) ==> r is Some,
        r matches Some(text) ==> text@.contains(':'),
{
    let utc = chrono::DateTime::from_timestamp(secs, 0)?;
    Some(utc.with_timezone(&chrono::Local).format(format).to_string())
}

/// A timestamp as the local date and time, or `UNKNOWN` where it cannot be
/// read.
pub fn job_date(date: &str) -> (r: String)
    ensures
        utc_parsed(date@) is None ==> r@ == "UNKNOWN"@,
        utc_parsed(date@) is Some ==> r@ != "UNKNOWN"@ && r@.contains(':'),
{
    proof {
        reveal_strlit("UNKNOWN");
    }
    match parse_utc(date) {
        Some(secs) => match local_datetime(secs, "%F %R") {
            Some(text) => text,
            None => String::from_str("UNKNOWN"),
        },
        None => String::from_str("UNKNOWN"),
    }
}

/// Whether `dates` are the shown creation times of `jobs`: where a job's
/// date cannot be read, `UNKNOWN`; where it can, a local time with a `:`.
pub open spec fn job_dates(jobs: Seq<JobDescriptor>, dates: Seq<Seq<char>>) -> bool {
    &&& dates.len() == jobs.len()
    &&& forall|i: int| 0 <= i < jobs.len() && utc_parsed((#[trigger] jobs[i]).date@) is None ==> dates[i] == "UNKNOWN"@
    &&& forall|i: int| 0 <= i < jobs.len() && utc_parsed((#[trigger] jobs[i]).date@) is Some ==> dates[i] != "UNKNOWN"@
        && dates[i].contains(':')
}

/// The list of past jobs, creation times in the local time zone, colored
/// when the terminal takes colors.
pub fn jobs_report(jobs: &Vec<JobDescriptor>) -> (r: String)
    ensures
        exists|dates: Seq<Seq<char>>|
            job_dates(jobs@, dates) && (r@ == jobs_text(jobs@, dates, true) || r@ == jobs_text(
                jobs@,
                dates,
                false,
            )),
{
    let mut dates: Vec<String> = Vec::new();
    let mut i: usize = 0;
    while i < jobs.len()
        invariant
            i <= jobs@.len(),
            dates@.len() == i,
            forall|k: int| 0 <= k < i && utc_parsed((#[trigger] jobs@[k]).date@) is None ==> dates@[k]@ == "UNKNOWN"@,
            forall|k: int| 0 <= k < i && utc_parsed((#[trigger] jobs@[k]).date@) is Some ==> dates@[k]@ != "UNKNOWN"@
                && dates@[k]@.contains(':'),
        decreases jobs@.len() - i,
    {
        let d = job_date(jobs[i].date.as_str());
        dates.push(d);
        i = i + 1;
    }
    let colors = colors_enabled();
    let r = jobs_pretty(jobs, &dates, colors);
    proof {
        let dv = views(dates@);
        assert forall|k: int| 0 <= k < jobs@.len() && utc_parsed((#[trigger] jobs@[k]).date@) is None implies dv[k] == "UNKNOWN"@ by {
            assert(dv[k] == dates@[k]@);
        }
        assert forall|k: int| 0 <= k < jobs@.len() && utc_parsed((#[trigger] jobs@[k]).date@) is Some implies dv[k] != "UNKNOWN"@
            && dv[k].contains(':') by {
            assert(dv[k] == dates@[k]@);
        }
        assert(job_dates(jobs@, dv));
    }
    r
}

/// All jobs of a user: the total, then the most recent ones.
#[derive(Debug)]
pub struct AllJobsStatusResponse {
    pub jobs: Vec<JobDescriptor>,
    pub total_jobs: u32,
}

impl AllJobsStatusResponse {
    /// The total number of jobs, then the list of jobs with their shown
    /// creation times.
    pub fn pretty_colored(&self, dates: &Vec<String>, colors: bool) -> (r: String)
        requires
            dates@.len() == self.jobs@.len(),
        ensures
            r@ == "Total jobs: "@ + decimal(self.total_jobs as nat) + "\n"@ + jobs_text(self.jobs@, views(dates@), colors),
    {
        let mut out: Vec<char> = chars_of("Total jobs: ");
        let n = decimal_of(self.total_jobs as u64);
        push_all(&mut out, &n);
        push_lit(&mut out, "\n");
        let jobs = jobs_pretty(&self.jobs, dates, colors);
        push_str(&mut out, jobs.as_str());
        string_of(&out)
    }
}

/// A project's details.
#[derive(Debug)]
pub struct GetProjectResponse {
    pub id: String,
    pub name: String,
    pub repository_url: Option<String>,
    pub default_label: Option<String>,
}

/// One labelled line with the label in blue.
pub open spec fn labelled(label: Seq<char>, value: Seq<char>, colors: bool) -> Seq<char> {
    painted(label, Paint::Blue, colors) + ": "@ + value + "\n"@
}

/// The details of a project: ID and name, then repository URL and default
/// label where set.
pub open spec fn project_text(p: &GetProjectResponse, colors: bool) -> Seq<char> {
    labelled("ID"@, p.id@, colors) + labelled("Name"@, p.name@, colors) + match p.repository_url {
        Some(u) => labelled("Repository URL"@, u@, colors),
        None => Seq::<char>::empty(),
    } + match p.default_label {
        Some(l) => labelled("Default Label"@, l@, colors),
        None => Seq::<char>::empty(),
    }
}

/// Appends one labelled line.
fn push_labelled(out: &mut Vec<char>, label: &str, value: &str, colors: bool)
    ensures
        final(out)@ == old(out)@ + labelled(label@, value@, colors),
{
    push_painted(out, label, Paint::Blue, colors);
    push_lit(out, ": ");
    push_str(out, value);
    push_lit(out, "\n");
}

impl GetProjectResponse {
    /// The details of this project, labels colored when `colors` is set.
    pub fn pretty_colored(&self, colors: bool) -> (r: String)
        ensures
            r@ == project_text(self, colors),
    {
        let mut out: Vec<char> = Vec::new();
        push_labelled(&mut out, "ID", self.id.as_str(), colors);
        push_labelled(&mut out, "Name", self.name.as_str(), colors);
        if let Some(u) = &self.repository_url {
            push_labelled(&mut out, "Repository URL", u.as_str(), colors);
        }
        if let Some(l) = &self.default_label {
            push_labelled(&mut out, "Default Label", l.as_str(), colors);
        }
        string_of(&out)
    }
}

/// An organization.
#[derive(Debug)]
pub struct Org {
    pub name: String,
}

/// The organizations of a user.
#[derive(Debug)]
pub struct OrgsResponse {
    pub organizations: Vec<Org>,
}

/// The names of the first `n` organizations, one per line.
pub open spec fn org_lines(orgs: Seq<Org>, n: nat) -> Seq<char>
    decreases n,
{
    if n == 0 {
        Seq::<char>::empty()
    } else {
        org_lines(orgs, (n - 1) as nat) + orgs[n - 1].name@ + "\n"@
    }
}

impl OrgsResponse {
    /// The organizations, one per line, or a note that there are none.
    pub fn pretty(&self) -> (r: String)
        ensures
            r@ == if self.organizations@.len() == 0 {
                "User is not part of any organizations\n"@
            } else {
                org_lines(self.organizations@, self.organizations@.len())
            },
    {
        if self.organizations.len() == 0 {
            return String::from_str("User is not part of any organizations\n");
        }
        let mut out: Vec<char> = Vec::new();
        let mut i: usize = 0;
        while i < self.organizations.len()
            invariant
                i <= self.organizations@.len(),
                out@ == org_lines(self.organizations@, i as nat),
            decreases self.organizations@.len() - i,
        {
            push_str(&mut out, self.organizations[i].name.as_str());
            push_lit(&mut out, "\n");
            i = i + 1;
        }
        string_of(&out)
    }
}

/// A dependency file of a project.
#[derive(Debug)]
pub struct DepFile {
    pub path: String,
    pub depfile_type: String,
}

/// The state of the project in the current directory.
#[derive(Debug)]
pub struct PhylumStatus {
    pub project: Option<String>,
    pub group: Option<String>,
    pub root: Option<String>,
    pub dependency_files: Vec<DepFile>,
}

/// The italic green `null` shown for a missing value.
pub open spec fn null_text(colors: bool) -> Seq<char> {
    painted("null"@, Paint::ItalicGreen, colors)
}

/// A labelled line of an optional value.
pub open spec fn option_line(label: Seq<char>, value: Option<String>, colors: bool) -> Seq<char> {
    painted(label, Paint::Blue, colors) + ": "@ + match value {
        Some(v) => v@,
        None => null_text(colors),
    } + "\n"@
}

/// The lines of the first `n` dependency files.
pub open spec fn depfile_lines(files: Seq<DepFile>, n: nat, colors: bool) -> Seq<char>
    decreases n,
{
    if n == 0 {
        Seq::<char>::empty()
    } else {
        depfile_lines(files, (n - 1) as nat, colors) + " - "@ + painted("path"@, Paint::Blue, colors)
            + ": "@ + files[n - 1].path@ + "\n"@ + "   "@ + painted("type"@, Paint::Blue, colors) + ": "@
            + files[n - 1].depfile_type@ + "\n"@
    }
}

/// The status: project, group, root, then the dependency files.
pub open spec fn status_report(st: &PhylumStatus, colors: bool) -> Seq<char> {
    option_line("Project"@, st.project, colors) + option_line("Group"@, st.group, colors)
        + option_line("Project Root"@, st.root, colors) + painted(
        "Dependency Files"@,
        Paint::Blue,
        colors,
    ) + if st.dependency_files@.len() == 0 {
        ": "@ + null_text(colors) + "\n"@
    } else {
        ":\n"@ + depfile_lines(st.dependency_files@, st.dependency_files@.len(), colors)
    }
}

/// Appends a labelled line of an optional value.
fn push_option(out: &mut Vec<char>, label: &str, value: &Option<String>, colors: bool)
    ensures
        final(out)@ == old(out)@ + option_line(label@, *value, colors),
{
    push_painted(out, label, Paint::Blue, colors);
    push_lit(out, ": ");
    match value {
        Some(v) => push_str(out, v.as_str()),
        None => push_painted(out, "null", Paint::ItalicGreen, colors),
    }
    push_lit(out, "\n");
}

impl PhylumStatus {
    /// The status of the current project, labels colored when `colors` is
    /// set.
    pub fn pretty_colored(&self, colors: bool) -> (r: String)
        ensures
            r@ == status_report(self, colors),
    {
        let mut out: Vec<char> = Vec::new();
        push_option(&mut out, "Project", &self.project, colors);
        push_option(&mut out, "Group", &self.group, colors);
        push_option(&mut out, "Project Root", &self.root, colors);
        push_painted(&mut out, "Dependency Files", Paint::Blue, colors);
        let ghost head = out@;
        if self.dependency_files.len() == 0 {
            push_lit(&mut out, ": ");
            push_painted(&mut out, "null", Paint::ItalicGreen, colors);
            push_lit(&mut out, "\n");
        } else {
            push_lit(&mut out, ":\n");
            let ghost start = out@;
            let files = &self.dependency_files;
            let mut i: usize = 0;
            while i < files.len()
                invariant
                    i <= files@.len(),
                    out@ == start + depfile_lines(files@, i as nat, colors),
                decreases files@.len() - i,
            {
                push_lit(&mut out, " - ");
                push_painted(&mut out, "path", Paint::Blue, colors);
                push_lit(&mut out, ": ");
                push_str(&mut out, files[i].path.as_str());
                push_lit(&mut out, "\n");
                push_lit(&mut out, "   ");
                push_painted(&mut out, "type", Paint::Blue, colors);
                push_lit(&mut out, ": ");
                push_str(&mut out, files[i].depfile_type.as_str());
                push_lit(&mut out, "\n");
                i = i + 1;
            }
        }
        string_of(&out)
    }

    /// The status of the current project, colored when the terminal takes
    /// colors.
    pub fn pretty(&self) -> (r: String)
        ensures
            r@ == status_report(self, true) || r@ == status_report(self, false),
    {
        let colors = colors_enabled();
        self.pretty_colored(colors)
    }
}

/// A job in a project's history.
#[derive(Debug)]
pub struct HistoryJob {
    pub id: String,
    pub label: Option<String>,
    /// When the job was created, in seconds since the Unix epoch.
    pub created: i64,
}

/// The headers of the history table.
pub open spec fn history_headers() -> Seq<Seq<char>> {
    seq!["Job ID"@, "Label"@, "Creation Time"@]
}

/// The cells of the history table, with the shown creation times.
pub open spec fn history_cells(jobs: Seq<HistoryJob>, created: Seq<Seq<char>>) -> Seq<Seq<Seq<char>>> {
    Seq::new(
        jobs.len(),
        |i: int|
            seq![
                jobs[i].id@,
                match jobs[i].label {
                    Some(l) => l@,
                    None => Seq::<char>::empty(),
                },
                created[i],
            ],
    )
}

/// The history of a project as a table, with the shown creation times.
pub fn history_table(jobs: &Vec<HistoryJob>, created: &Vec<String>, colors: bool) -> (r: String)
    requires
        created@.len() == jobs@.len(),
    ensures
        r@ == table_text(history_headers(), history_cells(jobs@, views(created@)), colors),
{
    let headers: Vec<String> = vec![
        String::from_str("Job ID"),
        String::from_str("Label"),
        String::from_str("Creation Time"),
    ];
    let mut cells: Vec<Vec<String>> = Vec::new();
    let mut i: usize = 0;
    while i < jobs.len()
        invariant
            created@.len() == jobs@.len(),
            i <= jobs@.len(),
            cells@.len() == i,
            forall|k: int| 0 <= k < i ==> (#[trigger] cells@[k])@.len() == 3,
            forall|k: int|
                0 <= k < i ==> crate::format::row_view(#[trigger] cells@[k]) == history_cells(
                    jobs@,
                    views(created@),
                )[k],
        decreases jobs@.len() - i,
    {
        let label = match &jobs[i].label {
            Some(l) => l.clone(),
            None => String::new(),
        };
        let row: Vec<String> = vec![jobs[i].id.clone(), label, created[i].clone()];
        proof {
            assert(crate::format::row_view(row) =~= history_cells(jobs@, views(created@))[i as int]);
        }
        cells.push(row);
        i = i + 1;
    }
    proof {
        assert(views(headers@) =~= history_headers());
        assert(cells_view(cells@) =~= history_cells(jobs@, views(created@)));
    }
    format_table_colored(&headers, &cells, colors)
}

/// The history of a project, creation times in the local time zone, colored
/// when the terminal takes colors.
pub fn history_report(jobs: &Vec<HistoryJob>) -> (r: String)
    ensures
        exists|created: Seq<Seq<char>>, colors: bool|
            created.len() == jobs@.len() && r@ == table_text(history_headers(), history_cells(jobs@, created), colors),
{
    let mut created: Vec<String> = Vec::new();
    let mut i: usize = 0;
    while i < jobs.len()
        invariant
            i <= jobs@.len(),
            created@.len() == i,
        decreases jobs@.len() - i,
    {
        let shown = match local_datetime(jobs[i].created, "%F %R") {
            Some(t) => t,
            None => String::new(),
        };
        created.push(shown);
        i = i + 1;
    }
    let colors = colors_enabled();
    history_table(jobs, &created, colors)
}

/// Output entry in the `phylum group list` subcommand.
#[derive(Debug)]
pub struct ListGroupsEntry {
    pub org: Option<String>,
    pub name: String,
}

/// A project with its place in the hierarchy: name, then ID where known,
/// the organization (shown only for a group project) and the group, each
/// missing one as `-`.
pub open spec fn project_reference(
    org: Option<Seq<char>>,
    group: Option<Seq<char>>,
    project: Seq<char>,
    project_id: Option<Seq<char>>,
    colors: bool,
) -> Seq<char> {
    painted(project, Paint::Green, colors) + " ("@ + match project_id {
        Some(id) => "id: "@ + painted(id, Paint::Green, colors) + ", "@,
        None => Seq::<char>::empty(),
    } + "org: "@ + match (group, org) {
        (Some(_), Some(o)) => painted(o, Paint::Green, colors),
        _ => "-"@,
    } + ", "@ + "group: "@ + match group {
        Some(g) => painted(g, Paint::Green, colors),
        None => "-"@,
    } + ")"@
}

/// Formats a project hierarchy for user output, colored when `colors` is set.
pub fn format_project_reference_colored(
    org: Option<&str>,
    group: Option<&str>,
    project: &str,
    project_id: Option<&str>,
    colors: bool,
) -> (r: String)
    ensures
        r@ == project_reference(opt_str(org), opt_str(group), project@, opt_str(project_id), colors),
{
    let mut out: Vec<char> = Vec::new();
    push_painted(&mut out, project, Paint::Green, colors);
    push_lit(&mut out, " (");
    if let Some(id) = project_id {
        push_lit(&mut out, "id: ");
        push_painted(&mut out, id, Paint::Green, colors);
        push_lit(&mut out, ", ");
    }
    push_lit(&mut out, "org: ");
    match (group, org) {
        (Some(_), Some(o)) => push_painted(&mut out, o, Paint::Green, colors),
        _ => push_lit(&mut out, "-"),
    }
    push_lit(&mut out, ", ");
    push_lit(&mut out, "group: ");
    match group {
        Some(g) => push_painted(&mut out, g, Paint::Green, colors),
        None => push_lit(&mut out, "-"),
    }
    push_lit(&mut out, ")");
    string_of(&out)
}

/// Formats a project hierarchy for user output, colored when the terminal
/// takes colors.
pub fn format_project_reference(
    org: Option<&str>,
    group: Option<&str>,
    project: &str,
    project_id: Option<&str>,
) -> (r: String)
    ensures
        r@ == project_reference(opt_str(org), opt_str(group), project@, opt_str(project_id), true)
            || r@ == project_reference(opt_str(org), opt_str(group), project@, opt_str(project_id), false),
{
    let colors = colors_enabled();
    format_project_reference_colored(org, group, project, project_id, colors)
}

/// A vulnerability and the dependency paths through which it is reachable.
#[derive(Debug)]
pub struct Vulnerability {
    pub name: String,
    pub summary: String,
    /// Each path is the names of the packages along it, from the project.
    pub vulnerable_dependencies: Vec<Vec<String>>,
}

/// The heading of a vulnerability: whether it is reachable, its name and
/// summary.
pub open spec fn vulnerability_heading(v: &Vulnerability, colors: bool) -> Seq<char> {
    "["@ + (if v.vulnerable_dependencies@.len() == 0 {
        painted("unaffected"@, Paint::Green, colors)
    } else {
        painted("affected"@, Paint::Red, colors)
    }) + "] "@ + v.name@ + " \u{2014} "@ + v.summary@ + "\n"@
}

/// The paths of package names, each once, in the order first met.
pub open spec fn unique_paths(paths: Seq<Seq<Seq<char>>>) -> Seq<Seq<Seq<char>>>
    decreases paths.len(),
{
    if paths.len() == 0 {
        Seq::<Seq<Seq<char>>>::empty()
    } else {
        let d = unique_paths(paths.drop_last());
        if d.contains(paths.last()) {
            d
        } else {
            d.push(paths.last())
        }
    }
}

/// The rest of a call chain: each package after an arrow.
pub open spec fn chain_tail(names: Seq<Seq<char>>, colors: bool) -> Seq<char>
    decreases names.len(),
{
    if names.len() == 0 {
        Seq::<char>::empty()
    } else {
        chain_tail(names.drop_last(), colors) + " "@ + painted("->"@, Paint::Blue, colors) + " "@
            + names.last()
    }
}

/// The lines of the non-empty paths: packages joined by arrows.
pub open spec fn chain_lines(paths: Seq<Seq<Seq<char>>>, colors: bool) -> Seq<char>
    decreases paths.len(),
{
    if paths.len() == 0 {
        Seq::<char>::empty()
    } else {
        let p = paths.last();
        chain_lines(paths.drop_last(), colors) + if p.len() == 0 {
            Seq::<char>::empty()
        } else {
            "    "@ + p[0] + chain_tail(p.skip(1), colors) + "\n"@
        }
    }
}

/// The paths of a vulnerability as package names.
pub open spec fn name_paths(paths: Seq<Vec<String>>) -> Seq<Seq<Seq<char>>> {
    paths.map_values(|p: Vec<String>| views(p@))
}

/// The verbose report of a vulnerability: the heading, then each distinct
/// reachability path.
pub open spec fn vulnerability_verbose(v: &Vulnerability, colors: bool) -> Seq<char> {
    vulnerability_heading(v, colors) + if v.vulnerable_dependencies@.len() == 0 {
        Seq::<char>::empty()
    } else {
        "Reachability paths:\n"@ + chain_lines(unique_paths(name_paths(v.vulnerable_dependencies@)), colors)
    }
}

/// Whether two lists of strings are equal.
fn strings_equal(a: &Vec<String>, b: &Vec<String>) -> (r: bool)
    ensures
        r == (views(a@) == views(b@)),
{
    if a.len() != b.len() {
        assert(views(a@).len() == a@.len() && views(b@).len() == b@.len());
        return false;
    }
    let mut i: usize = 0;
    while i < a.len()
        invariant
            a@.len() == b@.len(),
            i <= a@.len(),
            forall|j: int| 0 <= j < i ==> a@[j]@ == b@[j]@,
        decreases a@.len() - i,
    {
        if a[i] != b[i] {
            assert(views(a@)[i as int] != views(b@)[i as int]);
            return false;
        }
        i = i + 1;
    }
    assert(views(a@) =~= views(b@));
    true
}

/// Copies a list of strings.
fn copy_names(v: &Vec<String>) -> (r: Vec<String>)
    ensures
        views(r@) == views(v@),
{
    let r = v.clone();
    assert(views(r@) =~= views(v@)) by {
        assert forall|i: int| 0 <= i < v@.len() implies r@[i]@ == v@[i]@ by {
            assert(r@[i] == v@[i]);
        }
    }
    r
}

impl Vulnerability {
    /// Whether the vulnerability is reachable, its name and summary.
    pub fn pretty_colored(&self, colors: bool) -> (r: String)
        ensures
            r@ == vulnerability_heading(self, colors),
    {
        let mut out: Vec<char> = Vec::new();
        push_lit(&mut out, "[");
        if self.vulnerable_dependencies.len() == 0 {
            push_painted(&mut out, "unaffected", Paint::Green, colors);
        } else {
            push_painted(&mut out, "affected", Paint::Red, colors);
        }
        push_lit(&mut out, "] ");
        push_str(&mut out, self.name.as_str());
        push_lit(&mut out, " \u{2014} ");
        push_str(&mut out, self.summary.as_str());
        push_lit(&mut out, "\n");
        string_of(&out)
    }

    /// The heading, then each distinct reachability path as packages joined
    /// by arrows.
    pub fn pretty_verbose_colored(&self, colors: bool) -> (r: String)
        ensures
            r@ == vulnerability_verbose(self, colors),
    {
        let heading = self.pretty_colored(colors);
        let mut out: Vec<char> = chars_of(heading.as_str());
        if self.vulnerable_dependencies.len() == 0 {
            return string_of(&out);
        }
        push_lit(&mut out, "Reachability paths:\n");
        let paths = &self.vulnerable_dependencies;
        let ghost np = name_paths(paths@);
        let mut unique: Vec<Vec<String>> = Vec::new();
        let mut i: usize = 0;
        proof {
            assert(np.take(0) =~= Seq::<Seq<Seq<char>>>::empty());
        }
        while i < paths.len()
            invariant
                np == name_paths(paths@),
                i <= paths@.len(),
                name_paths(unique@) == unique_paths(np.take(i as int)),
            decreases paths@.len() - i,
        {
            proof {
                assert(np.take(i + 1).drop_last() =~= np.take(i as int));
                assert(np.take(i + 1).last() == views(paths@[i as int]@));
            }
            let ghost u = name_paths(unique@);
            let mut found = false;
            let mut k: usize = 0;
            while k < unique.len()
                invariant
                    u == name_paths(unique@),
                    i < paths@.len(),
                    k <= unique@.len(),
                    found == (exists|j: int| 0 <= j < k && u[j] == views(paths@[i as int]@)),
                decreases unique@.len() - k,
            {
                if strings_equal(&unique[k], &paths[i]) {
                    found = true;
                }
                proof {
                    assert(u[k as int] == views(unique@[k as int]@));
                }
                k = k + 1;
            }
            if !found {
                unique.push(copy_names(&paths[i]));
                proof {
                    assert(name_paths(unique@) =~= u.push(views(paths@[i as int]@)));
                    assert(!u.contains(views(paths@[i as int]@)));
                }
            } else {
                proof {
                    let j = choose|j: int| 0 <= j < unique@.len() && u[j] == views(paths@[i as int]@);
                    assert(u.contains(views(paths@[i as int]@)));
                }
            }
            i = i + 1;
        }
        proof {
            assert(np.take(paths@.len() as int) =~= np);
        }
        let ghost uv = name_paths(unique@);
        let ghost start = out@;
        let mut m: usize = 0;
        proof {
            assert(uv.take(0) =~= Seq::<Seq<Seq<char>>>::empty());
        }
        while m < unique.len()
            invariant
                uv == name_paths(unique@),
                m <= unique@.len(),
                out@ == start + chain_lines(uv.take(m as int), colors),
            decreases unique@.len() - m,
        {
            proof {
                assert(uv.take(m + 1).drop_last() =~= uv.take(m as int));
                assert(uv.take(m + 1).last() == views(unique@[m as int]@));
            }
            let path = &unique[m];
            if path.len() > 0 {
                push_lit(&mut out, "    ");
                push_str(&mut out, path[0].as_str());
                let ghost line_start = out@;
                let ghost pv = views(path@);
                let mut n: usize = 1;
                proof {
                    assert(pv.skip(1).take(0) =~= Seq::<Seq<char>>::empty());
                }
                while n < path.len()
                    invariant
                        pv == views(path@),
                        1 <= n <= path@.len(),
                        out@ == line_start + chain_tail(pv.skip(1).take(n - 1), colors),
                    decreases path@.len() - n,
                {
                    proof {
                        assert(pv.skip(1).take(n as int).drop_last() =~= pv.skip(1).take(n - 1));
                        assert(pv.skip(1).take(n as int).last() == path@[n as int]@);
                    }
                    push_lit(&mut out, " ");
                    push_painted(&mut out, "->", Paint::Blue, colors);
                    push_lit(&mut out, " ");
                    push_str(&mut out, path[n].as_str());
                    n = n + 1;
                }
                proof {
                    assert(pv.skip(1).take(path@.len() - 1) =~= pv.skip(1));
                    assert(pv[0] == path@[0]@);
                }
                push_lit(&mut out, "\n");
            }
            m = m + 1;
        }
        proof {
            assert(uv.take(unique@.len() as int) =~= uv);
        }
        string_of(&out)
    }
}

} // verus!
