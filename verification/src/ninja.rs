//! Reading the input files out of `ninja -t graph` and `ninja -t deps`
//! output.

use vstd::prelude::*;

use crate::markdown::{lines_of, strip_cr};
use crate::text::{
    chars_of, contains_chars, contains_seq, is_prefix, push_range, split_chars, split_on,
    starts_with, string_of,
};

verus! {

/// `char::is_whitespace`: the Unicode `White_Space` characters.
pub open spec fn is_white(c: char) -> bool {
    let n = c as u32;
    (0x9 <= n <= 0xd) || n == 0x20 || n == 0x85 || n == 0xa0 || n == 0x1680 || (0x2000 <= n
        <= 0x200a) || n == 0x2028 || n == 0x2029 || n == 0x202f || n == 0x205f || n == 0x3000
}

/// Whether a character is Unicode white space.
pub fn is_white_exec(c: char) -> (b: bool)
    ensures
        b == is_white(c),
{
    let n = c as u32;
    (0x9 <= n && n <= 0xd) || n == 0x20 || n == 0x85 || n == 0xa0 || n == 0x1680 || (0x2000 <= n
        && n <= 0x200a) || n == 0x2028 || n == 0x2029 || n == 0x202f || n == 0x205f || n == 0x3000
}

/// Number of leading white-space characters.
pub open spec fn lead_white(s: Seq<char>) -> nat
    decreases s.len(),
{
    if s.len() > 0 && is_white(s[0]) {
        1 + lead_white(s.skip(1))
    } else {
        0
    }
}

/// Number of trailing white-space characters.
pub open spec fn trail_white(s: Seq<char>) -> nat
    decreases s.len(),
{
    if s.len() > 0 && is_white(s.last()) {
        1 + trail_white(s.drop_last())
    } else {
        0
    }
}

/// `str::trim`: `s` without leading and trailing white space.
pub open spec fn trimmed(s: Seq<char>) -> Seq<char> {
    let t = s.skip(lead_white(s) as int);
    t.take(t.len() - trail_white(t))
}

proof fn lemma_lead_white(s: Seq<char>, i: int)
    requires
        0 <= i <= s.len(),
        forall|j: int| 0 <= j < i ==> is_white(s[j]),
        i == s.len() || !is_white(s[i]),
    ensures
        lead_white(s) == i,
    decreases i,
{
    if i > 0 {
        assert forall|j: int| 0 <= j < i - 1 implies is_white(s.skip(1)[j]) by {
            assert(s.skip(1)[j] == s[j + 1]);
        }
        if i < s.len() {
            assert(s.skip(1)[i - 1] == s[i]);
        }
        lemma_lead_white(s.skip(1), i - 1);
    }
}

proof fn lemma_trail_white(s: Seq<char>, k: int)
    requires
        0 <= k <= s.len(),
        forall|j: int| s.len() - k <= j < s.len() ==> is_white(s[j]),
        k == s.len() || !is_white(s[s.len() - k - 1]),
    ensures
        trail_white(s) == k,
    decreases k,
{
    if k > 0 {
        let d = s.drop_last();
        assert forall|j: int| d.len() - (k - 1) <= j < d.len() implies is_white(d[j]) by {
            assert(d[j] == s[j]);
        }
        if k < s.len() {
            assert(d[d.len() - (k - 1) - 1] == s[s.len() - k - 1]);
        }
        lemma_trail_white(d, k - 1);
    }
}

/// Trims white space from both ends.
pub fn trim(s: &Vec<char>) -> (r: Vec<char>)
    ensures
        r@ == trimmed(s@),
{
    let mut a: usize = 0;
    while a < s.len() && is_white_exec(s[a])
        invariant
            a <= s@.len(),
            forall|j: int| 0 <= j < a ==> is_white(s@[j]),
        decreases s@.len() - a,
    {
        a = a + 1;
    }
    proof {
        lemma_lead_white(s@, a as int);
    }
    let mut b: usize = s.len();
    while b > a && is_white_exec(s[b - 1])
        invariant
            a <= b <= s@.len(),
            forall|j: int| b <= j < s@.len() ==> is_white(s@[j]),
        decreases b - a,
    {
        b = b - 1;
    }
    proof {
        let t = s@.skip(a as int);
        assert forall|j: int| t.len() - (s@.len() - b) <= j < t.len() implies is_white(t[j]) by {
            assert(t[j] == s@[j + a]);
        }
        if b > a {
            assert(t[t.len() - (s@.len() - b) - 1] == s@[b - 1]);
        }
        lemma_trail_white(t, s@.len() - b);
    }
    let mut r: Vec<char> = Vec::new();
    push_range(&mut r, s, a, b);
    assert(r@ =~= trimmed(s@));
    r
}

/// The views of a list of strings.
pub open spec fn views(v: Seq<String>) -> Seq<Seq<char>> {
    v.map_values(|s: String| s@)
}

/// Adds a string to a duplicate-free list unless an equal one is present.
fn insert_unique(out: &mut Vec<String>, s: String)
    requires
        views(old(out)@).no_duplicates(),
    ensures
        views(final(out)@).no_duplicates(),
        views(final(out)@).to_set() == views(old(out)@).to_set().insert(s@),
{
    let ghost before = views(out@);
    let mut i: usize = 0;
    while i < out.len()
        invariant
            views(out@) == before,
            before.no_duplicates(),
            i <= out@.len(),
            forall|j: int| 0 <= j < i ==> out@[j]@ != s@,
        decreases out@.len() - i,
    {
        if out[i] == s {
            assert(before[i as int] == s@);
            assert(before.to_set() =~= before.to_set().insert(s@));
            return;
        }
        i = i + 1;
    }
    let ghost sv = s@;
    out.push(s);
    proof {
        assert(views(out@) =~= before.push(sv));
        assert forall|j: int| 0 <= j < before.len() implies before[j] != sv by {
            assert(before[j] == out@[j]@);
        }
        assert(views(out@).to_set() =~= before.to_set().insert(sv)) by {
            assert forall|x: Seq<char>| views(out@).to_set().contains(x) <==> before.to_set().insert(
                sv,
            ).contains(x) by {
                if views(out@).contains(x) {
                    let k = choose|k: int| 0 <= k < views(out@).len() && views(out@)[k] == x;
                    if k < before.len() {
                        assert(before[k] == x);
                    }
                }
                if before.contains(x) {
                    let k = choose|k: int| 0 <= k < before.len() && before[k] == x;
                    assert(views(out@)[k] == x);
                }
                if x == sv {
                    assert(views(out@)[before.len() as int] == sv);
                }
            }
        }
    }
}

/// The lines of `s` (as `str::lines` yields them).
pub(crate) fn lines(s: &str) -> (r: Vec<Vec<char>>)
    ensures
        r@.map_values(|l: Vec<char>| l@) == lines_of(s@),
{
    let pieces = split_chars(&chars_of(s), '\n');
    let ghost pv = pieces@.map_values(|p: Vec<char>| p@);
    let n: usize = if pieces[pieces.len() - 1].len() == 0 {
        pieces.len() - 1
    } else {
        pieces.len()
    };
    let mut out: Vec<Vec<char>> = Vec::new();
    let mut i: usize = 0;
    let ghost ls = lines_of(s@);
    assert(ls.len() == n);
    while i < n
        invariant
            pv == pieces@.map_values(|p: Vec<char>| p@),
            pv == split_on(s@, '\n'),
            ls == lines_of(s@),
            n == ls.len(),
            n <= pieces@.len(),
            i <= n,
            out@.map_values(|l: Vec<char>| l@) == ls.take(i as int),
        decreases n - i,
    {
        let piece = &pieces[i];
        let end: usize = if piece.len() > 0 && piece[piece.len() - 1] == '\r' {
            piece.len() - 1
        } else {
            piece.len()
        };
        let mut line: Vec<char> = Vec::new();
        push_range(&mut line, piece, 0, end);
        proof {
            assert(line@ =~= strip_cr(piece@));
            assert(ls[i as int] == strip_cr(pv[i as int]));
        }
        let ghost before = out@.map_values(|l: Vec<char>| l@);
        out.push(line);
        proof {
            assert(out@.map_values(|l: Vec<char>| l@) =~= before.push(ls[i as int]));
            assert(ls.take(i + 1) =~= ls.take(i as int).push(ls[i as int]));
        }
        i = i + 1;
    }
    proof {
        assert(ls.take(n as int) =~= ls);
    }
    out
}

/// The files `ninja -t deps` lists: its lines indented by two spaces, trimmed.
pub open spec fn deps_file(line: Seq<char>) -> bool {
    is_prefix("  "@, line)
}

/// The set of files named in `ninja -t deps` output.
pub open spec fn deps_files(s: Seq<char>) -> Set<Seq<char>> {
    Set::new(
        |f: Seq<char>|
            exists|i: int|
                0 <= i < lines_of(s).len() && deps_file(lines_of(s)[i]) && trimmed(
                    lines_of(s)[i],
                ) == f,
    )
}

/// The input files listed in `ninja -t deps` output, each once.
pub fn parse_ninja_deps(s: &str) -> (r: Vec<String>)
    ensures
        views(r@).no_duplicates(),
        views(r@).to_set() == deps_files(s@),
{
    let ls = lines(s);
    let ghost lv = ls@.map_values(|l: Vec<char>| l@);
    let prefix = chars_of("  ");
    let mut out: Vec<String> = Vec::new();
    let mut i: usize = 0;
    while i < ls.len()
        invariant
            lv == ls@.map_values(|l: Vec<char>| l@),
            lv == lines_of(s@),
            prefix@ == "  "@,
            i <= ls@.len(),
            views(out@).no_duplicates(),
            views(out@).to_set() == Set::new(
                |f: Seq<char>| exists|k: int| 0 <= k < i && deps_file(lv[k]) && trimmed(lv[k]) == f,
            ),
        decreases ls@.len() - i,
    {
        let ghost before = views(out@).to_set();
        let line = &ls[i];
        if starts_with(line, &prefix) {
            let t = trim(line);
            insert_unique(&mut out, string_of(&t));
            proof {
                assert(lv[i as int] == line@);
            }
        }
        proof {
            assert(views(out@).to_set() =~= Set::new(
                |f: Seq<char>|
                    exists|k: int| 0 <= k < i + 1 && deps_file(lv[k]) && trimmed(lv[k]) == f,
            )) by {
                assert(lv[i as int] == line@);
            }
        }
        i = i + 1;
    }
    assert(views(out@).to_set() =~= deps_files(s@));
    out
}

/// Whether a line of `ninja -t graph` output is a labelled node.
pub open spec fn graph_node(line: Seq<char>) -> bool {
    &&& line.len() > 0
    &&& line[0] == '"'
    &&& contains_seq(line, "label="@)
    &&& !contains_seq(line, "shape="@)
    &&& !contains_seq(line, " -> "@)
}

/// The label of a node line: the fourth piece between quotes.
pub open spec fn node_label(line: Seq<char>) -> Seq<char> {
    split_on(line, '"')[3]
}

/// Whether every node line has a label (else reading it fails).
pub open spec fn labels_present(s: Seq<char>) -> bool {
    forall|i: int|
        0 <= i < lines_of(s).len() && graph_node(#[trigger] lines_of(s)[i]) ==> split_on(
            lines_of(s)[i],
            '"',
        ).len() >= 4
}

/// The set of input files in `ninja -t graph` output: labels of nodes that
/// start with `..`.
pub open spec fn graph_files(s: Seq<char>) -> Set<Seq<char>> {
    Set::new(
        |f: Seq<char>|
            exists|i: int|
                0 <= i < lines_of(s).len() && graph_node(lines_of(s)[i]) && is_prefix(
                    ".."@,
                    node_label(lines_of(s)[i]),
                ) && node_label(lines_of(s)[i]) == f,
    )
}

/// A parser for the output of "ninja -t graph". It returns all of the input
/// files, each once.
pub fn parse_ninja_graph(s: &str) -> (r: Vec<String>)
    requires
        labels_present(s@),
    ensures
        views(r@).no_duplicates(),
        views(r@).to_set() == graph_files(s@),
{
    let ls = lines(s);
    let ghost lv = ls@.map_values(|l: Vec<char>| l@);
    let label = chars_of("label=");
    let shape = chars_of("shape=");
    let arrow = chars_of(" -> ");
    let dots = chars_of("..");
    let mut out: Vec<String> = Vec::new();
    let mut i: usize = 0;
    while i < ls.len()
        invariant
            lv == ls@.map_values(|l: Vec<char>| l@),
            lv == lines_of(s@),
            labels_present(s@),
            label@ == "label="@,
            shape@ == "shape="@,
            arrow@ == " -> "@,
            dots@ == ".."@,
            i <= ls@.len(),
            views(out@).no_duplicates(),
            views(out@).to_set() == Set::new(
                |f: Seq<char>|
                    exists|k: int|
                        0 <= k < i && graph_node(lv[k]) && is_prefix(".."@, node_label(lv[k]))
                            && node_label(lv[k]) == f,
            ),
        decreases ls@.len() - i,
    {
        let line = &ls[i];
        proof {
            assert(lv[i as int] == line@);
        }
        if line.len() > 0 && line[0] == '"' && contains_chars(line, &label) && !contains_chars(
            line,
            &shape,
        ) && !contains_chars(line, &arrow) {
            let parts = split_chars(line, '"');
            proof {
                assert(graph_node(lines_of(s@)[i as int]));
            }
            let filename = &parts[3];
            if starts_with(filename, &dots) {
                insert_unique(&mut out, string_of(filename));
            }
        }
        proof {
            assert(views(out@).to_set() =~= Set::new(
                |f: Seq<char>|
                    exists|k: int|
                        0 <= k < i + 1 && graph_node(lv[k]) && is_prefix(".."@, node_label(lv[k]))
                            && node_label(lv[k]) == f,
            ));
        }
        i = i + 1;
    }
    assert(views(out@).to_set() =~= graph_files(s@));
    out
}

} // verus!
