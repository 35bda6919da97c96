//! Markdown pages for commands and their arguments.
//!
//! Commands and arguments are described by plain values read from the
//! command-line parser.

use vstd::prelude::*;

use crate::text::{
    eq_lit,
    chars_of, push_all, push_lit, push_range, push_str, repeat_lit, repeat_seq, split_chars,
    split_on, string_of,
};

verus! {

/// `line` without one trailing carriage return.
pub open spec fn strip_cr(line: Seq<char>) -> Seq<char> {
    if line.len() > 0 && line.last() == '\r' {
        line.drop_last()
    } else {
        line
    }
}

/// `str::lines`: the pieces between newlines, without a final empty piece,
/// each without a trailing carriage return.
pub open spec fn lines_of(s: Seq<char>) -> Seq<Seq<char>> {
    let ps = split_on(s, '\n');
    let ls = if ps.last().len() == 0 {
        ps.drop_last()
    } else {
        ps
    };
    ls.map_values(|l: Seq<char>| strip_cr(l))
}

/// The number of leading spaces of `l`.
pub open spec fn leading_spaces(l: Seq<char>) -> nat
    decreases l.len(),
{
    if l.len() > 0 && l[0] == ' ' {
        1 + leading_spaces(l.skip(1))
    } else {
        0
    }
}

/// A line with each leading space written as `&nbsp;`.
pub open spec fn nbsp_line(l: Seq<char>) -> Seq<char> {
    repeat_seq("&nbsp;"@, leading_spaces(l)) + l.skip(leading_spaces(l) as int)
}

/// Each line followed by a newline.
pub open spec fn lines_with_newlines(ls: Seq<Seq<char>>) -> Seq<char>
    decreases ls.len(),
{
    if ls.len() == 0 {
        Seq::<char>::empty()
    } else {
        lines_with_newlines(ls.drop_last()) + nbsp_line(ls.last()) + seq!['\n']
    }
}

/// Backquotes and hashes escaped with a backslash.
pub open spec fn escape_specials(s: Seq<char>) -> Seq<char>
    decreases s.len(),
{
    if s.len() == 0 {
        Seq::<char>::empty()
    } else {
        let c = s.last();
        escape_specials(s.drop_last()) + if c == '`' || c == '#' {
            seq!['\\', c]
        } else {
            seq![c]
        }
    }
}

/// Markdown for a description: leading spaces of every line become `&nbsp;`,
/// lines are joined by newlines, and backquotes and hashes are escaped.
pub open spec fn escaped_markdown(description: Seq<char>) -> Seq<char> {
    let joined = lines_with_newlines(lines_of(description));
    escape_specials(
        if joined.len() > 0 {
            joined.drop_last()
        } else {
            joined
        },
    )
}

/// Whether `c` does not occur in `s`.
pub open spec fn lacks(s: Seq<char>, c: char) -> bool {
    forall|i: int| 0 <= i < s.len() ==> s[i] != c
}

/// Splitting at a separator splits the two sides apart.
proof fn lemma_split_concat(x: Seq<char>, y: Seq<char>, sep: char)
    ensures
        split_on(x + seq![sep] + y, sep) == split_on(x, sep) + split_on(y, sep),
    decreases y.len(),
{
    let s = x + seq![sep] + y;
    if y.len() == 0 {
        assert(s.drop_last() =~= x);
        assert(s.last() == sep);
        assert(split_on(y, sep) =~= seq![Seq::<char>::empty()]);
        assert(split_on(x, sep).push(Seq::<char>::empty()) =~= split_on(x, sep) + split_on(y, sep));
    } else {
        lemma_split_concat(x, y.drop_last(), sep);
        assert(s.drop_last() =~= x + seq![sep] + y.drop_last());
        assert(s.last() == y.last());
        crate::text::lemma_split_on_nonempty(y.drop_last(), sep);
        let p = split_on(x, sep);
        let q = split_on(y.drop_last(), sep);
        if y.last() == sep {
            assert((p + q).push(Seq::<char>::empty()) =~= p + q.push(Seq::<char>::empty()));
        } else {
            assert((p + q).last() == q.last());
            assert((p + q).update((p + q).len() - 1, (p + q).last().push(y.last())) =~= p + q.update(
                q.len() - 1,
                q.last().push(y.last()),
            ));
        }
    }
}

/// Text without the separator is one piece.
proof fn lemma_split_single(z: Seq<char>, sep: char)
    requires
        lacks(z, sep),
    ensures
        split_on(z, sep) == seq![z],
    decreases z.len(),
{
    if z.len() == 0 {
        assert(z =~= Seq::<char>::empty());
        assert(split_on(z, sep) =~= seq![z]);
    } else {
        lemma_split_single(z.drop_last(), sep);
        assert(z.last() != sep);
        assert(z.drop_last().push(z.last()) =~= z);
        assert(seq![z.drop_last()].update(0, z.drop_last().push(z.last())) =~= seq![z]);
    }
}

/// No piece holds the separator.
proof fn lemma_split_pieces_lack(s: Seq<char>, sep: char)
    ensures
        forall|i: int| 0 <= i < split_on(s, sep).len() ==> lacks(#[trigger] split_on(s, sep)[i], sep),
    decreases s.len(),
{
    if s.len() > 0 {
        lemma_split_pieces_lack(s.drop_last(), sep);
        crate::text::lemma_split_on_nonempty(s.drop_last(), sep);
        let prev = split_on(s.drop_last(), sep);
        if s.last() != sep {
            let l = prev.last().push(s.last());
            assert(lacks(prev[prev.len() - 1], sep));
            assert(lacks(l, sep)) by {
                assert forall|j: int| 0 <= j < l.len() implies l[j] != sep by {
                    if j < l.len() - 1 {
                        assert(l[j] == prev.last()[j]);
                    }
                }
            }
        }
    }
}

/// Escaping works character by character.
proof fn lemma_escape_concat(a: Seq<char>, b: Seq<char>)
    ensures
        escape_specials(a + b) == escape_specials(a) + escape_specials(b),
    decreases b.len(),
{
    if b.len() == 0 {
        assert(a + b =~= a);
        assert(escape_specials(a) + escape_specials(b) =~= escape_specials(a));
    } else {
        lemma_escape_concat(a, b.drop_last());
        assert((a + b).drop_last() =~= a + b.drop_last());
        assert((a + b).last() == b.last());
    }
}

/// Escaping adds no newline.
proof fn lemma_escape_lacks_newline(z: Seq<char>)
    requires
        lacks(z, '\n'),
    ensures
        lacks(escape_specials(z), '\n'),
    decreases z.len(),
{
    if z.len() > 0 {
        lemma_escape_lacks_newline(z.drop_last());
        let c = z.last();
        assert(c != '\n');
    }
}

/// Text without backquotes or hashes is left as it is.
proof fn lemma_escape_plain(z: Seq<char>)
    requires
        lacks(z, '`'),
        lacks(z, '#'),
    ensures
        escape_specials(z) == z,
    decreases z.len(),
{
    if z.len() > 0 {
        lemma_escape_plain(z.drop_last());
        assert(z.drop_last().push(z.last()) =~= z);
        assert(z.drop_last() + seq![z.last()] =~= z);
    }
}

/// Copies of `&nbsp;` hold neither newlines, backquotes nor hashes.
proof fn lemma_nbsp_plain(n: nat)
    ensures
        lacks(repeat_seq("&nbsp;"@, n), '\n'),
        lacks(repeat_seq("&nbsp;"@, n), '`'),
        lacks(repeat_seq("&nbsp;"@, n), '#'),
    decreases n,
{
    reveal_strlit("&nbsp;");
    if n > 0 {
        lemma_nbsp_plain((n - 1) as nat);
        let r = repeat_seq("&nbsp;"@, n);
        let p = repeat_seq("&nbsp;"@, (n - 1) as nat);
        assert forall|i: int| 0 <= i < r.len() implies r[i] != '\n' && r[i] != '`' && r[i] != '#' by {
            if i < p.len() {
                assert(r[i] == p[i]);
            } else {
                assert(r[i] == "&nbsp;"@[i - p.len()]);
            }
        }
    }
}

/// A line written with `&nbsp;` holds no newline if the line holds none.
proof fn lemma_nbsp_line_lacks_newline(l: Seq<char>)
    requires
        lacks(l, '\n'),
    ensures
        lacks(nbsp_line(l), '\n'),
{
    lemma_nbsp_plain(leading_spaces(l));
    lemma_leading_spaces_within(l);
    let a = repeat_seq("&nbsp;"@, leading_spaces(l));
    let b = l.skip(leading_spaces(l) as int);
    assert forall|i: int| 0 <= i < (a + b).len() implies (a + b)[i] != '\n' by {
        if i >= a.len() {
            assert((a + b)[i] == l[i - a.len() + leading_spaces(l)]);
        }
    }
}

/// The leading spaces lie within the line.
proof fn lemma_leading_spaces_within(l: Seq<char>)
    ensures
        leading_spaces(l) <= l.len(),
    decreases l.len(),
{
    if l.len() > 0 && l[0] == ' ' {
        lemma_leading_spaces_within(l.skip(1));
    }
}

/// The escaped lines, joined by newlines, split back into the escaped lines.
proof fn lemma_split_escaped_lines(ls: Seq<Seq<char>>)
    requires
        ls.len() > 0,
        forall|i: int| 0 <= i < ls.len() ==> lacks(#[trigger] ls[i], '\n'),
    ensures
        split_on(escape_specials(lines_with_newlines(ls).drop_last()), '\n') == ls.map_values(
            |l: Seq<char>| escape_specials(nbsp_line(l)),
        ),
    decreases ls.len(),
{
    let last = ls.last();
    let init = ls.drop_last();
    assert(lacks(last, '\n'));
    lemma_nbsp_line_lacks_newline(last);
    lemma_escape_lacks_newline(nbsp_line(last));
    let e = escape_specials(nbsp_line(last));
    lemma_split_single(e, '\n');
    let whole = lines_with_newlines(ls);
    assert(whole.drop_last() =~= lines_with_newlines(init) + nbsp_line(last));
    if ls.len() == 1 {
        assert(lines_with_newlines(init) =~= Seq::<char>::empty());
        assert(lines_with_newlines(init) + nbsp_line(last) =~= nbsp_line(last));
        assert(ls.map_values(|l: Seq<char>| escape_specials(nbsp_line(l))) =~= seq![e]);
    } else {
        assert forall|i: int| 0 <= i < init.len() implies lacks(#[trigger] init[i], '\n') by {
            assert(init[i] == ls[i]);
        }
        lemma_split_escaped_lines(init);
        let a = lines_with_newlines(init);
        let a0 = a.drop_last();
        assert(a =~= a0 + seq!['\n']);
        assert(whole.drop_last() =~= a0 + seq!['\n'] + nbsp_line(last));
        lemma_escape_concat(a0 + seq!['\n'], nbsp_line(last));
        lemma_escape_concat(a0, seq!['\n']);
        assert(escape_specials(seq!['\n']) =~= seq!['\n']) by {
            assert(seq!['\n'].drop_last() =~= Seq::<char>::empty());
        }
        let ea = escape_specials(a0);
        assert(escape_specials(whole.drop_last()) =~= ea + seq!['\n'] + e);
        lemma_split_concat(ea, e, '\n');
        assert(ls.map_values(|l: Seq<char>| escape_specials(nbsp_line(l))) =~= init.map_values(
            |l: Seq<char>| escape_specials(nbsp_line(l)),
        ) + seq![e]);
    }
}

/// The lines of a text hold no newline.
proof fn lemma_lines_lack_newline(d: Seq<char>)
    ensures
        forall|i: int| 0 <= i < lines_of(d).len() ==> lacks(#[trigger] lines_of(d)[i], '\n'),
{
    lemma_split_pieces_lack(d, '\n');
    let ps = split_on(d, '\n');
    let ls = if ps.last().len() == 0 {
        ps.drop_last()
    } else {
        ps
    };
    crate::text::lemma_split_on_nonempty(d, '\n');
    assert(lines_of(d) == ls.map_values(|l: Seq<char>| strip_cr(l)));
    assert(lines_of(d).len() == ls.len());
    assert(ls.len() <= ps.len());
    assert forall|i: int| 0 <= i < lines_of(d).len() implies lacks(#[trigger] lines_of(d)[i], '\n') by {
        assert(i < ls.len());
        assert(ls[i] == ps[i]);
        assert(lacks(ps[i], '\n'));
        assert(lines_of(d)[i] == strip_cr(ls[i]));
    }
}

/// Every line of a description is escaped the same way, not only the first:
/// the description's k-th line, led by `m` spaces, becomes the output's k-th
/// line, with those spaces written as `&nbsp;` and the rest as it is (where
/// the line holds no backquote or hash to escape). The output has as many
/// lines as the description.
pub proof fn law_escape_markdown_every_line(d: Seq<char>, k: int, m: int)
    requires
        0 <= k < lines_of(d).len(),
        0 <= m <= lines_of(d)[k].len(),
        forall|j: int| 0 <= j < m ==> lines_of(d)[k][j] == ' ',
        m == lines_of(d)[k].len() || lines_of(d)[k][m] != ' ',
        lacks(lines_of(d)[k], '`'),
        lacks(lines_of(d)[k], '#'),
    ensures
        split_on(escaped_markdown(d), '\n').len() == lines_of(d).len(),
        split_on(escaped_markdown(d), '\n')[k] == repeat_seq("&nbsp;"@, m as nat) + lines_of(d)[k].skip(m),
{
    let ls = lines_of(d);
    let line = ls[k];
    lemma_lines_lack_newline(d);
    lemma_split_escaped_lines(ls);
    let joined = lines_with_newlines(ls);
    assert(joined.len() > 0);
    lemma_leading_spaces(line, m);
    lemma_nbsp_plain(m as nat);
    let n = nbsp_line(line);
    assert(lacks(n, '`') && lacks(n, '#')) by {
        assert forall|i: int| 0 <= i < n.len() implies n[i] != '`' && n[i] != '#' by {
            let a = repeat_seq("&nbsp;"@, m as nat);
            if i >= a.len() {
                assert(n[i] == line[i - a.len() + m]);
            }
        }
    }
    lemma_escape_plain(n);
}

/// In escaped text, every backquote and hash follows a backslash.
proof fn lemma_escape_marks_specials(z: Seq<char>, j: int)
    requires
        0 <= j < escape_specials(z).len(),
        escape_specials(z)[j] == '`' || escape_specials(z)[j] == '#',
    ensures
        j > 0 && escape_specials(z)[j - 1] == '\\',
    decreases z.len(),
{
    if z.len() > 0 {
        let p = escape_specials(z.drop_last());
        let c = z.last();
        let e = escape_specials(z);
        if j < p.len() {
            assert(e[j] == p[j]);
            lemma_escape_marks_specials(z.drop_last(), j);
            assert(e[j - 1] == p[j - 1]);
        } else if c == '`' || c == '#' {
            assert(e[p.len() as int] == '\\');
            assert(e[(p.len() + 1) as int] == c);
        } else {
            assert(e[j] == c);
        }
    }
}

/// Backquotes and hashes never reach the markdown unescaped: each one in
/// the output of a description follows a backslash.
pub proof fn law_escape_markdown_specials(d: Seq<char>)
    ensures
        forall|j: int|
            0 <= j < escaped_markdown(d).len() && (#[trigger] escaped_markdown(d)[j] == '`'
                || escaped_markdown(d)[j] == '#') ==> j > 0 && escaped_markdown(d)[j - 1] == '\\',
{
    let joined = lines_with_newlines(lines_of(d));
    let z = if joined.len() > 0 {
        joined.drop_last()
    } else {
        joined
    };
    assert(escaped_markdown(d) == escape_specials(z));
    assert forall|j: int|
        0 <= j < escaped_markdown(d).len() && (#[trigger] escaped_markdown(d)[j] == '`'
            || escaped_markdown(d)[j] == '#') implies j > 0 && escaped_markdown(d)[j - 1] == '\\' by {
        lemma_escape_marks_specials(z, j);
    }
}

/// Counts leading spaces.
fn count_leading_spaces(l: &Vec<char>) -> (n: usize)
    ensures
        n == leading_spaces(l@),
        n <= l@.len(),
{
    let mut i: usize = 0;
    while i < l.len() && l[i] == ' '
        invariant
            i <= l@.len(),
            forall|j: int| 0 <= j < i ==> l@[j] == ' ',
        decreases l@.len() - i,
    {
        i = i + 1;
    }
    proof {
        lemma_leading_spaces(l@, i as int);
    }
    i
}

/// `leading_spaces` counts up to the first non-space.
proof fn lemma_leading_spaces(l: Seq<char>, i: int)
    requires
        0 <= i <= l.len(),
        forall|j: int| 0 <= j < i ==> l[j] == ' ',
        i == l.len() || l[i] != ' ',
    ensures
        leading_spaces(l) == i,
    decreases i,
{
    if i > 0 {
        assert forall|j: int| 0 <= j < i - 1 implies l.skip(1)[j] == ' ' by {
            assert(l.skip(1)[j] == l[j + 1]);
        }
        if i < l.len() {
            assert(l.skip(1)[i - 1] == l[i]);
        }
        lemma_leading_spaces(l.skip(1), i - 1);
    }
}

/// Escape markdown for proper formatting.
pub fn escape_markdown(description: &str) -> (r: String)
    ensures
        r@ == escaped_markdown(description@),
{
    let d = chars_of(description);
    let pieces = split_chars(&d, '\n');
    let ghost pv = pieces@.map_values(|p: Vec<char>| p@);
    let n: usize = if pieces[pieces.len() - 1].len() == 0 {
        pieces.len() - 1
    } else {
        pieces.len()
    };
    let ghost ls = lines_of(description@);
    assert(ls.len() == n);
    let mut out: Vec<char> = Vec::new();
    let mut i: usize = 0;
    proof {
        assert(ls.take(0) =~= Seq::<Seq<char>>::empty());
    }
    while i < n
        invariant
            pv == pieces@.map_values(|p: Vec<char>| p@),
            pv == split_on(description@, '\n'),
            ls == lines_of(description@),
            n == ls.len(),
            n <= pieces@.len(),
            i <= n,
            out@ == lines_with_newlines(ls.take(i as int)),
        decreases n - i,
    {
        let piece = &pieces[i];
        let end: usize = if piece.len() > 0 && piece[piece.len() - 1] == '\r' {
            piece.len() - 1
        } else {
            piece.len()
        };
        let mut line: Vec<char> = Vec::new();
        push_range(&mut line, piece, 0, end);
        proof {
            assert(line@ =~= strip_cr(piece@));
            assert(ls[i as int] == strip_cr(pv[i as int]));
            assert(ls.take(i + 1).drop_last() =~= ls.take(i as int));
        }
        let k = count_leading_spaces(&line);
        let nb = repeat_lit("&nbsp;", k);
        push_all(&mut out, &nb);
        push_range(&mut out, &line, k, line.len());
        out.push('\n');
        proof {
            assert(line@.subrange(k as int, line@.len() as int) =~= line@.skip(k as int));
            assert(out@ =~= lines_with_newlines(ls.take(i as int)) + nbsp_line(line@) + seq![
                '\n',
            ]);
        }
        i = i + 1;
    }
    proof {
        assert(ls.take(n as int) =~= ls);
    }
    if out.len() > 0 {
        out.pop();
    }
    let ghost joined = out@;
    let mut esc: Vec<char> = Vec::new();
    let mut j: usize = 0;
    while j < out.len()
        invariant
            joined == out@,
            j <= out@.len(),
            esc@ == escape_specials(out@.take(j as int)),
        decreases out@.len() - j,
    {
        let c = out[j];
        if c == '`' || c == '#' {
            esc.push('\\');
        }
        esc.push(c);
        proof {
            assert(out@.take(j + 1).drop_last() =~= out@.take(j as int));
            assert(esc@ =~= escape_specials(out@.take(j as int)) + if c == '`' || c == '#' {
                seq!['\\', c]
            } else {
                seq![c]
            });
        }
        j = j + 1;
    }
    proof {
        assert(out@.take(out@.len() as int) =~= out@);
    }
    string_of(&esc)
}

/// What the markdown of an argument is made from.
#[derive(Debug)]
pub struct ArgInfo {
    /// Hidden arguments are not shown.
    pub hidden: bool,
    pub short: Option<char>,
    pub long: Option<String>,
    /// The least number of values the argument takes.
    pub min_values: usize,
    pub positional: bool,
    pub required: bool,
    pub value_names: Option<Vec<String>>,
    pub value_delimiter: Option<char>,
    /// Whether the argument counts its occurrences.
    pub counts: bool,
    /// The long help, else the short help.
    pub help: Option<String>,
    /// Names of the accepted values that are not hidden, in order.
    pub possible_values: Vec<String>,
}

/// The views of a list of strings.
pub open spec fn views(v: Seq<String>) -> Seq<Seq<char>> {
    v.map_values(|s: String| s@)
}

/// The value names, separated by the delimiter; optional ones in square
/// brackets, required ones in angle brackets.
pub open spec fn value_names_md(names: Seq<Seq<char>>, delim: char, min_required: nat, all_optional: bool) -> Seq<char>
    decreases names.len(),
{
    if names.len() == 0 {
        Seq::<char>::empty()
    } else {
        let i = names.len() - 1;
        let sep = if i != 0 {
            seq![delim]
        } else {
            Seq::<char>::empty()
        };
        let name = if i >= min_required || all_optional {
            seq!['['] + names[i] + seq![']']
        } else {
            seq!['<'] + names[i] + seq!['>']
        };
        value_names_md(names.drop_last(), delim, min_required, all_optional) + sep + name
    }
}

/// The accepted values: the first after a label, the others after commas.
pub open spec fn possible_values_md(vals: Seq<Seq<char>>) -> Seq<char>
    decreases vals.len(),
{
    if vals.len() == 0 {
        Seq::<char>::empty()
    } else {
        let v = vals.last();
        let part = if vals.len() == 1 {
            "\n&emsp; Accepted values: `"@ + v + "`"@
        } else {
            ", `"@ + v + "`"@
        };
        possible_values_md(vals.drop_last()) + part
    }
}

/// The flag part: `-s`, `--long`, or both separated by a comma.
pub open spec fn flags_md(a: &ArgInfo) -> Seq<char> {
    let s = match a.short {
        Some(c) => seq!['-', c],
        None => Seq::<char>::empty(),
    };
    match a.long {
        Some(l) => s + (if s.len() > 0 {
            ", "@
        } else {
            Seq::<char>::empty()
        }) + "--"@ + l@,
        None => s,
    }
}

/// The markdown of an argument: flags, value names, a repetition mark, the
/// escaped help and the accepted values.
pub open spec fn argument_md(a: &ArgInfo) -> Seq<char> {
    let f = flags_md(a);
    let with_values = match a.value_names {
        Some(ns) => f + (if f.len() > 0 {
            " "@
        } else {
            Seq::<char>::empty()
        }) + value_names_md(
            views(ns@),
            match a.value_delimiter {
                Some(d) => d,
                None => ' ',
            },
            a.min_values as nat,
            a.positional && !a.required,
        ),
        None => f,
    };
    let with_count = if a.counts {
        with_values + "..."@
    } else {
        with_values
    };
    let with_help = match a.help {
        Some(h) => with_count + "\n&emsp; "@ + escaped_markdown(h@),
        None => with_count,
    };
    with_help + possible_values_md(views(a.possible_values@))
}

/// Convert argument to markdown; hidden arguments give none.
pub fn generate_argument(arg: &ArgInfo) -> (r: Option<String>)
    ensures
        arg.hidden ==> r is None,
        !arg.hidden ==> (r matches Some(m) && m@ == argument_md(arg)),
{
    if arg.hidden {
        return None;
    }
    let mut md: Vec<char> = Vec::new();
    if let Some(short) = arg.short {
        md.push('-');
        md.push(short);
    }
    proof {
        assert(md@ =~= match arg.short {
            Some(c) => seq!['-', c],
            None => Seq::<char>::empty(),
        });
    }
    if let Some(long) = &arg.long {
        if md.len() > 0 {
            push_lit(&mut md, ", ");
        }
        push_lit(&mut md, "--");
        push_str(&mut md, long.as_str());
    }
    assert(md@ == flags_md(arg));
    let min_required = arg.min_values;
    let all_optional = arg.positional && !arg.required;
    if let Some(value_names) = &arg.value_names {
        if md.len() > 0 {
            push_lit(&mut md, " ");
        }
        let delimiter = match arg.value_delimiter {
            Some(d) => d,
            None => ' ',
        };
        let ghost start = md@;
        let ghost nv = views(value_names@);
        let mut i: usize = 0;
        proof {
            assert(nv.take(0) =~= Seq::<Seq<char>>::empty());
        }
        while i < value_names.len()
            invariant
                nv == views(value_names@),
                i <= value_names@.len(),
                md@ == start + value_names_md(
                    nv.take(i as int),
                    delimiter,
                    min_required as nat,
                    all_optional,
                ),
            decreases value_names@.len() - i,
        {
            let ghost before = md@;
            if i != 0 {
                md.push(delimiter);
            }
            if i >= min_required || all_optional {
                md.push('[');
                push_str(&mut md, value_names[i].as_str());
                md.push(']');
            } else {
                md.push('<');
                push_str(&mut md, value_names[i].as_str());
                md.push('>');
            }
            proof {
                let t = nv.take(i + 1);
                assert(t.drop_last() =~= nv.take(i as int));
                assert(t[i as int] == value_names@[i as int]@);
                let sep = if i != 0 {
                    seq![delimiter]
                } else {
                    Seq::<char>::empty()
                };
                let name = if i >= min_required || all_optional {
                    seq!['['] + value_names@[i as int]@ + seq![']']
                } else {
                    seq!['<'] + value_names@[i as int]@ + seq!['>']
                };
                assert(md@ =~= before + sep + name);
            }
            i = i + 1;
        }
        proof {
            assert(nv.take(value_names@.len() as int) =~= nv);
        }
    }
    if arg.counts {
        push_lit(&mut md, "...");
    }
    if let Some(description) = &arg.help {
        let description = escape_markdown(description.as_str());
        push_lit(&mut md, "\n&emsp; ");
        push_str(&mut md, description.as_str());
    }
    let ghost before_values = md@;
    let ghost pv = views(arg.possible_values@);
    let mut k: usize = 0;
    proof {
        assert(pv.take(0) =~= Seq::<Seq<char>>::empty());
    }
    while k < arg.possible_values.len()
        invariant
            pv == views(arg.possible_values@),
            k <= arg.possible_values@.len(),
            md@ == before_values + possible_values_md(pv.take(k as int)),
        decreases arg.possible_values@.len() - k,
    {
        let ghost before = md@;
        if k == 0 {
            push_lit(&mut md, "\n&emsp; Accepted values: `");
        } else {
            push_lit(&mut md, ", `");
        }
        push_str(&mut md, arg.possible_values[k].as_str());
        push_lit(&mut md, "`");
        proof {
            let t = pv.take(k + 1);
            assert(t.drop_last() =~= pv.take(k as int));
            assert(t.last() == arg.possible_values@[k as int]@);
        }
        k = k + 1;
    }
    proof {
        assert(pv.take(arg.possible_values@.len() as int) =~= pv);
    }
    Some(string_of(&md))
}

/// What the markdown page of a command is made from.
#[derive(Debug)]
pub struct CommandInfo {
    pub name: String,
    /// The long description, else the short one.
    pub about: Option<String>,
    /// The rendered usage line.
    pub usage: String,
    pub positionals: Vec<ArgInfo>,
    /// The arguments that are not positional.
    pub options: Vec<ArgInfo>,
    /// Names of the subcommands that are shown (not hidden, not `help`).
    pub subcommands: Vec<String>,
}

/// Generated markdown file.
#[derive(Debug)]
pub struct Markdown {
    /// Name of the (sub)command and all its parents, topmost first.
    pub command: Vec<String>,
    /// Generated markdown page.
    pub content: String,
}

/// The markdown of the arguments that are shown, in order.
pub open spec fn shown_args(args: Seq<ArgInfo>) -> Seq<Seq<char>>
    decreases args.len(),
{
    if args.len() == 0 {
        Seq::<Seq<char>>::empty()
    } else {
        let rest = shown_args(args.drop_last());
        if args.last().hidden {
            rest
        } else {
            rest.push(argument_md(&args.last()))
        }
    }
}

/// Each block preceded by an empty line.
pub open spec fn blocks(mds: Seq<Seq<char>>) -> Seq<char>
    decreases mds.len(),
{
    if mds.len() == 0 {
        Seq::<char>::empty()
    } else {
        blocks(mds.drop_last()) + seq!['\n'] + mds.last() + seq!['\n']
    }
}

/// A section with a heading, present only when it has blocks.
pub open spec fn section(heading: Seq<char>, mds: Seq<Seq<char>>) -> Seq<char> {
    if mds.len() > 0 {
        heading + blocks(mds)
    } else {
        Seq::<char>::empty()
    }
}

/// The pieces joined by `sep`.
pub open spec fn joined(list: Seq<Seq<char>>, sep: Seq<char>) -> Seq<char>
    decreases list.len(),
{
    if list.len() == 0 {
        Seq::<char>::empty()
    } else if list.len() == 1 {
        list[0]
    } else {
        joined(list.drop_last(), sep) + sep + list.last()
    }
}

/// One list item linking a subcommand's page.
pub open spec fn subcommand_item(parents: Seq<Seq<char>>, name: Seq<char>) -> Seq<char> {
    "* ["@ + joined(parents, " "@) + " "@ + name + "](./"@ + joined(parents, "_"@) + "_"@ + name
        + ")\n"@
}

/// The list items of the subcommands.
pub open spec fn subcommand_items(parents: Seq<Seq<char>>, names: Seq<Seq<char>>) -> Seq<char>
    decreases names.len(),
{
    if names.len() == 0 {
        Seq::<char>::empty()
    } else {
        subcommand_items(parents, names.drop_last()) + subcommand_item(parents, names.last())
    }
}

/// The page of a command whose full name is `path`.
pub open spec fn command_md(cmd: &CommandInfo, path: Seq<Seq<char>>) -> Seq<char> {
    let about = match cmd.about {
        Some(a) => escaped_markdown(a@) + "\n"@,
        None => Seq::<char>::empty(),
    };
    let subs = views(cmd.subcommands@);
    about + "\n```sh\n"@ + cmd.usage@ + "\n```\n"@ + section(
        "\n### Arguments\n"@,
        shown_args(cmd.positionals@),
    ) + section("\n### Options\n"@, shown_args(cmd.options@)) + (if subs.len() > 0 {
        "\n### Commands\n\n"@ + subcommand_items(path, subs)
    } else {
        Seq::<char>::empty()
    })
}

/// Joins strings with a separator.
pub(crate) fn join_strings(list: &Vec<String>, sep: &str) -> (r: Vec<char>)
    ensures
        r@ == joined(views(list@), sep@),
{
    let ghost lv = views(list@);
    let mut out: Vec<char> = Vec::new();
    let mut i: usize = 0;
    proof {
        assert(lv.take(0) =~= Seq::<Seq<char>>::empty());
    }
    while i < list.len()
        invariant
            lv == views(list@),
            i <= list@.len(),
            out@ == joined(lv.take(i as int), sep@),
        decreases list@.len() - i,
    {
        if i != 0 {
            push_lit(&mut out, sep);
        }
        push_str(&mut out, list[i].as_str());
        proof {
            let t = lv.take(i + 1);
            assert(t.drop_last() =~= lv.take(i as int));
            assert(t.last() == list@[i as int]@);
            if i == 0 {
                assert(t.len() == 1);
                assert(out@ =~= t[0]);
            }
        }
        i = i + 1;
    }
    proof {
        assert(lv.take(list@.len() as int) =~= lv);
    }
    out
}

/// Appends the section of the shown arguments.
fn push_section(md: &mut Vec<char>, heading: &str, args: &Vec<ArgInfo>)
    ensures
        final(md)@ == old(md)@ + section(heading@, shown_args(args@)),
{
    let mut texts: Vec<String> = Vec::new();
    let mut i: usize = 0;
    proof {
        assert(args@.take(0) =~= Seq::<ArgInfo>::empty());
        assert(views(texts@) =~= shown_args(args@.take(0)));
    }
    while i < args.len()
        invariant
            i <= args@.len(),
            views(texts@) == shown_args(args@.take(i as int)),
        decreases args@.len() - i,
    {
        proof {
            assert(args@.take(i + 1).drop_last() =~= args@.take(i as int));
            assert(args@.take(i + 1).last() == args@[i as int]);
        }
        if let Some(m) = generate_argument(&args[i]) {
            let ghost before = views(texts@);
            texts.push(m);
            proof {
                assert(views(texts@) =~= before.push(argument_md(&args@[i as int])));
            }
        }
        i = i + 1;
    }
    proof {
        assert(args@.take(args@.len() as int) =~= args@);
    }
    if texts.len() > 0 {
        push_lit(md, heading);
        let ghost start = md@;
        let ghost tv = views(texts@);
        let mut k: usize = 0;
        proof {
            assert(tv.take(0) =~= Seq::<Seq<char>>::empty());
        }
        while k < texts.len()
            invariant
                tv == views(texts@),
                k <= texts@.len(),
                md@ == start + blocks(tv.take(k as int)),
            decreases texts@.len() - k,
        {
            md.push('\n');
            push_str(md, texts[k].as_str());
            md.push('\n');
            proof {
                let t = tv.take(k + 1);
                assert(t.drop_last() =~= tv.take(k as int));
                assert(t.last() == texts@[k as int]@);
            }
            k = k + 1;
        }
        proof {
            assert(tv.take(texts@.len() as int) =~= tv);
        }
    }
}

impl Markdown {
    /// The page of a command below the given parent commands.
    pub fn from_command(cmd: &CommandInfo, parents: Vec<String>) -> (r: Self)
        ensures
            views(r.command@) == views(parents@).push(cmd.name@),
            r.content@ == command_md(cmd, views(parents@).push(cmd.name@)),
    {
        let mut parents = parents;
        let ghost pv0 = views(parents@);
        parents.push(cmd.name.clone());
        let ghost path = views(parents@);
        assert(path =~= pv0.push(cmd.name@));
        let mut md: Vec<char> = Vec::new();
        if let Some(description) = &cmd.about {
            let description = escape_markdown(description.as_str());
            push_str(&mut md, description.as_str());
            md.push('\n');
            proof {
                reveal_strlit("\n");
                assert(seq!['\n'] =~= "\n"@);
            }
        }
        push_lit(&mut md, "\n```sh\n");
        push_str(&mut md, cmd.usage.as_str());
        push_lit(&mut md, "\n```\n");
        push_section(&mut md, "\n### Arguments\n", &cmd.positionals);
        push_section(&mut md, "\n### Options\n", &cmd.options);
        let ghost before_subs = md@;
        let ghost sv = views(cmd.subcommands@);
        if cmd.subcommands.len() > 0 {
            push_lit(&mut md, "\n### Commands\n\n");
            let human = join_strings(&parents, " ");
            let link = join_strings(&parents, "_");
            let ghost start = md@;
            let mut i: usize = 0;
            proof {
                assert(sv.take(0) =~= Seq::<Seq<char>>::empty());
            }
            while i < cmd.subcommands.len()
                invariant
                    sv == views(cmd.subcommands@),
                    human@ == joined(path, " "@),
                    link@ == joined(path, "_"@),
                    i <= cmd.subcommands@.len(),
                    md@ == start + subcommand_items(path, sv.take(i as int)),
                decreases cmd.subcommands@.len() - i,
            {
                let name = &cmd.subcommands[i];
                let ghost before = md@;
                push_lit(&mut md, "* [");
                push_all(&mut md, &human);
                push_lit(&mut md, " ");
                push_str(&mut md, name.as_str());
                push_lit(&mut md, "](./");
                push_all(&mut md, &link);
                push_lit(&mut md, "_");
                push_str(&mut md, name.as_str());
                push_lit(&mut md, ")\n");
                proof {
                    let t = sv.take(i + 1);
                    assert(t.drop_last() =~= sv.take(i as int));
                    assert(t.last() == name@);
                    assert(md@ =~= before + subcommand_item(path, name@));
                }
                i = i + 1;
            }
            proof {
                assert(sv.take(cmd.subcommands@.len() as int) =~= sv);
            }
        }
        Markdown { command: parents, content: string_of(&md) }
    }
}

/// A command with its subcommands, for generating the pages of a command
/// line.
#[derive(Debug)]
pub struct CommandTree {
    pub info: CommandInfo,
    /// Hidden commands get no page.
    pub hidden: bool,
    pub subcommands: Vec<CommandTree>,
}

/// Whether a subcommand gets pages: it is not hidden and not `help`.
pub open spec fn shown_command(t: CommandTree) -> bool {
    !t.hidden && t.info.name@ != "help"@
}

/// The names of the shown commands among `ts`, in order.
pub open spec fn shown_names(ts: Seq<CommandTree>) -> Seq<Seq<char>>
    decreases ts.len(),
{
    if ts.len() == 0 {
        Seq::<Seq<char>>::empty()
    } else {
        let rest = shown_names(ts.drop_last());
        if shown_command(ts.last()) {
            rest.push(ts.last().info.name@)
        } else {
            rest
        }
    }
}

/// The names of the subcommands that get pages, in order, as their parent's
/// page lists them.
pub fn shown_subcommand_names(subs: &Vec<CommandTree>) -> (r: Vec<String>)
    ensures
        views(r@) == shown_names(subs@),
{
    let mut out: Vec<String> = Vec::new();
    let mut i: usize = 0;
    while i < subs.len()
        invariant
            i <= subs@.len(),
            views(out@) == shown_names(subs@.take(i as int)),
        decreases subs@.len() - i,
    {
        let child = &subs[i];
        let is_help = eq_lit(&chars_of(child.info.name.as_str()), "help");
        proof {
            assert(subs@.take(i + 1).drop_last() =~= subs@.take(i as int));
            assert(subs@.take(i + 1).last() == subs@[i as int]);
        }
        if !child.hidden && !is_help {
            let ghost before = out@;
            out.push(child.info.name.clone());
            proof {
                assert(views(out@) =~= views(before).push(child.info.name@));
            }
        }
        i = i + 1;
    }
    proof {
        assert(subs@.take(subs@.len() as int) =~= subs@);
    }
    out
}

/// The names among `names` whose `hidden` flag is clear, in order.
pub open spec fn unhidden(names: Seq<Seq<char>>, hidden: Seq<bool>) -> Seq<Seq<char>>
    decreases names.len(),
{
    if names.len() == 0 || hidden.len() == 0 {
        Seq::<Seq<char>>::empty()
    } else {
        let rest = unhidden(names.drop_last(), hidden.drop_last());
        if hidden.last() {
            rest
        } else {
            rest.push(names.last())
        }
    }
}

/// The accepted values of an argument that are shown: those not hidden, in
/// order.
pub fn visible_values(names: &Vec<String>, hidden: &Vec<bool>) -> (r: Vec<String>)
    requires
        names@.len() == hidden@.len(),
    ensures
        views(r@) == unhidden(views(names@), hidden@),
{
    let mut out: Vec<String> = Vec::new();
    let mut i: usize = 0;
    while i < names.len()
        invariant
            i <= names@.len(),
            names@.len() == hidden@.len(),
            views(out@) == unhidden(views(names@).take(i as int), hidden@.take(i as int)),
        decreases names@.len() - i,
    {
        proof {
            assert(views(names@).take(i + 1).drop_last() =~= views(names@).take(i as int));
            assert(hidden@.take(i + 1).drop_last() =~= hidden@.take(i as int));
            assert(views(names@).take(i + 1).last() == names@[i as int]@);
        }
        if !hidden[i] {
            let ghost before = out@;
            out.push(names[i].clone());
            proof {
                assert(views(out@) =~= views(before).push(names@[i as int]@));
            }
        }
        i = i + 1;
    }
    proof {
        assert(views(names@).take(names@.len() as int) =~= views(names@));
        assert(hidden@.take(names@.len() as int) =~= hidden@);
    }
    out
}

/// A page as its command path and its content.
pub open spec fn page_view(m: Markdown) -> (Seq<Seq<char>>, Seq<char>) {
    (views(m.command@), m.content@)
}

/// The number of subcommands of a tree.
pub open spec fn sub_count(t: CommandTree) -> nat {
    t.subcommands@.len()
}

/// The pages of a command below `parents`: its own page, then the pages of
/// each shown subcommand, depth first, in order.
pub open spec fn tree_pages(t: CommandTree, parents: Seq<Seq<char>>) -> Seq<(Seq<Seq<char>>, Seq<char>)>
    decreases t, sub_count(t) + 1,
{
    let path = parents.push(t.info.name@);
    seq![(path, command_md(&t.info, path))] + sub_pages(t, sub_count(t), path)
}

/// The pages of the first `n` subcommands of `t`, below `path`.
pub open spec fn sub_pages(t: CommandTree, n: nat, path: Seq<Seq<char>>) -> Seq<(Seq<Seq<char>>, Seq<char>)>
    decreases t, n,
{
    if n == 0 || n > sub_count(t) {
        Seq::<(Seq<Seq<char>>, Seq<char>)>::empty()
    } else {
        let child = t.subcommands@[n - 1];
        sub_pages(t, (n - 1) as nat, path) + if shown_command(child) {
            tree_pages(child, path)
        } else {
            Seq::<(Seq<Seq<char>>, Seq<char>)>::empty()
        }
    }
}

/// Whether every page lies strictly below `path`: its command path extends
/// `path` by at least one command.
pub open spec fn pages_below(pages: Seq<(Seq<Seq<char>>, Seq<char>)>, path: Seq<Seq<char>>) -> bool {
    forall|i: int|
        0 <= i < pages.len() ==> (#[trigger] pages[i]).0.len() > path.len() && pages[i].0.take(
            path.len() as int,
        ) == path
}

/// Every generated page belongs to a command below the parent commands, and
/// the first page is the command's own, named by it.
pub proof fn law_pages_below_parents(t: CommandTree, parents: Seq<Seq<char>>)
    ensures
        pages_below(tree_pages(t, parents), parents),
        tree_pages(t, parents)[0].0 == parents.push(t.info.name@),
    decreases t, sub_count(t) + 1,
{
    let path = parents.push(t.info.name@);
    lemma_sub_pages_below(t, sub_count(t), path);
    let pages = tree_pages(t, parents);
    let head = seq![(path, command_md(&t.info, path))];
    let rest = sub_pages(t, sub_count(t), path);
    assert(pages == head + rest);
    assert forall|i: int| 0 <= i < pages.len() implies (#[trigger] pages[i]).0.len() > parents.len()
        && pages[i].0.take(parents.len() as int) == parents by {
        if i == 0 {
            assert(pages[0] == head[0]);
            assert(path.take(parents.len() as int) =~= parents);
        } else {
            assert(pages[i] == rest[i - 1]);
            let q = rest[i - 1].0;
            assert(q.take(path.len() as int) == path);
            assert(q.take(parents.len() as int) =~= path.take(parents.len() as int));
            assert(path.take(parents.len() as int) =~= parents);
        }
    }
}

/// The pages of subcommands lie strictly below the command's path.
proof fn lemma_sub_pages_below(t: CommandTree, n: nat, path: Seq<Seq<char>>)
    ensures
        pages_below(sub_pages(t, n, path), path),
    decreases t, n,
{
    if n != 0 && n <= sub_count(t) {
        let child = t.subcommands@[n - 1];
        lemma_sub_pages_below(t, (n - 1) as nat, path);
        let a = sub_pages(t, (n - 1) as nat, path);
        if shown_command(child) {
            law_pages_below_parents(child, path);
            let b = tree_pages(child, path);
            assert(sub_pages(t, n, path) == a + b);
            assert forall|i: int| 0 <= i < (a + b).len() implies (#[trigger] (a + b)[i]).0.len() > path.len()
                && (a + b)[i].0.take(path.len() as int) == path by {
                if i < a.len() {
                    assert((a + b)[i] == a[i]);
                } else {
                    assert((a + b)[i] == b[i - a.len()]);
                }
            }
        } else {
            assert(sub_pages(t, n, path) =~= a);
        }
    }
}

/// Copies a list of strings.
fn copy_strings(v: &Vec<String>) -> (r: Vec<String>)
    ensures
        views(r@) == views(v@),
{
    let mut out: Vec<String> = Vec::new();
    let mut i: usize = 0;
    while i < v.len()
        invariant
            i <= v@.len(),
            views(out@) == views(v@).take(i as int),
        decreases v@.len() - i,
    {
        let ghost before = views(out@);
        out.push(v[i].clone());
        proof {
            assert(views(out@) =~= before.push(v@[i as int]@));
            assert(views(v@).take(i + 1) =~= views(v@).take(i as int).push(v@[i as int]@));
        }
        i = i + 1;
    }
    proof {
        assert(views(v@).take(v@.len() as int) =~= views(v@));
    }
    out
}

/// Generates the pages of a command and its shown subcommands below the
/// given parent commands.
pub fn generate_prefixed(tree: &CommandTree, parents: Vec<String>) -> (r: Vec<Markdown>)
    ensures
        r@.map_values(|m: Markdown| page_view(m)) == tree_pages(*tree, views(parents@)),
    decreases tree,
{
    let first = Markdown::from_command(&tree.info, parents);
    let path = copy_strings(&first.command);
    let ghost pv = views(path@);
    let mut pages: Vec<Markdown> = Vec::new();
    pages.push(first);
    let ghost start = pages@.map_values(|m: Markdown| page_view(m));
    let subs = &tree.subcommands;
    let mut i: usize = 0;
    while i < subs.len()
        invariant
            *subs == tree.subcommands,
            pv == views(path@),
            i <= subs@.len(),
            pages@.map_values(|m: Markdown| page_view(m)) == start + sub_pages(*tree, i as nat, pv),
        decreases subs@.len() - i,
    {
        let child = &subs[i];
        let is_help = eq_lit(&chars_of(child.info.name.as_str()), "help");
        if !child.hidden && !is_help {
            proof {
                assert(decreases_to!(*tree => subs@[i as int]));
            }
            let mut more = generate_prefixed(child, copy_strings(&path));
            let ghost before = pages@;
            let ghost added = more@;
            pages.append(&mut more);
            proof {
                assert(pages@ == before + added);
                assert(pages@.map_values(|m: Markdown| page_view(m)) =~= before.map_values(
                    |m: Markdown| page_view(m),
                ) + added.map_values(|m: Markdown| page_view(m)));
            }
        }
        i = i + 1;
    }
    pages
}

/// Markdown formatter.
pub struct Generator<'a> {
    pub tree: &'a CommandTree,
}

impl<'a> Generator<'a> {
    /// A formatter for the pages of a command line.
    pub fn new(tree: &'a CommandTree) -> (r: Self)
        ensures
            r.tree == tree,
    {
        Generator { tree }
    }

    /// Generate the markdown for this command and its shown subcommands.
    pub fn generate(self) -> (r: Vec<Markdown>)
        ensures
            r@.map_values(|m: Markdown| page_view(m)) == tree_pages(*self.tree, Seq::<Seq<char>>::empty()),
    {
        let parents: Vec<String> = Vec::new();
        proof {
            assert(views(parents@) =~= Seq::<Seq<char>>::empty());
        }
        generate_prefixed(self.tree, parents)
    }
}

} // verus!
