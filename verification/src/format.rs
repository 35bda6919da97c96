//! Text tables and colors for terminal output.

use unicode_width::UnicodeWidthStr;
use vstd::prelude::*;

use crate::filter::RiskLevel;
use crate::markdown::joined;
use crate::text::{push_lit, push_str, repeat_lit, repeat_seq, string_of};

verus! {

/// The displayed width of a string in terminal columns.
pub uninterp spec fn display_width(s: Seq<char>) -> nat;

/// Measures with `unicode_width::UnicodeWidthStr::width`. Trusted: the width
/// is the one `display_width` names.
#[verifier::external_body]
fn str_width(s: &str) -> (w: usize)
    ensures
        w == display_width(s@),
{
    s.width()
}

/// Terminal text styles.
#[derive(Debug, Clone, Copy, PartialEq, Eq, Structural)]
pub enum Paint {
    Red,
    Green,
    Yellow,
    Blue,
    Cyan,
    ItalicBold,
    ItalicGreen,
}

/// The escape sequence that switches a style on.
pub open spec fn paint_prefix(p: Paint) -> Seq<char> {
    match p {
        Paint::Red => "\x1b[31m"@,
        Paint::Green => "\x1b[32m"@,
        Paint::Yellow => "\x1b[33m"@,
        Paint::Blue => "\x1b[34m"@,
        Paint::Cyan => "\x1b[36m"@,
        Paint::ItalicBold => "\x1b[1m\x1b[3m"@,
        Paint::ItalicGreen => "\x1b[32m\x1b[3m"@,
    }
}

/// `text` in style `p`: wrapped in escape codes when colors are on, as it is
/// otherwise.
pub open spec fn painted(text: Seq<char>, p: Paint, colors: bool) -> Seq<char> {
    if colors {
        paint_prefix(p) + text + "\x1b[0m"@
    } else {
        text
    }
}

/// Styles text with `console::Style`, forced on or off. Trusted: with styling
/// forced on, `console` writes the style's escape codes, the text and the
/// reset code; forced off, the text alone.
#[verifier::external_body]
pub(crate) fn paint(text: &str, p: Paint, colors: bool) -> (r: String)
    ensures
        r@ == painted(text@, p, colors),
{
    let style = match p {
        Paint::Red => console::Style::new().red(),
        Paint::Green => console::Style::new().green(),
        Paint::Yellow => console::Style::new().yellow(),
        Paint::Blue => console::Style::new().blue(),
        Paint::Cyan => console::Style::new().cyan(),
        Paint::ItalicBold => console::Style::new().bold().italic(),
        Paint::ItalicGreen => console::Style::new().green().italic(),
    };
    style.force_styling(colors).apply_to(text).to_string()
}

/// Whether `console` colors standard output (`console::colors_enabled`). It
/// depends on the terminal and the environment, so nothing is claimed.
#[verifier::external_body]
pub(crate) fn colors_enabled() -> bool {
    console::colors_enabled()
}

/// `a - b`, or zero where `b` is larger.
pub open spec fn sat_sub(a: nat, b: nat) -> nat {
    if a >= b {
        (a - b) as nat
    } else {
        0
    }
}

/// `a + b`, capped at `usize::MAX`.
pub open spec fn sat_add(a: nat, b: nat) -> nat {
    if a + b > usize::MAX {
        usize::MAX as nat
    } else {
        a + b
    }
}

/// `text` padded with spaces on the right to `width` display columns.
pub open spec fn padded(text: Seq<char>, width: nat) -> Seq<char> {
    text + repeat_seq(" "@, sat_sub(width, display_width(text)))
}

/// Leftpad a string with proper unicode width.
pub fn leftpad(text: &str, width: usize) -> (r: String)
    ensures
        r@ == padded(text@, width as nat),
{
    let delta = width.saturating_sub(str_width(text));
    let mut out: Vec<char> = Vec::new();
    push_str(&mut out, text);
    let spaces = repeat_lit(" ", delta);
    crate::text::push_all(&mut out, &spaces);
    string_of(&out)
}

/// The widest of the header and the cells of column `c` in the first `n` rows.
pub open spec fn column_width(headers: Seq<Seq<char>>, cells: Seq<Seq<Seq<char>>>, c: int, n: nat) -> nat
    decreases n,
{
    if n == 0 {
        display_width(headers[c])
    } else {
        let w = column_width(headers, cells, c, (n - 1) as nat);
        let x = display_width(cells[n - 1][c]);
        if x > w {
            x
        } else {
            w
        }
    }
}

/// The start column of column `k`: widths plus two spaces of the columns before.
pub open spec fn column_offset(headers: Seq<Seq<char>>, cells: Seq<Seq<Seq<char>>>, k: nat) -> nat
    decreases k,
{
    if k == 0 {
        0
    } else {
        sat_add(
            column_offset(headers, cells, (k - 1) as nat),
            sat_add(column_width(headers, cells, k - 1, cells.len()), 2),
        )
    }
}

/// The header line after laying out the first `k` columns.
pub open spec fn header_line(headers: Seq<Seq<char>>, cells: Seq<Seq<Seq<char>>>, k: nat) -> Seq<char>
    decreases k,
{
    if k == 0 {
        Seq::<char>::empty()
    } else {
        padded(
            header_line(headers, cells, (k - 1) as nat),
            column_offset(headers, cells, (k - 1) as nat),
        ) + headers[k - 1]
    }
}

/// Row `i` after laying out the first `k` columns.
pub open spec fn row_line(headers: Seq<Seq<char>>, cells: Seq<Seq<Seq<char>>>, i: int, k: nat) -> Seq<char>
    decreases k,
{
    if k == 0 {
        Seq::<char>::empty()
    } else {
        padded(
            row_line(headers, cells, i, (k - 1) as nat),
            column_offset(headers, cells, (k - 1) as nat),
        ) + cells[i][k - 1]
    }
}

/// The views of a row of cells.
pub open spec fn row_view(r: Vec<String>) -> Seq<Seq<char>> {
    r@.map_values(|s: String| s@)
}

/// The views of all cells.
pub open spec fn cells_view(cells: Seq<Vec<String>>) -> Seq<Seq<Seq<char>>> {
    cells.map_values(|r: Vec<String>| row_view(r))
}

/// The views of a list of strings.
pub open spec fn views(v: Seq<String>) -> Seq<Seq<char>> {
    v.map_values(|s: String| s@)
}

/// The width of a column.
fn column_width_of(headers: &Vec<String>, cells: &Vec<Vec<String>>, c: usize) -> (w: usize)
    requires
        c < headers@.len(),
        forall|i: int| 0 <= i < cells@.len() ==> #[trigger] cells@[i]@.len() == headers@.len(),
    ensures
        w == column_width(views(headers@), cells_view(cells@), c as int, cells@.len() as nat),
{
    let ghost hv = views(headers@);
    let ghost cv = cells_view(cells@);
    let mut w = str_width(headers[c].as_str());
    let mut i: usize = 0;
    while i < cells.len()
        invariant
            hv == views(headers@),
            cv == cells_view(cells@),
            c < headers@.len(),
            forall|j: int| 0 <= j < cells@.len() ==> #[trigger] cells@[j]@.len() == headers@.len(),
            i <= cells@.len(),
            w == column_width(hv, cv, c as int, i as nat),
        decreases cells@.len() - i,
    {
        proof {
            assert(cv[i as int] == row_view(cells@[i as int]));
            assert(cv[i as int][c as int] == cells@[i as int]@[c as int]@);
        }
        let x = str_width(cells[i][c].as_str());
        if x > w {
            w = x;
        }
        i = i + 1;
    }
    w
}

/// Lays a table out: each column as wide as its widest entry, columns two
/// spaces apart. Returns the header line and the row lines. Each row holds
/// one cell per header.
pub fn table_layout(headers: &Vec<String>, cells: &Vec<Vec<String>>) -> (r: (String, Vec<String>))
    requires
        forall|i: int| 0 <= i < cells@.len() ==> #[trigger] cells@[i]@.len() == headers@.len(),
    ensures
        r.0@ == header_line(views(headers@), cells_view(cells@), headers@.len() as nat),
        r.1@.len() == cells@.len(),
        forall|i: int|
            0 <= i < cells@.len() ==> (#[trigger] r.1@[i])@ == row_line(
                views(headers@),
                cells_view(cells@),
                i,
                headers@.len() as nat,
            ),
{
    let ghost hv = views(headers@);
    let ghost cv = cells_view(cells@);
    let mut header = String::new();
    let mut rows: Vec<String> = Vec::new();
    let mut i: usize = 0;
    while i < cells.len()
        invariant
            i <= cells@.len(),
            rows@.len() == i,
            forall|j: int| 0 <= j < i ==> (#[trigger] rows@[j])@ == Seq::<char>::empty(),
        decreases cells@.len() - i,
    {
        rows.push(String::new());
        i = i + 1;
    }
    let mut last_column_width: usize = 0;
    let mut k: usize = 0;
    while k < headers.len()
        invariant
            hv == views(headers@),
            cv == cells_view(cells@),
            forall|j: int| 0 <= j < cells@.len() ==> #[trigger] cells@[j]@.len() == headers@.len(),
            k <= headers@.len(),
            last_column_width == column_offset(hv, cv, k as nat),
            header@ == header_line(hv, cv, k as nat),
            rows@.len() == cells@.len(),
            forall|j: int| 0 <= j < cells@.len() ==> (#[trigger] rows@[j])@ == row_line(hv, cv, j, k as nat),
        decreases headers@.len() - k,
    {
        let column_width = column_width_of(headers, cells, k);
        let padded_header = leftpad(header.as_str(), last_column_width);
        let mut h: Vec<char> = crate::text::chars_of(padded_header.as_str());
        push_str(&mut h, headers[k].as_str());
        header = string_of(&h);
        let mut j: usize = 0;
        while j < cells.len()
            invariant
                hv == views(headers@),
                cv == cells_view(cells@),
                forall|m: int| 0 <= m < cells@.len() ==> #[trigger] cells@[m]@.len() == headers@.len(),
                k < headers@.len(),
                last_column_width == column_offset(hv, cv, k as nat),
                j <= cells@.len(),
                rows@.len() == cells@.len(),
                forall|m: int| 0 <= m < j ==> (#[trigger] rows@[m])@ == row_line(hv, cv, m, (k + 1) as nat),
                forall|m: int| j <= m < cells@.len() ==> (#[trigger] rows@[m])@ == row_line(hv, cv, m, k as nat),
            decreases cells@.len() - j,
        {
            let padded_row = leftpad(rows[j].as_str(), last_column_width);
            let mut r: Vec<char> = crate::text::chars_of(padded_row.as_str());
            push_str(&mut r, cells[j][k].as_str());
            proof {
                assert(cv[j as int] == row_view(cells@[j as int]));
                assert(cv[j as int][k as int] == cells@[j as int]@[k as int]@);
            }
            rows.set(j, string_of(&r));
            j = j + 1;
        }
        proof {
            assert(hv[k as int] == headers@[k as int]@);
        }
        last_column_width = last_column_width.saturating_add(column_width.saturating_add(2));
        k = k + 1;
    }
    (header, rows)
}

/// The text of a table: the header line in blue, then the row lines, one
/// per line.
pub open spec fn table_text(headers: Seq<Seq<char>>, cells: Seq<Seq<Seq<char>>>, colors: bool) -> Seq<char> {
    painted(header_line(headers, cells, headers.len()), Paint::Blue, colors) + "\n"@ + joined(
        Seq::new(cells.len(), |i: int| row_line(headers, cells, i, headers.len())),
        "\n"@,
    )
}

/// A table whose header is colored when `colors` is set.
pub fn format_table_colored(headers: &Vec<String>, cells: &Vec<Vec<String>>, colors: bool) -> (r: String)
    requires
        forall|i: int| 0 <= i < cells@.len() ==> #[trigger] cells@[i]@.len() == headers@.len(),
    ensures
        r@ == table_text(views(headers@), cells_view(cells@), colors),
{
    let (header, rows) = table_layout(headers, cells);
    let header = paint(header.as_str(), Paint::Blue, colors);
    let mut out: Vec<char> = Vec::new();
    push_str(&mut out, header.as_str());
    push_lit(&mut out, "\n");
    let ghost start = out@;
    let ghost want = Seq::new(
        cells@.len(),
        |i: int| row_line(views(headers@), cells_view(cells@), i, headers@.len() as nat),
    );
    let mut i: usize = 0;
    proof {
        assert(want.take(0) =~= Seq::<Seq<char>>::empty());
    }
    while i < rows.len()
        invariant
            want.len() == rows@.len(),
            forall|m: int| 0 <= m < rows@.len() ==> (#[trigger] rows@[m])@ == want[m],
            i <= rows@.len(),
            out@ == start + joined(want.take(i as int), "\n"@),
        decreases rows@.len() - i,
    {
        if i != 0 {
            push_lit(&mut out, "\n");
        }
        push_str(&mut out, rows[i].as_str());
        proof {
            let t = want.take(i + 1);
            assert(t.drop_last() =~= want.take(i as int));
            assert(t.last() == rows@[i as int]@);
            if i == 0 {
                assert(out@ =~= start + t[0]);
            }
        }
        i = i + 1;
    }
    proof {
        assert(want.take(rows@.len() as int) =~= want);
        assert(cells_view(cells@).len() == cells@.len());
        assert(views(headers@).len() == headers@.len());
    }
    string_of(&out)
}

/// A table, its header colored when the terminal takes colors.
pub fn format_table(headers: &Vec<String>, cells: &Vec<Vec<String>>) -> (r: String)
    requires
        forall|i: int| 0 <= i < cells@.len() ==> #[trigger] cells@[i]@.len() == headers@.len(),
    ensures
        r@ == table_text(views(headers@), cells_view(cells@), true) || r@ == table_text(
            views(headers@),
            cells_view(cells@),
            false,
        ),
{
    let colors = colors_enabled();
    format_table_colored(headers, cells, colors)
}

/// Terminal colors used for risk levels.
#[derive(Debug, Clone, Copy, PartialEq, Eq, Structural)]
pub enum TableColor {
    BrightRed,
    Yellow,
    BrightYellow,
    Blue,
    White,
}

/// The color a risk level is shown in.
pub fn risk_level_to_color(level: &RiskLevel) -> (c: TableColor)
    ensures
        c == match level {
            RiskLevel::Critical => TableColor::BrightRed,
            RiskLevel::High => TableColor::Yellow,
            RiskLevel::Medium => TableColor::BrightYellow,
            RiskLevel::Low => TableColor::Blue,
            RiskLevel::Info => TableColor::White,
        },
{
    match level {
        RiskLevel::Critical => TableColor::BrightRed,
        RiskLevel::High => TableColor::Yellow,
        RiskLevel::Medium => TableColor::BrightYellow,
        RiskLevel::Low => TableColor::Blue,
        RiskLevel::Info => TableColor::White,
    }
}

} // verus!
