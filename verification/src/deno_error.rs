//! Human-readable rendering of JavaScript errors raised by extensions: stack
//! frames, their locations, the offending source line and nested causes.

use vstd::prelude::*;

use crate::format::{colors_enabled, paint, painted, Paint};
use crate::markdown::lines_of;
use crate::ninja::lines;
use crate::text::{opt_str, repeat_lit, repeat_seq};
use vstd::utf8::{encode_scalar, encode_utf8};
use crate::text::{
    chars_of, contains_chars, occurs_at, occurs_at_exec, contains_seq, decimal, decimal_of, ends_with, is_prefix, is_suffix,
    push_all, push_lit, push_str, starts_with, string_of,
};

verus! {

/// One frame of a JavaScript stack trace.
///
/// `file_name` holds the script's name as it is shown to users.
#[derive(Debug)]
pub struct JsStackFrame {
    pub receiver_type: Option<String>,
    pub function_name: Option<String>,
    pub method_name: Option<String>,
    pub file_name: Option<String>,
    pub line_number: Option<i64>,
    pub column_number: Option<i64>,
    pub eval_origin: Option<String>,
    pub is_top_level: Option<bool>,
    pub is_eval: bool,
    pub is_native: bool,
    pub is_constructor: bool,
    pub is_async: bool,
    pub is_promise_all: bool,
    pub promise_index: Option<i64>,
}

/// A JavaScript exception with its stack, aggregated errors and cause.
#[derive(Debug)]
pub struct JsError {
    pub exception_message: String,
    pub frames: Vec<JsStackFrame>,
    pub source_line: Option<String>,
    pub source_line_frame_index: Option<usize>,
    pub aggregated: Option<Vec<JsError>>,
    pub cause: Option<Box<JsError>>,
}

/// The decimal digits of an integer, with a leading minus when negative.
pub open spec fn signed_decimal(n: int) -> Seq<char> {
    if n < 0 {
        seq!['-'] + decimal((-n) as nat)
    } else {
        decimal(n as nat)
    }
}

/// Writes an integer in decimal.
pub fn signed_decimal_of(n: i64) -> (r: Vec<char>)
    ensures
        r@ == signed_decimal(n as int),
{
    if n < 0 {
        let m: u64 = ((-(n + 1)) as u64) + 1;
        let mut out: Vec<char> = Vec::new();
        out.push('-');
        let d = decimal_of(m);
        push_all(&mut out, &d);
        proof {
            assert(m == -n);
        }
        out
    } else {
        decimal_of(n as u64)
    }
}

/// The view of an optional string, or the empty text.
pub open spec fn or_empty(o: Option<String>) -> Seq<char> {
    match o {
        Some(s) => s@,
        None => Seq::<char>::empty(),
    }
}

/// Whether a frame can be located: an evaluated frame without a file name
/// names its origin.
pub open spec fn frame_ok(f: JsStackFrame) -> bool {
    f.is_native || or_empty(f.file_name).len() != 0 || !f.is_eval || f.eval_origin is Some
}

/// Where a frame's code is: the native marker, the file name or the eval
/// origin, then the line and column when known.
pub open spec fn location_text(f: JsStackFrame, colors: bool) -> Seq<char> {
    if f.is_native {
        painted("native"@, Paint::Cyan, colors)
    } else {
        let file = or_empty(f.file_name);
        let origin = if file.len() != 0 {
            painted(file, Paint::Cyan, colors)
        } else {
            (if f.is_eval {
                painted(f.eval_origin->0@, Paint::Cyan, colors) + ", "@
            } else {
                Seq::<char>::empty()
            }) + painted("<anonymous>"@, Paint::Cyan, colors)
        };
        origin + match f.line_number {
            Some(l) => ":"@ + painted(signed_decimal(l as int), Paint::Yellow, colors) + match f.column_number {
                Some(c) => ":"@ + painted(signed_decimal(c as int), Paint::Yellow, colors),
                None => Seq::<char>::empty(),
            },
            None => Seq::<char>::empty(),
        }
    }
}

/// Appends `text` in style `p`.
fn push_painted(out: &mut Vec<char>, text: &str, p: Paint, colors: bool)
    ensures
        final(out)@ == old(out)@ + painted(text@, p, colors),
{
    let s = paint(text, p, colors);
    push_str(out, s.as_str());
}

/// Appends the decimal digits of `n` in style `p`.
fn push_painted_number(out: &mut Vec<char>, n: i64, p: Paint, colors: bool)
    ensures
        final(out)@ == old(out)@ + painted(signed_decimal(n as int), p, colors),
{
    let digits = string_of(&signed_decimal_of(n));
    push_painted(out, digits.as_str(), p, colors);
}

/// Where a frame's code is (`file:line:column`), colored when `colors` is set.
pub fn format_location(frame: &JsStackFrame, colors: bool) -> (r: String)
    requires
        frame_ok(*frame),
    ensures
        r@ == location_text(*frame, colors),
{
    if frame.is_native {
        return paint("native", Paint::Cyan, colors);
    }
    let mut out: Vec<char> = Vec::new();
    let file_empty = match &frame.file_name {
        Some(f) => f.as_str().is_empty(),
        None => true,
    };
    if !file_empty {
        match &frame.file_name {
            Some(f) => push_painted(&mut out, f.as_str(), Paint::Cyan, colors),
            None => {},
        }
    } else {
        if frame.is_eval {
            match &frame.eval_origin {
                Some(origin) => push_painted(&mut out, origin.as_str(), Paint::Cyan, colors),
                None => {},
            }
            push_lit(&mut out, ", ");
        }
        push_painted(&mut out, "<anonymous>", Paint::Cyan, colors);
    }
    if let Some(line_number) = frame.line_number {
        push_lit(&mut out, ":");
        push_painted_number(&mut out, line_number, Paint::Yellow, colors);
        if let Some(column_number) = frame.column_number {
            push_lit(&mut out, ":");
            push_painted_number(&mut out, column_number, Paint::Yellow, colors);
        }
    }
    string_of(&out)
}

/// The name shown for a method call: receiver type, function name and the
/// name it was called as, each where it adds something.
pub open spec fn method_text(f: JsStackFrame) -> Seq<char> {
    match f.function_name {
        Some(func) => (match f.receiver_type {
            Some(t) => if !is_prefix(t@, func@) {
                t@ + "."@
            } else {
                Seq::<char>::empty()
            },
            None => Seq::<char>::empty(),
        }) + func@ + (match f.method_name {
            Some(m) => if !is_suffix(m@, func@) {
                " [as "@ + m@ + "]"@
            } else {
                Seq::<char>::empty()
            },
            None => Seq::<char>::empty(),
        }),
        None => (match f.receiver_type {
            Some(t) => t@ + "."@,
            None => Seq::<char>::empty(),
        }) + (match f.method_name {
            Some(m) => m@,
            None => "<anonymous>"@,
        }),
    }
}

/// Whether a frame is shown as a method call.
pub open spec fn is_method_call(f: JsStackFrame) -> bool {
    !(f.is_top_level == Some(true) || f.is_constructor)
}

/// One line of a stack trace, without the leading `at`.
pub open spec fn frame_text(f: JsStackFrame, colors: bool) -> Seq<char> {
    let lead = if f.is_async {
        "async "@
    } else {
        Seq::<char>::empty()
    };
    let at = " ("@ + location_text(f, colors) + ")"@;
    if f.is_promise_all {
        let index = match f.promise_index {
            Some(i) => i as int,
            None => 0,
        };
        lead + painted("Promise.all (index "@ + signed_decimal(index) + ")"@, Paint::ItalicBold, colors)
    } else if is_method_call(f) {
        lead + painted(method_text(f), Paint::ItalicBold, colors) + at
    } else if f.is_constructor {
        lead + "new "@ + (match f.function_name {
            Some(func) => painted(func@, Paint::ItalicBold, colors),
            None => painted("<anonymous>"@, Paint::Cyan, colors),
        }) + at
    } else {
        match f.function_name {
            Some(func) => lead + painted(func@, Paint::ItalicBold, colors) + at,
            None => lead + location_text(f, colors),
        }
    }
}

/// The name shown for a method call.
fn format_method(frame: &JsStackFrame) -> (r: Vec<char>)
    ensures
        r@ == method_text(*frame),
{
    let mut out: Vec<char> = Vec::new();
    match &frame.function_name {
        Some(function_name) => {
            let func = chars_of(function_name.as_str());
            if let Some(t) = &frame.receiver_type {
                if !starts_with(&func, &chars_of(t.as_str())) {
                    push_str(&mut out, t.as_str());
                    push_lit(&mut out, ".");
                }
            }
            push_str(&mut out, function_name.as_str());
            if let Some(m) = &frame.method_name {
                if !ends_with(&func, &chars_of(m.as_str())) {
                    push_lit(&mut out, " [as ");
                    push_str(&mut out, m.as_str());
                    push_lit(&mut out, "]");
                }
            }
        },
        None => {
            if let Some(t) = &frame.receiver_type {
                push_str(&mut out, t.as_str());
                push_lit(&mut out, ".");
            }
            match &frame.method_name {
                Some(m) => push_str(&mut out, m.as_str()),
                None => push_lit(&mut out, "<anonymous>"),
            }
        },
    }
    out
}

/// One line of a stack trace, colored when `colors` is set.
pub fn format_frame(frame: &JsStackFrame, colors: bool) -> (r: String)
    requires
        frame.is_promise_all || frame_ok(*frame),
    ensures
        r@ == frame_text(*frame, colors),
{
    let is_top_level = match frame.is_top_level {
        Some(b) => b,
        None => false,
    };
    let is_method_call = !(is_top_level || frame.is_constructor);
    let mut out: Vec<char> = Vec::new();
    if frame.is_async {
        push_lit(&mut out, "async ");
    }
    if frame.is_promise_all {
        let index: i64 = match frame.promise_index {
            Some(i) => i,
            None => 0,
        };
        let mut label: Vec<char> = chars_of("Promise.all (index ");
        let digits = signed_decimal_of(index);
        push_all(&mut label, &digits);
        push_lit(&mut label, ")");
        let label = string_of(&label);
        push_painted(&mut out, label.as_str(), Paint::ItalicBold, colors);
        return string_of(&out);
    }
    if is_method_call {
        let method = string_of(&format_method(frame));
        push_painted(&mut out, method.as_str(), Paint::ItalicBold, colors);
    } else if frame.is_constructor {
        push_lit(&mut out, "new ");
        match &frame.function_name {
            Some(func) => push_painted(&mut out, func.as_str(), Paint::ItalicBold, colors),
            None => push_painted(&mut out, "<anonymous>", Paint::Cyan, colors),
        }
    } else if let Some(func) = &frame.function_name {
        push_painted(&mut out, func.as_str(), Paint::ItalicBold, colors);
    } else {
        let location = format_location(frame, colors);
        push_str(&mut out, location.as_str());
        return string_of(&out);
    }
    let location = format_location(frame, colors);
    push_lit(&mut out, " (");
    push_str(&mut out, location.as_str());
    push_lit(&mut out, ")");
    string_of(&out)
}

/// The marker of a source line that could not be formatted.
pub open spec fn unformattable_marker() -> Seq<char> {
    "Couldn't format source line: "@
}

/// The caret line under a source line: tabs kept, other characters blanked,
/// for the `n` characters before the column, then `^`.
pub open spec fn caret_line(line: Seq<char>, n: nat) -> Seq<char> {
    Seq::new(n, |i: int| if line[i] == '\t' { '\t' } else { ' ' }) + seq!['^']
}

/// The characters before a column (columns count from one).
pub open spec fn before_column(c: int) -> nat {
    if c >= 1 {
        (c - 1) as nat
    } else {
        0
    }
}

/// Whether a column points past the end of a line (a negative column does
/// too, read as an unsigned size).
pub open spec fn column_out_of_bounds(line: Seq<char>, c: int) -> bool {
    c < 0 || c > encode_utf8(line).len()
}

/// Whether a source line with its column can be formatted: the column,
/// counted in bytes, does not point past the line's characters.
pub open spec fn source_line_ok(line: Option<Seq<char>>, column: Option<i64>) -> bool {
    match (line, column) {
        (Some(l), Some(c)) => l.len() == 0 || contains_seq(l, unformattable_marker())
            || column_out_of_bounds(l, c as int) || before_column(c as int) <= l.len(),
        _ => true,
    }
}

/// The source line of an error with a caret under the column, indented by
/// `level` spaces; empty where there is no line or column.
pub open spec fn source_line_text(
    line: Option<Seq<char>>,
    column: Option<i64>,
    is_error: bool,
    level: nat,
    colors: bool,
) -> Seq<char> {
    match (line, column) {
        (Some(l), Some(c)) => if l.len() == 0 {
            Seq::<char>::empty()
        } else if contains_seq(l, unformattable_marker()) {
            "\n"@ + l
        } else if column_out_of_bounds(l, c as int) {
            "\n"@ + painted("Warning"@, Paint::Yellow, colors) + " Couldn't format source line: Column "@
                + signed_decimal(c as int) + " is out of bounds (source may have changed at runtime)"@
        } else {
            let indent = repeat_seq(" "@, level);
            "\n"@ + indent + l + "\n"@ + indent + painted(
                caret_line(l, before_column(c as int)),
                if is_error {
                    Paint::Red
                } else {
                    Paint::Cyan
                },
                colors,
            )
        },
        _ => Seq::<char>::empty(),
    }
}

/// The number of bytes UTF-8 takes for a character.
pub open spec fn char_width(c: char) -> nat {
    let v = c as u32;
    if v <= 0x7F {
        1
    } else if v <= 0x7FF {
        2
    } else if v <= 0xFFFF {
        3
    } else {
        4
    }
}

/// The number of bytes UTF-8 takes for a text.
pub open spec fn utf8_len(s: Seq<char>) -> nat
    decreases s.len(),
{
    if s.len() == 0 {
        0
    } else {
        char_width(s[0]) + utf8_len(s.drop_first())
    }
}

/// The UTF-8 encoding of a text is as long as its characters' widths add up to.
pub proof fn lemma_encode_utf8_len(s: Seq<char>)
    ensures
        encode_utf8(s).len() == utf8_len(s),
    decreases s.len(),
{
    if s.len() != 0 {
        lemma_encode_utf8_len(s.drop_first());
        vstd::utf8::char_is_scalar(s[0]);
        assert(encode_scalar(s[0] as u32).len() == char_width(s[0]));
    }
}

/// Whether a (non-negative) column lies past the last byte of a text.
fn column_past_end(chars: &Vec<char>, column: i64) -> (b: bool)
    requires
        column >= 0,
    ensures
        b == (column > encode_utf8(chars@).len()),
{
    let ghost s = chars@;
    proof {
        lemma_encode_utf8_len(s);
        assert(s.skip(0) =~= s);
    }
    let mut acc: u64 = 0;
    let mut i: usize = 0;
    while i < chars.len()
        invariant
            s == chars@,
            column >= 0,
            i <= s.len(),
            acc + utf8_len(s.skip(i as int)) == utf8_len(s),
            acc <= column + 4,
            encode_utf8(s).len() == utf8_len(s),
        decreases s.len() - i,
    {
        proof {
            assert(s.skip(i as int).drop_first() =~= s.skip(i + 1));
            assert(s.skip(i as int)[0] == s[i as int]);
        }
        if acc >= column as u64 {
            return false;
        }
        let v = chars[i] as u32;
        let w: u64 = if v <= 0x7F {
            1
        } else if v <= 0x7FF {
            2
        } else if v <= 0xFFFF {
            3
        } else {
            4
        };
        acc = acc + w;
        i = i + 1;
    }
    proof {
        assert(s.skip(s.len() as int).len() == 0);
    }
    (column as u64) > acc
}

/// Formats an optional source line with a caret under its column.
pub fn format_maybe_source_line(
    source_line: Option<&str>,
    column_number: Option<i64>,
    is_error: bool,
    level: usize,
    colors: bool,
) -> (r: String)
    requires
        source_line_ok(opt_str(source_line), column_number),
    ensures
        r@ == source_line_text(opt_str(source_line), column_number, is_error, level as nat, colors),
{
    let (line, column) = match (source_line, column_number) {
        (Some(l), Some(c)) => (l, c),
        _ => return String::new(),
    };
    if line.is_empty() {
        return String::new();
    }
    let chars = chars_of(line);
    let marker = chars_of("Couldn't format source line: ");
    let mut out: Vec<char> = Vec::new();
    if contains_chars(&chars, &marker) {
        push_lit(&mut out, "\n");
        push_str(&mut out, line);
        return string_of(&out);
    }
    if column < 0 || column_past_end(&chars, column) {
        push_lit(&mut out, "\n");
        push_painted(&mut out, "Warning", Paint::Yellow, colors);
        push_lit(&mut out, " Couldn't format source line: Column ");
        let digits = signed_decimal_of(column);
        push_all(&mut out, &digits);
        push_lit(&mut out, " is out of bounds (source may have changed at runtime)");
        return string_of(&out);
    }
    let n: usize = if column >= 1 {
        (column - 1) as usize
    } else {
        0
    };
    let mut caret: Vec<char> = Vec::new();
    let mut i: usize = 0;
    while i < n
        invariant
            n <= chars@.len(),
            chars@ == line@,
            i <= n,
            caret@ == Seq::new(i as nat, |k: int| if line@[k] == '\t' { '\t' } else { ' ' }),
        decreases n - i,
    {
        if chars[i] == '\t' {
            caret.push('\t');
        } else {
            caret.push(' ');
        }
        i = i + 1;
    }
    caret.push('^');
    let caret = string_of(&caret);
    let indent = repeat_lit(" ", level);
    push_lit(&mut out, "\n");
    push_all(&mut out, &indent);
    push_str(&mut out, line);
    push_lit(&mut out, "\n");
    push_all(&mut out, &indent);
    let paint_kind = if is_error {
        Paint::Red
    } else {
        Paint::Cyan
    };
    push_painted(&mut out, caret.as_str(), paint_kind, colors);
    string_of(&out)
}

/// The prefix that nested errors lose.
pub open spec fn uncaught_prefix() -> Seq<char> {
    seq!['U', 'n', 'c', 'a', 'u', 'g', 'h', 't', ' ']
}

/// `s` without any leading `Uncaught ` (`str::trim_start_matches`).
pub open spec fn trim_uncaught(s: Seq<char>) -> Seq<char>
    decreases s.len(),
{
    if is_prefix(uncaught_prefix(), s) {
        trim_uncaught(s.skip(9))
    } else {
        s
    }
}

/// A nested error's text loses every leading `Uncaught `: what remains does
/// not start with it, and trimming again changes nothing.
pub proof fn law_trim_uncaught(s: Seq<char>)
    ensures
        !is_prefix(uncaught_prefix(), trim_uncaught(s)),
        trim_uncaught(trim_uncaught(s)) == trim_uncaught(s),
    decreases s.len(),
{
    if is_prefix(uncaught_prefix(), s) {
        law_trim_uncaught(s.skip(9));
    }
}

/// Each line on a line of its own, indented by four spaces.
pub open spec fn indented_lines(ls: Seq<Seq<char>>) -> Seq<char>
    decreases ls.len(),
{
    if ls.len() == 0 {
        Seq::<char>::empty()
    } else {
        indented_lines(ls.drop_last()) + "\n    "@ + ls.last()
    }
}

/// The number of errors an error aggregates.
pub open spec fn agg_count(e: JsError) -> nat {
    match e.aggregated {
        Some(v) => v@.len(),
        None => 0,
    }
}

/// The column of the frame the source line belongs to.
pub open spec fn frame_column(e: JsError) -> Option<i64> {
    match e.source_line_frame_index {
        Some(i) => e.frames@[i as int].column_number,
        None => None,
    }
}

/// The stack trace: one `at` line per frame.
pub open spec fn frames_text(frames: Seq<JsStackFrame>, colors: bool) -> Seq<char>
    decreases frames.len(),
{
    if frames.len() == 0 {
        Seq::<char>::empty()
    } else {
        frames_text(frames.drop_last(), colors) + "\n    at "@ + frame_text(frames.last(), colors)
    }
}

/// The text of an error: its message, the errors it aggregates (indented),
/// the source line (for the outermost error), the stack and the cause.
pub open spec fn error_text(e: JsError, is_child: bool, colors: bool) -> Seq<char>
    decreases e, agg_count(e) + 1,
{
    e.exception_message@ + agg_text(e, agg_count(e), colors) + source_line_text(
        if is_child {
            None
        } else {
            opt_view(e.source_line)
        },
        frame_column(e),
        true,
        0,
        colors,
    ) + frames_text(e.frames@, colors) + match e.cause {
        Some(c) => "\nCaused by: "@ + trim_uncaught(error_text(*c, true, colors)),
        None => Seq::<char>::empty(),
    }
}

/// The first `n` aggregated errors, each line indented.
pub open spec fn agg_text(e: JsError, n: nat, colors: bool) -> Seq<char>
    decreases e, n,
{
    if n == 0 || n > agg_count(e) {
        Seq::<char>::empty()
    } else {
        let child = e.aggregated->0@[n - 1];
        agg_text(e, (n - 1) as nat, colors) + indented_lines(
            lines_of(trim_uncaught(error_text(child, true, colors))),
        )
    }
}

/// The view of an optional string.
pub open spec fn opt_view(o: Option<String>) -> Option<Seq<char>> {
    match o {
        Some(s) => Some(s@),
        None => None,
    }
}

/// Whether an error can be formatted: its source line points at one of its
/// frames, its frames can be located, the outermost source line can be
/// formatted, and the same holds of the errors it aggregates and its cause.
pub open spec fn error_ok(e: JsError, is_child: bool) -> bool
    decreases e, agg_count(e) + 1,
{
    &&& match e.source_line_frame_index {
        Some(i) => i < e.frames@.len(),
        None => true,
    }
    &&& forall|k: int| 0 <= k < e.frames@.len() ==> #[trigger] e.frames@[k].is_promise_all || frame_ok(e.frames@[k])
    &&& (!is_child ==> source_line_ok(opt_view(e.source_line), frame_column(e)))
    &&& agg_ok(e, agg_count(e))
    &&& match e.cause {
        Some(c) => error_ok(*c, true),
        None => true,
    }
}

/// Whether the first `n` aggregated errors can be formatted.
pub open spec fn agg_ok(e: JsError, n: nat) -> bool
    decreases e, n,
{
    if n == 0 || n > agg_count(e) {
        true
    } else {
        agg_ok(e, (n - 1) as nat) && error_ok(e.aggregated->0@[n - 1], true)
    }
}

/// `s` without any leading `Uncaught `.
fn trim_uncaught_chars(s: &Vec<char>) -> (r: Vec<char>)
    ensures
        r@ == trim_uncaught(s@),
{
    let prefix = chars_of("Uncaught ");
    proof {
        reveal_strlit("Uncaught ");
        assert(prefix@ =~= uncaught_prefix());
        assert(s@.skip(0) =~= s@);
    }
    let n: usize = s.len();
    let mut i: usize = 0;
    while occurs_at_exec(s, &prefix, i)
        invariant
            n == s@.len(),
            prefix@ == uncaught_prefix(),
            i <= s@.len(),
            trim_uncaught(s@.skip(i as int)) == trim_uncaught(s@),
        decreases s@.len() - i,
    {
        proof {
            assert(occurs_at(s@, prefix@, i as int));
            assert(i + 9 <= s@.len());
            let t = s@.skip(i as int);
            assert(t.take(9) =~= s@.subrange(i as int, i + 9));
            assert(is_prefix(uncaught_prefix(), t));
            assert(t.skip(9) =~= s@.skip(i + 9));
        }
        i = i + 9;
    }
    proof {
        let t = s@.skip(i as int);
        if is_prefix(uncaught_prefix(), t) {
            assert(s@.subrange(i as int, i + 9) =~= t.take(9));
            assert(occurs_at(s@, prefix@, i as int));
        }
    }
    let mut out: Vec<char> = Vec::new();
    crate::text::push_range(&mut out, s, i, s.len());
    proof {
        assert(out@ =~= s@.skip(i as int));
    }
    out
}

/// Appends each line, indented by four spaces, on a line of its own.
fn push_indented_lines(out: &mut Vec<char>, ls: &Vec<Vec<char>>)
    ensures
        final(out)@ == old(out)@ + indented_lines(ls@.map_values(|l: Vec<char>| l@)),
{
    let ghost start = out@;
    let ghost lv = ls@.map_values(|l: Vec<char>| l@);
    let mut i: usize = 0;
    proof {
        assert(lv.take(0) =~= Seq::<Seq<char>>::empty());
    }
    while i < ls.len()
        invariant
            lv == ls@.map_values(|l: Vec<char>| l@),
            i <= ls@.len(),
            out@ == start + indented_lines(lv.take(i as int)),
        decreases ls@.len() - i,
    {
        push_lit(out, "\n    ");
        push_all(out, &ls[i]);
        proof {
            assert(lv.take(i + 1).drop_last() =~= lv.take(i as int));
            assert(lv.take(i + 1).last() == ls@[i as int]@);
        }
        i = i + 1;
    }
    proof {
        assert(lv.take(ls@.len() as int) =~= lv);
    }
}

/// Appends the stack trace.
fn push_frames(out: &mut Vec<char>, frames: &Vec<JsStackFrame>, colors: bool)
    requires
        forall|k: int| 0 <= k < frames@.len() ==> #[trigger] frames@[k].is_promise_all || frame_ok(frames@[k]),
    ensures
        final(out)@ == old(out)@ + frames_text(frames@, colors),
{
    let ghost start = out@;
    let mut i: usize = 0;
    proof {
        assert(frames@.take(0) =~= Seq::<JsStackFrame>::empty());
    }
    while i < frames.len()
        invariant
            forall|k: int| 0 <= k < frames@.len() ==> #[trigger] frames@[k].is_promise_all || frame_ok(frames@[k]),
            i <= frames@.len(),
            out@ == start + frames_text(frames@.take(i as int), colors),
        decreases frames@.len() - i,
    {
        push_lit(out, "\n    at ");
        let line = format_frame(&frames[i], colors);
        push_str(out, line.as_str());
        proof {
            assert(frames@.take(i + 1).drop_last() =~= frames@.take(i as int));
            assert(frames@.take(i + 1).last() == frames@[i as int]);
        }
        i = i + 1;
    }
    proof {
        assert(frames@.take(frames@.len() as int) =~= frames@);
    }
}

/// The text of an error, colored when `colors` is set; a nested error
/// (`is_child`) shows no source line.
pub fn format_js_error_inner(js_error: &JsError, is_child: bool, colors: bool) -> (r: String)
    requires
        error_ok(*js_error, is_child),
    ensures
        r@ == error_text(*js_error, is_child, colors),
    decreases js_error,
{
    let mut out: Vec<char> = Vec::new();
    push_str(&mut out, js_error.exception_message.as_str());
    let ghost after_message = out@;
    if let Some(aggregated) = &js_error.aggregated {
        let mut i: usize = 0;
        proof {
            assert(agg_text(*js_error, 0, colors) == Seq::<char>::empty());
        }
        while i < aggregated.len()
            invariant
                js_error.aggregated == Some(*aggregated),
                agg_count(*js_error) == aggregated@.len(),
                error_ok(*js_error, is_child),
                i <= aggregated@.len(),
                out@ == after_message + agg_text(*js_error, i as nat, colors),
            decreases aggregated@.len() - i,
        {
            proof {
                lemma_agg_ok_prefix(*js_error, agg_count(*js_error), (i + 1) as nat);
                assert(decreases_to!(*js_error => aggregated@[i as int]));
            }
            let child = format_js_error_inner(&aggregated[i], true, colors);
            let trimmed = trim_uncaught_chars(&chars_of(child.as_str()));
            let ls = lines(string_of(&trimmed).as_str());
            push_indented_lines(&mut out, &ls);
            proof {
                assert(agg_text(*js_error, (i + 1) as nat, colors) == agg_text(*js_error, i as nat, colors)
                    + indented_lines(lines_of(trim_uncaught(error_text(aggregated@[i as int], true, colors)))));
            }
            i = i + 1;
        }
    }
    let ghost after_agg = out@;
    assert(after_agg == js_error.exception_message@ + agg_text(*js_error, agg_count(*js_error), colors));
    let column_number = match js_error.source_line_frame_index {
        Some(i) => js_error.frames[i].column_number,
        None => None,
    };
    let source_line = if is_child {
        None
    } else {
        match &js_error.source_line {
            Some(l) => Some(l.as_str()),
            None => None,
        }
    };
    assert(column_number == frame_column(*js_error));
    assert(opt_str(source_line) == if is_child { None } else { opt_view(js_error.source_line) });
    let line = format_maybe_source_line(source_line, column_number, true, 0, colors);
    push_str(&mut out, line.as_str());
    push_frames(&mut out, &js_error.frames, colors);
    let ghost after_frames = out@;
    if let Some(cause) = &js_error.cause {
        let text = format_js_error_inner(cause, true, colors);
        let trimmed = trim_uncaught_chars(&chars_of(text.as_str()));
        push_lit(&mut out, "\nCaused by: ");
        push_all(&mut out, &trimmed);
        assert(out@ == after_frames + "\nCaused by: "@ + trim_uncaught(error_text(**cause, true, colors)));
    }
    string_of(&out)
}

/// Each aggregated error among the first `n` can be formatted where all of
/// the first `m` can.
proof fn lemma_agg_ok_prefix(e: JsError, m: nat, n: nat)
    requires
        agg_ok(e, m),
        n <= m <= agg_count(e),
        n >= 1,
    ensures
        error_ok(e.aggregated->0@[n - 1], true),
    decreases m - n,
{
    if m > n {
        lemma_agg_ok_prefix(e, (m - 1) as nat, n);
    }
}

/// The text of an error.
pub fn format_js_error_colored(js_error: &JsError, colors: bool) -> (r: String)
    requires
        error_ok(*js_error, false),
    ensures
        r@ == error_text(*js_error, false, colors),
{
    format_js_error_inner(js_error, false, colors)
}

/// The text of an error, colored when the terminal takes colors.
pub fn format_js_error(js_error: &JsError) -> (r: String)
    requires
        error_ok(*js_error, false),
    ensures
        r@ == error_text(*js_error, false, true) || r@ == error_text(*js_error, false, false),
{
    let colors = colors_enabled();
    format_js_error_colored(js_error, colors)
}

} // verus!
