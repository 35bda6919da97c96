use phylum_cli::deno_error::{
    format_frame, format_js_error_colored, format_js_error_inner, format_location,
    format_maybe_source_line, JsError, JsStackFrame,
};

fn frame(file: &str, line: i64, column: i64) -> JsStackFrame {
    JsStackFrame {
        receiver_type: None,
        function_name: None,
        method_name: None,
        file_name: Some(file.to_string()),
        line_number: Some(line),
        column_number: Some(column),
        eval_origin: None,
        is_top_level: Some(true),
        is_eval: false,
        is_native: false,
        is_constructor: false,
        is_async: false,
        is_promise_all: false,
        promise_index: None,
    }
}

fn error(message: &str, frames: Vec<JsStackFrame>) -> JsError {
    JsError {
        exception_message: message.to_string(),
        frames,
        source_line: None,
        source_line_frame_index: None,
        aggregated: None,
        cause: None,
    }
}

#[test]
fn location_shows_file_line_and_column() {
    let f = frame("file:///ext/main.ts", 3, 17);
    assert_eq!(format_location(&f, false), "file:///ext/main.ts:3:17");
}

#[test]
fn location_without_column_or_line() {
    let mut f = frame("main.ts", 3, 1);
    f.column_number = None;
    assert_eq!(format_location(&f, false), "main.ts:3");
    f.line_number = None;
    assert_eq!(format_location(&f, false), "main.ts");
}

#[test]
fn native_and_eval_locations() {
    let mut f = frame("main.ts", 1, 1);
    f.is_native = true;
    assert_eq!(format_location(&f, false), "native");

    let mut f = frame("", -2, 4);
    f.is_eval = true;
    f.eval_origin = Some("eval at run".to_string());
    assert_eq!(format_location(&f, false), "eval at run, <anonymous>:-2:4");

    let mut f = frame("", 1, 2);
    f.file_name = None;
    assert_eq!(format_location(&f, false), "<anonymous>:1:2");
}

#[test]
fn colored_location_carries_escape_codes() {
    let mut f = frame("main.ts", 1, 1);
    f.is_native = true;
    assert_eq!(format_location(&f, true), "\x1b[36mnative\x1b[0m");

    let f = frame("a.js", 7, 9);
    assert_eq!(
        format_location(&f, true),
        "\x1b[36ma.js\x1b[0m:\x1b[33m7\x1b[0m:\x1b[33m9\x1b[0m"
    );
}

#[test]
fn method_call_frames() {
    let mut f = frame("a.js", 1, 2);
    f.is_top_level = Some(false);
    f.receiver_type = Some("Foo".to_string());
    f.function_name = Some("bar".to_string());
    f.method_name = Some("baz".to_string());
    assert_eq!(format_frame(&f, false), "Foo.bar [as baz] (a.js:1:2)");

    f.function_name = Some("Foo.baz".to_string());
    assert_eq!(format_frame(&f, false), "Foo.baz (a.js:1:2)");

    f.function_name = None;
    assert_eq!(format_frame(&f, false), "Foo.baz (a.js:1:2)");

    f.receiver_type = None;
    f.method_name = None;
    f.is_top_level = None;
    f.is_async = true;
    assert_eq!(format_frame(&f, false), "async <anonymous> (a.js:1:2)");
}

#[test]
fn constructor_and_top_level_frames() {
    let mut f = frame("a.js", 4, 5);
    f.is_constructor = true;
    assert_eq!(format_frame(&f, false), "new <anonymous> (a.js:4:5)");
    f.function_name = Some("Widget".to_string());
    assert_eq!(format_frame(&f, false), "new Widget (a.js:4:5)");

    let mut f = frame("a.js", 4, 5);
    f.function_name = Some("main".to_string());
    assert_eq!(format_frame(&f, false), "main (a.js:4:5)");
    f.function_name = None;
    assert_eq!(format_frame(&f, false), "a.js:4:5");
}

#[test]
fn promise_all_frames() {
    let mut f = frame("a.js", 1, 1);
    f.is_promise_all = true;
    f.promise_index = Some(2);
    f.is_async = true;
    assert_eq!(format_frame(&f, false), "async Promise.all (index 2)");
    f.promise_index = None;
    f.is_async = false;
    assert_eq!(format_frame(&f, true), "\x1b[1m\x1b[3mPromise.all (index 0)\x1b[0m");
}

#[test]
fn source_line_gets_a_caret() {
    assert_eq!(
        format_maybe_source_line(Some("let x = y;"), Some(9), true, 0, false),
        "\nlet x = y;\n        ^"
    );
    assert_eq!(
        format_maybe_source_line(Some("\tfoo()"), Some(3), false, 2, false),
        "\n  \tfoo()\n  \t ^"
    );
    assert_eq!(
        format_maybe_source_line(Some("ab"), Some(1), true, 0, true),
        "\nab\n\x1b[31m^\x1b[0m"
    );
}

#[test]
fn source_line_edge_cases() {
    assert_eq!(format_maybe_source_line(None, Some(1), true, 0, false), "");
    assert_eq!(format_maybe_source_line(Some("x"), None, true, 0, false), "");
    assert_eq!(format_maybe_source_line(Some(""), Some(1), true, 0, false), "");
    assert_eq!(
        format_maybe_source_line(Some("Couldn't format source line: oops"), Some(1), true, 0, false),
        "\nCouldn't format source line: oops"
    );
    assert_eq!(
        format_maybe_source_line(Some("abc"), Some(4), true, 0, false),
        "\nWarning Couldn't format source line: Column 4 is out of bounds (source may have changed \
         at runtime)"
    );
    assert_eq!(
        format_maybe_source_line(Some("abc"), Some(-1), true, 0, false),
        "\nWarning Couldn't format source line: Column -1 is out of bounds (source may have \
         changed at runtime)"
    );
    // Columns count bytes: "é" takes two.
    assert_eq!(format_maybe_source_line(Some("é"), Some(2), true, 0, false), "\né\n ^");
}

#[test]
fn error_with_stack_and_source_line() {
    let mut e = error("Uncaught Error: boom", vec![frame("main.ts", 2, 5), frame("lib.ts", 9, 1)]);
    e.source_line = Some("throw x;".to_string());
    e.source_line_frame_index = Some(0);
    assert_eq!(
        format_js_error_colored(&e, false),
        "Uncaught Error: boom\nthrow x;\n    ^\n    at main.ts:2:5\n    at lib.ts:9:1"
    );
    // A nested error shows no source line.
    assert_eq!(
        format_js_error_inner(&e, true, false),
        "Uncaught Error: boom\n    at main.ts:2:5\n    at lib.ts:9:1"
    );
}

#[test]
fn aggregated_errors_and_causes() {
    let first = error("Uncaught Uncaught A\nline two", vec![]);
    let second = error("B", vec![frame("b.ts", 1, 1)]);
    let cause = error("Uncaught C", vec![]);
    let mut e = error("AggregateError", vec![]);
    e.aggregated = Some(vec![first, second]);
    e.cause = Some(Box::new(cause));
    assert_eq!(
        format_js_error_colored(&e, false),
        "AggregateError\n    A\n    line two\n    B\n        at b.ts:1:1\nCaused by: C"
    );
}
