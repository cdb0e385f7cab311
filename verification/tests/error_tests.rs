use denocore::error::format_file_name;
use denocore::error::parse_eval_origin;
use denocore::error::maybe_to_path_str;
use denocore::error::DATA_URL_ABBREV_THRESHOLD;

#[test]
fn test_parse_eval_origin() {
    let cases = [
        (
            "eval at <anonymous> (file://path.ts:1:2)",
            Some(("eval at <anonymous> (", ("file://path.ts", 1, 2), ")")),
        ),
        (
            // malformed
            "eval at (s:1:2",
            None,
        ),
        (
            // malformed
            "at ()", None,
        ),
        (
            // url with parens
            "eval at foo (http://website.zzz/my-script).ts:1:2)",
            Some(("eval at foo (", ("http://website.zzz/my-script).ts", 1, 2), ")")),
        ),
        (
            // nested
            "eval at foo (eval at bar (file://path.ts:1:2))",
            Some(("eval at foo (eval at bar (", ("file://path.ts", 1, 2), "))")),
        ),
    ];
    for (input, expect) in cases {
        match expect {
            Some((expect_before, (expect_file, expect_line, expect_col), expect_after)) => {
                let (before, (file_name, line_number, column_number), after) =
                    parse_eval_origin(input).unwrap();
                assert_eq!(before, expect_before);
                assert_eq!(file_name, expect_file);
                assert_eq!(line_number, expect_line);
                assert_eq!(column_number, expect_col);
                assert_eq!(after, expect_after);
            }
            None => {
                assert!(parse_eval_origin(input).is_none());
            }
        }
    }
}

#[test]
fn test_format_file_name() {
    let file_name = format_file_name("data:,Hello%2C%20World%21");
    assert_eq!(file_name, "data:,Hello%2C%20World%21");

    let too_long_name = "a".repeat(DATA_URL_ABBREV_THRESHOLD + 1);
    let file_name = format_file_name(&format!(
        "data:text/plain;base64,{too_long_name}_%F0%9F%A6%95"
    ));
    assert_eq!(
        file_name,
        "data:text/plain;base64,aaaaaaaaaaaaaaaaaaaa......aaaaaaa_%F0%9F%A6%95"
    );

    let file_name = format_file_name("file:///foo/bar.ts");
    assert_eq!(file_name, "file:///foo/bar.ts");

    let file_name = format_file_name("file:///%E6%9D%B1%E4%BA%AC/%F0%9F%A6%95.ts");
    assert_eq!(file_name, "file:///東京/🦕.ts");
}

#[test]
fn parse_eval_origin_signed_and_out_of_range_numbers() {
    let (_, (_, line, col), _) = parse_eval_origin("eval at f (a.js:+7:-3)").unwrap();
    assert_eq!(line, 7);
    assert_eq!(col, -3);
    assert!(parse_eval_origin("eval at f (a.js:99999999999999999999:1)").is_none());
    assert!(parse_eval_origin("eval at f (a.js:1:x)").is_none());
    assert!(parse_eval_origin("eval at f (a.js:1:2").is_none());
}

#[test]
fn format_file_name_keeps_invalid_utf8_escapes() {
    assert_eq!(format_file_name("file:///%FF.ts"), "file:///%FF.ts");
    assert_eq!(format_file_name("file:///%41%zz"), "file:///A%zz");
}

use denocore::error::format_frame;
use denocore::error::format_location;
use denocore::error::JsNativeError;
use denocore::error::JsStackFrame;
use denocore::error::NoAnsiColors;
use denocore::js_error::JsError;
use denocore::js_error::JsErrorClass;
use denocore::js_error::StdAnyError;

#[test]
fn test_anyhow_js_class() {
    let err = anyhow::Error::msg("foo");
    assert_eq!(err.get_class(), "Error");
    assert_eq!(err.get_message(), "foo");

    // A native error cannot be put inside an `anyhow::Error` here: anyhow
    // holds only errors with a `Display` impl, and the library's error types
    // have none. The class and message are checked on the native error.
    let err = JsNativeError::type_error("bar");
    assert_eq!(JsErrorClass::get_class(&err), "TypeError");
    assert_eq!(JsErrorClass::get_message(&err), "bar");
}

#[test]
fn anyhow_message_includes_the_chain_of_causes() {
    let err = anyhow::Error::msg("inner").context("outer");
    assert_eq!(err.get_class(), "Error");
    assert_eq!(err.get_message(), "outer: inner");
    let wrapped = StdAnyError::from(anyhow::Error::msg("x"));
    assert_eq!(wrapped.0.to_string(), "x");
}

#[test]
fn native_error_constructors() {
    assert_eq!(JsNativeError::generic("a").get_class(), "Error");
    assert_eq!(JsNativeError::range_error("b").get_class(), "RangeError");
    assert_eq!(JsNativeError::uri_error("c").get_class(), "URIError");
    let e = JsNativeError::not_supported();
    assert_eq!(e.get_class(), "NotSupported");
    assert_eq!(e.get_message(), "The operation is not supported");
    assert_eq!(JsNativeError::type_error("bad").to_display_string(), "TypeError: bad");
}

fn frame(file: Option<&str>, line: Option<i64>, col: Option<i64>) -> JsStackFrame {
    JsStackFrame::from_location(file.map(|s| s.to_string()), line, col)
}

#[test]
fn stack_frame_locations() {
    let f = frame(Some("file:///a.js"), Some(3), Some(-4));
    assert_eq!(f.maybe_format_location(), Some("file:///a.js:3:-4".to_string()));
    assert_eq!(frame(Some("x.js"), None, Some(1)).maybe_format_location(), None);
    assert_eq!(format_location::<NoAnsiColors>(&f), "file:///a.js:3:-4");
    let mut anon = frame(None, Some(1), None);
    assert_eq!(format_location::<NoAnsiColors>(&anon), "<anonymous>:1");
    anon.is_eval = true;
    anon.eval_origin = Some("eval at f (a.js:1:1)".to_string());
    assert_eq!(
        format_location::<NoAnsiColors>(&anon),
        "eval at f (a.js:1:1), <anonymous>:1"
    );
    let mut native = frame(Some("x"), Some(1), Some(1));
    native.is_native = true;
    assert_eq!(format_location::<NoAnsiColors>(&native), "native");
}

#[test]
fn stack_frame_formatting() {
    let mut f = frame(Some("file:///a.js"), Some(1), Some(2));
    f.function_name = Some("bar".to_string());
    f.typename = Some("Foo".to_string());
    f.method_name = Some("baz".to_string());
    assert_eq!(format_frame::<NoAnsiColors>(&f), "Foo.bar [as baz] (file:///a.js:1:2)");

    f.is_top_level = Some(true);
    f.is_async = true;
    assert_eq!(format_frame::<NoAnsiColors>(&f), "async bar (file:///a.js:1:2)");

    let mut ctor = frame(Some("b.js"), Some(5), Some(6));
    ctor.is_constructor = true;
    assert_eq!(format_frame::<NoAnsiColors>(&ctor), "new <anonymous> (b.js:5:6)");

    let mut all = frame(None, None, None);
    all.is_promise_all = true;
    all.promise_index = Some(3);
    assert_eq!(format_frame::<NoAnsiColors>(&all), "Promise.all (index 3)");

    let mut top = frame(Some("c.js"), Some(7), None);
    top.is_top_level = Some(true);
    assert_eq!(format_frame::<NoAnsiColors>(&top), "c.js:7");
}

fn error(message: &str) -> JsError {
    JsError {
        name: Some("Error".to_string()),
        message: Some("boom".to_string()),
        stack: None,
        cause: None,
        exception_message: message.to_string(),
        frames: vec![frame(Some("a.js"), Some(1), Some(1))],
        source_line: None,
        source_line_frame_index: None,
        aggregated: None,
    }
}

#[test]
fn same_error_ignores_cause_and_in_promise() {
    let a = error("Uncaught (in promise) Error: boom");
    let mut b = error("Uncaught Error: boom");
    assert!(a.is_same_error(&b));
    assert!(b.is_same_error(&a));
    assert!(a.is_same_error(&a));
    b.cause = Some(Box::new(error("other")));
    assert!(a.is_same_error(&b));
    assert!(!a.equals(&b));
    let c = error("Uncaught TypeError: boom");
    assert!(!a.is_same_error(&c));
    let mut d = error("Uncaught Error: boom");
    d.frames[0].line_number = Some(2);
    assert!(!b.is_same_error(&d));
    let mut e = error("Uncaught Error: boom");
    e.aggregated = Some(vec![error("x")]);
    assert!(!b.is_same_error(&e));
    let mut f = error("Uncaught Error: boom");
    f.aggregated = Some(vec![error("x")]);
    assert!(e.is_same_error(&f));
    assert!(e.equals(&f));
}

use denocore::js_error::first_source_frame;
use denocore::js_error::in_promise_message;
use denocore::js_error::format_stack_trace;
use denocore::js_error::uncaught_message;

#[test]
fn uncaught_messages() {
    assert_eq!(uncaught_message(Some("TypeError"), Some("x")), "Uncaught TypeError: x");
    assert_eq!(uncaught_message(None, None), "Uncaught Error");
    assert_eq!(uncaught_message(Some(""), Some("m")), "Uncaught m");
    assert_eq!(uncaught_message(Some(""), None), "Uncaught");
}

#[test]
fn source_frame_skips_extension_code() {
    let frames = vec![
        frame(Some("[ext:core.js"), Some(1), Some(1)),
        frame(Some("file:///a.js"), None, None),
        frame(Some("file:///b.js"), Some(2), Some(3)),
    ];
    assert_eq!(first_source_frame(&frames), Some(2));
    assert_eq!(first_source_frame(&vec![frame(Some("ext:x"), Some(1), None)]), None);
}

#[test]
fn error_display_and_stack_trace() {
    let mut e = error("Uncaught Error: boom");
    e.frames = vec![frame(Some("file:///a.js"), Some(4), Some(2))];
    assert_eq!(e.to_display_string(), "Uncaught Error: boom\n    at file:///a.js:4:2");
    e.stack = Some("Error: boom\n    at foo".to_string());
    assert_eq!(e.to_display_string(), "Error: boom\n    at foo");
    e.stack = Some("one line\n".to_string());
    assert_eq!(e.to_display_string(), "Uncaught Error: boom\n    at file:///a.js:4:2");
    let mut f = frame(Some("file:///a.js"), Some(4), Some(2));
    f.is_top_level = Some(true);
    f.function_name = Some("main".to_string());
    assert_eq!(
        format_stack_trace(Some("TypeError"), Some("bad"), &vec![f.clone(), f]),
        "TypeError: bad\n    at main (file:///a.js:4:2)\n    at main (file:///a.js:4:2)"
    );
    assert_eq!(format_stack_trace(None, None, &vec![]), "Error");
    assert_eq!(format_stack_trace(Some(""), Some("m"), &vec![]), "m");
}

#[test]
fn parse_eval_origin_takes_the_innermost_bracket() {
    assert_eq!(
        parse_eval_origin("eval at foo (bar at (file://a.ts:1:2))"),
        Some(("eval at foo (bar at (", ("file://a.ts", 1, 2), "))"))
    );
    assert_eq!(
        parse_eval_origin("eval at foo:1 (file:///x.js:2:3)"),
        Some(("eval at foo:1 (", ("file:///x.js", 2, 3), ")"))
    );
    assert_eq!(
        parse_eval_origin("eval at foo (eval at bar (file://path.ts:1:2))"),
        Some(("eval at foo (eval at bar (", ("file://path.ts", 1, 2), "))"))
    );
}

#[test]
fn in_promise_message_drops_uncaught_prefixes() {
    assert_eq!(in_promise_message("Uncaught Error: boom"), "Uncaught (in promise) Error: boom");
    assert_eq!(
        in_promise_message("Uncaught Uncaught TypeError"),
        "Uncaught (in promise) TypeError"
    );
    assert_eq!(in_promise_message("plain"), "Uncaught (in promise) plain");
    assert_eq!(in_promise_message("Uncaught"), "Uncaught (in promise) Uncaught");
}

#[test]
fn maybe_to_path_str_maps_file_urls_only() {
    assert_eq!(maybe_to_path_str("http://example.com/a.js"), None);
    assert_eq!(maybe_to_path_str("/plain/path.js"), None);
    assert_eq!(maybe_to_path_str("file:///a/b%20c.js"), Some("/a/b c.js".to_string()));
    assert_eq!(maybe_to_path_str("file://localhost/x.js"), Some("/x.js".to_string()));
    assert_eq!(maybe_to_path_str("file://other-host/x.js"), None);
}
