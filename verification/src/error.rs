//! JavaScript error values, stack frames and their textual formatting.
use vstd::prelude::*;
use vstd::utf8::*;
use vstd::string::*;
use crate::module_specifier::{parse_url, parsed_url};
use crate::text::{
    bytes_ends_with, bytes_starts_with, int_decimal, int_to_string, is_prefix, is_suffix, push_int_decimal,
    find_byte, find_byte_from, lemma_after_ascii_is_boundary, lemma_ascii_is_boundary,
    lemma_find_byte_from, lemma_rfind_byte_in, lemma_rfind_seq_below, parse_i64, parse_i64_spec,
    rfind_byte, rfind_byte_in, rfind_bytes, rfind_seq, slice_range, str_slice, str_slice_from,
    str_slice_to, starts_with,
};

verus! {

broadcast use vstd::utf8::encode_utf8_valid_utf8, vstd::utf8::encode_utf8_decode_utf8;

/// The bytes of `"eval at "`.
pub open spec fn eval_at_bytes() -> Seq<u8> {
    seq![101u8, 118u8, 97u8, 108u8, 32u8, 97u8, 116u8, 32u8]
}

/// Where the innermost location of an eval origin string lies, as positions
/// into its bytes `b`: `(start, file_end, line, column, end)`, where the file
/// name is `b[start..file_end]` and the text after the location is `b[end..]`.
///
/// The innermost location follows the innermost opening bracket: the last
/// `(` after the last `"eval at "` and before the first `)` after it, so
/// `eval at foo (bar at (file://a.ts:1:2))` splits into `eval at foo (bar at (`,
/// the location `file://a.ts`, 1, 2, and `))`. Of what follows that bracket,
/// the column number lies between the last `:` and the first `)` after it,
/// the line number between the two last `:`, and the file name before them.
pub open spec fn eval_origin_split(b: Seq<u8>) -> Option<(int, int, i64, i64, int)> {
    match rfind_seq(b, eval_at_bytes()) {
        None => None,
        Some(p) => match innermost_bracket(b, p + 8) {
            None => None,
            Some(q) => if q + 1 >= b.len() {
                None
            } else {
                match rfind_byte_in(b, 58u8, q + 1, b.len() as int) {
                    None => None,
                    Some(c2) => match rfind_byte_in(b, 58u8, q + 1, c2) {
                        None => None,
                        Some(c1) => match find_byte_from(b, 41u8, c2 + 1) {
                            None => None,
                            Some(r) => match (
                                parse_i64_spec(b.subrange(c2 + 1, r)),
                                parse_i64_spec(b.subrange(c1 + 1, c2)),
                            ) {
                                (Some(col), Some(line)) => Some((q + 1, c1, line, col, r)),
                                _ => None,
                            },
                        },
                    },
                }
            },
        },
    }
}

/// The innermost opening bracket of the text from `from` on: the last `(`
/// before the first `)` of that text.
pub open spec fn innermost_bracket(b: Seq<u8>, from: int) -> Option<int> {
    match find_byte_from(b, 41u8, from) {
        None => None,
        Some(k) => rfind_byte_in(b, 40u8, from, k),
    }
}

fn eval_at_pattern() -> (r: Vec<u8>)
    ensures
        r@ == eval_at_bytes(),
{
    let r = vec![101u8, 118u8, 97u8, 108u8, 32u8, 97u8, 116u8, 32u8];
    assert(r@ =~= eval_at_bytes());
    r
}

/// Parses an eval origin string from V8, such as
/// `eval at foo (eval at bar (file:///a.ts:1:2))`, into the text before the
/// innermost location, the location (file name, line number and column
/// number), and the text after it (see [`eval_origin_split`]):
/// `eval at foo (bar at (file://a.ts:1:2))` gives `eval at foo (bar at (`,
/// (`file://a.ts`, 1, 2) and `))`.
pub fn parse_eval_origin(eval_origin: &str) -> (r: Option<(&str, (&str, i64, i64), &str)>)
    ensures
        ({
            let b = eval_origin.spec_bytes();
            match eval_origin_split(b) {
                None => r is None,
                Some((start, file_end, line, col, end)) => r matches Some(
                    (before, (file, l, c), after),
                ) && before.spec_bytes() == b.subrange(0, start) && file.spec_bytes()
                    == b.subrange(start, file_end) && l == line && c == col
                    && after.spec_bytes() == b.subrange(end, b.len() as int),
            }
        }),
{
    let ghost b = eval_origin.spec_bytes();
    let bytes = eval_origin.as_bytes();
    let len = bytes.len();
    let pat = eval_at_pattern();
    let p = match rfind_bytes(bytes, pat.as_slice()) {
        None => return None,
        Some(p) => p,
    };
    proof {
        lemma_rfind_seq_below(b, eval_at_bytes(), b.len() - eval_at_bytes().len() + 1);
    }
    let k = match find_byte(bytes, 41u8, p + 8) {
        None => return None,
        Some(k) => k,
    };
    proof {
        lemma_find_byte_from(b, 41u8, p + 8);
    }
    let q = match rfind_byte(bytes, 40u8, p + 8, k) {
        None => return None,
        Some(q) => q,
    };
    proof {
        lemma_rfind_byte_in(b, 40u8, (p + 8) as int, k as int);
    }
    if q + 1 >= len {
        return None;
    }
    let c2 = match rfind_byte(bytes, 58u8, q + 1, len) {
        None => return None,
        Some(c2) => c2,
    };
    proof {
        lemma_rfind_byte_in(b, 58u8, q + 1, len as int);
    }
    let c1 = match rfind_byte(bytes, 58u8, q + 1, c2) {
        None => return None,
        Some(c1) => c1,
    };
    proof {
        lemma_rfind_byte_in(b, 58u8, q + 1, c2 as int);
    }
    let r = match find_byte(bytes, 41u8, c2 + 1) {
        None => return None,
        Some(r) => r,
    };
    proof {
        lemma_find_byte_from(b, 41u8, c2 + 1);
    }
    let col = match parse_i64(slice_range(bytes, c2 + 1, r)) {
        None => return None,
        Some(col) => col,
    };
    let line = match parse_i64(slice_range(bytes, c1 + 1, c2)) {
        None => return None,
        Some(line) => line,
    };
    proof {
        lemma_after_ascii_is_boundary(b, q as int);
        lemma_ascii_is_boundary(b, c1 as int);
        lemma_ascii_is_boundary(b, r as int);
    }
    let before = str_slice_to(eval_origin, q + 1);
    let file = str_slice(eval_origin, q + 1, c1);
    let after = str_slice_from(eval_origin, r);
    Some((before, (file, line, col), after))
}

/// An error with a JavaScript error class (such as `TypeError`) and a
/// message.
#[derive(Debug)]
pub struct JsNativeError {
    pub class: &'static str,
    message: String,
}

impl JsNativeError {
    /// The error's class.
    pub closed spec fn spec_class(&self) -> &'static str {
        self.class
    }

    /// The error's message.
    pub closed spec fn spec_message(&self) -> Seq<char> {
        self.message@
    }

    /// An error of class `class` with message `message`.
    pub fn new(class: &'static str, message: &str) -> (r: JsNativeError)
        ensures
            r.spec_class() == class,
            r.spec_message() == message@,
    {
        JsNativeError { class, message: message.to_owned() }
    }

    /// An `Error`.
    pub fn generic(message: &str) -> (r: JsNativeError)
        ensures
            r.spec_class()@ == "Error"@,
            r.spec_message() == message@,
    {
        Self::new("Error", message)
    }

    /// A `TypeError`.
    pub fn type_error(message: &str) -> (r: JsNativeError)
        ensures
            r.spec_class()@ == "TypeError"@,
            r.spec_message() == message@,
    {
        Self::new("TypeError", message)
    }

    /// A `RangeError`.
    pub fn range_error(message: &str) -> (r: JsNativeError)
        ensures
            r.spec_class()@ == "RangeError"@,
            r.spec_message() == message@,
    {
        Self::new("RangeError", message)
    }

    /// A `URIError`.
    pub fn uri_error(message: &str) -> (r: JsNativeError)
        ensures
            r.spec_class()@ == "URIError"@,
            r.spec_message() == message@,
    {
        Self::new("URIError", message)
    }

    /// The non-standard `NotSupported` error.
    pub fn not_supported() -> (r: JsNativeError)
        ensures
            r.spec_class()@ == "NotSupported"@,
            r.spec_message() == "The operation is not supported"@,
    {
        Self::new("NotSupported", "The operation is not supported")
    }

    /// The error's class.
    pub fn get_class(&self) -> (r: &'static str)
        ensures
            r == self.spec_class(),
    {
        self.class
    }

    /// The error's message.
    pub fn get_message(&self) -> (r: String)
        ensures
            r@ == self.spec_message(),
    {
        self.message.clone()
    }

    /// The error as `Display` shows it: `"{class}: {message}"`.
    pub fn to_display_string(&self) -> (r: String)
        ensures
            r@ == self.spec_class()@ + ": "@ + self.spec_message(),
    {
        let mut r = self.class.to_owned();
        r.append(": ");
        r.append(self.message.as_str());
        r
    }
}

/// One frame of a JavaScript stack trace.
#[derive(Debug, Clone)]
pub struct JsStackFrame {
    pub typename: Option<String>,
    pub function_name: Option<String>,
    pub method_name: Option<String>,
    pub file_name: Option<String>,
    pub line_number: Option<i64>,
    pub column_number: Option<i64>,
    pub eval_origin: Option<String>,
    pub is_top_level: Option<bool>,
    pub is_eval: bool,
    pub is_native: bool,
    pub is_constructor: bool,
    pub is_async: bool,
    pub is_promise_all: bool,
    pub promise_index: Option<i64>,
}

impl JsStackFrame {
    /// A frame that only has a location.
    pub fn from_location(
        file_name: Option<String>,
        line_number: Option<i64>,
        column_number: Option<i64>,
    ) -> (r: Self)
        ensures
            r.file_name == file_name,
            r.line_number == line_number,
            r.column_number == column_number,
            r.typename is None,
            r.function_name is None,
            r.method_name is None,
            r.eval_origin is None,
            r.is_top_level is None,
            !r.is_eval,
            !r.is_native,
            !r.is_constructor,
            !r.is_async,
            !r.is_promise_all,
            r.promise_index is None,
    {
        JsStackFrame {
            typename: None,
            function_name: None,
            method_name: None,
            file_name,
            line_number,
            column_number,
            eval_origin: None,
            is_top_level: None,
            is_eval: false,
            is_native: false,
            is_constructor: false,
            is_async: false,
            is_promise_all: false,
            promise_index: None,
        }
    }

    /// `"{file}:{line}:{column}"` when the frame has all three.
    pub fn maybe_format_location(&self) -> (r: Option<String>)
        ensures
            match (self.file_name, self.line_number, self.column_number) {
                (Some(f), Some(l), Some(c)) => r matches Some(s) && s@ == f@ + ":"@ + int_decimal(
                    l as int,
                ) + ":"@ + int_decimal(c as int),
                _ => r is None,
            },
    {
        match (&self.file_name, self.line_number, self.column_number) {
            (Some(f), Some(l), Some(c)) => {
                let mut s = f.clone();
                s.append(":");
                push_int_decimal(&mut s, l);
                s.append(":");
                push_int_decimal(&mut s, c);
                Some(s)
            },
            _ => None,
        }
    }
}

/// The numeric value of the hexadecimal digit `c`, in either case.
pub open spec fn hex_value(c: u8) -> Option<u8> {
    if 48 <= c <= 57 {
        Some((c - 48) as u8)
    } else if 97 <= c <= 102 {
        Some((c - 87) as u8)
    } else if 65 <= c <= 70 {
        Some((c - 55) as u8)
    } else {
        None
    }
}

/// Percent-decoding of bytes: each `%` followed by two hexadecimal digits
/// becomes the byte they denote; every other byte stays as it is.
pub open spec fn percent_decode_bytes(b: Seq<u8>) -> Seq<u8>
    decreases b.len(),
{
    if b.len() == 0 {
        Seq::empty()
    } else if b[0] == 37 && b.len() >= 3 && hex_value(b[1]) is Some && hex_value(b[2]) is Some {
        seq![(hex_value(b[1])->0 * 16 + hex_value(b[2])->0) as u8] + percent_decode_bytes(
            b.skip(3),
        )
    } else {
        seq![b[0]] + percent_decode_bytes(b.skip(1))
    }
}

/// `percent_encoding::percent_decode_str(s).decode_utf8()`: the text that the
/// percent-decoded bytes of `s` spell, when they are valid UTF-8.
#[verifier::external_body]
fn percent_decode_utf8(s: &str) -> (r: Option<String>)
    ensures
        match r {
            Some(t) => valid_utf8(percent_decode_bytes(s.spec_bytes())) && t@ == decode_utf8(
                percent_decode_bytes(s.spec_bytes()),
            ),
            None => !valid_utf8(percent_decode_bytes(s.spec_bytes())),
        },
{
    match percent_encoding::percent_decode_str(s).decode_utf8() {
        Ok(t) => Some(t.into_owned()),
        Err(_) => None,
    }
}

/// Data URLs longer than this many bytes are abbreviated.
pub const DATA_URL_ABBREV_THRESHOLD: usize = 150;

/// The bytes of `"data:"`.
pub open spec fn data_scheme_bytes() -> Seq<u8> {
    seq![100u8, 97u8, 116u8, 97u8, 58u8]
}

/// The abbreviation of a data URL: short data URLs stay as they are; a long
/// one becomes its scheme, `:`, the part of its path before the first `,`,
/// `,`, the first 20 bytes of the rest, `......` and its last 20 bytes. `None`
/// for names that are no data URLs, and where the URL does not parse, the
/// path has no `,`, or the rest is too short or cannot be cut there.
pub open spec fn abbrev_file_name_spec(name: Seq<char>) -> Option<Seq<char>> {
    let b = encode_utf8(name);
    if !is_prefix(data_scheme_bytes(), b) {
        None
    } else if b.len() <= DATA_URL_ABBREV_THRESHOLD {
        Some(name)
    } else {
        match parsed_url(name) {
            None => None,
            Some((_serialization, scheme, path)) => {
                let pb = encode_utf8(path);
                match find_byte_from(pb, 44u8, 0) {
                    None => None,
                    Some(c) => {
                        let tail = pb.skip(c + 1);
                        let len = tail.len() as int;
                        if len < 20 || !is_char_boundary(tail, 20) || !is_char_boundary(
                            tail,
                            len - 20,
                        ) {
                            None
                        } else {
                            Some(
                                scheme + ":"@ + decode_utf8(pb.take(c)) + ","@ + decode_utf8(
                                    tail.take(20),
                                ) + "......"@ + decode_utf8(tail.skip(len - 20)),
                            )
                        }
                    },
                }
            },
        }
    }
}

/// How a file name is shown in a stack trace: data URLs abbreviated, other
/// names percent-decoded where that yields valid UTF-8, else unchanged.
pub open spec fn format_file_name_spec(name: Seq<char>) -> Seq<char> {
    match abbrev_file_name_spec(name) {
        Some(a) => a,
        None => {
            let d = percent_decode_bytes(encode_utf8(name));
            if valid_utf8(d) {
                decode_utf8(d)
            } else {
                name
            }
        },
    }
}

fn data_scheme() -> (r: Vec<u8>)
    ensures
        r@ == data_scheme_bytes(),
{
    let r = vec![100u8, 97u8, 116u8, 97u8, 58u8];
    assert(r@ =~= data_scheme_bytes());
    r
}

fn abbrev_file_name(file_name: &str) -> (r: Option<String>)
    ensures
        match r {
            Some(a) => abbrev_file_name_spec(file_name@) == Some(a@),
            None => abbrev_file_name_spec(file_name@) is None,
        },
{
    let bytes = file_name.as_bytes();
    let prefix = data_scheme();
    if !bytes_starts_with(bytes, prefix.as_slice()) {
        return None;
    }
    if bytes.len() <= DATA_URL_ABBREV_THRESHOLD {
        return Some(file_name.to_owned());
    }
    let (serialization, scheme, path) = match parse_url(file_name) {
        None => return None,
        Some(p) => p,
    };
    let path_str = path.as_str();
    let ghost pb = path_str.spec_bytes();
    let pbytes = path_str.as_bytes();
    assert(pbytes@.len() == pbytes.len());
    let comma = match find_byte(pbytes, 44u8, 0) {
        None => return None,
        Some(c) => c,
    };
    proof {
        lemma_find_byte_from(pb, 44u8, 0);
        lemma_ascii_is_boundary(pb, comma as int);
        lemma_after_ascii_is_boundary(pb, comma as int);
    }
    let head = str_slice_to(path_str, comma);
    let tail = str_slice_from(path_str, comma + 1);
    assert(tail.spec_bytes() =~= pb.skip(comma + 1));
    assert(head.spec_bytes() =~= pb.take(comma as int));
    let len = tail.len();
    if len < 20 {
        assert(parsed_url(file_name@) == Some((serialization@, scheme@, path@)));
        assert(find_byte_from(pb, 44u8, 0) == Some(comma as int));
        return None;
    }
    if !tail.is_char_boundary(20) || !tail.is_char_boundary(len - 20) {
        return None;
    }
    let start = str_slice_to(tail, 20);
    let end = str_slice_from(tail, len - 20);
    assert(start.spec_bytes() =~= tail.spec_bytes().take(20));
    assert(end.spec_bytes() =~= tail.spec_bytes().skip(len - 20));
    let mut r = scheme;
    r.append(":");
    r.append(head);
    r.append(",");
    r.append(start);
    r.append("......");
    r.append(end);
    proof {
        assert(head@ == decode_utf8(head.spec_bytes()));
        assert(start@ == decode_utf8(start.spec_bytes()));
        assert(end@ == decode_utf8(end.spec_bytes()));
    }
    Some(r)
}

/// How `file_name` is shown in a stack trace (see
/// [`format_file_name_spec`]).
pub fn format_file_name(file_name: &str) -> (r: String)
    ensures
        r@ == format_file_name_spec(file_name@),
{
    match abbrev_file_name(file_name) {
        Some(a) => a,
        None => match percent_decode_utf8(file_name) {
            Some(t) => t,
            None => file_name.to_owned(),
        },
    }
}

/// A part of an error stack trace, for formatting.
#[derive(Debug, Clone, Copy)]
pub enum ErrorElement {
    /// An anonymous file or method name.
    Anonymous,
    /// Text signifying a native stack frame.
    NativeFrame,
    /// A source line number.
    LineNumber,
    /// A source column number.
    ColumnNumber,
    /// The name of a function (or method).
    FunctionName,
    /// The name of a source file.
    FileName,
    /// The origin of an error coming from `eval`ed code.
    EvalOrigin,
    /// Text signifying a call to `Promise.all`.
    PromiseAll,
}

/// Applies formatting (such as terminal colors) to the parts of error stack
/// traces.
pub trait ErrorFormat {
    /// The formatted text of part `element` whose text is `s`.
    spec fn fmt_element_spec(element: ErrorElement, s: Seq<char>) -> Seq<char>;

    /// Formats part `element` whose text is `s`.
    fn fmt_element(element: ErrorElement, s: &str) -> (r: String)
        ensures
            r@ == Self::fmt_element_spec(element, s@),
    ;
}

/// Formats errors without colors: every part as it is.
pub struct NoAnsiColors;

impl ErrorFormat for NoAnsiColors {
    open spec fn fmt_element_spec(element: ErrorElement, s: Seq<char>) -> Seq<char> {
        s
    }

    fn fmt_element(element: ErrorElement, s: &str) -> (r: String) {
        s.to_owned()
    }
}

/// The text of an optional string, empty when absent.
pub open spec fn opt_text(s: Option<String>) -> Seq<char> {
    match s {
        Some(t) => t@,
        None => Seq::empty(),
    }
}

/// The location part of a formatted stack frame: `native` for native
/// frames; else the formatted file name, or for frames without one the eval
/// origin (for `eval`ed code) and `<anonymous>`; then `:line` and `:column`
/// where known.
pub open spec fn format_location_spec<F: ErrorFormat>(frame: &JsStackFrame) -> Seq<char> {
    if frame.is_native {
        F::fmt_element_spec(ErrorElement::NativeFrame, "native"@)
    } else {
        let file = opt_text(frame.file_name);
        let head = if file.len() > 0 {
            F::fmt_element_spec(ErrorElement::FileName, format_file_name_spec(file))
        } else {
            (if frame.is_eval {
                F::fmt_element_spec(ErrorElement::EvalOrigin, opt_text(frame.eval_origin)) + ", "@
            } else {
                Seq::empty()
            }) + F::fmt_element_spec(ErrorElement::Anonymous, "<anonymous>"@)
        };
        let tail = match frame.line_number {
            Some(l) => ":"@ + F::fmt_element_spec(ErrorElement::LineNumber, int_decimal(l as int))
                + match frame.column_number {
                Some(c) => ":"@ + F::fmt_element_spec(
                    ErrorElement::ColumnNumber,
                    int_decimal(c as int),
                ),
                None => Seq::empty(),
            },
            None => Seq::empty(),
        };
        head + tail
    }
}

/// A frame can be formatted unless it is an `eval` frame without a file
/// name and without an eval origin.
pub open spec fn frame_formattable(frame: &JsStackFrame) -> bool {
    !frame.is_native && opt_text(frame.file_name).len() == 0 && frame.is_eval
        ==> frame.eval_origin is Some
}

/// Formats the location of `frame` (see [`format_location_spec`]).
pub fn format_location<F: ErrorFormat>(frame: &JsStackFrame) -> (r: String)
    requires
        frame_formattable(frame),
    ensures
        r@ == format_location_spec::<F>(frame),
{
    if frame.is_native {
        return F::fmt_element(ErrorElement::NativeFrame, "native");
    }
    let mut result = String::new();
    let file_name: &str = match &frame.file_name {
        Some(f) => f.as_str(),
        None => "",
    };
    proof {
        reveal_strlit("");
    }
    if !file_name.is_empty() {
        let formatted = format_file_name(file_name);
        let part = F::fmt_element(ErrorElement::FileName, formatted.as_str());
        result.append(part.as_str());
    } else {
        if frame.is_eval {
            let origin = match &frame.eval_origin {
                Some(o) => o.as_str(),
                None => vstd::pervasive::unreached(),
            };
            let part = F::fmt_element(ErrorElement::EvalOrigin, origin);
            result.append(part.as_str());
            result.append(", ");
        }
        let part = F::fmt_element(ErrorElement::Anonymous, "<anonymous>");
        result.append(part.as_str());
    }
    let ghost head = result@;
    if let Some(line_number) = frame.line_number {
        result.append(":");
        let line = int_to_string(line_number);
        let part = F::fmt_element(ErrorElement::LineNumber, line.as_str());
        result.append(part.as_str());
        if let Some(column_number) = frame.column_number {
            result.append(":");
            let col = int_to_string(column_number);
            let part = F::fmt_element(ErrorElement::ColumnNumber, col.as_str());
            result.append(part.as_str());
        }
    }
    proof {
        assert(result@ =~= format_location_spec::<F>(frame));
    }
    result
}

/// How a method call frame names its function: for a named function,
/// `Type.` unless the name starts with the type name, the name, and
/// ` [as method]` unless the name ends with the method name; for an unnamed
/// one, `Type.` and the method name or `<anonymous>`.
pub open spec fn formatted_method_spec(frame: &JsStackFrame) -> Seq<char> {
    match frame.function_name {
        Some(f) => {
            let type_part = match frame.typename {
                Some(t) => if !is_prefix(encode_utf8(t@), encode_utf8(f@)) {
                    t@ + "."@
                } else {
                    Seq::empty()
                },
                None => Seq::empty(),
            };
            let method_part = match frame.method_name {
                Some(m) => if !is_suffix(encode_utf8(m@), encode_utf8(f@)) {
                    " [as "@ + m@ + "]"@
                } else {
                    Seq::empty()
                },
                None => Seq::empty(),
            };
            type_part + f@ + method_part
        },
        None => (match frame.typename {
            Some(t) => t@ + "."@,
            None => Seq::empty(),
        }) + (match frame.method_name {
            Some(m) => m@,
            None => "<anonymous>"@,
        }),
    }
}

/// A formatted stack frame: `async ` for async frames; then for
/// `Promise.all` frames `Promise.all (index i)`; else the function (as a
/// method call, as `new` for constructors, or by name) followed by the
/// location in parentheses, or the bare location when there is no name.
pub open spec fn format_frame_spec<F: ErrorFormat>(frame: &JsStackFrame) -> Seq<char> {
    let is_method_call = !(frame.is_top_level == Some(true) || frame.is_constructor);
    let prefix = if frame.is_async {
        "async "@
    } else {
        Seq::empty()
    };
    let location = " ("@ + format_location_spec::<F>(frame) + ")"@;
    if frame.is_promise_all {
        let index = match frame.promise_index {
            Some(i) => i as int,
            None => 0,
        };
        prefix + F::fmt_element_spec(
            ErrorElement::PromiseAll,
            "Promise.all (index "@ + int_decimal(index) + ")"@,
        )
    } else if is_method_call {
        prefix + F::fmt_element_spec(ErrorElement::FunctionName, formatted_method_spec(frame))
            + location
    } else if frame.is_constructor {
        prefix + "new "@ + (match frame.function_name {
            Some(f) => F::fmt_element_spec(ErrorElement::FunctionName, f@),
            None => F::fmt_element_spec(ErrorElement::Anonymous, "<anonymous>"@),
        }) + location
    } else {
        match frame.function_name {
            Some(f) => prefix + F::fmt_element_spec(ErrorElement::FunctionName, f@) + location,
            None => prefix + format_location_spec::<F>(frame),
        }
    }
}

fn formatted_method(frame: &JsStackFrame) -> (r: String)
    ensures
        r@ == formatted_method_spec(frame),
{
    let mut formatted = String::new();
    match &frame.function_name {
        Some(function_name) => {
            if let Some(typename) = &frame.typename {
                if !bytes_starts_with(function_name.as_str().as_bytes(), typename.as_str().as_bytes()) {
                    formatted.append(typename.as_str());
                    formatted.append(".");
                }
            }
            formatted.append(function_name.as_str());
            if let Some(method_name) = &frame.method_name {
                if !bytes_ends_with(function_name.as_str().as_bytes(), method_name.as_str().as_bytes()) {
                    formatted.append(" [as ");
                    formatted.append(method_name.as_str());
                    formatted.append("]");
                }
            }
        },
        None => {
            if let Some(typename) = &frame.typename {
                formatted.append(typename.as_str());
                formatted.append(".");
            }
            match &frame.method_name {
                Some(method_name) => formatted.append(method_name.as_str()),
                None => formatted.append("<anonymous>"),
            }
        },
    }
    proof {
        assert(formatted@ =~= formatted_method_spec(frame));
    }
    formatted
}

/// Formats one stack frame (see [`format_frame_spec`]).
pub fn format_frame<F: ErrorFormat>(frame: &JsStackFrame) -> (r: String)
    requires
        !frame.is_promise_all ==> frame_formattable(frame),
    ensures
        r@ == format_frame_spec::<F>(frame),
{
    let is_method_call = !(frame.is_top_level == Some(true) || frame.is_constructor);
    let mut result = String::new();
    if frame.is_async {
        result.append("async ");
    }
    if frame.is_promise_all {
        let mut text = String::new();
        text.append("Promise.all (index ");
        let index = match frame.promise_index {
            Some(i) => i,
            None => 0,
        };
        push_int_decimal(&mut text, index);
        text.append(")");
        let part = F::fmt_element(ErrorElement::PromiseAll, text.as_str());
        result.append(part.as_str());
        proof {
            assert(result@ =~= format_frame_spec::<F>(frame));
        }
        return result;
    }
    if is_method_call {
        let method = formatted_method(frame);
        let part = F::fmt_element(ErrorElement::FunctionName, method.as_str());
        result.append(part.as_str());
    } else if frame.is_constructor {
        result.append("new ");
        match &frame.function_name {
            Some(function_name) => {
                let part = F::fmt_element(ErrorElement::FunctionName, function_name.as_str());
                result.append(part.as_str());
            },
            None => {
                let part = F::fmt_element(ErrorElement::Anonymous, "<anonymous>");
                result.append(part.as_str());
            },
        }
    } else if let Some(function_name) = &frame.function_name {
        let part = F::fmt_element(ErrorElement::FunctionName, function_name.as_str());
        result.append(part.as_str());
    } else {
        let location = format_location::<F>(frame);
        result.append(location.as_str());
        proof {
            assert(result@ =~= format_frame_spec::<F>(frame));
        }
        return result;
    }
    result.append(" (");
    let location = format_location::<F>(frame);
    result.append(location.as_str());
    result.append(")");
    proof {
        assert(result@ =~= format_frame_spec::<F>(frame));
    }
    result
}

/// `url::Url::parse`, then `Url::to_file_path` and the path as text (lossy
/// where it is not valid UTF-8); `None` where either step fails. The path a
/// URL maps to depends on the platform's path conventions, so the text is not
/// stated; what the url source shows of every platform is: nothing comes back
/// for text that does not parse, nor for a URL whose path does not start
/// with `/` (such a URL has no path segments).
#[verifier::external_body]
fn file_url_to_path(s: &str) -> (r: Option<String>)
    ensures
        parsed_url(s@) is None ==> r is None,
        r is Some ==> (parsed_url(s@) matches Some((_, _, path)) && path.len() > 0 && path[0]
            == '/'),
{
    match url::Url::parse(s) {
        Ok(u) => match u.to_file_path() {
            Ok(p) => Some(p.to_string_lossy().into_owned()),
            Err(_) => None,
        },
        Err(_) => None,
    }
}

/// The file path of a `file://` URL, as shown to users: `None` for any text
/// that does not start with `file://`; otherwise the path that the URL maps
/// to on this platform, or `None` where the URL parser or the mapping
/// refuses it.
pub fn maybe_to_path_str(string: &str) -> (r: Option<String>)
    ensures
        !starts_with(string@, "file://"@) ==> r is None,
        starts_with(string@, "file://"@) ==> (parsed_url(string@) is None ==> r is None),
        r is Some ==> starts_with(string@, "file://"@) && (parsed_url(string@) matches Some(
            (_, _, path),
        ) && path.len() > 0 && path[0] == '/'),
{
    proof {
        reveal_strlit("file://");
    }
    if bytes_starts_with(string.as_bytes(), "file://".as_bytes()) {
        file_url_to_path(string)
    } else {
        None
    }
}

} // verus!
