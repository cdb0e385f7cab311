//! Errors as JavaScript sees them: their classes and messages, and errors
//! that come back from JavaScript with their stack frames.
use vstd::prelude::*;
use vstd::string::*;
use vstd::utf8::*;
use crate::error::{
    format_frame, format_frame_spec, frame_formattable, JsNativeError, JsStackFrame, NoAnsiColors,
};
use crate::text::int_decimal;
use crate::text::{replace_all_bytes, replace_bytes, str_eq};

verus! {

/// An error that can be thrown into JavaScript: it names the JavaScript
/// error class and gives a message.
pub trait JsErrorClass {
    /// The JavaScript error class, such as `TypeError`.
    fn get_class(&self) -> &'static str;

    /// The message of the error.
    fn get_message(&self) -> String;
}

impl JsErrorClass for JsNativeError {
    fn get_class(&self) -> (r: &'static str)
        ensures
            r == self.spec_class(),
    {
        JsNativeError::get_class(self)
    }

    fn get_message(&self) -> (r: String)
        ensures
            r@ == self.spec_message(),
    {
        JsNativeError::get_message(self)
    }
}

/// `format!("{:#}", e)` for an `anyhow::Error`: the error and the errors
/// that caused it, as anyhow's alternate `Display` shows them. The text
/// depends on what the error holds, which is opaque here, so nothing is
/// stated of it.
#[verifier::external_body]
pub(crate) fn anyhow_alternate_display(e: &anyhow::Error) -> String {
    format!("{:#}", e)
}

/// An `anyhow::Error` holds only errors that have a `Display` impl, and no
/// error type of this library has one; so an `anyhow::Error` never carries one
/// of the library's JavaScript error classes, and is thrown as a plain `Error`
/// with its text.
impl JsErrorClass for anyhow::Error {
    /// An `anyhow::Error` is thrown as a plain `Error`.
    fn get_class(&self) -> (r: &'static str)
        ensures
            r@ == "Error"@,
    {
        "Error"
    }

    /// The error with the chain of its causes.
    fn get_message(&self) -> String {
        anyhow_alternate_display(self)
    }
}

/// An `anyhow::Error` carried where a standard error is wanted.
pub struct StdAnyError(pub anyhow::Error);

impl From<anyhow::Error> for StdAnyError {
    fn from(err: anyhow::Error) -> (r: Self) {
        StdAnyError(err)
    }
}

impl vstd::std_specs::convert::FromSpecImpl<anyhow::Error> for StdAnyError {
    open spec fn obeys_from_spec() -> bool {
        true
    }

    open spec fn from_spec(v: anyhow::Error) -> StdAnyError {
        StdAnyError(v)
    }
}

/// An exception that came from JavaScript, with its stack frames.
#[derive(Debug)]
pub struct JsError {
    pub name: Option<String>,
    pub message: Option<String>,
    pub stack: Option<String>,
    pub cause: Option<Box<JsError>>,
    pub exception_message: String,
    pub frames: Vec<JsStackFrame>,
    pub source_line: Option<String>,
    pub source_line_frame_index: Option<usize>,
    pub aggregated: Option<Vec<JsError>>,
}

/// Two optional texts are equal.
pub open spec fn opt_text_eq(a: Option<String>, b: Option<String>) -> bool {
    match (a, b) {
        (Some(x), Some(y)) => x@ == y@,
        (None, None) => true,
        _ => false,
    }
}

/// Two stack frames are equal, field by field.
pub open spec fn frame_eq(a: JsStackFrame, b: JsStackFrame) -> bool {
    &&& opt_text_eq(a.typename, b.typename)
    &&& opt_text_eq(a.function_name, b.function_name)
    &&& opt_text_eq(a.method_name, b.method_name)
    &&& opt_text_eq(a.file_name, b.file_name)
    &&& a.line_number == b.line_number
    &&& a.column_number == b.column_number
    &&& opt_text_eq(a.eval_origin, b.eval_origin)
    &&& a.is_top_level == b.is_top_level
    &&& a.is_eval == b.is_eval
    &&& a.is_native == b.is_native
    &&& a.is_constructor == b.is_constructor
    &&& a.is_async == b.is_async
    &&& a.is_promise_all == b.is_promise_all
    &&& a.promise_index == b.promise_index
}

/// Two lists of stack frames are equal, frame by frame.
pub open spec fn frames_eq(a: Seq<JsStackFrame>, b: Seq<JsStackFrame>) -> bool {
    a.len() == b.len() && forall|i: int| 0 <= i < a.len() ==> frame_eq(#[trigger] a[i], b[i])
}

/// Two errors are equal, field by field, causes and aggregated errors
/// included.
pub open spec fn js_error_eq(a: JsError, b: JsError) -> bool
    decreases a,
{
    &&& opt_text_eq(a.name, b.name)
    &&& opt_text_eq(a.message, b.message)
    &&& opt_text_eq(a.stack, b.stack)
    &&& a.exception_message@ == b.exception_message@
    &&& frames_eq(a.frames@, b.frames@)
    &&& opt_text_eq(a.source_line, b.source_line)
    &&& a.source_line_frame_index == b.source_line_frame_index
    &&& match (a.cause, b.cause) {
        (Some(x), Some(y)) => js_error_eq(*x, *y),
        (None, None) => true,
        _ => false,
    }
    &&& aggregated_eq(a, b)
}

/// The aggregated errors of two errors are equal, error by error.
pub open spec fn aggregated_eq(a: JsError, b: JsError) -> bool
    decreases a, 0int,
{
    match (a.aggregated, b.aggregated) {
        (Some(v), Some(w)) => v@.len() == w@.len() && forall|i: int|
            0 <= i < v@.len() ==> {
                proof {
                    assert(decreases_to!(a => v@[i]));
                }
                js_error_eq(#[trigger] v@[i], w@[i])
            },
        (None, None) => true,
        _ => false,
    }
}

/// The bytes of `" (in promise) "`.
pub open spec fn in_promise_bytes() -> Seq<u8> {
    seq![32u8, 40u8, 105u8, 110u8, 32u8, 112u8, 114u8, 111u8, 109u8, 105u8, 115u8, 101u8, 41u8, 32u8]
}

/// The bytes of `" "`.
pub open spec fn space_bytes() -> Seq<u8> {
    seq![32u8]
}

/// Two exception messages match: they are equal, or equal once each
/// `" (in promise) "` in them is replaced by a space.
pub open spec fn exception_messages_match(a: Seq<char>, b: Seq<char>) -> bool {
    a == b || replace_bytes(encode_utf8(a), in_promise_bytes(), space_bytes()) == replace_bytes(
        encode_utf8(b),
        in_promise_bytes(),
        space_bytes(),
    )
}

/// Two errors are the same error: all their fields match but the cause,
/// and their exception messages may differ in `" (in promise) "`.
pub open spec fn same_error(a: JsError, b: JsError) -> bool {
    &&& opt_text_eq(a.name, b.name)
    &&& opt_text_eq(a.message, b.message)
    &&& opt_text_eq(a.stack, b.stack)
    &&& exception_messages_match(a.exception_message@, b.exception_message@)
    &&& frames_eq(a.frames@, b.frames@)
    &&& opt_text_eq(a.source_line, b.source_line)
    &&& a.source_line_frame_index == b.source_line_frame_index
    &&& aggregated_eq(a, b)
}

/// Whether two optional texts are equal.
pub fn opt_text_equals(a: &Option<String>, b: &Option<String>) -> (r: bool)
    ensures
        r == opt_text_eq(*a, *b),
{
    match (a, b) {
        (Some(x), Some(y)) => str_eq(x.as_str(), y.as_str()),
        (None, None) => true,
        _ => false,
    }
}

impl JsStackFrame {
    /// Whether two stack frames are equal, field by field.
    pub fn equals(&self, other: &JsStackFrame) -> (r: bool)
        ensures
            r == frame_eq(*self, *other),
    {
        opt_text_equals(&self.typename, &other.typename) && opt_text_equals(
            &self.function_name,
            &other.function_name,
        ) && opt_text_equals(&self.method_name, &other.method_name) && opt_text_equals(
            &self.file_name,
            &other.file_name,
        ) && self.line_number == other.line_number && self.column_number == other.column_number
            && opt_text_equals(&self.eval_origin, &other.eval_origin) && self.is_top_level
            == other.is_top_level && self.is_eval == other.is_eval && self.is_native
            == other.is_native && self.is_constructor == other.is_constructor && self.is_async
            == other.is_async && self.is_promise_all == other.is_promise_all && self.promise_index
            == other.promise_index
    }
}

/// Whether two lists of stack frames are equal, frame by frame.
pub fn frames_equal(a: &Vec<JsStackFrame>, b: &Vec<JsStackFrame>) -> (r: bool)
    ensures
        r == frames_eq(a@, b@),
{
    if a.len() != b.len() {
        return false;
    }
    let mut i: usize = 0;
    while i < a.len()
        invariant
            a@.len() == b@.len(),
            i <= a@.len(),
            forall|j: int| 0 <= j < i ==> frame_eq(#[trigger] a@[j], b@[j]),
        decreases a@.len() - i,
    {
        if !a[i].equals(&b[i]) {
            return false;
        }
        i = i + 1;
    }
    true
}

/// The bytes of `" (in promise) "`.
fn in_promise() -> (r: Vec<u8>)
    ensures
        r@ == in_promise_bytes(),
{
    let r = vec![32u8, 40u8, 105u8, 110u8, 32u8, 112u8, 114u8, 111u8, 109u8, 105u8, 115u8, 101u8, 41u8, 32u8];
    assert(r@ =~= in_promise_bytes());
    r
}

impl JsError {
    /// Whether two errors are equal, field by field, causes and aggregated
    /// errors included.
    pub fn equals(&self, other: &JsError) -> (r: bool)
        ensures
            r == js_error_eq(*self, *other),
        decreases *self,
    {
        let cause_eq = match (&self.cause, &other.cause) {
            (Some(x), Some(y)) => {
                let xr: &JsError = &**x;
                xr.equals(&**y)
            },
            (None, None) => true,
            _ => false,
        };
        opt_text_equals(&self.name, &other.name) && opt_text_equals(&self.message, &other.message)
            && opt_text_equals(&self.stack, &other.stack) && str_eq(
            self.exception_message.as_str(),
            other.exception_message.as_str(),
        ) && frames_equal(&self.frames, &other.frames) && opt_text_equals(
            &self.source_line,
            &other.source_line,
        ) && self.source_line_frame_index == other.source_line_frame_index && cause_eq
            && self.aggregated_equals(other)
    }

    /// Whether the aggregated errors of two errors are equal, error by
    /// error.
    fn aggregated_equals(&self, other: &JsError) -> (r: bool)
        ensures
            r == aggregated_eq(*self, *other),
        decreases *self, 0int,
    {
        match (&self.aggregated, &other.aggregated) {
            (Some(v), Some(w)) => {
                if v.len() != w.len() {
                    return false;
                }
                let mut i: usize = 0;
                while i < v.len()
                    invariant
                        v@.len() == w@.len(),
                        i <= v@.len(),
                        self.aggregated == Some(*v),
                        other.aggregated == Some(*w),
                        forall|j: int| 0 <= j < i ==> js_error_eq(#[trigger] v@[j], w@[j]),
                    decreases v@.len() - i,
                {
                    proof {
                        let agg = self.aggregated;
                        assert(decreases_to!(*self => agg));
                        assert(decreases_to!(agg => agg->0));
                        assert(agg->0 == *v);
                        assert(decreases_to!(*v => v@));
                        assert(decreases_to!(v@ => v@[i as int]));
                        assert(decreases_to!(*self => v@[i as int]));
                    }
                    if !v[i].equals(&w[i]) {
                        return false;
                    }
                    i = i + 1;
                }
                true
            },
            (None, None) => true,
            _ => false,
        }
    }

    /// Whether `other` is the same error as this one: every field matches
    /// but the cause, which is absent where an error causes itself, and the
    /// exception messages may differ in `" (in promise) "`.
    pub fn is_same_error(&self, other: &JsError) -> (r: bool)
        ensures
            r == same_error(*self, *other),
    {
        let a = self;
        let b = other;
        let messages_match = str_eq(a.exception_message.as_str(), b.exception_message.as_str()) || {
            let pat = in_promise();
            let space: Vec<u8> = vec![32u8];
            assert(space@ =~= space_bytes());
            let ra = replace_all_bytes(a.exception_message.as_str().as_bytes(), pat.as_slice(), space.as_slice());
            let rb = replace_all_bytes(b.exception_message.as_str().as_bytes(), pat.as_slice(), space.as_slice());
            bytes_equal(ra.as_slice(), rb.as_slice())
        };
        opt_text_equals(&a.name, &b.name) && opt_text_equals(&a.message, &b.message)
            && opt_text_equals(&a.stack, &b.stack) && messages_match && frames_equal(
            &a.frames,
            &b.frames,
        ) && opt_text_equals(&a.source_line, &b.source_line) && a.source_line_frame_index
            == b.source_line_frame_index && a.aggregated_equals(b)
    }
}


/// `s` without the `Uncaught ` prefixes it starts with.
pub open spec fn without_uncaught(s: Seq<char>) -> Seq<char>
    decreases s.len(),
{
    if s.len() >= 9 && s.take(9) == "Uncaught "@ {
        without_uncaught(s.skip(9))
    } else {
        s
    }
}

/// `s` without the `Uncaught ` prefixes it starts with (see
/// [`without_uncaught`]).
fn strip_uncaught(s: &str) -> (r: &str)
    ensures
        r@ == without_uncaught(s@),
    decreases s@.len(),
{
    proof {
        reveal_strlit("Uncaught ");
    }
    let n = s.unicode_len();
    if n >= 9 {
        let head = s.substring_char(0, 9);
        if str_eq(head, "Uncaught ") {
            assert(s@.take(9) =~= head@);
            let rest = s.substring_char(9, n);
            assert(rest@ =~= s@.skip(9));
            return strip_uncaught(rest);
        }
        assert(s@.take(9) =~= head@);
    }
    s
}

/// The message of an exception that a promise rejected with, from its
/// uncaught message: `Uncaught (in promise) ` followed by the message
/// without its leading `Uncaught ` prefixes.
pub fn in_promise_message(message: &str) -> (r: String)
    ensures
        r@ == "Uncaught (in promise) "@ + without_uncaught(message@),
{
    let mut r = "Uncaught (in promise) ".to_owned();
    r.append(strip_uncaught(message));
    r
}

/// The message of an uncaught exception, from the error's name (`Error`
/// when it has none) and message (empty when it has none):
/// `Uncaught {name}: {message}`, leaving out what is empty.
pub open spec fn uncaught_message_spec(name: Option<Seq<char>>, message: Option<Seq<char>>) -> Seq<char> {
    let n = match name {
        Some(n) => n,
        None => "Error"@,
    };
    let m = match message {
        Some(m) => m,
        None => Seq::empty(),
    };
    if n.len() > 0 && m.len() > 0 {
        "Uncaught "@ + n + ": "@ + m
    } else if n.len() > 0 {
        "Uncaught "@ + n
    } else if m.len() > 0 {
        "Uncaught "@ + m
    } else {
        "Uncaught"@
    }
}

/// The message of an uncaught exception (see [`uncaught_message_spec`]).
pub fn uncaught_message(name: Option<&str>, message: Option<&str>) -> (r: String)
    ensures
        r@ == uncaught_message_spec(
            match name {
                Some(n) => Some(n@),
                None => None,
            },
            match message {
                Some(m) => Some(m@),
                None => None,
            },
        ),
{
    let n = match name {
        Some(n) => n,
        None => "Error",
    };
    let m = match message {
        Some(m) => m,
        None => "",
    };
    proof {
        reveal_strlit("");
        reveal_strlit("Error");
    }
    let has_n = !n.is_empty();
    let has_m = !m.is_empty();
    if has_n && has_m {
        let mut r = "Uncaught ".to_owned();
        r.append(n);
        r.append(": ");
        r.append(m);
        r
    } else if has_n {
        let mut r = "Uncaught ".to_owned();
        r.append(n);
        r
    } else if has_m {
        let mut r = "Uncaught ".to_owned();
        r.append(m);
        r
    } else {
        "Uncaught".to_owned()
    }
}

/// `b` without its leading `[` bytes.
pub open spec fn trim_open_brackets(b: Seq<u8>) -> Seq<u8>
    decreases b.len(),
{
    if b.len() > 0 && b[0] == 91u8 {
        trim_open_brackets(b.skip(1))
    } else {
        b
    }
}

/// The bytes of `"ext:"`.
pub open spec fn ext_scheme_bytes() -> Seq<u8> {
    seq![101u8, 120u8, 116u8, 58u8]
}

/// Whether a frame shows a place in user code whose source line can be
/// shown: it has a file name and a line number, and the file name, without
/// leading `[`, does not start with `ext:`.
pub open spec fn is_source_frame(f: JsStackFrame) -> bool {
    match (f.file_name, f.line_number) {
        (Some(file), Some(_)) => !crate::text::is_prefix(
            ext_scheme_bytes(),
            trim_open_brackets(encode_utf8(file@)),
        ),
        _ => false,
    }
}

/// The first frame whose source line is shown with the error.
pub fn first_source_frame(frames: &Vec<JsStackFrame>) -> (r: Option<usize>)
    ensures
        match r {
            Some(i) => i < frames@.len() && is_source_frame(frames@[i as int]) && forall|j: int|
                0 <= j < i ==> !is_source_frame(#[trigger] frames@[j]),
            None => forall|j: int| 0 <= j < frames@.len() ==> !is_source_frame(#[trigger] frames@[j]),
        },
{
    let ext = vec![101u8, 120u8, 116u8, 58u8];
    assert(ext@ =~= ext_scheme_bytes());
    let mut i: usize = 0;
    while i < frames.len()
        invariant
            ext@ == ext_scheme_bytes(),
            i <= frames@.len(),
            forall|j: int| 0 <= j < i ==> !is_source_frame(#[trigger] frames@[j]),
        decreases frames@.len() - i,
    {
        let f = &frames[i];
        if let (Some(file), Some(_)) = (&f.file_name, f.line_number) {
            let b = file.as_str().as_bytes();
            let mut k: usize = 0;
            assert(b@.skip(0) =~= b@);
            while k < b.len() && b[k] == 91u8
                invariant
                    k <= b@.len(),
                    trim_open_brackets(b@) == trim_open_brackets(b@.skip(k as int)),
                decreases b@.len() - k,
            {
                assert(b@.skip(k as int).skip(1) =~= b@.skip(k + 1));
                k = k + 1;
            }
            let (_open, rest) = b.split_at(k);
            assert(rest@ =~= b@.skip(k as int));
            proof {
                if k < b@.len() {
                    assert(b@.skip(k as int)[0] == b@[k as int]);
                }
            }
            if !crate::text::bytes_starts_with(rest, ext.as_slice()) {
                return Some(i);
            }
        }
        i = i + 1;
    }
    None
}

/// Whether text spans more than one line: a newline is followed by more
/// text.
pub open spec fn has_several_lines(s: Seq<char>) -> bool {
    exists|i: int| 0 <= i < s.len() - 1 && s[i] == '\n'
}

/// How an exception from JavaScript is shown: its stack where that spans
/// several lines, else its exception message followed by the location of its
/// first frame, where that frame has one.
pub open spec fn js_error_display(e: JsError) -> Seq<char> {
    if e.stack matches Some(st) && has_several_lines(st@) {
        e.stack->0@
    } else {
        e.exception_message@ + if e.frames@.len() > 0 {
            match (e.frames@[0].file_name, e.frames@[0].line_number, e.frames@[0].column_number) {
                (Some(f), Some(l), Some(c)) => "\n    at "@ + f@ + ":"@ + int_decimal(l as int) + ":"@
                    + int_decimal(c as int),
                _ => Seq::empty(),
            }
        } else {
            Seq::empty()
        }
    }
}

/// Whether `s` spans more than one line (see [`has_several_lines`]).
fn several_lines(s: &str) -> (r: bool)
    ensures
        r == has_several_lines(s@),
{
    let n = s.unicode_len();
    if n < 2 {
        return false;
    }
    let mut i: usize = 0;
    while i < n - 1
        invariant
            n == s@.len(),
            n >= 2,
            i <= n - 1,
            forall|j: int| 0 <= j < i ==> s@[j] != '\n',
        decreases n - 1 - i,
    {
        if s.get_char(i) == '\n' {
            return true;
        }
        i = i + 1;
    }
    false
}

impl JsError {
    /// The error as it is shown (see [`js_error_display`]).
    pub fn to_display_string(&self) -> (r: String)
        ensures
            r@ == js_error_display(*self),
    {
        if let Some(stack) = &self.stack {
            if several_lines(stack.as_str()) {
                return stack.clone();
            }
        }
        let mut r = self.exception_message.clone();
        if self.frames.len() > 0 {
            if let Some(location) = self.frames[0].maybe_format_location() {
                r.append("\n    at ");
                r.append(location.as_str());
            }
        }
        r
    }
}

/// The first line of a stack trace: `name: message`, leaving out what is
/// empty, from the error's name (`Error` when it has none) and message
/// (empty when it has none).
pub open spec fn stack_header(name: Option<Seq<char>>, message: Option<Seq<char>>) -> Seq<char> {
    let n = match name {
        Some(n) => n,
        None => "Error"@,
    };
    let m = match message {
        Some(m) => m,
        None => Seq::empty(),
    };
    if m.len() > 0 && n.len() > 0 {
        n + ": "@ + m
    } else if m.len() > 0 {
        m
    } else {
        n
    }
}

/// The lines `    at {frame}` of the first `k` frames.
pub open spec fn stack_lines(frames: Seq<JsStackFrame>, k: nat) -> Seq<char>
    decreases k,
{
    if k == 0 || k > frames.len() {
        Seq::empty()
    } else {
        stack_lines(frames, (k - 1) as nat) + "\n    at "@ + format_frame_spec::<NoAnsiColors>(
            &frames[k - 1],
        )
    }
}

/// A frame can be formatted.
pub open spec fn frame_can_format(f: JsStackFrame) -> bool {
    !f.is_promise_all ==> frame_formattable(&f)
}

/// The stack trace of an error: its header line, then one line per frame.
pub fn format_stack_trace(
    name: Option<&str>,
    message: Option<&str>,
    frames: &Vec<JsStackFrame>,
) -> (r: String)
    requires
        forall|i: int| 0 <= i < frames@.len() ==> frame_can_format(#[trigger] frames@[i]),
    ensures
        r@ == stack_header(
            match name {
                Some(n) => Some(n@),
                None => None,
            },
            match message {
                Some(m) => Some(m@),
                None => None,
            },
        ) + stack_lines(frames@, frames@.len()),
{
    let n = match name {
        Some(n) => n,
        None => "Error",
    };
    let m = match message {
        Some(m) => m,
        None => "",
    };
    proof {
        reveal_strlit("");
        reveal_strlit("Error");
    }
    let mut result = String::new();
    if !m.is_empty() && !n.is_empty() {
        result.append(n);
        result.append(": ");
        result.append(m);
    } else if !m.is_empty() {
        result.append(m);
    } else {
        result.append(n);
    }
    let ghost header = result@;
    let mut i: usize = 0;
    while i < frames.len()
        invariant
            i <= frames@.len(),
            forall|j: int| 0 <= j < frames@.len() ==> frame_can_format(#[trigger] frames@[j]),
            result@ == header + stack_lines(frames@, i as nat),
        decreases frames@.len() - i,
    {
        assert(frame_can_format(frames@[i as int]));
        let line = format_frame::<NoAnsiColors>(&frames[i]);
        result.append("\n    at ");
        result.append(line.as_str());
        i = i + 1;
    }
    result
}

/// Whether two byte slices are equal.
fn bytes_equal(a: &[u8], b: &[u8]) -> (r: bool)
    ensures
        r == (a@ == b@),
{
    if a.len() != b.len() {
        return false;
    }
    let mut i: usize = 0;
    while i < a.len()
        invariant
            a@.len() == b@.len(),
            i <= a@.len(),
            forall|j: int| 0 <= j < i ==> a@[j] == b@[j],
        decreases a@.len() - i,
    {
        if a[i] != b[i] {
            return false;
        }
        i = i + 1;
    }
    assert(a@ =~= b@);
    true
}

} // verus!
