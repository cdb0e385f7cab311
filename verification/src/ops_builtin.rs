//! The logic of the built-in ops: arithmetic and no-op ops, the tick flag,
//! source-mapped locations written back to JavaScript, and where a module
//! load was asked for.
use vstd::prelude::*;
use crate::error::{format_file_name, format_file_name_spec, JsNativeError};
use crate::module_specifier::{parsed_url, ModuleSpecifier};

verus! {

/// `a + b`, for operands whose sum is an `i32`.
pub fn op_add(a: i32, b: i32) -> (r: i32)
    requires
        i32::MIN <= a + b <= i32::MAX,
    ensures
        r == a + b,
{
    a + b
}

/// An op that does nothing, for measuring the cost of a call.
pub fn op_void_sync() {
}

/// How `file_name` is shown in a stack trace.
pub fn op_format_file_name(file_name: &str) -> (r: String)
    ensures
        r@ == format_file_name_spec(file_name@),
{
    format_file_name(file_name)
}

/// How much memory the isolate uses, as the heap statistics report it.
#[derive(Clone, Copy, Debug, PartialEq, Eq, Structural)]
pub struct MemoryUsage {
    pub physical_total: usize,
    pub heap_total: usize,
    pub heap_used: usize,
    pub external: usize,
}

/// A place in a source file.
#[derive(Debug)]
pub struct Location {
    pub file_name: String,
    pub line_number: u32,
    pub column_number: u32,
}

/// What applying source maps to a location gave.
#[derive(Debug)]
pub enum SourceMapApplication {
    /// No source map applies: the location stays as it is.
    Unchanged,
    /// The line and column change, the file does not.
    LineAndColumn { line_number: u32, column_number: u32 },
    /// The line, column and file all change.
    LineAndColumnAndFileName { file_name: String, line_number: u32, column_number: u32 },
}

/// Where the file name of the last fully mapped location waits to be
/// fetched.
#[derive(Debug)]
pub struct SourceMapCache {
    pub stashed_file_name: Option<String>,
}

/// The part of the runtime's state that the built-in ops read and change.
#[derive(Debug)]
pub struct JsRuntimeState {
    /// Whether JavaScript has a tick scheduled.
    pub has_tick_scheduled: bool,
    /// Whether the runtime has a way to get source maps.
    pub has_source_map_getter: bool,
    pub source_map_cache: SourceMapCache,
}

/// The location after source maps were applied: `application`, what the
/// source mapper made of the location, replaces the line and column, and
/// the file where it names one.
pub fn apply_source_map(
    file_name: String,
    line_number: i64,
    column_number: i64,
    application: SourceMapApplication,
) -> (r: (String, i64, i64))
    ensures
        match application {
            SourceMapApplication::Unchanged => r == (file_name, line_number, column_number),
            SourceMapApplication::LineAndColumn { line_number: l, column_number: c } => r == (
                file_name,
                l as i64,
                c as i64,
            ),
            SourceMapApplication::LineAndColumnAndFileName {
                file_name: f,
                line_number: l,
                column_number: c,
            } => r == (f, l as i64, c as i64),
        },
{
    match application {
        SourceMapApplication::Unchanged => (file_name, line_number, column_number),
        SourceMapApplication::LineAndColumn { line_number, column_number } => (
            file_name,
            line_number as i64,
            column_number as i64,
        ),
        SourceMapApplication::LineAndColumnAndFileName { file_name, line_number, column_number } => (
            file_name,
            line_number as i64,
            column_number as i64,
        ),
    }
}

/// Whether a tick is scheduled.
pub fn op_has_tick_scheduled(state: &JsRuntimeState) -> (r: bool)
    ensures
        r == state.has_tick_scheduled,
{
    state.has_tick_scheduled
}

/// Records whether a tick is scheduled.
pub fn op_set_has_tick_scheduled(state: &mut JsRuntimeState, v: bool)
    ensures
        final(state).has_tick_scheduled == v,
        final(state).has_source_map_getter == old(state).has_source_map_getter,
        final(state).source_map_cache == old(state).source_map_cache,
{
    state.has_tick_scheduled = v;
}

/// The four little-endian bytes of `v`.
pub open spec fn le_bytes(v: u32) -> Seq<u8> {
    seq![
        (v % 256) as u8,
        ((v / 256) % 256) as u8,
        ((v / 65536) % 256) as u8,
        ((v / 16777216) % 256) as u8,
    ]
}

/// Writes the line and column into the first eight bytes of `ret_buf`,
/// each as four little-endian bytes.
pub fn write_line_and_col_to_ret_buf(ret_buf: &mut [u8], line_number: u32, column_number: u32)
    requires
        old(ret_buf)@.len() >= 8,
    ensures
        final(ret_buf)@.len() == old(ret_buf)@.len(),
        final(ret_buf)@.take(4) == le_bytes(line_number),
        final(ret_buf)@.subrange(4, 8) == le_bytes(column_number),
        final(ret_buf)@.skip(8) == old(ret_buf)@.skip(8),
{
    ret_buf[0] = (line_number % 256) as u8;
    ret_buf[1] = ((line_number / 256) % 256) as u8;
    ret_buf[2] = ((line_number / 65536) % 256) as u8;
    ret_buf[3] = ((line_number / 16777216) % 256) as u8;
    ret_buf[4] = (column_number % 256) as u8;
    ret_buf[5] = ((column_number / 256) % 256) as u8;
    ret_buf[6] = ((column_number / 65536) % 256) as u8;
    ret_buf[7] = ((column_number / 16777216) % 256) as u8;
    assert(ret_buf@.take(4) =~= le_bytes(line_number));
    assert(ret_buf@.subrange(4, 8) =~= le_bytes(column_number));
    assert(ret_buf@.skip(8) =~= old(ret_buf)@.skip(8));
}

/// Hands JavaScript the result of applying source maps to a location, given
/// as `application` (`None` where the runtime has no source map getter).
/// Returns 0 when the location stays as it is; 1 when a new line and column
/// are in `ret_buf`; 2 when the file changes too, its name stashed for
/// [`op_apply_source_map_filename`]. `ret_buf` must be 8 bytes long.
pub fn op_apply_source_map(
    state: &mut JsRuntimeState,
    application: Option<SourceMapApplication>,
    ret_buf: &mut [u8],
) -> (r: Result<u8, JsNativeError>)
    ensures
        final(state).has_tick_scheduled == old(state).has_tick_scheduled,
        final(state).has_source_map_getter == old(state).has_source_map_getter,
        final(ret_buf)@.len() == old(ret_buf)@.len(),
        ({
            let buf0 = old(ret_buf)@;
            let buf1 = final(ret_buf)@;
            let cache0 = old(state).source_map_cache;
            let cache1 = final(state).source_map_cache;
            if buf0.len() != 8 {
                &&& r matches Err(e) && e.spec_class()@ == "TypeError"@ && e.spec_message()
                    == "retBuf must be 8 bytes"@
                &&& buf1 == buf0
                &&& cache1 == cache0
            } else {
                match application {
                    None | Some(SourceMapApplication::Unchanged) => r == Ok::<u8, JsNativeError>(0)
                        && buf1 == buf0 && cache1 == cache0,
                    Some(SourceMapApplication::LineAndColumn { line_number, column_number }) => r
                        == Ok::<u8, JsNativeError>(1) && buf1 == le_bytes(line_number) + le_bytes(
                        column_number,
                    ) && cache1 == cache0,
                    Some(
                        SourceMapApplication::LineAndColumnAndFileName {
                            file_name,
                            line_number,
                            column_number,
                        },
                    ) => r == Ok::<u8, JsNativeError>(2) && buf1 == le_bytes(line_number) + le_bytes(
                        column_number,
                    ) && cache1.stashed_file_name == Some(file_name),
                }
            }
        }),
{
    if ret_buf.len() != 8 {
        return Err(JsNativeError::type_error("retBuf must be 8 bytes"));
    }
    match application {
        None => Ok(0),
        Some(SourceMapApplication::Unchanged) => Ok(0),
        Some(SourceMapApplication::LineAndColumn { line_number, column_number }) => {
            write_line_and_col_to_ret_buf(ret_buf, line_number, column_number);
            assert(ret_buf@ =~= ret_buf@.take(4) + ret_buf@.subrange(4, 8));
            Ok(1)
        },
        Some(
            SourceMapApplication::LineAndColumnAndFileName { file_name, line_number, column_number },
        ) => {
            write_line_and_col_to_ret_buf(ret_buf, line_number, column_number);
            assert(ret_buf@ =~= ret_buf@.take(4) + ret_buf@.subrange(4, 8));
            state.source_map_cache.stashed_file_name = Some(file_name);
            Ok(2)
        },
    }
}

/// Takes the file name stashed by the last [`op_apply_source_map`] that
/// returned 2; a `TypeError` when there is none.
pub fn op_apply_source_map_filename(state: &mut JsRuntimeState) -> (r: Result<String, JsNativeError>)
    ensures
        final(state).has_tick_scheduled == old(state).has_tick_scheduled,
        final(state).has_source_map_getter == old(state).has_source_map_getter,
        final(state).source_map_cache.stashed_file_name is None,
        match old(state).source_map_cache.stashed_file_name {
            Some(f) => r == Ok::<String, JsNativeError>(f),
            None => r matches Err(e) && e.spec_class()@ == "TypeError"@ && e.spec_message()
                == "No stashed file name"@,
        },
{
    match state.source_map_cache.stashed_file_name.take() {
        Some(f) => Ok(f),
        None => Err(JsNativeError::type_error("No stashed file name")),
    }
}

/// The bytes of the UTF-8 byte order mark.
pub open spec fn bom_bytes() -> Seq<u8> {
    seq![0xefu8, 0xbbu8, 0xbfu8]
}

/// Strips the byte order mark from the start of `source_code`, if it is
/// there.
pub fn strip_bom(source_code: &[u8]) -> (r: &[u8])
    ensures
        r@ == if source_code@.len() >= 3 && source_code@.take(3) == bom_bytes() {
            source_code@.skip(3)
        } else {
            source_code@
        },
{
    if source_code.len() >= 3 && source_code[0] == 0xef && source_code[1] == 0xbb
        && source_code[2] == 0xbf {
        assert(source_code@.take(3) =~= bom_bytes());
        let (_bom, rest) = source_code.split_at(3);
        rest
    } else {
        proof {
            if source_code@.len() >= 3 && source_code@.take(3) == bom_bytes() {
                assert(source_code@.take(3)[0] == 0xef);
                assert(source_code@.take(3)[1] == 0xbb);
                assert(source_code@.take(3)[2] == 0xbf);
            }
        }
        source_code
    }
}

/// How many of the bytes `b` are newlines.
pub open spec fn count_newlines(b: Seq<u8>) -> nat
    decreases b.len(),
{
    if b.len() == 0 {
        0
    } else {
        count_newlines(b.drop_last()) + if b.last() == 10u8 {
            1nat
        } else {
            0nat
        }
    }
}

/// The last newline among the bytes `b`.
pub open spec fn last_newline(b: Seq<u8>) -> Option<int>
    decreases b.len(),
{
    if b.len() == 0 {
        None
    } else if b.last() == 10u8 {
        Some(b.len() - 1)
    } else {
        last_newline(b.drop_last())
    }
}

/// The 1-based line and column of the byte at `offset` in `code`, or `None`
/// where the offset is negative or past the end.
pub open spec fn line_and_column(code: Seq<u8>, offset: int) -> Option<(int, int)> {
    if offset < 0 || offset > code.len() {
        None
    } else {
        let before = code.take(offset);
        match last_newline(before) {
            Some(i) => Some((count_newlines(before) + 1int, offset - i)),
            None => Some((1, offset + 1)),
        }
    }
}

proof fn lemma_counts_bounded(b: Seq<u8>)
    ensures
        count_newlines(b) <= b.len(),
        last_newline(b) matches Some(i) ==> 0 <= i < b.len(),
    decreases b.len(),
{
    if b.len() > 0 {
        lemma_counts_bounded(b.drop_last());
    }
}

/// The 1-based line and column of the byte at `source_offset` in `code`
/// (see [`line_and_column`]).
pub fn module_load_line_and_column(code: &[u8], source_offset: i32) -> (r: Option<(u32, u32)>)
    ensures
        match line_and_column(code@, source_offset as int) {
            Some((l, c)) => r == Some((l as u32, c as u32)),
            None => r is None,
        },
{
    if source_offset < 0 || source_offset as usize > code.len() {
        return None;
    }
    let off = source_offset as usize;
    let mut count: u32 = 0;
    let mut last: Option<usize> = None;
    let mut i: usize = 0;
    while i < off
        invariant
            off <= code@.len(),
            off <= i32::MAX,
            i <= off,
            count == count_newlines(code@.take(i as int)),
            last == match last_newline(code@.take(i as int)) {
                Some(j) => Some(j as usize),
                None => None::<usize>,
            },
        decreases off - i,
    {
        proof {
            assert(code@.take(i + 1).drop_last() =~= code@.take(i as int));
            lemma_counts_bounded(code@.take(i as int));
        }
        if code[i] == 10 {
            count = count + 1;
            last = Some(i);
        }
        i = i + 1;
    }
    proof {
        lemma_counts_bounded(code@.take(off as int));
    }
    match last {
        Some(j) => Some((count + 1, (off - j) as u32)),
        None => Some((1, (off + 1) as u32)),
    }
}

/// Where a module load was asked for: the referrer and a 1-based line and
/// column in it.
#[derive(Debug)]
pub struct ModuleLoadReferrer {
    pub specifier: ModuleSpecifier,
    pub line_number: i64,
    pub column_number: i64,
}

/// The referrer after source maps were applied to its location: the same
/// specifier with a new line and column, or a new file where the URL parser
/// accepts its name; `None` where it does not.
pub open spec fn mapped_referrer(
    referrer: Seq<char>,
    line: u32,
    column: u32,
    application: SourceMapApplication,
) -> Option<(Seq<char>, i64, i64)> {
    match application {
        SourceMapApplication::Unchanged => Some((referrer, line as i64, column as i64)),
        SourceMapApplication::LineAndColumn { line_number, column_number } => Some(
            (referrer, line_number as i64, column_number as i64),
        ),
        SourceMapApplication::LineAndColumnAndFileName { file_name, line_number, column_number } => {
            match parsed_url(file_name@) {
                Some((ser, _scheme, _path)) => Some((ser, line_number as i64, column_number as i64)),
                None => None,
            }
        },
    }
}

/// Where a module load was asked for: the line and column of
/// `source_offset` in the referrer's `code`, passed through `apply`, the
/// source mapper, which is given the referrer's URL and that location.
/// `None` where the offset lies outside the code or the mapped file name is
/// no URL.
pub fn source_mapped_module_load_referrer<F: Fn(&str, u32, u32) -> SourceMapApplication>(
    apply: F,
    referrer: &ModuleSpecifier,
    code: &[u8],
    source_offset: i32,
) -> (r: Option<ModuleLoadReferrer>)
    requires
        forall|s: &str, l: u32, c: u32| apply.requires((s, l, c)),
    ensures
        match line_and_column(code@, source_offset as int) {
            None => r is None,
            Some((l, c)) => exists|url: &str, app: SourceMapApplication|
                #![trigger apply.ensures((url, l as u32, c as u32), app)]
                url@ == referrer@ && apply.ensures((url, l as u32, c as u32), app) && match mapped_referrer(
                    referrer@,
                    l as u32,
                    c as u32,
                    app,
                ) {
                    Some((s, ln, cn)) => r matches Some(m) && m.specifier@ == s && m.line_number
                        == ln && m.column_number == cn,
                    None => r is None,
                },
        },
{
    let (line_number, column_number) = match module_load_line_and_column(code, source_offset) {
        Some(lc) => lc,
        None => return None,
    };
    let app = apply(referrer.as_str(), line_number, column_number);
    referrer_after_source_map(referrer, line_number, column_number, app)
}

/// The referrer after source maps were applied to its location (see
/// [`mapped_referrer`]).
pub fn referrer_after_source_map(
    referrer: &ModuleSpecifier,
    line: u32,
    column: u32,
    application: SourceMapApplication,
) -> (r: Option<ModuleLoadReferrer>)
    ensures
        match mapped_referrer(referrer@, line, column, application) {
            Some((s, ln, cn)) => r matches Some(m) && m.specifier@ == s && m.line_number == ln
                && m.column_number == cn,
            None => r is None,
        },
{
    match application {
        SourceMapApplication::Unchanged => Some(
            ModuleLoadReferrer {
                specifier: referrer.duplicate(),
                line_number: line as i64,
                column_number: column as i64,
            },
        ),
        SourceMapApplication::LineAndColumn { line_number, column_number } => Some(
            ModuleLoadReferrer {
                specifier: referrer.duplicate(),
                line_number: line_number as i64,
                column_number: column_number as i64,
            },
        ),
        SourceMapApplication::LineAndColumnAndFileName { file_name, line_number, column_number } => {
            match ModuleSpecifier::parse(file_name.as_str()) {
                Some(specifier) => Some(
                    ModuleLoadReferrer {
                        specifier,
                        line_number: line_number as i64,
                        column_number: column_number as i64,
                    },
                ),
                None => None,
            }
        },
    }
}

} // verus!
