//! Byte-level text utilities with exact specifications: searching, slicing
//! `str` values on character boundaries, and decimal integer conversion.
use vstd::prelude::*;
use vstd::utf8::*;
use vstd::string::*;

verus! {

broadcast use vstd::utf8::encode_utf8_valid_utf8;

/// True when `b` holds an ASCII byte at position `i`.
pub open spec fn is_ascii_at(b: Seq<u8>, i: int) -> bool {
    0 <= i < b.len() && b[i] < 128
}

/// An ASCII byte of valid UTF-8 starts a character.
pub proof fn lemma_ascii_is_boundary(b: Seq<u8>, i: int)
    requires
        valid_utf8(b),
        is_ascii_at(b, i),
    ensures
        is_char_boundary(b, i),
{
    is_char_boundary_iff_not_is_continuation_byte(b, i);
}

/// The position right after an ASCII byte of valid UTF-8 starts a character
/// (or is the end of the bytes).
pub proof fn lemma_after_ascii_is_boundary(b: Seq<u8>, i: int)
    requires
        valid_utf8(b),
        is_ascii_at(b, i),
    ensures
        is_char_boundary(b, i + 1),
    decreases b.len(),
{
    if i < length_of_first_scalar(b) {
        is_char_boundary_iff_not_is_continuation_byte(b, i);
        reveal_with_fuel(is_char_boundary, 2);
        if i > 0 {
            // the bytes of the first scalar after its first are continuation bytes
            assert(is_continuation_byte(b[i]));
        }
        assert(i == 0);
        assert(length_of_first_scalar(b) == 1);
        assert(is_char_boundary(pop_first_scalar(b), 0));
    } else {
        let rest = pop_first_scalar(b);
        let k = length_of_first_scalar(b);
        assert(rest[i - k] == b[i]);
        lemma_after_ascii_is_boundary(rest, i - k);
        reveal_with_fuel(is_char_boundary, 2);
    }
}


/// Within valid UTF-8, a character boundary `j` at or after the boundary `i`
/// is a boundary of the bytes from `i` on.
pub proof fn lemma_boundary_of_suffix(b: Seq<u8>, i: int, j: int)
    requires
        valid_utf8(b),
        is_char_boundary(b, i),
        is_char_boundary(b, j),
        i <= j,
    ensures
        valid_utf8(b.subrange(i, b.len() as int)),
        is_char_boundary(b.subrange(i, b.len() as int), j - i),
    decreases b.len(),
{
    valid_utf8_split(b, i);
    if i == 0 {
        assert(b.subrange(0, b.len() as int) =~= b);
    } else {
        let k = length_of_first_scalar(b);
        let rest = pop_first_scalar(b);
        reveal_with_fuel(is_char_boundary, 2);
        assert(is_char_boundary(rest, i - k));
        assert(is_char_boundary(rest, j - k));
        lemma_boundary_of_suffix(rest, i - k, j - k);
        assert(rest.subrange(i - k, rest.len() as int) =~= b.subrange(i, b.len() as int));
    }
}

/// `s[start..end]`, for positions that are character boundaries.
pub fn str_slice(s: &str, start: usize, end: usize) -> (r: &str)
    requires
        start <= end <= s.spec_bytes().len(),
        is_char_boundary(s.spec_bytes(), start as int),
        is_char_boundary(s.spec_bytes(), end as int),
    ensures
        r.spec_bytes() == s.spec_bytes().subrange(start as int, end as int),
{
    let ghost b = s.spec_bytes();
    let (_head, tail) = s.split_at(start);
    proof {
        lemma_boundary_of_suffix(b, start as int, end as int);
    }
    let (mid, _rest) = tail.split_at(end - start);
    proof {
        assert(mid.spec_bytes() =~= b.subrange(start as int, end as int));
    }
    mid
}

/// `s[start..]`, for a position that is a character boundary.
pub fn str_slice_from(s: &str, start: usize) -> (r: &str)
    requires
        start <= s.spec_bytes().len(),
        is_char_boundary(s.spec_bytes(), start as int),
    ensures
        r.spec_bytes() == s.spec_bytes().subrange(start as int, s.spec_bytes().len() as int),
{
    let (_head, tail) = s.split_at(start);
    tail
}

/// `s[..end]`, for a position that is a character boundary.
pub fn str_slice_to(s: &str, end: usize) -> (r: &str)
    requires
        end <= s.spec_bytes().len(),
        is_char_boundary(s.spec_bytes(), end as int),
    ensures
        r.spec_bytes() == s.spec_bytes().subrange(0, end as int),
{
    let (head, _tail) = s.split_at(end);
    head
}

/// `b[start..end]`.
pub fn slice_range(b: &[u8], start: usize, end: usize) -> (r: &[u8])
    requires
        start <= end <= b@.len(),
    ensures
        r@ == b@.subrange(start as int, end as int),
{
    let (_head, tail) = b.split_at(start);
    let (mid, _rest) = tail.split_at(end - start);
    assert(mid@ =~= b@.subrange(start as int, end as int));
    mid
}

/// The first position at or after `from` that holds the byte `c`.
pub open spec fn find_byte_from(b: Seq<u8>, c: u8, from: int) -> Option<int>
    decreases b.len() - from,
{
    if from < 0 || from >= b.len() {
        None
    } else if b[from] == c {
        Some(from)
    } else {
        find_byte_from(b, c, from + 1)
    }
}

/// The last position in `[lo, hi)` that holds the byte `c`.
pub open spec fn rfind_byte_in(b: Seq<u8>, c: u8, lo: int, hi: int) -> Option<int>
    decreases hi - lo,
{
    if hi <= lo {
        None
    } else if b[hi - 1] == c {
        Some(hi - 1)
    } else {
        rfind_byte_in(b, c, lo, hi - 1)
    }
}

/// A found byte is where it was looked for.
pub proof fn lemma_find_byte_from(b: Seq<u8>, c: u8, from: int)
    ensures
        find_byte_from(b, c, from) matches Some(i) ==> from <= i < b.len() && b[i] == c,
    decreases b.len() - from,
{
    if 0 <= from < b.len() && b[from] != c {
        lemma_find_byte_from(b, c, from + 1);
    }
}

/// A byte found backwards is where it was looked for.
pub proof fn lemma_rfind_byte_in(b: Seq<u8>, c: u8, lo: int, hi: int)
    ensures
        rfind_byte_in(b, c, lo, hi) matches Some(i) ==> lo <= i < hi && b[i] == c,
    decreases hi - lo,
{
    if lo < hi && b[hi - 1] != c {
        lemma_rfind_byte_in(b, c, lo, hi - 1);
    }
}

/// True when `pat` occurs in `b` at position `i`.
pub open spec fn occurs_at(b: Seq<u8>, pat: Seq<u8>, i: int) -> bool {
    0 <= i && i + pat.len() <= b.len() && b.subrange(i, i + pat.len()) == pat
}

/// The last position below `k` at which `pat` occurs in `b`.
pub open spec fn rfind_seq_below(b: Seq<u8>, pat: Seq<u8>, k: int) -> Option<int>
    decreases k,
{
    if k <= 0 {
        None
    } else if occurs_at(b, pat, k - 1) {
        Some(k - 1)
    } else {
        rfind_seq_below(b, pat, k - 1)
    }
}

/// A sequence found backwards occurs where it was found.
pub proof fn lemma_rfind_seq_below(b: Seq<u8>, pat: Seq<u8>, k: int)
    ensures
        rfind_seq_below(b, pat, k) matches Some(i) ==> 0 <= i < k && occurs_at(b, pat, i),
    decreases k,
{
    if k > 0 && !occurs_at(b, pat, k - 1) {
        lemma_rfind_seq_below(b, pat, k - 1);
    }
}

/// The last position at which `pat` occurs in `b`.
pub open spec fn rfind_seq(b: Seq<u8>, pat: Seq<u8>) -> Option<int> {
    rfind_seq_below(b, pat, b.len() - pat.len() + 1)
}

/// Searches `b` for the byte `c` from position `from` on.
pub fn find_byte(b: &[u8], c: u8, from: usize) -> (r: Option<usize>)
    ensures
        r matches Some(i) ==> find_byte_from(b@, c, from as int) == Some(i as int),
        r is None ==> find_byte_from(b@, c, from as int) is None,
{
    let mut i = from;
    while i < b.len()
        invariant
            from <= i,
            find_byte_from(b@, c, from as int) == find_byte_from(b@, c, i as int),
        decreases b.len() - i,
    {
        if b[i] == c {
            return Some(i);
        }
        i = i + 1;
    }
    None
}

/// Searches `b[lo..hi]` backwards for the byte `c`.
pub fn rfind_byte(b: &[u8], c: u8, lo: usize, hi: usize) -> (r: Option<usize>)
    requires
        hi <= b@.len(),
    ensures
        r matches Some(i) ==> rfind_byte_in(b@, c, lo as int, hi as int) == Some(i as int),
        r is None ==> rfind_byte_in(b@, c, lo as int, hi as int) is None,
{
    let mut k = hi;
    while k > lo
        invariant
            k <= hi <= b@.len(),
            rfind_byte_in(b@, c, lo as int, hi as int) == rfind_byte_in(b@, c, lo as int, k as int),
        decreases k,
    {
        if b[k - 1] == c {
            return Some(k - 1);
        }
        k = k - 1;
    }
    None
}

/// Whether `pat` occurs in `b` at position `i`.
pub fn bytes_occur_at(b: &[u8], pat: &[u8], i: usize) -> (r: bool)
    ensures
        r == occurs_at(b@, pat@, i as int),
{
    if i > b.len() || pat.len() > b.len() - i {
        return false;
    }
    let end = i + pat.len();
    let mut j: usize = 0;
    while j < pat.len()
        invariant
            end == i + pat@.len(),
            end <= b@.len(),
            j <= pat@.len(),
            forall|t: int| 0 <= t < j ==> b@[i + t] == pat@[t],
        decreases pat.len() - j,
    {
        if b[i + j] != pat[j] {
            assert(b@.subrange(i as int, i + pat@.len())[j as int] != pat@[j as int]);
            return false;
        }
        j = j + 1;
    }
    assert(b@.subrange(i as int, i + pat@.len()) =~= pat@);
    true
}

/// Searches `b` backwards for the byte sequence `pat`.
pub fn rfind_bytes(b: &[u8], pat: &[u8]) -> (r: Option<usize>)
    ensures
        r matches Some(i) ==> rfind_seq(b@, pat@) == Some(i as int),
        r is None ==> rfind_seq(b@, pat@) is None,
{
    if pat.len() > b.len() {
        return None;
    }
    let mut k = b.len() - pat.len();
    loop
        invariant
            k <= b@.len() - pat@.len(),
            rfind_seq(b@, pat@) == rfind_seq_below(b@, pat@, k + 1),
        decreases k,
    {
        if bytes_occur_at(b, pat, k) {
            return Some(k);
        }
        if k == 0 {
            assert(rfind_seq_below(b@, pat@, 0) is None);
            return None;
        }
        k = k - 1;
    }
}


/// True when `c` is an ASCII decimal digit.
pub open spec fn is_digit(c: u8) -> bool {
    48 <= c <= 57
}

/// True when every byte of `d` is an ASCII decimal digit.
pub open spec fn all_digits(d: Seq<u8>) -> bool {
    forall|i: int| 0 <= i < d.len() ==> is_digit(#[trigger] d[i])
}

/// The number that the decimal digits `d` spell.
pub open spec fn digits_value(d: Seq<u8>) -> int
    decreases d.len(),
{
    if d.len() == 0 {
        0
    } else {
        digits_value(d.drop_last()) * 10 + (d.last() - 48)
    }
}

/// The `i64` that `s` spells in the syntax that Rust's `str::parse::<i64>`
/// accepts: an optional `+` or `-`, then one or more decimal digits, with the
/// value in range; `None` otherwise.
pub open spec fn parse_i64_spec(s: Seq<u8>) -> Option<i64> {
    let neg = s.len() > 0 && s[0] == 45;
    let signed = s.len() > 0 && (s[0] == 45 || s[0] == 43);
    let d = if signed {
        s.drop_first()
    } else {
        s
    };
    let v = if neg {
        -digits_value(d)
    } else {
        digits_value(d)
    };
    if d.len() == 0 || !all_digits(d) {
        None
    } else if i64::MIN <= v <= i64::MAX {
        Some(v as i64)
    } else {
        None
    }
}

/// Adding digits never makes a number smaller.
pub proof fn lemma_digits_value_monotone(d: Seq<u8>, j: int, k: int)
    requires
        all_digits(d),
        0 <= j <= k <= d.len(),
    ensures
        0 <= digits_value(d.subrange(0, j)) <= digits_value(d.subrange(0, k)),
    decreases k - j,
{
    if j < k {
        lemma_digits_value_monotone(d, j, k - 1);
        assert(d.subrange(0, k).drop_last() =~= d.subrange(0, k - 1));
        assert(is_digit(d[k - 1]));
    } else {
        lemma_digits_value_nonneg(d, k);
    }
}

proof fn lemma_digits_value_nonneg(d: Seq<u8>, k: int)
    requires
        all_digits(d),
        0 <= k <= d.len(),
    ensures
        0 <= digits_value(d.subrange(0, k)),
    decreases k,
{
    if k > 0 {
        lemma_digits_value_nonneg(d, k - 1);
        assert(d.subrange(0, k).drop_last() =~= d.subrange(0, k - 1));
        assert(is_digit(d[k - 1]));
    }
}

/// Parses a signed decimal `i64` as `str::parse::<i64>` does.
pub fn parse_i64(s: &[u8]) -> (r: Option<i64>)
    ensures
        r == parse_i64_spec(s@),
{
    let len = s.len();
    if len == 0 {
        return None;
    }
    let neg = s[0] == 45;
    let signed = s[0] == 45 || s[0] == 43;
    let start: usize = if signed { 1 } else { 0 };
    let ghost d = if signed { s@.drop_first() } else { s@ };
    assert(d =~= s@.subrange(start as int, len as int));
    if start == len {
        return None;
    }
    let mut acc: i128 = 0;
    let mut i = start;
    while i < len
        invariant
            start <= i <= len,
            len == s@.len(),
            len > 0,
            neg == (s@[0] == 45),
            signed == (s@[0] == 45 || s@[0] == 43),
            d == (if signed { s@.drop_first() } else { s@ }),
            d.len() > 0,
            d == s@.subrange(start as int, len as int),
            all_digits(d.subrange(0, i - start)),
            neg ==> acc == -digits_value(d.subrange(0, i - start)),
            !neg ==> acc == digits_value(d.subrange(0, i - start)),
            i64::MIN <= acc <= i64::MAX,
        decreases len - i,
    {
        let c = s[i];
        if c < 48 || c > 57 {
            assert(d[i - start] == c);
            assert(!is_digit(d[i - start]));
            assert(!all_digits(d));
            return None;
        }
        let dig = (c - 48) as i128;
        let ghost k = i - start;
        assert(d.subrange(0, k + 1).drop_last() =~= d.subrange(0, k));
        assert(all_digits(d.subrange(0, k + 1)));
        assert(d.subrange(0, k + 1).last() == c);
        assert(digits_value(d.subrange(0, k + 1)) == digits_value(d.subrange(0, k)) * 10 + dig);
        if neg {
            acc = acc * 10 - dig;
        } else {
            acc = acc * 10 + dig;
        }
        if acc < i64::MIN as i128 || acc > i64::MAX as i128 {
            proof {
                if all_digits(d) {
                    lemma_digits_value_monotone(d, k + 1, d.len() as int);
                    assert(d.subrange(0, d.len() as int) =~= d);
                }
            }
            return None;
        }
        i = i + 1;
    }
    assert(d.subrange(0, len - start) =~= d);
    Some(acc as i64)
}

/// The decimal digit character for `d`.
pub open spec fn digit_char(d: int) -> char {
    (48 + d) as char
}

/// The decimal notation of `n`, without leading zeros.
pub open spec fn nat_decimal(n: nat) -> Seq<char>
    decreases n,
{
    if n < 10 {
        seq![digit_char(n as int)]
    } else {
        nat_decimal(n / 10) + seq![digit_char((n % 10) as int)]
    }
}

/// The decimal notation of `n`, as `i64::to_string` writes it: a `-` for
/// negative numbers, then the digits of the magnitude.
pub open spec fn int_decimal(n: int) -> Seq<char> {
    if n < 0 {
        seq!['-'] + nat_decimal((-n) as nat)
    } else {
        nat_decimal(n as nat)
    }
}

fn digit_str(d: u64) -> (r: &'static str)
    requires
        d < 10,
    ensures
        r@ == seq![digit_char(d as int)],
{
    match d {
        0 => {
            proof {
                reveal_strlit("0");
            }
            "0"
        },
        1 => {
            proof {
                reveal_strlit("1");
            }
            "1"
        },
        2 => {
            proof {
                reveal_strlit("2");
            }
            "2"
        },
        3 => {
            proof {
                reveal_strlit("3");
            }
            "3"
        },
        4 => {
            proof {
                reveal_strlit("4");
            }
            "4"
        },
        5 => {
            proof {
                reveal_strlit("5");
            }
            "5"
        },
        6 => {
            proof {
                reveal_strlit("6");
            }
            "6"
        },
        7 => {
            proof {
                reveal_strlit("7");
            }
            "7"
        },
        8 => {
            proof {
                reveal_strlit("8");
            }
            "8"
        },
        9 => {
            proof {
                reveal_strlit("9");
            }
            "9"
        },
        _ => {
            proof {
                reveal_strlit("9");
            }
            "9"
        },
    }
}

/// Appends the decimal notation of `n` to `out`.
pub fn push_nat_decimal(out: &mut String, n: u64)
    ensures
        final(out)@ == old(out)@ + nat_decimal(n as nat),
    decreases n,
{
    if n >= 10 {
        push_nat_decimal(out, n / 10);
    }
    out.append(digit_str(n % 10));
    proof {
        if n >= 10 {
            assert(old(out)@ + nat_decimal((n / 10) as nat) + seq![digit_char((n % 10) as int)] =~= old(out)@ + nat_decimal(n as nat));
        } else {
            assert(n % 10 == n);
            assert(nat_decimal(n as nat) == seq![digit_char(n as int)]);
        }
    }
}

/// Appends the decimal notation of `n` to `out`.
pub fn push_int_decimal(out: &mut String, n: i64)
    ensures
        final(out)@ == old(out)@ + int_decimal(n as int),
{
    if n < 0 {
        proof {
            reveal_strlit("-");
        }
        out.append("-");
        let magnitude: u64 = if n == i64::MIN {
            9223372036854775808u64
        } else {
            (-n) as u64
        };
        push_nat_decimal(out, magnitude);
        proof {
            assert(old(out)@ + "-"@ + nat_decimal(magnitude as nat) =~= old(out)@ + int_decimal(n as int));
        }
    } else {
        push_nat_decimal(out, n as u64);
    }
}

/// The decimal notation of `n`.
pub fn int_to_string(n: i64) -> (r: String)
    ensures
        r@ == int_decimal(n as int),
{
    let mut out = String::new();
    push_int_decimal(&mut out, n);
    proof {
        assert(out@ =~= int_decimal(n as int));
    }
    out
}

/// True when `p` is a prefix of `a`.
pub open spec fn is_prefix(p: Seq<u8>, a: Seq<u8>) -> bool {
    p.len() <= a.len() && a.take(p.len() as int) == p
}

/// Whether the text `s` starts with `p`.
pub open spec fn starts_with(s: Seq<char>, p: Seq<char>) -> bool {
    is_prefix(encode_utf8(p), encode_utf8(s))
}

/// True when `p` is a suffix of `a`.
pub open spec fn is_suffix(p: Seq<u8>, a: Seq<u8>) -> bool {
    p.len() <= a.len() && a.skip(a.len() - p.len()) == p
}

/// Whether `a` starts with `p`.
pub fn bytes_starts_with(a: &[u8], p: &[u8]) -> (r: bool)
    ensures
        r == is_prefix(p@, a@),
{
    if p.len() > a.len() {
        return false;
    }
    let r = bytes_occur_at(a, p, 0);
    proof {
        assert(a@.subrange(0, p@.len() as int) =~= a@.take(p@.len() as int));
    }
    r
}

/// Whether `a` ends with `p`.
pub fn bytes_ends_with(a: &[u8], p: &[u8]) -> (r: bool)
    ensures
        r == is_suffix(p@, a@),
{
    if p.len() > a.len() {
        return false;
    }
    let r = bytes_occur_at(a, p, a.len() - p.len());
    proof {
        assert(a@.subrange(a@.len() - p@.len(), a@.len() - p@.len() + p@.len()) =~= a@.skip(a@.len() - p@.len()));
    }
    r
}

/// `s` with each occurrence of `p`, found from left to right and not
/// overlapping, replaced by `w`. An empty `p` leaves `s` as it is.
pub open spec fn replace_bytes(s: Seq<u8>, p: Seq<u8>, w: Seq<u8>) -> Seq<u8>
    decreases s.len(),
{
    if p.len() == 0 || s.len() < p.len() {
        s
    } else if s.take(p.len() as int) == p {
        w + replace_bytes(s.skip(p.len() as int), p, w)
    } else {
        seq![s[0]] + replace_bytes(s.skip(1), p, w)
    }
}

/// Replaces each occurrence of `p` in `s` by `w` (see [`replace_bytes`]).
pub fn replace_all_bytes(s: &[u8], p: &[u8], w: &[u8]) -> (r: Vec<u8>)
    requires
        p@.len() > 0,
    ensures
        r@ == replace_bytes(s@, p@, w@),
{
    let mut out: Vec<u8> = Vec::new();
    let mut i: usize = 0;
    assert(s@.skip(0) =~= s@);
    assert(out@ + replace_bytes(s@, p@, w@) =~= replace_bytes(s@, p@, w@));
    while i < s.len()
        invariant
            p@.len() > 0,
            i <= s@.len(),
            out@ + replace_bytes(s@.skip(i as int), p@, w@) == replace_bytes(s@, p@, w@),
        decreases s@.len() - i,
    {
        let ghost rest = s@.skip(i as int);
        if bytes_occur_at(s, p, i) {
            assert(rest.take(p@.len() as int) =~= s@.subrange(i as int, i + p@.len()));
            assert(rest.skip(p@.len() as int) =~= s@.skip(i + p@.len()));
            let ghost before = out@;
            out.extend_from_slice(w);
            assert(out@ + replace_bytes(s@.skip(i + p@.len()), p@, w@) =~= before + replace_bytes(
                rest,
                p@,
                w@,
            ));
            i = i + p.len();
        } else {
            proof {
                assert(rest.skip(1) =~= s@.skip(i + 1));
                if rest.len() >= p@.len() {
                    assert(rest.take(p@.len() as int) != p@) by {
                        if rest.take(p@.len() as int) == p@ {
                            assert(s@.subrange(i as int, i + p@.len()) =~= rest.take(
                                p@.len() as int,
                            ));
                        }
                    }
                } else {
                    assert(replace_bytes(rest.skip(1), p@, w@) == rest.skip(1));
                    assert(rest =~= seq![rest[0]] + rest.skip(1));
                }
            }
            let ghost before = out@;
            out.push(s[i]);
            assert(out@ + replace_bytes(s@.skip(i + 1), p@, w@) =~= before + replace_bytes(
                rest,
                p@,
                w@,
            ));
            i = i + 1;
        }
    }
    assert(s@.skip(i as int) =~= Seq::<u8>::empty());
    assert(out@ + Seq::<u8>::empty() =~= out@);
    out
}

/// Whether `a` and `b` hold the same text.
pub fn str_eq(a: &str, b: &str) -> (r: bool)
    ensures
        r == (a@ == b@),
{
    let ab = a.as_bytes();
    let bb = b.as_bytes();
    proof {
        if a@ == b@ {
            assert(ab@.subrange(0, bb@.len() as int) =~= bb@);
        }
    }
    let r = ab.len() == bb.len() && bytes_occur_at(ab, bb, 0);
    proof {
        broadcast use vstd::utf8::encode_utf8_decode_utf8;
        if r {
            assert(ab@.subrange(0, bb@.len() as int) =~= ab@);
            assert(decode_utf8(encode_utf8(a@)) == decode_utf8(encode_utf8(b@)));
        }
    }
    r
}

} // verus!
