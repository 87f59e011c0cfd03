use vstd::prelude::*;

use crate::text::{dec_digit, dec_text};

verus! {

/// A byte window of a file: `length` bytes from offset `start`.
#[derive(Clone, Copy, Debug, PartialEq, Eq, Structural)]
pub struct ByteRange {
    pub start: u64,
    pub length: u64,
}

/// The Range header names no byte range that the file can satisfy.
#[derive(Clone, Copy, Debug, PartialEq, Eq, Structural)]
pub struct RangeError;

/// Optional whitespace around the parts of a Range header.
pub open spec fn is_ows(c: char) -> bool {
    c == ' ' || c == '\t'
}

pub open spec fn is_digit(c: char) -> bool {
    '0' <= c && c <= '9'
}

/// The first position in `[lo, hi)` that holds `c`, or `hi`.
pub open spec fn find_char(s: Seq<char>, c: char, lo: int, hi: int) -> int
    decreases hi - lo,
{
    if lo >= hi {
        hi
    } else if s[lo] == c {
        lo
    } else {
        find_char(s, c, lo + 1, hi)
    }
}

/// The start of `[lo, hi)` once leading whitespace is skipped.
pub open spec fn trim_start(s: Seq<char>, lo: int, hi: int) -> int
    decreases hi - lo,
{
    if lo < hi && is_ows(s[lo]) {
        trim_start(s, lo + 1, hi)
    } else {
        lo
    }
}

/// The end of `[lo, hi)` once trailing whitespace is dropped.
pub open spec fn trim_end(s: Seq<char>, lo: int, hi: int) -> int
    decreases hi - lo,
{
    if lo < hi && is_ows(s[hi - 1]) {
        trim_end(s, lo, hi - 1)
    } else {
        hi
    }
}

/// The value of the decimal digits in `[lo, hi)`.
pub open spec fn digits_value(s: Seq<char>, lo: int, hi: int) -> nat
    decreases hi - lo,
{
    if hi <= lo {
        0
    } else {
        digits_value(s, lo, hi - 1) * 10 + (s[hi - 1] as nat - '0' as nat) as nat
    }
}

/// The number written in `[lo, hi)`: one or more decimal digits whose value
/// fits in 64 bits.
pub open spec fn number(s: Seq<char>, lo: int, hi: int) -> Option<u64> {
    if lo < hi && (forall|k: int| lo <= k < hi ==> is_digit(#[trigger] s[k])) && digits_value(
        s,
        lo,
        hi,
    ) <= u64::MAX {
        Some(digits_value(s, lo, hi) as u64)
    } else {
        None
    }
}

/// What one comma-separated part of a Range header asks for.
pub enum PartSpec {
    /// The part is malformed: the whole header is rejected.
    Bad,
    /// The part is empty or lies wholly past the end of the file.
    Skip,
    Range(ByteRange),
}

/// The meaning of the part `[lo, hi)` against a file of `size` bytes.
/// `a-b` asks for bytes `a` to `b` (cut at the file's end), `a-` for bytes
/// from `a` to the end, and `-n` for the last `n` bytes.
pub open spec fn part_spec(s: Seq<char>, lo: int, hi: int, size: u64) -> PartSpec {
    let a = trim_start(s, lo, hi);
    let b = trim_end(s, a, hi);
    let dash = find_char(s, '-', a, b);
    let fs = trim_start(s, a, dash);
    let fe = trim_end(s, fs, dash);
    let ls = trim_start(s, dash + 1, b);
    let le = trim_end(s, ls, b);
    if a == b {
        PartSpec::Skip
    } else if dash == b {
        PartSpec::Bad
    } else if fs == fe {
        match number(s, ls, le) {
            None => PartSpec::Bad,
            Some(n) => {
                let len = if n > size {
                    size
                } else {
                    n
                };
                if len == 0 {
                    PartSpec::Skip
                } else {
                    PartSpec::Range(ByteRange { start: (size - len) as u64, length: len })
                }
            },
        }
    } else {
        match number(s, fs, fe) {
            None => PartSpec::Bad,
            Some(first) => {
                if ls == le {
                    if first >= size {
                        PartSpec::Skip
                    } else {
                        PartSpec::Range(ByteRange { start: first, length: (size - first) as u64 })
                    }
                } else {
                    match number(s, ls, le) {
                        None => PartSpec::Bad,
                        Some(last) => {
                            if first > last {
                                PartSpec::Bad
                            } else if first >= size {
                                PartSpec::Skip
                            } else {
                                let end = if last >= size {
                                    size - 1
                                } else {
                                    last as int
                                };
                                PartSpec::Range(
                                    ByteRange { start: first, length: (end - first + 1) as u64 },
                                )
                            }
                        },
                    }
                }
            },
        }
    }
}

/// The parts in `[lo, hi)`, separated by commas: `None` when one of them is
/// malformed, else the first range that the file can satisfy, if any.
pub open spec fn scan_parts(s: Seq<char>, lo: int, hi: int, size: u64) -> Option<Option<ByteRange>>
    decreases hi - lo,
{
    if lo > hi {
        Some(None)
    } else {
        let j = find_char(s, ',', lo, hi);
        let rest = if j < hi && lo <= j {
            scan_parts(s, j + 1, hi, size)
        } else {
            Some(None)
        };
        match part_spec(s, lo, j, size) {
            PartSpec::Bad => None,
            PartSpec::Skip => rest,
            PartSpec::Range(r) => match rest {
                None => None,
                Some(_) => Some(Some(r)),
            },
        }
    }
}

/// Whether the header starts with the unit `bytes=`.
pub open spec fn has_bytes_unit(s: Seq<char>) -> bool {
    s.len() >= 6 && s[0] == 'b' && s[1] == 'y' && s[2] == 't' && s[3] == 'e' && s[4] == 's'
        && s[5] == '='
}

/// The range that a Range header selects from a file of `size` bytes: the
/// first satisfiable range it lists, provided that it uses the `bytes` unit,
/// that every part is well formed, and that at least one part is satisfiable.
pub open spec fn selected_range(s: Seq<char>, size: u64) -> Option<ByteRange> {
    if has_bytes_unit(s) {
        match scan_parts(s, 6, s.len() as int, size) {
            Some(Some(r)) => Some(r),
            _ => None,
        }
    } else {
        None
    }
}

proof fn lemma_find_char_bounds(s: Seq<char>, c: char, lo: int, hi: int)
    requires
        lo <= hi,
    ensures
        lo <= find_char(s, c, lo, hi) <= hi,
    decreases hi - lo,
{
    if lo < hi && s[lo] != c {
        lemma_find_char_bounds(s, c, lo + 1, hi);
    }
}

pub(crate) fn find_char_exec(s: &str, c: char, lo: usize, hi: usize) -> (r: usize)
    requires
        lo <= hi <= s@.len(),
    ensures
        r == find_char(s@, c, lo as int, hi as int),
        lo <= r <= hi,
{
    let mut i: usize = lo;
    while i < hi
        invariant
            lo <= i <= hi <= s@.len(),
            find_char(s@, c, i as int, hi as int) == find_char(s@, c, lo as int, hi as int),
        decreases hi - i,
    {
        if s.get_char(i) == c {
            return i;
        }
        i = i + 1;
    }
    i
}

fn trim_start_exec(s: &str, lo: usize, hi: usize) -> (r: usize)
    requires
        lo <= hi <= s@.len(),
    ensures
        r == trim_start(s@, lo as int, hi as int),
        lo <= r <= hi,
{
    let mut i: usize = lo;
    while i < hi
        invariant
            lo <= i <= hi <= s@.len(),
            trim_start(s@, i as int, hi as int) == trim_start(s@, lo as int, hi as int),
        decreases hi - i,
    {
        let c = s.get_char(i);
        if !(c == ' ' || c == '\t') {
            return i;
        }
        i = i + 1;
    }
    i
}

fn trim_end_exec(s: &str, lo: usize, hi: usize) -> (r: usize)
    requires
        lo <= hi <= s@.len(),
    ensures
        r == trim_end(s@, lo as int, hi as int),
        lo <= r <= hi,
{
    let mut j: usize = hi;
    while lo < j
        invariant
            lo <= j <= hi <= s@.len(),
            trim_end(s@, lo as int, j as int) == trim_end(s@, lo as int, hi as int),
        decreases j - lo,
    {
        let c = s.get_char(j - 1);
        if !(c == ' ' || c == '\t') {
            return j;
        }
        j = j - 1;
    }
    j
}

fn number_exec(s: &str, lo: usize, hi: usize) -> (r: Option<u64>)
    requires
        lo <= hi <= s@.len(),
    ensures
        r == number(s@, lo as int, hi as int),
{
    if lo == hi {
        return None;
    }
    let mut v: u64 = 0;
    let mut i: usize = lo;
    while i < hi
        invariant
            lo <= i <= hi <= s@.len(),
            forall|k: int| lo <= k < i ==> is_digit(#[trigger] s@[k]),
            v as nat == digits_value(s@, lo as int, i as int),
        decreases hi - i,
    {
        let c = s.get_char(i);
        if !('0' <= c && c <= '9') {
            return None;
        }
        let d = (c as u32 - '0' as u32) as u64;
        assert(digits_value(s@, lo as int, i + 1) == digits_value(s@, lo as int, i as int) * 10
            + d);
        if v > (u64::MAX - d) / 10 {
            proof {
                assert(v as int * 10 + d > u64::MAX) by (nonlinear_arith)
                    requires
                        v > (u64::MAX - d) / 10,
                        d < 10,
                ;
                if forall|k: int| lo <= k < hi ==> is_digit(#[trigger] s@[k]) {
                    lemma_digits_value_grows(s@, lo as int, i + 1, hi as int);
                }
            }
            return None;
        }
        v = v * 10 + d;
        i = i + 1;
    }
    Some(v)
}

proof fn lemma_digits_value_grows(s: Seq<char>, lo: int, mid: int, hi: int)
    requires
        lo <= mid <= hi,
        forall|k: int| lo <= k < hi ==> is_digit(#[trigger] s[k]),
    ensures
        digits_value(s, lo, mid) <= digits_value(s, lo, hi),
    decreases hi - mid,
{
    if mid < hi {
        lemma_digits_value_grows(s, lo, mid, hi - 1);
    }
}

fn part_exec(s: &str, lo: usize, hi: usize, size: u64) -> (r: Result<Option<ByteRange>, RangeError>)
    requires
        lo <= hi <= s@.len(),
    ensures
        match part_spec(s@, lo as int, hi as int, size) {
            PartSpec::Bad => r is Err,
            PartSpec::Skip => r == Ok::<Option<ByteRange>, RangeError>(None),
            PartSpec::Range(b) => r == Ok::<Option<ByteRange>, RangeError>(Some(b)),
        },
{
    let a = trim_start_exec(s, lo, hi);
    let b = trim_end_exec(s, a, hi);
    let dash = find_char_exec(s, '-', a, b);
    let fs = trim_start_exec(s, a, dash);
    let fe = trim_end_exec(s, fs, dash);
    if a == b {
        return Ok(None);
    }
    if dash == b {
        return Err(RangeError);
    }
    let ls = trim_start_exec(s, dash + 1, b);
    let le = trim_end_exec(s, ls, b);
    if fs == fe {
        match number_exec(s, ls, le) {
            None => Err(RangeError),
            Some(n) => {
                let len = if n > size {
                    size
                } else {
                    n
                };
                if len == 0 {
                    Ok(None)
                } else {
                    Ok(Some(ByteRange { start: size - len, length: len }))
                }
            },
        }
    } else {
        match number_exec(s, fs, fe) {
            None => Err(RangeError),
            Some(first) => {
                if ls == le {
                    if first >= size {
                        Ok(None)
                    } else {
                        Ok(Some(ByteRange { start: first, length: size - first }))
                    }
                } else {
                    match number_exec(s, ls, le) {
                        None => Err(RangeError),
                        Some(last) => {
                            if first > last {
                                Err(RangeError)
                            } else if first >= size {
                                Ok(None)
                            } else {
                                let end = if last >= size {
                                    size - 1
                                } else {
                                    last
                                };
                                Ok(Some(ByteRange { start: first, length: end - first + 1 }))
                            }
                        },
                    }
                }
            },
        }
    }
}

fn scan_exec(s: &str, lo: usize, size: u64) -> (r: Option<Option<ByteRange>>)
    requires
        lo <= s@.len(),
    ensures
        r == scan_parts(s@, lo as int, s@.len() as int, size),
    decreases s@.len() - lo,
{
    let hi = s.unicode_len();
    let j = find_char_exec(s, ',', lo, hi);
    let here = part_exec(s, lo, j, size);
    match here {
        Err(_) => None,
        Ok(None) => {
            if j < hi {
                scan_exec(s, j + 1, size)
            } else {
                Some(None)
            }
        },
        Ok(Some(r)) => {
            let rest = if j < hi {
                scan_exec(s, j + 1, size)
            } else {
                Some(None)
            };
            match rest {
                None => None,
                Some(_) => Some(Some(r)),
            }
        },
    }
}

/// Every range that a header can select lies inside the file and is not
/// empty.
pub proof fn lemma_selected_range_in_file(s: Seq<char>, size: u64)
    ensures
        match selected_range(s, size) {
            Some(r) => r.length > 0 && r.start + r.length <= size,
            None => true,
        },
{
    if has_bytes_unit(s) {
        lemma_scan_in_file(s, 6, s.len() as int, size);
    }
}

proof fn lemma_scan_in_file(s: Seq<char>, lo: int, hi: int, size: u64)
    ensures
        match scan_parts(s, lo, hi, size) {
            Some(Some(r)) => r.length > 0 && r.start + r.length <= size,
            _ => true,
        },
    decreases hi - lo,
{
    if lo <= hi {
        let j = find_char(s, ',', lo, hi);
        lemma_find_char_bounds(s, ',', lo, hi);
        if j < hi {
            lemma_scan_in_file(s, j + 1, hi, size);
        }
    }
}

/// Selects the byte range that a Range header asks of a file of `size`
/// bytes. Only the first satisfiable range is kept; a header in another unit,
/// with a malformed part, or with no satisfiable part is refused.
pub fn parse_range(header: &str, size: u64) -> (r: Result<ByteRange, RangeError>)
    ensures
        match selected_range(header@, size) {
            Some(b) => r == Ok::<ByteRange, RangeError>(b),
            None => r is Err,
        },
        r is Ok ==> r.unwrap().length > 0 && r.unwrap().start + r.unwrap().length <= size,
{
    proof {
        lemma_selected_range_in_file(header@, size);
    }
    let n = header.unicode_len();
    if n < 6 {
        return Err(RangeError);
    }
    if !(header.get_char(0) == 'b' && header.get_char(1) == 'y' && header.get_char(2) == 't'
        && header.get_char(3) == 'e' && header.get_char(4) == 's' && header.get_char(5) == '=') {
        return Err(RangeError);
    }
    match scan_exec(header, 6, size) {
        Some(Some(b)) => Ok(b),
        _ => Err(RangeError),
    }
}

/// The header `bytes=a-b`, with both numbers in decimal.
pub open spec fn closed_range_header(a: u64, b: u64) -> Seq<char> {
    seq!['b', 'y', 't', 'e', 's', '='] + dec_text(a as nat) + seq!['-'] + dec_text(b as nat)
}

proof fn lemma_dec_digit(d: nat)
    requires
        d < 10,
    ensures
        is_digit(dec_digit(d)),
        dec_digit(d) as nat - '0' as nat == d,
{
    if d == 0 {
        assert(dec_digit(d) == '0');
    } else if d == 1 {
        assert(dec_digit(d) == '1');
    } else if d == 2 {
        assert(dec_digit(d) == '2');
    } else if d == 3 {
        assert(dec_digit(d) == '3');
    } else if d == 4 {
        assert(dec_digit(d) == '4');
    } else if d == 5 {
        assert(dec_digit(d) == '5');
    } else if d == 6 {
        assert(dec_digit(d) == '6');
    } else if d == 7 {
        assert(dec_digit(d) == '7');
    } else if d == 8 {
        assert(dec_digit(d) == '8');
    } else {
        assert(dec_digit(d) == '9');
    }
}

/// Decimal text placed at `lo` reads back as its value.
proof fn lemma_dec_reads_back(s: Seq<char>, lo: int, n: nat)
    requires
        0 <= lo,
        lo + dec_text(n).len() <= s.len(),
        forall|k: int| 0 <= k < dec_text(n).len() ==> s[lo + k] == #[trigger] dec_text(n)[k],
    ensures
        dec_text(n).len() >= 1,
        forall|k: int| lo <= k < lo + dec_text(n).len() ==> is_digit(#[trigger] s[k]),
        digits_value(s, lo, lo + dec_text(n).len()) == n,
    decreases n,
{
    let t = dec_text(n);
    if n < 10 {
        lemma_dec_digit(n);
        assert(t[0] == dec_digit(n));
        assert(s[lo + 0] == t[0]);
        assert(digits_value(s, lo, lo) == 0);
    } else {
        let p = dec_text(n / 10);
        assert(t == p.push(dec_digit(n % 10)));
        assert forall|k: int| 0 <= k < p.len() implies s[lo + k] == #[trigger] p[k] by {
            assert(t[k] == p[k]);
        }
        lemma_dec_reads_back(s, lo, n / 10);
        lemma_dec_digit(n % 10);
        assert(t[p.len() as int] == dec_digit(n % 10));
        assert(s[lo + p.len()] == t[p.len() as int]);
        assert forall|k: int| lo <= k < lo + t.len() implies is_digit(#[trigger] s[k]) by {
            if k < lo + p.len() {
            } else {
                assert(k == lo + p.len());
            }
        }
        assert(digits_value(s, lo, lo + t.len()) == digits_value(s, lo, lo + p.len()) * 10 + (
        n % 10));
        assert((n / 10) * 10 + n % 10 == n);
    }
}

proof fn lemma_find_char_at(s: Seq<char>, c: char, lo: int, m: int, hi: int)
    requires
        lo <= m <= hi,
        forall|k: int| lo <= k < m ==> s[k] != c,
        m < hi ==> s[m] == c,
    ensures
        find_char(s, c, lo, hi) == m,
    decreases m - lo,
{
    if lo < m {
        lemma_find_char_at(s, c, lo + 1, m, hi);
    }
}

/// `bytes=a-b`, with `a <= b` and `a` inside the file, selects bytes `a` to
/// `b`, cut at the file's last byte.
pub proof fn lemma_closed_range(a: u64, b: u64, size: u64)
    requires
        a <= b,
        a < size,
    ensures
        selected_range(closed_range_header(a, b), size) == Some(
            ByteRange {
                start: a,
                length: ((if b >= size {
                    size - 1
                } else {
                    b as int
                }) - a + 1) as u64,
            },
        ),
{
    let s = closed_range_header(a, b);
    let da = dec_text(a as nat);
    let db = dec_text(b as nat);
    let dash: int = 6 + da.len() as int;
    let len = s.len() as int;
    assert(len == dash + 1 + db.len());
    assert forall|k: int| 0 <= k < da.len() implies s[6 + k] == #[trigger] da[k] by {}
    assert forall|k: int| 0 <= k < db.len() implies s[dash + 1 + k] == #[trigger] db[k] by {}
    assert(s[dash] == '-');
    lemma_dec_reads_back(s, 6, a as nat);
    lemma_dec_reads_back(s, dash + 1, b as nat);
    assert(has_bytes_unit(s));
    assert forall|k: int| 6 <= k < len implies s[k] != ',' by {
        if k < dash {
            assert(is_digit(s[k]));
        } else if k > dash {
            assert(is_digit(s[k]));
        }
    }
    lemma_find_char_at(s, ',', 6, len, len);
    assert forall|k: int| 6 <= k < dash implies s[k] != '-' by {
        assert(is_digit(s[k]));
    }
    lemma_find_char_at(s, '-', 6, dash, len);
    assert(is_digit(s[6]) && is_digit(s[len - 1]) && is_digit(s[dash - 1]) && is_digit(
        s[dash + 1],
    ));
    assert(trim_start(s, 6, len) == 6);
    assert(trim_end(s, 6, len) == len);
    assert(trim_start(s, 6, dash) == 6);
    assert(trim_end(s, 6, dash) == dash);
    assert(trim_start(s, dash + 1, len) == dash + 1);
    assert(trim_end(s, dash + 1, len) == len);
    assert(number(s, 6, dash) == Some(a));
    assert(number(s, dash + 1, len) == Some(b));
}

} // verus!
