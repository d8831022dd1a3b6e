use vstd::prelude::*;
use vstd::string::StringSliceAdditionalSpecFns;

verus! {

pub open spec fn is_digit(b: u8) -> bool {
    48 <= b <= 57
}

pub open spec fn all_digits(s: Seq<u8>) -> bool {
    forall|i: int| 0 <= i < s.len() ==> is_digit(#[trigger] s[i])
}

/// The number that a string of decimal digits spells.
pub open spec fn digits_value(s: Seq<u8>) -> nat
    decreases s.len(),
{
    if s.len() == 0 {
        0
    } else {
        digits_value(s.drop_last()) * 10 + (s.last() - 48) as nat
    }
}

/// What `usize::from_str` accepts: an optional `+`, then one or more digits
/// whose value fits in a `usize`.
pub open spec fn parse_usize_spec(s: Seq<u8>) -> Option<usize> {
    let d = if s.len() > 0 && s[0] == 43u8 { s.drop_first() } else { s };
    if d.len() > 0 && all_digits(d) && digits_value(d) <= usize::MAX {
        Some(digits_value(d) as usize)
    } else {
        None
    }
}

proof fn lemma_digits_value_grows(s: Seq<u8>, i: int)
    requires
        0 <= i < s.len(),
        all_digits(s),
    ensures
        digits_value(s.subrange(0, i + 1)) == digits_value(s.subrange(0, i)) * 10 + (s[i] - 48) as nat,
        digits_value(s.subrange(0, i + 1)) >= digits_value(s.subrange(0, i)),
{
    assert(s.subrange(0, i + 1).drop_last() == s.subrange(0, i));
}

proof fn lemma_digits_value_monotone(s: Seq<u8>, i: int, j: int)
    requires
        0 <= i <= j <= s.len(),
        all_digits(s),
    ensures
        digits_value(s.subrange(0, i)) <= digits_value(s.subrange(0, j)),
    decreases j - i,
{
    if i < j {
        lemma_digits_value_monotone(s, i, j - 1);
        lemma_digits_value_grows(s, j - 1);
    }
}

/// Reads a decimal `usize` the way `usize::from_str` does.
pub fn parse_usize(s: &[u8]) -> (r: Option<usize>)
    ensures
        r == parse_usize_spec(s@),
{
    let mut i: usize = 0;
    if s.len() > 0 && s[0] == 43u8 {
        i = 1;
    }
    let start = i;
    let ghost d = s@.subrange(start as int, s@.len() as int);
    proof {
        if s@.len() > 0 && s@[0] == 43u8 {
            assert(d == s@.drop_first());
        } else {
            assert(d == s@);
        }
    }
    assert(parse_usize_spec(s@) == (if d.len() > 0 && all_digits(d) && digits_value(d) <= usize::MAX {
        Some(digits_value(d) as usize)
    } else {
        None
    }));
    if i == s.len() {
        return None;
    }
    assert(d.subrange(0, 0) =~= Seq::<u8>::empty());
    let mut value: usize = 0;
    while i < s.len()
        invariant
            start <= i <= s@.len(),
            d == s@.subrange(start as int, s@.len() as int),
            d.len() > 0,
            parse_usize_spec(s@) == (if all_digits(d) && digits_value(d) <= usize::MAX {
                Some(digits_value(d) as usize)
            } else {
                None
            }),
            all_digits(d.subrange(0, i - start)),
            value as nat == digits_value(d.subrange(0, i - start)),
        decreases s@.len() - i,
    {
        let b = s[i];
        if b < 48u8 || b > 57u8 {
            assert(!is_digit(d[i - start]));
            assert(!all_digits(d));
            assert(parse_usize_spec(s@) is None);
            return None;
        }
        let ghost k = (i - start) as int;
        proof {
            assert(all_digits(d.subrange(0, k + 1)));
            lemma_digits_value_grows(d.subrange(0, k + 1), k);
            assert(d.subrange(0, k + 1).subrange(0, k) == d.subrange(0, k));
            assert(d.subrange(0, k + 1).subrange(0, k + 1) == d.subrange(0, k + 1));
        }
        let digit = (b - 48u8) as usize;
        if value > (usize::MAX - digit) / 10 {
            proof {
                assert(value * 10 + digit > usize::MAX) by (nonlinear_arith)
                    requires value > (usize::MAX - digit) / 10, digit <= 9;
                if all_digits(d) {
                    lemma_digits_value_monotone(d, k + 1, d.len() as int);
                    assert(d.subrange(0, d.len() as int) == d);
                    assert(digits_value(d) > usize::MAX);
                }
                assert(parse_usize_spec(s@) is None);
            }
            return None;
        }
        proof {
            assert(value * 10 + digit <= usize::MAX) by (nonlinear_arith)
                requires value <= (usize::MAX - digit) / 10, digit <= 9;
        }
        value = value * 10 + digit;
        i = i + 1;
    }
    assert(d.subrange(0, d.len() as int) == d);
    Some(value)
}

/// A byte window requested by a `Range` header: its first byte, and its
/// length when the header gave an end (saturated at `usize::MAX`).
#[derive(PartialEq, Eq, Debug, Clone, Copy)]
pub struct ContentRange {
    pub start: usize,
    pub len: Option<usize>,
}

/// Index of the first `c` in `s`.
pub open spec fn first_index_of(s: Seq<u8>, c: u8) -> Option<int> {
    if exists|i: int| 0 <= i < s.len() && s[i] == c {
        Some(choose|i: int| 0 <= i < s.len() && s[i] == c && forall|j: int| 0 <= j < i ==> s[j] != c)
    } else {
        None
    }
}

pub fn find_byte(s: &[u8], c: u8) -> (r: Option<usize>)
    ensures
        r == match first_index_of(s@, c) {
            Some(i) => Some(i as usize),
            None => None::<usize>,
        },
        r matches Some(i) ==> i < s@.len() && s@[i as int] == c && forall|j: int| 0 <= j < i ==> s@[j] != c,
        r is None ==> forall|j: int| 0 <= j < s@.len() ==> s@[j] != c,
{
    let mut i: usize = 0;
    while i < s.len()
        invariant
            i <= s@.len(),
            forall|j: int| 0 <= j < i ==> s@[j] != c,
        decreases s@.len() - i,
    {
        if s[i] == c {
            proof {
                let k = choose|k: int| 0 <= k < s@.len() && s@[k] == c && forall|j: int| 0 <= j < k ==> s@[j] != c;
                assert(k == i as int) by {
                    if k < i { assert(s@[k] != c); }
                    if k > i { assert(s@[i as int] != c); }
                }
            }
            return Some(i);
        }
        i = i + 1;
    }
    None
}

pub open spec fn bytes_prefix() -> Seq<u8> {
    seq![98u8, 121u8, 116u8, 101u8, 115u8, 61u8]
}

/// The length of the inclusive window `start..=end`, saturated at `usize::MAX`.
pub open spec fn window_len(start: usize, end: usize) -> usize {
    if end - start + 1 > usize::MAX { usize::MAX } else { (end - start + 1) as usize }
}

/// The meaning of `bytes=<start>-<end>`: `start` defaults to 0, a missing
/// `end` leaves the window open, and `end == 0` or `start > end` is refused.
pub open spec fn decode_content_range_spec(s: Seq<u8>) -> Option<ContentRange> {
    if s.len() < 6 || s.subrange(0, 6) != bytes_prefix() {
        None
    } else {
        match first_index_of(s, 45u8) {
            None => None,
            Some(dash) => {
                let start_s = s.subrange(6, dash);
                let end_s = s.subrange(dash + 1, s.len() as int);
                let start = if start_s.len() > 0 { parse_usize_spec(start_s) } else { Some(0usize) };
                let end = if end_s.len() > 0 { match parse_usize_spec(end_s) {
                    Some(e) => Some(Some(e)),
                    None => None,
                } } else { Some(None) };
                match (start, end) {
                    (Some(st), Some(None)) => Some(ContentRange { start: st, len: None }),
                    (Some(st), Some(Some(e))) => if e == 0 || st > e {
                        None
                    } else {
                        Some(ContentRange { start: st, len: Some(window_len(st, e)) })
                    },
                    _ => None,
                }
            },
        }
    }
}

/// Decodes the value of a `Range` header.
pub fn decode_content_range(range_str: &str) -> (r: Option<ContentRange>)
    ensures
        r == decode_content_range_spec(range_str.spec_bytes()),
{
    decode_content_range_bytes(range_str.as_bytes())
}

/// Decodes the bytes of a `Range` header value.
pub fn decode_content_range_bytes(s: &[u8]) -> (r: Option<ContentRange>)
    ensures
        r == decode_content_range_spec(s@),
{
    if s.len() < 6 {
        return None;
    }
    if !(s[0] == 98u8 && s[1] == 121u8 && s[2] == 116u8 && s[3] == 101u8 && s[4] == 115u8
        && s[5] == 61u8) {
        assert(s@.subrange(0, 6) != bytes_prefix()) by {
            if s@.subrange(0, 6) == bytes_prefix() {
                assert(s@.subrange(0, 6)[0] == s@[0]);
                assert(s@.subrange(0, 6)[1] == s@[1]);
                assert(s@.subrange(0, 6)[2] == s@[2]);
                assert(s@.subrange(0, 6)[3] == s@[3]);
                assert(s@.subrange(0, 6)[4] == s@[4]);
                assert(s@.subrange(0, 6)[5] == s@[5]);
            }
        }
        return None;
    }
    assert(s@.subrange(0, 6) =~= bytes_prefix());
    let dash = match find_byte(s, 45u8) {
        Some(d) => d,
        None => { return None; },
    };
    // "bytes=" holds no '-', so the dash comes after it
    assert(dash >= 6) by {
        if dash < 6 { assert(s@[dash as int] == bytes_prefix()[dash as int]); }
    }
    let start_s = vstd::slice::slice_subrange(s, 6, dash);
    let end_s = vstd::slice::slice_subrange(s, dash + 1, s.len());
    let start: usize = if start_s.len() > 0 {
        match parse_usize(start_s) {
            Some(v) => v,
            None => { return None; },
        }
    } else {
        0
    };
    if end_s.len() > 0 {
        match parse_usize(end_s) {
            Some(e) => {
                if e == 0 || start > e {
                    None
                } else {
                    let len = if e - start == usize::MAX { usize::MAX } else { e - start + 1 };
                    Some(ContentRange { start, len: Some(len) })
                }
            },
            None => None,
        }
    } else {
        Some(ContentRange { start, len: None })
    }
}

/// The window actually served once a requested range meets a resource of
/// `full_length` bytes.
#[derive(PartialEq, Eq, Debug, Clone, Copy)]
pub struct ServedRange {
    pub start: usize,
    pub len: usize,
    /// The response is partial (206 with `Content-Range`).
    pub partial: bool,
}

pub open spec fn min_usize(a: usize, b: usize) -> usize {
    if a <= b { a } else { b }
}

/// What `clamp_range` serves for a decoded `Range` header (or none).
pub open spec fn clamp_range_spec(range: Option<ContentRange>, full_length: usize) -> ServedRange {
    match range {
        None => ServedRange { start: 0, len: full_length, partial: false },
        Some(cr) => {
            let st = min_usize(cr.start, full_length);
            let len = match cr.len {
                Some(l) => min_usize(l, (full_length - st) as usize),
                None => (full_length - st) as usize,
            };
            ServedRange { start: st, len, partial: !(cr.start == 0 && cr.len is None) }
        },
    }
}

/// Clamps a requested window to a resource of `full_length` bytes. A range
/// that starts at 0 and is left open asks for the whole resource, which is
/// then served as a plain, complete response.
pub fn clamp_range(range: Option<ContentRange>, full_length: usize) -> (r: ServedRange)
    ensures
        r == clamp_range_spec(range, full_length),
        r.start <= full_length,
        r.start + r.len <= full_length,
        !r.partial ==> r.start == 0 && r.len == full_length,
{
    match range {
        None => ServedRange { start: 0, len: full_length, partial: false },
        Some(cr) => {
            let st = if cr.start <= full_length { cr.start } else { full_length };
            let len = match cr.len {
                Some(l) => if l <= full_length - st { l } else { full_length - st },
                None => full_length - st,
            };
            ServedRange { start: st, len, partial: !(cr.start == 0 && cr.len.is_none()) }
        },
    }
}

/// Every served window is a contiguous part of the resource; a header
/// reading `bytes=0-` is served as the whole resource with a plain 200.
pub proof fn lemma_served_window(s: Seq<u8>, full_length: usize)
    ensures
        ({
            let served = clamp_range_spec(decode_content_range_spec(s), full_length);
            &&& served.start <= full_length
            &&& served.start + served.len <= full_length
            &&& decode_content_range_spec(s) == Some(ContentRange { start: 0, len: None })
                ==> !served.partial && served.start == 0 && served.len == full_length
        }),
{
}

/// The first and last byte positions written in a `Content-Range` header
/// for a served window (`bytes <first>-<last>/<full>`).
pub fn content_range_bounds(served: ServedRange) -> (r: (usize, usize))
    requires
        served.start + served.len <= usize::MAX,
    ensures
        r.0 == served.start,
        r.1 == if served.len == 0 { served.start } else { (served.start + served.len - 1) as usize },
{
    if served.len == 0 {
        (served.start, served.start)
    } else {
        (served.start, served.start + served.len - 1)
    }
}

} // verus!
