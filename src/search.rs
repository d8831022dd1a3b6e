use vstd::prelude::*;
use boyer_moore_magiclen::BMByte;

verus! {

/// `pat` occurs in `text` starting at offset `i`.
pub open spec fn matches_at(text: Seq<u8>, pat: Seq<u8>, i: int) -> bool {
    0 <= i && i + pat.len() <= text.len() && text.subrange(i, i + pat.len()) == pat
}

/// `i` is the leftmost occurrence of `pat` in `text`.
pub open spec fn is_first_match(text: Seq<u8>, pat: Seq<u8>, i: int) -> bool {
    matches_at(text, pat, i) && forall|j: int| 0 <= j < i ==> !matches_at(text, pat, j)
}

/// The leftmost occurrence of `pat` in `text`, if any.
pub open spec fn first_match(text: Seq<u8>, pat: Seq<u8>) -> Option<int> {
    if exists|i: int| matches_at(text, pat, i) {
        Some(choose|i: int| is_first_match(text, pat, i))
    } else {
        None
    }
}

/// Relies on `BMByte::from`, which builds a searcher for any non-empty
/// pattern, and `BMByte::find_first_in`, which returns the position of the
/// leftmost occurrence of that pattern in the text.
#[verifier::external_body]
fn bm_find_first(pattern: &[u8], text: &[u8]) -> (r: Option<usize>)
    requires
        pattern@.len() > 0,
    ensures
        match r {
            Some(i) => is_first_match(text@, pattern@, i as int),
            None => forall|j: int| !matches_at(text@, pattern@, j),
        },
{
    match BMByte::from(pattern.to_vec()) {
        Some(searcher) => searcher.find_first_in(text.to_vec()),
        None => None,
    }
}

pub proof fn lemma_first_match_unique(text: Seq<u8>, pat: Seq<u8>, i: int)
    requires
        is_first_match(text, pat, i),
    ensures
        first_match(text, pat) == Some(i),
{
    let k = choose|k: int| is_first_match(text, pat, k);
    assert(is_first_match(text, pat, k));
    if k < i {
        assert(!matches_at(text, pat, k));
    } else if i < k {
        assert(!matches_at(text, pat, i));
    }
}

pub proof fn lemma_first_match_bounds(text: Seq<u8>, pat: Seq<u8>)
    ensures
        first_match(text, pat) matches Some(i) ==> is_first_match(text, pat, i),
{
    if exists|i: int| matches_at(text, pat, i) {
        let w = choose|i: int| matches_at(text, pat, i);
        lemma_first_match_exists(text, pat, w);
    }
}

proof fn lemma_first_match_exists(text: Seq<u8>, pat: Seq<u8>, w: int)
    requires
        matches_at(text, pat, w),
    ensures
        exists|i: int| is_first_match(text, pat, i),
    decreases w,
{
    if exists|j: int| 0 <= j < w && matches_at(text, pat, j) {
        let j = choose|j: int| 0 <= j < w && matches_at(text, pat, j);
        lemma_first_match_exists(text, pat, j);
    } else {
        assert(is_first_match(text, pat, w));
    }
}

/// Leftmost occurrence of a non-empty `pattern` in `text[from..to]`, as an
/// offset into `text`.
pub fn find_in_window(pattern: &[u8], text: &[u8], from: usize, to: usize) -> (r: Option<usize>)
    requires
        pattern@.len() > 0,
        from <= to <= text@.len(),
    ensures
        r == match first_match(text@.subrange(from as int, to as int), pattern@) {
            Some(i) => Some((i + from) as usize),
            None => None::<usize>,
        },
        r matches Some(i) ==> from <= i && i + pattern@.len() <= to
            && is_first_match(text@.subrange(from as int, to as int), pattern@, i - from),
{
    let window = vstd::slice::slice_subrange(text, from, to);
    let found = bm_find_first(pattern, window);
    match found {
        Some(i) => {
            proof { lemma_first_match_unique(window@, pattern@, i as int); }
            Some(i + from)
        },
        None => {
            assert(!exists|j: int| matches_at(window@, pattern@, j));
            None
        },
    }
}

/// The blank line that ends a header block.
pub open spec fn blank_line() -> Seq<u8> {
    seq![13u8, 10u8, 13u8, 10u8]
}

/// Offset just past the first blank line (`\r\n\r\n`) in `text`, which is
/// where a body begins after a header block.
pub fn find_body_start(text: &[u8]) -> (r: Option<usize>)
    ensures
        r == match first_match(text@, blank_line()) {
            Some(i) => Some((i + 4) as usize),
            None => None::<usize>,
        },
{
    let pattern: Vec<u8> = vec![13u8, 10u8, 13u8, 10u8];
    assert(pattern@ == blank_line());
    assert(text@.subrange(0, text@.len() as int) == text@);
    let found = find_in_window(pattern.as_slice(), text, 0, text.len());
    match found {
        Some(i) => {
            proof { lemma_first_match_unique(text@, blank_line(), i as int); }
            Some(i + 4)
        },
        None => None,
    }
}

} // verus!
