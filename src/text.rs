use vstd::prelude::*;

verus! {

/// Offset of the first `c` in `s` at or after `i`, or `s.len()`.
pub open spec fn next_byte(s: Seq<u8>, c: u8, i: int) -> int
    decreases s.len() - i,
{
    if i < 0 || i >= s.len() {
        s.len() as int
    } else if s[i] == c {
        i
    } else {
        next_byte(s, c, i + 1)
    }
}

/// Offset of the first `\r\n` in `s` at or after `i`, or `s.len()`.
pub open spec fn line_end(s: Seq<u8>, i: int) -> int
    decreases s.len() - i,
{
    if i < 0 || i >= s.len() {
        s.len() as int
    } else if i + 1 < s.len() && s[i] == 13u8 && s[i + 1] == 10u8 {
        i
    } else {
        line_end(s, i + 1)
    }
}

pub proof fn lemma_next_byte_bounds(s: Seq<u8>, c: u8, i: int)
    requires
        0 <= i <= s.len(),
    ensures
        i <= next_byte(s, c, i) <= s.len(),
        next_byte(s, c, i) < s.len() ==> s[next_byte(s, c, i)] == c,
    decreases s.len() - i,
{
    if i < s.len() && s[i] != c {
        lemma_next_byte_bounds(s, c, i + 1);
    }
}

pub proof fn lemma_line_end_bounds(s: Seq<u8>, i: int)
    requires
        0 <= i <= s.len(),
    ensures
        i <= line_end(s, i) <= s.len(),
        line_end(s, i) < s.len() ==> line_end(s, i) + 1 < s.len(),
    decreases s.len() - i,
{
    if i < s.len() && !(i + 1 < s.len() && s[i] == 13u8 && s[i + 1] == 10u8) {
        lemma_line_end_bounds(s, i + 1);
    }
}

/// Computes `next_byte(s, c, from)`.
pub fn find_byte_from(s: &[u8], c: u8, from: usize) -> (r: usize)
    requires
        from <= s@.len(),
    ensures
        r == next_byte(s@, c, from as int),
        from <= r <= s@.len(),
{
    let mut i: usize = from;
    proof { lemma_next_byte_bounds(s@, c, from as int); }
    while i < s.len() && s[i] != c
        invariant
            from <= i <= s@.len(),
            next_byte(s@, c, from as int) == next_byte(s@, c, i as int),
        decreases s@.len() - i,
    {
        i = i + 1;
    }
    i
}

/// Computes `line_end(s, from)`.
pub fn find_line_end(s: &[u8], from: usize) -> (r: usize)
    requires
        from <= s@.len(),
    ensures
        r == line_end(s@, from as int),
        from <= r <= s@.len(),
        r < s@.len() ==> r + 1 < s@.len(),
{
    let mut i: usize = from;
    proof { lemma_line_end_bounds(s@, from as int); }
    while i < s.len() && !(i + 1 < s.len() && s[i] == 13u8 && s[i + 1] == 10u8)
        invariant
            from <= i <= s@.len(),
            line_end(s@, from as int) == line_end(s@, i as int),
        decreases s@.len() - i,
    {
        i = i + 1;
    }
    i
}

pub open spec fn is_ascii_space(b: u8) -> bool {
    b == 32u8 || b == 9u8 || b == 10u8 || b == 11u8 || b == 12u8 || b == 13u8
}

/// First offset at or after `i` that is not ASCII white space.
pub open spec fn skip_space(s: Seq<u8>, i: int) -> int
    decreases s.len() - i,
{
    if 0 <= i < s.len() && is_ascii_space(s[i]) {
        skip_space(s, i + 1)
    } else {
        i
    }
}

/// One past the last offset below `j` that is not ASCII white space.
pub open spec fn trim_end_at(s: Seq<u8>, j: int) -> int
    decreases j,
{
    if 0 < j <= s.len() && is_ascii_space(s[j - 1]) {
        trim_end_at(s, j - 1)
    } else {
        j
    }
}

pub open spec fn trim_start(s: Seq<u8>) -> Seq<u8> {
    s.subrange(skip_space(s, 0), s.len() as int)
}

/// `s` without leading or trailing ASCII white space.
pub open spec fn trim(s: Seq<u8>) -> Seq<u8> {
    let t = trim_start(s);
    t.subrange(0, trim_end_at(t, t.len() as int))
}

pub proof fn lemma_skip_space_bounds(s: Seq<u8>, i: int)
    requires
        0 <= i <= s.len(),
    ensures
        i <= skip_space(s, i) <= s.len(),
    decreases s.len() - i,
{
    if i < s.len() && is_ascii_space(s[i]) {
        lemma_skip_space_bounds(s, i + 1);
    }
}

proof fn lemma_trim_end_bounds(s: Seq<u8>, j: int)
    requires
        0 <= j <= s.len(),
    ensures
        0 <= trim_end_at(s, j) <= j,
    decreases j,
{
    if 0 < j && is_ascii_space(s[j - 1]) {
        lemma_trim_end_bounds(s, j - 1);
    }
}

pub fn trim_start_slice(s: &[u8]) -> (r: &[u8])
    ensures
        r@ == trim_start(s@),
{
    let mut i: usize = 0;
    proof { lemma_skip_space_bounds(s@, 0); }
    while i < s.len() && (s[i] == 32u8 || s[i] == 9u8 || s[i] == 10u8 || s[i] == 11u8 || s[i] == 12u8 || s[i] == 13u8)
        invariant
            i <= s@.len(),
            skip_space(s@, 0) == skip_space(s@, i as int),
        decreases s@.len() - i,
    {
        i = i + 1;
    }
    vstd::slice::slice_subrange(s, i, s.len())
}

pub fn trim_slice(s: &[u8]) -> (r: &[u8])
    ensures
        r@ == trim(s@),
{
    let t = trim_start_slice(s);
    let mut j: usize = t.len();
    proof { lemma_trim_end_bounds(t@, t@.len() as int); }
    while j > 0 && (t[j - 1] == 32u8 || t[j - 1] == 9u8 || t[j - 1] == 10u8 || t[j - 1] == 11u8 || t[j - 1] == 12u8 || t[j - 1] == 13u8)
        invariant
            j <= t@.len(),
            trim_end_at(t@, t@.len() as int) == trim_end_at(t@, j as int),
        decreases j,
    {
        j = j - 1;
    }
    vstd::slice::slice_subrange(t, 0, j)
}

pub open spec fn ascii_lower(b: u8) -> u8 {
    if 65u8 <= b <= 90u8 { (b + 32) as u8 } else { b }
}

/// `s` equals `lower` once ASCII upper-case letters of `s` are folded.
pub open spec fn eq_ignore_case(s: Seq<u8>, lower: Seq<u8>) -> bool {
    s.len() == lower.len() && forall|i: int| 0 <= i < s.len() ==> ascii_lower(#[trigger] s[i]) == lower[i]
}

pub fn eq_ignore_case_slice(s: &[u8], lower: &[u8]) -> (r: bool)
    ensures
        r == eq_ignore_case(s@, lower@),
{
    if s.len() != lower.len() {
        return false;
    }
    let mut i: usize = 0;
    while i < s.len()
        invariant
            i <= s@.len() == lower@.len(),
            forall|k: int| 0 <= k < i ==> ascii_lower(#[trigger] s@[k]) == lower@[k],
        decreases s@.len() - i,
    {
        let b = s[i];
        let l = if 65u8 <= b && b <= 90u8 { b + 32 } else { b };
        if l != lower[i] {
            return false;
        }
        i = i + 1;
    }
    true
}

pub fn slices_equal(a: &[u8], b: &[u8]) -> (r: bool)
    ensures
        r == (a@ == b@),
{
    if a.len() != b.len() {
        return false;
    }
    let mut i: usize = 0;
    while i < a.len()
        invariant
            i <= a@.len() == b@.len(),
            forall|k: int| 0 <= k < i ==> a@[k] == b@[k],
        decreases a@.len() - i,
    {
        if a[i] != b[i] {
            return false;
        }
        i = i + 1;
    }
    assert(a@ =~= b@);
    true
}

pub fn starts_with_slice(s: &[u8], prefix: &[u8]) -> (r: bool)
    ensures
        r == (prefix@.len() <= s@.len() && s@.subrange(0, prefix@.len() as int) == prefix@),
{
    if prefix.len() > s.len() {
        return false;
    }
    let head = vstd::slice::slice_subrange(s, 0, prefix.len());
    slices_equal(head, prefix)
}

pub fn contains_byte(s: &[u8], c: u8) -> (r: bool)
    ensures
        r == exists|i: int| 0 <= i < s@.len() && s@[i] == c,
{
    let e = find_byte_from(s, c, 0);
    proof { lemma_next_byte_bounds(s@, c, 0); lemma_next_byte_absent(s@, c, 0); }
    e < s.len()
}

pub proof fn lemma_next_byte_absent(s: Seq<u8>, c: u8, i: int)
    requires
        0 <= i <= s.len(),
    ensures
        forall|k: int| i <= k < next_byte(s, c, i) ==> s[k] != c,
    decreases s.len() - i,
{
    if i < s.len() && s[i] != c {
        lemma_next_byte_absent(s, c, i + 1);
    }
}

} // verus!
