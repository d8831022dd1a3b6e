use vstd::prelude::*;
use crate::request::HttpMethod;

verus! {

/// `s` padded with spaces on the right to at least `w` bytes.
pub open spec fn pad_right(s: Seq<u8>, w: nat) -> Seq<u8> {
    if s.len() >= w { s } else { s + Seq::new((w - s.len()) as nat, |_i: int| 32u8) }
}

/// The decimal digits of `n`.
pub open spec fn decimal(n: nat) -> Seq<u8>
    decreases n,
{
    if n < 10 { seq![(48 + n) as u8] } else { decimal(n / 10).push((48 + n % 10) as u8) }
}

/// Names joined by `, `.
pub open spec fn join_names(f: Seq<Seq<u8>>) -> Seq<u8>
    decreases f.len(),
{
    if f.len() == 0 {
        Seq::empty()
    } else if f.len() == 1 {
        f[0]
    } else {
        join_names(f.drop_last()) + seq![44u8, 32u8] + f.last()
    }
}

pub open spec fn method_label(m: Option<HttpMethod>) -> Seq<u8> {
    match m {
        Some(HttpMethod::GET) => seq![71u8, 69u8, 84u8],
        Some(HttpMethod::HEAD) => seq![72u8, 69u8, 65u8, 68u8],
        Some(HttpMethod::POST) => seq![80u8, 79u8, 83u8, 84u8],
        None => seq![63u8, 63u8, 63u8],
    }
}

/// `[No path...]`
pub open spec fn no_path() -> Seq<u8> {
    seq![91u8, 78u8, 111u8, 32u8, 112u8, 97u8, 116u8, 104u8, 46u8, 46u8, 46u8, 93u8]
}

/// ` files: `
pub open spec fn files_label() -> Seq<u8> {
    seq![32u8, 102u8, 105u8, 108u8, 101u8, 115u8, 58u8, 32u8]
}

/// One history line: the peer padded to 22 bytes, the status code (three
/// spaces when none was sent), the method padded to 4 (`???` when unknown),
/// the path (`[No path...]` when none was read) and any uploaded files.
pub open spec fn history_line_spec(
    peer: Seq<u8>,
    code: Option<u16>,
    method: Option<HttpMethod>,
    path: Option<Seq<u8>>,
    files: Seq<Seq<u8>>,
) -> Seq<u8> {
    pad_right(peer, 22) + seq![32u8]
        + match code { Some(c) => decimal(c as nat), None => seq![32u8, 32u8, 32u8] }
        + seq![32u8] + pad_right(method_label(method), 4) + seq![32u8]
        + match path { Some(p) => p, None => no_path() }
        + if files.len() > 0 { files_label() + join_names(files) } else { Seq::empty() }
}

fn push_all(out: &mut Vec<u8>, s: &[u8])
    ensures
        final(out)@ == old(out)@ + s@,
{
    let mut i: usize = 0;
    while i < s.len()
        invariant
            i <= s@.len(),
            out@ == old(out)@ + s@.subrange(0, i as int),
        decreases s@.len() - i,
    {
        out.push(s[i]);
        i = i + 1;
        assert(out@ =~= old(out)@ + s@.subrange(0, i as int));
    }
    assert(s@.subrange(0, s@.len() as int) =~= s@);
}

fn push_padded(out: &mut Vec<u8>, s: &[u8], w: usize)
    ensures
        final(out)@ == old(out)@ + pad_right(s@, w as nat),
{
    push_all(out, s);
    let mut k: usize = s.len();
    while k < w
        invariant
            k <= w || k == s@.len(),
            out@ == old(out)@ + s@ + Seq::new((k - s@.len()) as nat, |_i: int| 32u8),
            k >= s@.len(),
        decreases w - k,
    {
        out.push(32u8);
        k = k + 1;
        assert(out@ =~= old(out)@ + s@ + Seq::new((k - s@.len()) as nat, |_i: int| 32u8));
    }
    if s.len() >= w {
        assert(Seq::new((k - s@.len()) as nat, |_i: int| 32u8) =~= Seq::<u8>::empty());
        assert(out@ =~= old(out)@ + s@);
    } else {
        assert(k == w);
    }
    assert(out@ =~= old(out)@ + pad_right(s@, w as nat));
}

fn push_decimal(out: &mut Vec<u8>, n: u16)
    ensures
        final(out)@ == old(out)@ + decimal(n as nat),
    decreases n,
{
    if n >= 10 {
        push_decimal(out, n / 10);
    }
    out.push(48u8 + (n % 10) as u8);
    proof {
        if n >= 10 {
            assert(decimal(n as nat) == decimal((n / 10) as nat).push((48 + n % 10) as u8));
        }
    }
    assert(out@ =~= old(out)@ + decimal(n as nat));
}

fn push_code(out: &mut Vec<u8>, code: Option<u16>)
    ensures
        final(out)@ == old(out)@ + match code { Some(c) => decimal(c as nat), None => seq![32u8, 32u8, 32u8] },
{
    match code {
        Some(c) => push_decimal(out, c),
        None => {
            out.push(32u8);
            out.push(32u8);
            out.push(32u8);
            assert(out@ =~= old(out)@ + seq![32u8, 32u8, 32u8]);
        },
    }
}

fn push_method(out: &mut Vec<u8>, method: Option<HttpMethod>)
    ensures
        final(out)@ == old(out)@ + pad_right(method_label(method), 4),
{
    let label: Vec<u8> = match method {
        Some(HttpMethod::GET) => vec![71u8, 69u8, 84u8],
        Some(HttpMethod::HEAD) => vec![72u8, 69u8, 65u8, 68u8],
        Some(HttpMethod::POST) => vec![80u8, 79u8, 83u8, 84u8],
        None => vec![63u8, 63u8, 63u8],
    };
    assert(label@ == method_label(method));
    push_padded(out, label.as_slice(), 4);
}

fn push_path(out: &mut Vec<u8>, path: Option<&[u8]>)
    ensures
        final(out)@ == old(out)@ + match path { Some(p) => p@, None => no_path() },
{
    match path {
        Some(p) => push_all(out, p),
        None => {
            let np: Vec<u8> = vec![91u8, 78u8, 111u8, 32u8, 112u8, 97u8, 116u8, 104u8, 46u8, 46u8, 46u8, 93u8];
            assert(np@ == no_path());
            push_all(out, np.as_slice());
        },
    }
}

fn push_files(out: &mut Vec<u8>, files: &Vec<Vec<u8>>)
    ensures
        final(out)@ == old(out)@ + ({
            let fs = files@.map_values(|f: Vec<u8>| f@);
            if fs.len() > 0 { files_label() + join_names(fs) } else { Seq::empty() }
        }),
{
    let ghost fs = files@.map_values(|f: Vec<u8>| f@);
    if files.len() == 0 {
        assert(out@ =~= old(out)@ + Seq::<u8>::empty());
        return;
    }
    let fl: Vec<u8> = vec![32u8, 102u8, 105u8, 108u8, 101u8, 115u8, 58u8, 32u8];
    assert(fl@ == files_label());
    push_all(out, fl.as_slice());
    let ghost base = out@;
    push_all(out, files[0].as_slice());
    assert(fs.subrange(0, 1) =~= seq![fs[0]]);
    assert(out@ =~= base + join_names(fs.subrange(0, 1)));
    let mut i: usize = 1;
    while i < files.len()
        invariant
            1 <= i <= files@.len(),
            fs == files@.map_values(|f: Vec<u8>| f@),
            out@ == base + join_names(fs.subrange(0, i as int)),
        decreases files@.len() - i,
    {
        let sep: Vec<u8> = vec![44u8, 32u8];
        push_all(out, sep.as_slice());
        push_all(out, files[i].as_slice());
        assert(fs.subrange(0, i + 1).drop_last() =~= fs.subrange(0, i as int));
        assert(sep@ == seq![44u8, 32u8]);
        assert(out@ =~= base + join_names(fs.subrange(0, i + 1)));
        i = i + 1;
    }
    assert(fs.subrange(0, files@.len() as int) =~= fs);
    assert(out@ =~= old(out)@ + (files_label() + join_names(fs)));
}

/// The history line for a request: see `history_line_spec`.
pub fn history_line(
    peer: &[u8],
    code: Option<u16>,
    method: Option<HttpMethod>,
    path: Option<&[u8]>,
    files: &Vec<Vec<u8>>,
) -> (r: Vec<u8>)
    ensures
        r@ == history_line_spec(peer@, code, method, match path {
            Some(p) => Some(p@),
            None => None,
        }, files@.map_values(|f: Vec<u8>| f@)),
{
    let mut out: Vec<u8> = Vec::new();
    push_padded(&mut out, peer, 22);
    out.push(32u8);
    push_code(&mut out, code);
    out.push(32u8);
    push_method(&mut out, method);
    out.push(32u8);
    push_path(&mut out, path);
    push_files(&mut out, files);
    proof {
        let hs = history_line_spec(peer@, code, method, match path {
            Some(p) => Some(p@),
            None => None,
        }, files@.map_values(|f: Vec<u8>| f@));
        assert(out@ =~= hs);
    }
    out
}

} // verus!
