use vstd::prelude::*;
use vstd::string::StringSliceAdditionalSpecFns;
use crate::status::HttpStatus;
use crate::text::{
    eq_ignore_case, eq_ignore_case_slice, find_byte_from, find_line_end, line_end, next_byte,
    starts_with_slice, trim, trim_slice, trim_start, trim_start_slice,
};

verus! {

#[derive(PartialEq, Eq, Debug, Clone, Copy, Structural)]
pub enum HttpMethod {
    GET,
    HEAD,
    POST,
}

#[derive(PartialEq, Eq, Debug, Clone, Copy, Structural)]
pub enum HttpVersion {
    Http1_0,
    Http1_1,
}

/// A decoded request head. Header lines are kept as received and looked
/// up by name.
#[derive(Debug)]
pub struct HttpRequest {
    /// `None` for a method this server does not implement.
    pub method: Option<HttpMethod>,
    pub path: Vec<u8>,
    pub version: HttpVersion,
    pub headers: Vec<u8>,
}

/// Whether `std::str::from_utf8` accepts these bytes.
pub uninterp spec fn utf8_valid(b: Seq<u8>) -> bool;

/// Relies on `std::str::from_utf8`, which accepts exactly the well-formed
/// UTF-8 byte sequences.
#[verifier::external_body]
fn is_utf8(b: &[u8]) -> (r: bool)
    ensures
        r == utf8_valid(b@),
{
    std::str::from_utf8(b).is_ok()
}

pub open spec fn method_of(m: Seq<u8>) -> Option<HttpMethod> {
    if m == "GET".spec_bytes() {
        Some(HttpMethod::GET)
    } else if m == "HEAD".spec_bytes() {
        Some(HttpMethod::HEAD)
    } else if m == "POST".spec_bytes() {
        Some(HttpMethod::POST)
    } else {
        None
    }
}

pub open spec fn version_of(v: Seq<u8>) -> Option<HttpVersion> {
    if v == "HTTP/1.1".spec_bytes() {
        Some(HttpVersion::Http1_1)
    } else if v == "HTTP/1.0".spec_bytes() {
        Some(HttpVersion::Http1_0)
    } else {
        None
    }
}

/// The request line `METHOD SP path SP version`, then header lines. Any
/// malformation of the request line is a 400.
pub open spec fn request_spec(s: Seq<u8>) -> Result<(Option<HttpMethod>, Seq<u8>, HttpVersion, Seq<u8>), HttpStatus> {
    let e = line_end(s, 0);
    let line = s.subrange(0, e);
    let sp1 = next_byte(line, 32u8, 0);
    let sp2 = next_byte(line, 32u8, sp1 + 1);
    if sp1 >= line.len() || sp2 >= line.len() {
        Err(HttpStatus::BadRequest)
    } else {
        match version_of(line.subrange(sp2 + 1, line.len() as int)) {
            None => Err(HttpStatus::BadRequest),
            Some(v) => Ok((
                method_of(line.subrange(0, sp1)),
                line.subrange(sp1 + 1, sp2),
                v,
                if e + 2 <= s.len() { s.subrange(e + 2, s.len() as int) } else { Seq::empty() },
            )),
        }
    }
}

fn method_from(m: &[u8]) -> (r: Option<HttpMethod>)
    ensures
        r == method_of(m@),
{
    if crate::text::slices_equal(m, "GET".as_bytes()) {
        Some(HttpMethod::GET)
    } else if crate::text::slices_equal(m, "HEAD".as_bytes()) {
        Some(HttpMethod::HEAD)
    } else if crate::text::slices_equal(m, "POST".as_bytes()) {
        Some(HttpMethod::POST)
    } else {
        None
    }
}

fn version_from(v: &[u8]) -> (r: Option<HttpVersion>)
    ensures
        r == version_of(v@),
{
    if crate::text::slices_equal(v, "HTTP/1.1".as_bytes()) {
        Some(HttpVersion::Http1_1)
    } else if crate::text::slices_equal(v, "HTTP/1.0".as_bytes()) {
        Some(HttpVersion::Http1_0)
    } else {
        None
    }
}

/// Decodes a request head whose bytes are known to be text.
pub fn parse_request(req_body: &[u8]) -> (r: Result<HttpRequest, HttpStatus>)
    ensures
        match r {
            Ok(req) => request_spec(req_body@) == Ok::<(Option<HttpMethod>, Seq<u8>, HttpVersion, Seq<u8>), HttpStatus>(
                (req.method, req.path@, req.version, req.headers@)),
            Err(st) => request_spec(req_body@) == Err::<(Option<HttpMethod>, Seq<u8>, HttpVersion, Seq<u8>), HttpStatus>(st),
        },
{
    let e = find_line_end(req_body, 0);
    let line = vstd::slice::slice_subrange(req_body, 0, e);
    let sp1 = find_byte_from(line, 32u8, 0);
    if sp1 >= line.len() {
        return Err(HttpStatus::BadRequest);
    }
    let sp2 = find_byte_from(line, 32u8, sp1 + 1);
    if sp2 >= line.len() {
        return Err(HttpStatus::BadRequest);
    }
    let version = match version_from(vstd::slice::slice_subrange(line, sp2 + 1, line.len())) {
        Some(v) => v,
        None => { return Err(HttpStatus::BadRequest); },
    };
    let method = method_from(vstd::slice::slice_subrange(line, 0, sp1));
    let path = vstd::slice::slice_to_vec(vstd::slice::slice_subrange(line, sp1 + 1, sp2));
    let headers = if e < req_body.len() {
        vstd::slice::slice_to_vec(vstd::slice::slice_subrange(req_body, e + 2, req_body.len()))
    } else {
        Vec::new()
    };
    proof {
        if !(e < req_body@.len()) {
            assert(headers@ =~= Seq::<u8>::empty());
        }
    }
    Ok(HttpRequest { method, path, version, headers })
}

/// Decodes a request head: text that is not UTF-8 is a 400.
pub fn decode_request(req_body: &[u8]) -> (r: Result<HttpRequest, HttpStatus>)
    ensures
        !utf8_valid(req_body@) ==> r == Err::<HttpRequest, HttpStatus>(HttpStatus::BadRequest),
        utf8_valid(req_body@) ==> match r {
            Ok(req) => request_spec(req_body@) == Ok::<(Option<HttpMethod>, Seq<u8>, HttpVersion, Seq<u8>), HttpStatus>(
                (req.method, req.path@, req.version, req.headers@)),
            Err(st) => request_spec(req_body@) == Err::<(Option<HttpMethod>, Seq<u8>, HttpVersion, Seq<u8>), HttpStatus>(st),
        },
{
    if !is_utf8(req_body) {
        return Err(HttpStatus::BadRequest);
    }
    parse_request(req_body)
}

/// The trimmed value of the first header line of `s`, from offset `i` on,
/// whose name matches `name` (given in lower case) in any case.
pub open spec fn header_from(s: Seq<u8>, name: Seq<u8>, i: int) -> Option<Seq<u8>>
    decreases s.len() - i,
{
    if i < 0 || i > s.len() {
        None
    } else {
        let e = line_end(s, i);
        let line = s.subrange(i, e);
        let colon = next_byte(line, 58u8, 0);
        if colon < line.len() && eq_ignore_case(line.subrange(0, colon), name) {
            Some(trim(line.subrange(colon + 1, line.len() as int)))
        } else if e < i || e + 2 > s.len() {
            None
        } else {
            header_from(s, name, e + 2)
        }
    }
}

pub open spec fn header_value(req: &HttpRequest, name: Seq<u8>) -> Option<Seq<u8>> {
    header_from(req.headers@, name, 0)
}

impl HttpRequest {
    /// The value of the first header called `name` (given in lower case).
    pub fn get_header(&self, name: &[u8]) -> (r: Option<&[u8]>)
        ensures
            match r {
                Some(v) => header_value(self, name@) == Some(v@),
                None => header_value(self, name@) is None,
            },
    {
        let s = self.headers.as_slice();
        let mut i: usize = 0;
        while i <= s.len()
            invariant
                i <= s@.len() + 1,
                s@ == self.headers@,
                header_from(s@, name@, 0) == header_from(s@, name@, i as int),
            decreases s@.len() + 1 - i,
        {
            let e = find_line_end(s, i);
            let line = vstd::slice::slice_subrange(s, i, e);
            let colon = find_byte_from(line, 58u8, 0);
            if colon < line.len() {
                if eq_ignore_case_slice(vstd::slice::slice_subrange(line, 0, colon), name) {
                    return Some(trim_slice(vstd::slice::slice_subrange(line, colon + 1, line.len())));
                }
            }
            if e >= s.len() {
                return None;
            }
            i = e + 2;
        }
        None
    }
}

/// `boundary=`
pub open spec fn boundary_prefix() -> Seq<u8> {
    seq![98u8, 111u8, 117u8, 110u8, 100u8, 97u8, 114u8, 121u8, 61u8]
}

/// The boundary named by the first `;`-separated parameter of `s`, from
/// offset `i` on, that reads `boundary=<token>` or `boundary="<token>"`.
pub open spec fn boundary_from(s: Seq<u8>, i: int) -> Option<Seq<u8>>
    decreases s.len() - i,
{
    if i < 0 || i > s.len() {
        None
    } else {
        let e = next_byte(s, 59u8, i);
        let seg = s.subrange(i, e);
        let t = trim_start(seg);
        if t.len() >= 9 && t.subrange(0, 9) == boundary_prefix() {
            let inner = seg.subrange(next_byte(seg, 61u8, 0), seg.len() as int);
            if inner.len() >= 3 && inner[1] == 34u8 {
                Some(inner.subrange(2, inner.len() - 1))
            } else {
                Some(inner.subrange(1, inner.len() as int))
            }
        } else if e < i || e >= s.len() {
            None
        } else {
            boundary_from(s, e + 1)
        }
    }
}

/// The multipart boundary named by the request's Content-Type header.
pub fn get_post_boundary(req: &HttpRequest) -> (r: Option<Vec<u8>>)
    ensures
        match header_value(req, "content-type".spec_bytes()) {
            None => r is None,
            Some(ct) => match r {
                Some(b) => boundary_from(ct, 0) == Some(b@),
                None => boundary_from(ct, 0) is None,
            },
        },
{
    let ct = match req.get_header("content-type".as_bytes()) {
        Some(v) => v,
        None => { return None; },
    };
    let prefix_bytes: Vec<u8> = vec![98u8, 111u8, 117u8, 110u8, 100u8, 97u8, 114u8, 121u8, 61u8];
    let prefix = prefix_bytes.as_slice();
    assert(prefix@ == boundary_prefix());
    let mut i: usize = 0;
    while i <= ct.len()
        invariant
            i <= ct@.len() + 1,
            prefix@ == boundary_prefix(),
            header_value(req, "content-type".spec_bytes()) == Some(ct@),
            boundary_from(ct@, 0) == boundary_from(ct@, i as int),
        decreases ct@.len() + 1 - i,
    {
        let e = find_byte_from(ct, 59u8, i);
        let seg = vstd::slice::slice_subrange(ct, i, e);
        let t = trim_start_slice(seg);
        if starts_with_slice(t, prefix) {
            let eq = find_byte_from(seg, 61u8, 0);
            proof {
                // a '=' is in the segment, since "boundary=" is
                assert(prefix@[8] == 61u8);
                assert(t@.subrange(0, 9)[8] == 61u8);
                assert(t@[8] == 61u8);
                crate::text::lemma_skip_space_bounds(seg@, 0);
                let k = crate::text::skip_space(seg@, 0) + 8;
                assert(seg@[k] == 61u8);
                crate::text::lemma_next_byte_bounds(seg@, 61u8, 0);
                crate::text::lemma_next_byte_absent(seg@, 61u8, 0);
            }
            let inner = vstd::slice::slice_subrange(seg, eq, seg.len());
            assert(t@.len() >= 9 && t@.subrange(0, 9) == boundary_prefix());
            assert(inner@ == seg@.subrange(next_byte(seg@, 61u8, 0), seg@.len() as int));
            if inner.len() >= 3 && inner[1] == 34u8 {
                return Some(vstd::slice::slice_to_vec(vstd::slice::slice_subrange(inner, 2, inner.len() - 1)));
            }
            return Some(vstd::slice::slice_to_vec(vstd::slice::slice_subrange(inner, 1, inner.len())));
        }
        if e >= ct.len() {
            return None;
        }
        i = e + 1;
    }
    None
}

/// Keep-alive only on an explicit `Connection: keep-alive`, whatever the
/// HTTP version.
pub fn wants_keep_alive(req: &HttpRequest) -> (r: bool)
    ensures
        r == match header_value(req, "connection".spec_bytes()) {
            Some(v) => eq_ignore_case(v, "keep-alive".spec_bytes()),
            None => false,
        },
{
    match req.get_header("connection".as_bytes()) {
        Some(v) => eq_ignore_case_slice(v, "keep-alive".as_bytes()),
        None => false,
    }
}

/// An HTTP/1.1 request that asked for `100 Continue` before its body.
pub fn expects_continue(req: &HttpRequest) -> (r: bool)
    ensures
        r == (req.version == HttpVersion::Http1_1
            && header_value(req, "expect".spec_bytes()) == Some("100-continue".spec_bytes())),
{
    if req.version != HttpVersion::Http1_1 {
        return false;
    }
    match req.get_header("expect".as_bytes()) {
        Some(v) => crate::text::slices_equal(v, "100-continue".as_bytes()),
        None => false,
    }
}

} // verus!
