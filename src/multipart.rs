use vstd::prelude::*;
use vstd::string::StringSliceAdditionalSpecFns;
use crate::status::HttpStatus;
use crate::text::{
    contains_byte, eq_ignore_case, eq_ignore_case_slice, find_byte_from, find_line_end, line_end,
    next_byte, slices_equal, trim, trim_slice, trim_start, trim_start_slice,
};

verus! {

/// Why an upload failed. Each reason carries the status it is reported with.
#[derive(PartialEq, Eq, Debug, Clone, Copy, Structural)]
pub enum UploadFault {
    /// A part's header block has no Content-Disposition value.
    MissingDisposition,
    /// The disposition names no filename.
    MissingFilename,
    /// The filename holds a path separator.
    InvalidFilename,
    /// The destination file could not be created (it may already exist).
    CannotCreate,
    /// Writing to the destination file failed.
    WriteFailed,
    /// The upload would go past the configured size limit.
    TooLarge,
    /// A boundary was not preceded by CRLF.
    MissingCrlf,
    /// A partially written file could not be removed.
    RemoveFailed,
    /// The parser was driven with an event it did not ask for.
    Internal,
}

pub open spec fn fault_status(f: UploadFault) -> HttpStatus {
    match f {
        UploadFault::MissingDisposition => HttpStatus::UnprocessableEntity,
        UploadFault::MissingFilename => HttpStatus::UnprocessableEntity,
        UploadFault::InvalidFilename => HttpStatus::UnprocessableEntity,
        UploadFault::TooLarge => HttpStatus::PayloadTooLarge,
        UploadFault::MissingCrlf => HttpStatus::BadRequest,
        _ => HttpStatus::ServerError,
    }
}

impl UploadFault {
    pub fn status(&self) -> (r: HttpStatus)
        ensures
            r == fault_status(*self),
    {
        match self {
            UploadFault::MissingDisposition => HttpStatus::UnprocessableEntity,
            UploadFault::MissingFilename => HttpStatus::UnprocessableEntity,
            UploadFault::InvalidFilename => HttpStatus::UnprocessableEntity,
            UploadFault::TooLarge => HttpStatus::PayloadTooLarge,
            UploadFault::MissingCrlf => HttpStatus::BadRequest,
            _ => HttpStatus::ServerError,
        }
    }
}

pub open spec fn disposition_key() -> Seq<u8> {
    "content-disposition:".spec_bytes()
}

pub open spec fn filename_key() -> Seq<u8> {
    "filename".spec_bytes()
}

/// The value of the first line of `s`, from offset `i` on, whose name
/// (up to and including its first `:`) is `Content-Disposition:` in any case.
pub open spec fn disposition_from(s: Seq<u8>, i: int) -> Option<Seq<u8>>
    decreases s.len() - i,
{
    if i < 0 || i > s.len() {
        None
    } else {
        let e = line_end(s, i);
        let line = s.subrange(i, e);
        let colon = next_byte(line, 58u8, 0);
        if colon < line.len() && eq_ignore_case(line.subrange(0, colon + 1), disposition_key()) {
            Some(line.subrange(colon + 1, line.len() as int))
        } else if e < i || e + 2 > s.len() {
            None
        } else {
            disposition_from(s, e + 2)
        }
    }
}

/// The trimmed value of the first `;`-separated attribute of `s`, from
/// offset `i` on, whose key is `filename` (leading white space aside).
pub open spec fn filename_from(s: Seq<u8>, i: int) -> Option<Seq<u8>>
    decreases s.len() - i,
{
    if i < 0 || i > s.len() {
        None
    } else {
        let e = next_byte(s, 59u8, i);
        let seg = s.subrange(i, e);
        let eq = next_byte(seg, 61u8, 0);
        if eq < seg.len() && trim_start(seg.subrange(0, eq)) == filename_key() {
            Some(trim(seg.subrange(eq + 1, seg.len() as int)))
        } else if e < i || e >= s.len() {
            None
        } else {
            filename_from(s, e + 1)
        }
    }
}

/// A filename given in quotes loses its first and last byte.
pub open spec fn unquote(f: Seq<u8>) -> Seq<u8> {
    if f.len() > 0 && f[0] == 34u8 {
        if f.len() >= 2 { f.subrange(1, f.len() - 1) } else { Seq::empty() }
    } else {
        f
    }
}

/// The filename that a part's header block names, or why it names none.
pub open spec fn part_filename(meta: Seq<u8>) -> Result<Seq<u8>, UploadFault> {
    match disposition_from(meta, 0) {
        None => Err(UploadFault::MissingDisposition),
        Some(info) => if info.len() == 0 {
            Err(UploadFault::MissingDisposition)
        } else {
            match filename_from(info, 0) {
                None => Err(UploadFault::MissingFilename),
                Some(f) => if f.len() == 0 {
                    Err(UploadFault::MissingFilename)
                } else if exists|k: int| 0 <= k < f.len() && f[k] == 47u8 {
                    Err(UploadFault::InvalidFilename)
                } else if unquote(f).len() == 0 {
                    Err(UploadFault::MissingFilename)
                } else {
                    Ok(unquote(f))
                },
            }
        },
    }
}

fn find_disposition(s: &[u8]) -> (r: Option<&[u8]>)
    ensures
        match r {
            Some(v) => disposition_from(s@, 0) == Some(v@),
            None => disposition_from(s@, 0) is None,
        },
{
    let key = "content-disposition:".as_bytes();
    let mut i: usize = 0;
    while i <= s.len()
        invariant
            i <= s@.len() + 1,
            key@ == disposition_key(),
            disposition_from(s@, 0) == disposition_from(s@, i as int),
        decreases s@.len() + 1 - i,
    {
        let e = find_line_end(s, i);
        let line = vstd::slice::slice_subrange(s, i, e);
        let colon = find_byte_from(line, 58u8, 0);
        if colon < line.len() {
            let head = vstd::slice::slice_subrange(line, 0, colon + 1);
            if eq_ignore_case_slice(head, key) {
                return Some(vstd::slice::slice_subrange(line, colon + 1, line.len()));
            }
        }
        if e >= s.len() {
            return None;
        }
        i = e + 2;
    }
    None
}

fn find_filename(s: &[u8]) -> (r: Option<&[u8]>)
    ensures
        match r {
            Some(v) => filename_from(s@, 0) == Some(v@),
            None => filename_from(s@, 0) is None,
        },
{
    let key = "filename".as_bytes();
    let mut i: usize = 0;
    while i <= s.len()
        invariant
            i <= s@.len() + 1,
            key@ == filename_key(),
            filename_from(s@, 0) == filename_from(s@, i as int),
        decreases s@.len() + 1 - i,
    {
        let e = find_byte_from(s, 59u8, i);
        let seg = vstd::slice::slice_subrange(s, i, e);
        let eq = find_byte_from(seg, 61u8, 0);
        if eq < seg.len() {
            let k = trim_start_slice(vstd::slice::slice_subrange(seg, 0, eq));
            if slices_equal(k, key) {
                return Some(trim_slice(vstd::slice::slice_subrange(seg, eq + 1, seg.len())));
            }
        }
        if e >= s.len() {
            return None;
        }
        i = e + 1;
    }
    None
}

/// Reads the destination filename out of a part's header block: the
/// `filename` attribute of its Content-Disposition header, quoted or bare.
/// A filename is a single path segment.
pub fn parse_part_filename(meta: &[u8]) -> (r: Result<Vec<u8>, UploadFault>)
    ensures
        match r {
            Ok(f) => part_filename(meta@) == Ok::<Seq<u8>, UploadFault>(f@),
            Err(e) => part_filename(meta@) == Err::<Seq<u8>, UploadFault>(e),
        },
{
    let info = match find_disposition(meta) {
        Some(v) => v,
        None => { return Err(UploadFault::MissingDisposition); },
    };
    if info.len() == 0 {
        return Err(UploadFault::MissingDisposition);
    }
    let f = match find_filename(info) {
        Some(v) => v,
        None => { return Err(UploadFault::MissingFilename); },
    };
    if f.len() == 0 {
        return Err(UploadFault::MissingFilename);
    }
    if contains_byte(f, 47u8) {
        return Err(UploadFault::InvalidFilename);
    }
    let name = if f[0] == 34u8 {
        if f.len() >= 2 {
            vstd::slice::slice_subrange(f, 1, f.len() - 1)
        } else {
            vstd::slice::slice_subrange(f, 0, 0)
        }
    } else {
        f
    };
    proof {
        if f@[0] == 34u8 && f@.len() < 2 {
            assert(name@ =~= Seq::<u8>::empty());
        }
    }
    if name.len() == 0 {
        return Err(UploadFault::MissingFilename);
    }
    Ok(vstd::slice::slice_to_vec(name))
}

} // verus!
