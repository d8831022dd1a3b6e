use vstd::prelude::*;
use vstd::string::StringSliceAdditionalSpecFns;
use crate::post_buffer::{Pending, PostBuffer, PostRequestState, MAX_DELIMITER_LEN, POST_BUFFER_SIZE};
use crate::range::{clamp_range, clamp_range_spec, decode_content_range_bytes, decode_content_range_spec, ServedRange};
use crate::request::{
    decode_request, get_post_boundary, request_spec, utf8_valid, wants_keep_alive, header_value,
    boundary_from, HttpMethod, HttpRequest, HttpVersion,
};
use crate::search::{blank_line, find_body_start, first_match};
use crate::status::HttpStatus;

verus! {

/// Capacity of a connection's request-head buffer.
pub const BUFFER_SIZE: usize = 4096;

#[derive(PartialEq, Eq, Debug, Clone, Copy, Structural)]
pub enum ConnectionState {
    ReadingRequest,
    ReadingPostBody,
    WritingResponse,
    Closing,
}

/// Per-connection protocol state; the socket and the response being sent
/// are held beside it by the event loop.
pub struct HttpConnection {
    pub state: ConnectionState,
    pub buffer: Vec<u8>,
    pub bytes_read: usize,
    pub body_start_location: usize,
    pub post_buffer: Option<PostBuffer>,
    pub has_response: bool,
    pub last_requested_method: Option<HttpMethod>,
    pub last_requested_uri: Option<Vec<u8>>,
    pub num_requests: usize,
    pub keep_alive: bool,
    pub bytes_requested: usize,
    pub bytes_sent: usize,
}

/// What one read of request-head bytes led to.
#[derive(PartialEq, Eq, Debug, Clone, Copy, Structural)]
pub enum HeaderStep {
    /// The peer closed the connection.
    PeerClosed,
    /// The buffer is full and holds no complete head (431).
    TooLarge,
    /// A complete head has arrived.
    RequestReady,
    NeedMore,
}

/// How a decoded request is to be answered.
#[derive(PartialEq, Eq, Debug, Clone)]
pub enum RequestPlan {
    Error(HttpStatus),
    /// GET, or HEAD when `head` holds.
    Serve(bool),
    /// POST: parse a multipart body delimited by these bytes.
    Upload(Vec<u8>),
}

/// How an upload step is answered.
#[derive(PartialEq, Eq, Debug, Clone, Copy, Structural)]
pub enum UploadReply {
    /// The upload is complete: 201.
    Created,
    /// The body has not been sent yet: send `100 Continue`, then read it.
    SendContinue,
    KeepReading,
    /// Report this status and close afterwards.
    Fail(HttpStatus),
}

impl UploadReply {
    /// The reply ends the request, which is then logged.
    pub fn ends_request(&self) -> (r: bool)
        ensures
            r == !(*self is KeepReading || *self is SendContinue),
    {
        match self {
            UploadReply::KeepReading | UploadReply::SendContinue => false,
            _ => true,
        }
    }
}

impl HttpConnection {
    pub open spec fn wf(&self) -> bool {
        &&& self.buffer@.len() == BUFFER_SIZE
        &&& self.body_start_location <= self.bytes_read <= BUFFER_SIZE
        &&& self.post_buffer matches Some(pb) ==> pb.wf()
    }

    pub fn new() -> (r: HttpConnection)
        ensures
            r.wf(),
            r.state == ConnectionState::ReadingRequest,
            r.bytes_read == 0,
            r.post_buffer is None,
            !r.has_response,
            r.num_requests == 0,
            r.keep_alive,
            r.bytes_requested == 0,
            r.bytes_sent == 0,
            r.last_requested_uri is None,
            r.last_requested_method is None,
    {
        HttpConnection {
            state: ConnectionState::ReadingRequest,
            buffer: vec![0u8; BUFFER_SIZE],
            bytes_read: 0,
            body_start_location: 0,
            post_buffer: None,
            has_response: false,
            last_requested_method: None,
            last_requested_uri: None,
            num_requests: 0,
            keep_alive: true,
            bytes_requested: 0,
            bytes_sent: 0,
        }
    }

    /// Readies the connection for the next request on a kept-alive socket;
    /// the counters and the socket stay.
    pub fn reset(&mut self)
        requires
            old(self).wf(),
        ensures
            final(self).wf(),
            final(self).bytes_read == 0,
            final(self).body_start_location == 0,
            !final(self).has_response,
            final(self).post_buffer is None,
            final(self).state == old(self).state,
            final(self).num_requests == old(self).num_requests,
            final(self).keep_alive == old(self).keep_alive,
            final(self).bytes_requested == old(self).bytes_requested,
            final(self).bytes_sent == old(self).bytes_sent,
            final(self).last_requested_uri == old(self).last_requested_uri,
            final(self).last_requested_method == old(self).last_requested_method,
    {
        self.bytes_read = 0;
        self.body_start_location = 0;
        self.has_response = false;
        self.post_buffer = None;
    }

    /// Room left in the request-head buffer.
    pub fn free_header_space(&self) -> (r: usize)
        requires
            self.wf(),
        ensures
            r == BUFFER_SIZE - self.bytes_read,
    {
        BUFFER_SIZE - self.bytes_read
    }

    /// Takes in the bytes of one read of the request head. No bytes means
    /// the peer closed; a full buffer without a blank line is too large.
    pub fn header_bytes_received(&mut self, data: &[u8]) -> (r: HeaderStep)
        requires
            old(self).wf(),
            data@.len() <= BUFFER_SIZE - old(self).bytes_read,
        ensures
            final(self).wf(),
            final(self).bytes_read == old(self).bytes_read + data@.len(),
            final(self).buffer@.subrange(0, final(self).bytes_read as int)
                == old(self).buffer@.subrange(0, old(self).bytes_read as int) + data@,
            data@.len() == 0 ==> r == HeaderStep::PeerClosed,
            data@.len() > 0 ==> match first_match(final(self).buffer@.subrange(0, final(self).bytes_read as int), blank_line()) {
                Some(i) => r == HeaderStep::RequestReady && final(self).body_start_location == i + 4,
                None => r == (if final(self).bytes_read == BUFFER_SIZE { HeaderStep::TooLarge } else { HeaderStep::NeedMore }),
            },
            final(self).state == old(self).state,
            final(self).num_requests == old(self).num_requests,
            final(self).has_response == old(self).has_response,
            final(self).keep_alive == (old(self).keep_alive && r != HeaderStep::TooLarge),
            final(self).post_buffer == old(self).post_buffer,
            final(self).last_requested_uri == old(self).last_requested_uri,
            final(self).last_requested_method == old(self).last_requested_method,
    {
        let start = self.bytes_read;
        let n = data.len();
        let mut i: usize = 0;
        while i < n
            invariant
                i <= n == data@.len(),
                start + n <= BUFFER_SIZE,
                self.buffer@.len() == BUFFER_SIZE,
                forall|k: int| 0 <= k < start ==> self.buffer@[k] == old(self).buffer@[k],
                forall|k: int| 0 <= k < i ==> self.buffer@[start + k] == data@[k],
                self.bytes_read == start,
                self.body_start_location == old(self).body_start_location,
                self.body_start_location <= start,
                self.state == old(self).state,
                self.num_requests == old(self).num_requests,
                self.has_response == old(self).has_response,
                self.keep_alive == old(self).keep_alive,
                self.post_buffer == old(self).post_buffer,
                self.last_requested_uri == old(self).last_requested_uri,
                self.last_requested_method == old(self).last_requested_method,
            decreases n - i,
        {
            self.buffer.set(start + i, data[i]);
            i = i + 1;
        }
        self.bytes_read = start + n;
        assert(self.buffer@.subrange(0, self.bytes_read as int)
            =~= old(self).buffer@.subrange(0, old(self).bytes_read as int) + data@);
        if n == 0 {
            return HeaderStep::PeerClosed;
        }
        let head = vstd::slice::slice_subrange(self.buffer.as_slice(), 0, self.bytes_read);
        match find_body_start(head) {
            Some(s) => {
                proof { crate::search::lemma_first_match_bounds(head@, blank_line()); }
                self.body_start_location = s;
                HeaderStep::RequestReady
            },
            None => {
                if self.bytes_read == BUFFER_SIZE {
                    // answered 431, then closed
                    self.keep_alive = false;
                    HeaderStep::TooLarge
                } else {
                    HeaderStep::NeedMore
                }
            },
        }
    }

    /// Counts the request and decodes its head. The path and method are
    /// recorded at once, so that an aborted request is still logged; a head
    /// that cannot be decoded turns keep-alive off.
    pub fn begin_request(&mut self) -> (r: Result<HttpRequest, HttpStatus>)
        requires
            old(self).wf(),
        ensures
            final(self).wf(),
            final(self).num_requests == if old(self).num_requests < usize::MAX {
                old(self).num_requests + 1
            } else {
                old(self).num_requests as int
            },
            final(self).bytes_read == old(self).bytes_read,
            final(self).state == old(self).state,
            ({
                let head = old(self).buffer@.subrange(0, old(self).body_start_location as int);
                match r {
                    Ok(req) => utf8_valid(head) && request_spec(head) == Ok::<(Option<HttpMethod>, Seq<u8>, HttpVersion, Seq<u8>), HttpStatus>(
                        (req.method, req.path@, req.version, req.headers@))
                        && (final(self).last_requested_uri matches Some(p) && p@ == req.path@)
                        && final(self).last_requested_method == req.method
                        && final(self).keep_alive == old(self).keep_alive,
                    Err(st) => !final(self).keep_alive && (if utf8_valid(head) {
                        request_spec(head) == Err::<(Option<HttpMethod>, Seq<u8>, HttpVersion, Seq<u8>), HttpStatus>(st)
                    } else {
                        st == HttpStatus::BadRequest
                    }),
                }
            }),
    {
        if self.num_requests < usize::MAX {
            self.num_requests = self.num_requests + 1;
        }
        let head = vstd::slice::slice_subrange(self.buffer.as_slice(), 0, self.body_start_location);
        match decode_request(head) {
            Ok(req) => {
                let path = vstd::slice::slice_to_vec(req.path.as_slice());
                self.last_requested_uri = Some(path);
                self.last_requested_method = req.method;
                proof { assert(path@ == req.path@); }
                Ok(req)
            },
            Err(st) => {
                self.keep_alive = false;
                Err(st)
            },
        }
    }

    /// Decides how a decoded request is answered: 503 while the server is
    /// disabled, 501 for an unknown method, 405 for POST with uploads off,
    /// 400 for POST without a usable boundary. Keep-alive follows the
    /// request's own header.
    pub fn plan_request(&mut self, req: &HttpRequest, disabled: bool, uploading: bool) -> (r: RequestPlan)
        requires
            old(self).wf(),
        ensures
            final(self).wf(),
            final(self).state == old(self).state,
            final(self).num_requests == old(self).num_requests,
            final(self).bytes_read == old(self).bytes_read,
            final(self).body_start_location == old(self).body_start_location,
            final(self).buffer == old(self).buffer,
            final(self).last_requested_uri == old(self).last_requested_uri,
            final(self).last_requested_method == old(self).last_requested_method,
            final(self).post_buffer == old(self).post_buffer,
            final(self).has_response == old(self).has_response,
            final(self).bytes_requested == old(self).bytes_requested,
            final(self).bytes_sent == old(self).bytes_sent,
            disabled ==> r == RequestPlan::Error(HttpStatus::ServiceUnavailable) && !final(self).keep_alive,
            !disabled ==> final(self).keep_alive == match header_value(req, "connection".spec_bytes()) {
                Some(v) => crate::text::eq_ignore_case(v, "keep-alive".spec_bytes()),
                None => false,
            },
            !disabled ==> match req.method {
                None => r == RequestPlan::Error(HttpStatus::NotImplemented),
                Some(HttpMethod::GET) => r == RequestPlan::Serve(false),
                Some(HttpMethod::HEAD) => r == RequestPlan::Serve(true),
                Some(HttpMethod::POST) => if !uploading {
                    r == RequestPlan::Error(HttpStatus::MethodNotAllowed)
                } else {
                    match header_value(req, "content-type".spec_bytes()) {
                        None => r == RequestPlan::Error(HttpStatus::BadRequest),
                        Some(ct) => match boundary_from(ct, 0) {
                            None => r == RequestPlan::Error(HttpStatus::BadRequest),
                            Some(b) => if 2 + b.len() <= MAX_DELIMITER_LEN {
                                r matches RequestPlan::Upload(d) && d@ == seq![45u8, 45u8] + b
                            } else {
                                r == RequestPlan::Error(HttpStatus::BadRequest)
                            },
                        },
                    }
                },
            },
    {
        if disabled {
            self.keep_alive = false;
            return RequestPlan::Error(HttpStatus::ServiceUnavailable);
        }
        self.keep_alive = wants_keep_alive(req);
        match req.method {
            None => RequestPlan::Error(HttpStatus::NotImplemented),
            Some(HttpMethod::GET) => RequestPlan::Serve(false),
            Some(HttpMethod::HEAD) => RequestPlan::Serve(true),
            Some(HttpMethod::POST) => {
                if !uploading {
                    return RequestPlan::Error(HttpStatus::MethodNotAllowed);
                }
                match get_post_boundary(req) {
                    None => RequestPlan::Error(HttpStatus::BadRequest),
                    Some(b) => {
                        if b.len() > MAX_DELIMITER_LEN - 2 {
                            return RequestPlan::Error(HttpStatus::BadRequest);
                        }
                        let mut d: Vec<u8> = vec![45u8, 45u8];
                        let mut bb = b;
                        d.append(&mut bb);
                        RequestPlan::Upload(d)
                    },
                }
            },
        }
    }

    /// Starts parsing an upload with the body bytes that came with the head.
    pub fn start_upload(&mut self, delim: Vec<u8>, size_limit: usize)
        requires
            old(self).wf(),
            0 < delim@.len() <= MAX_DELIMITER_LEN,
        ensures
            final(self).wf(),
            final(self).post_buffer matches Some(pb) && pb.wf()
                && pb.spec_state() == PostRequestState::AwaitingFirstBody
                && pb.spec_delimiter() == delim@
                && pb.unparsed() == old(self).buffer@.subrange(old(self).body_start_location as int, old(self).bytes_read as int)
                && pb.spec_size_limit() == size_limit
                && pb.spec_total_written() == 0
                && pb.spec_pending() == Pending::Idle
                && pb.spec_new_files().len() == 0
                && pb.spec_queued().len() == 0
                && !pb.spec_finished(),
            final(self).state == ConnectionState::ReadingPostBody,
            final(self).last_requested_uri == old(self).last_requested_uri,
            final(self).last_requested_method == old(self).last_requested_method,
            final(self).has_response == old(self).has_response,
            final(self).bytes_read == old(self).bytes_read,
            final(self).body_start_location == old(self).body_start_location,
            final(self).num_requests == old(self).num_requests,
            final(self).keep_alive == old(self).keep_alive,
    {
        let seed = vstd::slice::slice_subrange(self.buffer.as_slice(), self.body_start_location, self.bytes_read);
        let pb = PostBuffer::new(delim, seed, size_limit);
        self.post_buffer = Some(pb);
        self.state = ConnectionState::ReadingPostBody;
    }

    /// Answers the outcome of a parse pass over an upload: `Ok(true)` when
    /// complete, `Ok(false)` when more body is needed, or the fault's status.
    /// `direct` marks the pass made before a `100-continue` body is sent. A
    /// failed upload turns keep-alive off.
    pub fn upload_outcome(&mut self, done: Result<bool, HttpStatus>, direct: bool) -> (r: UploadReply)
        requires
            old(self).wf(),
        ensures
            final(self).wf(),
            r == match done {
                Ok(true) => UploadReply::Created,
                Ok(false) => if direct { UploadReply::SendContinue } else { UploadReply::KeepReading },
                Err(st) => UploadReply::Fail(st),
            },
            final(self).keep_alive == (old(self).keep_alive && done is Ok),
            final(self).state == old(self).state,
            final(self).post_buffer == old(self).post_buffer,
            final(self).num_requests == old(self).num_requests,
            final(self).has_response == old(self).has_response,
            final(self).bytes_requested == old(self).bytes_requested,
            final(self).bytes_sent == old(self).bytes_sent,
    {
        match done {
            Ok(true) => UploadReply::Created,
            Ok(false) => if direct { UploadReply::SendContinue } else { UploadReply::KeepReading },
            Err(st) => {
                self.keep_alive = false;
                UploadReply::Fail(st)
            },
        }
    }

    /// Takes in one read of an upload body. No bytes means the client went
    /// away mid-upload: that is a 400, the connection closes after it and
    /// the request is logged. Otherwise the bytes go to the parser.
    pub fn post_body_read(&mut self, data: &[u8]) -> (r: Option<UploadReply>)
        requires
            old(self).wf(),
            old(self).post_buffer is Some,
            data@.len() <= POST_BUFFER_SIZE - old(self).post_buffer->0.spec_fill(),
        ensures
            final(self).wf(),
            data@.len() == 0 ==> r == Some(UploadReply::Fail(HttpStatus::BadRequest)) && !final(self).keep_alive
                && final(self).post_buffer == old(self).post_buffer,
            data@.len() > 0 ==> r is None && final(self).keep_alive == old(self).keep_alive
                && (final(self).post_buffer matches Some(pb) && pb.unparsed() == old(self).post_buffer->0.unparsed() + data@
                    && pb.spec_state() == old(self).post_buffer->0.spec_state()
                    && pb.spec_pending() == old(self).post_buffer->0.spec_pending()
                    && pb.spec_total_written() == old(self).post_buffer->0.spec_total_written()
                    && pb.spec_queued() == old(self).post_buffer->0.spec_queued()
                    && pb.spec_new_files() == old(self).post_buffer->0.spec_new_files()),
            final(self).state == old(self).state,
            final(self).num_requests == old(self).num_requests,
            final(self).has_response == old(self).has_response,
            final(self).last_requested_uri == old(self).last_requested_uri,
            final(self).last_requested_method == old(self).last_requested_method,
    {
        if data.len() == 0 {
            self.keep_alive = false;
            return Some(UploadReply::Fail(HttpStatus::BadRequest));
        }
        let mut pb = self.post_buffer.take().unwrap();
        let n = pb.read_into_buffer(data);
        assert(data@.subrange(0, n as int) =~= data@);
        self.post_buffer = Some(pb);
        None
    }

    /// Accounts for one write of response body bytes. Nothing written, or
    /// everything asked for sent, ends the response: a kept-alive connection
    /// goes back to reading requests, any other closes.
    pub fn body_bytes_written(&mut self, amt: usize) -> (r: ConnectionState)
        requires
            old(self).wf(),
        ensures
            final(self).wf(),
            final(self).bytes_sent == (if old(self).bytes_sent + amt <= usize::MAX {
                old(self).bytes_sent + amt
            } else {
                usize::MAX as int
            }),
            ({
                let done = amt == 0 || final(self).bytes_sent >= old(self).bytes_requested;
                &&& !done ==> r == ConnectionState::WritingResponse
                &&& done && old(self).keep_alive ==> r == ConnectionState::ReadingRequest
                    && final(self).bytes_read == 0 && !final(self).has_response && final(self).post_buffer is None
                &&& done && !old(self).keep_alive ==> r == ConnectionState::Closing
            }),
            final(self).state == old(self).state,
            final(self).num_requests == old(self).num_requests,
    {
        self.bytes_sent = if self.bytes_sent <= usize::MAX - amt { self.bytes_sent + amt } else { usize::MAX };
        let done = amt == 0 || self.bytes_sent >= self.bytes_requested;
        if done {
            if self.keep_alive {
                self.reset();
                return ConnectionState::ReadingRequest;
            } else {
                return ConnectionState::Closing;
            }
        }
        ConnectionState::WritingResponse
    }

    /// Adds a response's body length to the bytes owed to the peer.
    pub fn response_started(&mut self, body_len: usize)
        requires
            old(self).wf(),
        ensures
            final(self).wf(),
            final(self).has_response,
            final(self).bytes_requested == (if old(self).bytes_requested + body_len <= usize::MAX {
                old(self).bytes_requested + body_len
            } else {
                usize::MAX as int
            }),
            final(self).state == old(self).state,
            final(self).keep_alive == old(self).keep_alive,
            final(self).num_requests == old(self).num_requests,
    {
        self.bytes_requested = if self.bytes_requested <= usize::MAX - body_len {
            self.bytes_requested + body_len
        } else {
            usize::MAX
        };
        self.has_response = true;
    }
}

/// The request path relative to the served root: one leading `/` dropped.
pub fn normalize_path(path: &[u8]) -> (r: &[u8])
    ensures
        r@ == if path@.len() > 0 && path@[0] == 47u8 { path@.subrange(1, path@.len() as int) } else { path@ },
{
    if path.len() > 0 && path[0] == 47u8 {
        vstd::slice::slice_subrange(path, 1, path.len())
    } else {
        path
    }
}

/// `path` lies at or below `root`, comparing whole components, as
/// `Path::starts_with` does on canonical paths.
pub open spec fn within_root(root: Seq<u8>, path: Seq<u8>) -> bool {
    root.len() <= path.len() && path.subrange(0, root.len() as int) == root
        && (root.len() == path.len() || (root.len() > 0 && root.last() == 47u8) || path[root.len() as int] == 47u8)
}

/// Whether a canonical path stays inside the canonical root.
pub fn check_canon_path(root: &[u8], path: &[u8]) -> (r: bool)
    ensures
        r == within_root(root@, path@),
{
    if !crate::text::starts_with_slice(path, root) {
        return false;
    }
    root.len() == path.len() || (root.len() > 0 && root[root.len() - 1] == 47u8) || path[root.len()] == 47u8
}

/// What the file system says of a requested target.
#[derive(PartialEq, Eq, Debug, Clone, Copy, Structural)]
pub enum TargetKind {
    File(usize),
    Directory,
    Other,
}

/// How a GET or HEAD is answered once its target is known.
#[derive(PartialEq, Eq, Debug, Clone, Copy, Structural)]
pub enum GetPlan {
    Error(HttpStatus),
    /// 301 to the path with a `/` appended.
    RedirectToSlash,
    /// Send a file of this length; `true` when it is the index file.
    SendFile(usize, bool),
    ListDirectory,
}

pub open spec fn plan_get_spec(
    within: bool,
    normalized: Seq<u8>,
    kind: TargetKind,
    append_slash: bool,
    index: Option<TargetKind>,
    listings: bool,
) -> GetPlan {
    if !within {
        GetPlan::Error(HttpStatus::NotFound)
    } else if append_slash && normalized.len() > 0 && kind == TargetKind::Directory && normalized.last() != 47u8 {
        GetPlan::RedirectToSlash
    } else {
        let (eff, is_index) = match (kind, index) {
            (TargetKind::Directory, Some(k)) => (k, true),
            _ => (kind, false),
        };
        match eff {
            TargetKind::Other => GetPlan::Error(HttpStatus::PermissionDenied),
            TargetKind::Directory => if listings {
                GetPlan::ListDirectory
            } else {
                GetPlan::Error(HttpStatus::PermissionDenied)
            },
            TargetKind::File(len) => GetPlan::SendFile(len, is_index),
        }
    }
}

/// Resolves a GET target. `within` is whether the canonical target stays
/// inside the root: one that escapes is a 404, never a 403. `index` is what
/// the index file is, when the target is a directory and the index file
/// exists and is looked for.
pub fn plan_get(
    within: bool,
    normalized: &[u8],
    kind: TargetKind,
    append_slash: bool,
    index: Option<TargetKind>,
    listings: bool,
) -> (r: GetPlan)
    ensures
        r == plan_get_spec(within, normalized@, kind, append_slash, index, listings),
{
    if !within {
        return GetPlan::Error(HttpStatus::NotFound);
    }
    if append_slash && normalized.len() > 0 && kind == TargetKind::Directory && normalized[normalized.len() - 1] != 47u8 {
        return GetPlan::RedirectToSlash;
    }
    let (eff, is_index) = match (kind, index) {
        (TargetKind::Directory, Some(k)) => (k, true),
        _ => (kind, false),
    };
    match eff {
        TargetKind::Other => GetPlan::Error(HttpStatus::PermissionDenied),
        TargetKind::Directory => if listings {
            GetPlan::ListDirectory
        } else {
            GetPlan::Error(HttpStatus::PermissionDenied)
        },
        TargetKind::File(len) => GetPlan::SendFile(len, is_index),
    }
}

/// An escaping target is answered 404 whatever it is, and whether or not
/// it exists.
pub proof fn lemma_escape_is_not_found(
    root: Seq<u8>,
    canonical: Seq<u8>,
    normalized: Seq<u8>,
    kind: TargetKind,
    append_slash: bool,
    index: Option<TargetKind>,
    listings: bool,
)
    requires
        !within_root(root, canonical),
    ensures
        plan_get_spec(within_root(root, canonical), normalized, kind, append_slash, index, listings)
            == GetPlan::Error(HttpStatus::NotFound),
{
}

/// The window served for a request's `Range` header (if any): a header that
/// cannot be decoded is a 400.
pub fn plan_range(range: Option<&[u8]>, full_length: usize) -> (r: Result<ServedRange, HttpStatus>)
    ensures
        match range {
            None => r == Ok::<ServedRange, HttpStatus>(clamp_range_spec(None, full_length)),
            Some(h) => match decode_content_range_spec(h@) {
                None => r == Err::<ServedRange, HttpStatus>(HttpStatus::BadRequest),
                Some(cr) => r == Ok::<ServedRange, HttpStatus>(clamp_range_spec(Some(cr), full_length)),
            },
        },
{
    match range {
        None => Ok(clamp_range(None, full_length)),
        Some(h) => match decode_content_range_bytes(h) {
            None => Err(HttpStatus::BadRequest),
            Some(cr) => Ok(clamp_range(Some(cr), full_length)),
        },
    }
}

/// The status a served window is answered with.
pub fn served_status(served: ServedRange) -> (r: HttpStatus)
    ensures
        r == if served.partial { HttpStatus::PartialContent } else { HttpStatus::OK },
{
    if served.partial { HttpStatus::PartialContent } else { HttpStatus::OK }
}

/// Which readiness a connection in `state` waits for: (read, write).
pub fn interest(state: ConnectionState) -> (r: (bool, bool))
    ensures
        r.0 == (state == ConnectionState::ReadingRequest || state == ConnectionState::ReadingPostBody),
        r.1 == (state == ConnectionState::WritingResponse),
{
    match state {
        ConnectionState::ReadingRequest | ConnectionState::ReadingPostBody => (true, false),
        ConnectionState::WritingResponse => (false, true),
        ConnectionState::Closing => (false, false),
    }
}

/// What a read from the control channel asks of the event loop.
#[derive(PartialEq, Eq, Debug, Clone, Copy, Structural)]
pub enum ControlAction {
    Shutdown,
    ToggleDisabled,
    ForceCloseAll,
    /// Wake only, so that the observer runs again.
    Wake,
}

/// End of input shuts down; `t`, `k` and any other byte toggle, force-close
/// and wake.
pub fn control_action(bytes_read: usize, byte: u8) -> (r: ControlAction)
    ensures
        r == if bytes_read == 0 {
            ControlAction::Shutdown
        } else if byte == 116u8 {
            ControlAction::ToggleDisabled
        } else if byte == 107u8 {
            ControlAction::ForceCloseAll
        } else {
            ControlAction::Wake
        },
{
    if bytes_read == 0 {
        ControlAction::Shutdown
    } else if byte == 116u8 {
        ControlAction::ToggleDisabled
    } else if byte == 107u8 {
        ControlAction::ForceCloseAll
    } else {
        ControlAction::Wake
    }
}

/// Whether the sweep after an iteration drops a connection, and whether
/// dropping it writes a history line (it completed no request).
pub fn sweep_decision(state: ConnectionState, force_close: bool, num_requests: usize) -> (r: (bool, bool))
    ensures
        r.0 == (state == ConnectionState::Closing || force_close),
        r.1 == (r.0 && num_requests == 0),
{
    let remove = state == ConnectionState::Closing || force_close;
    (remove, remove && num_requests == 0)
}

} // verus!
