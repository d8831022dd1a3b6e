use vstd::prelude::*;
use crate::multipart::{part_filename, parse_part_filename, UploadFault, fault_status};
use crate::search::{first_match, find_in_window, find_body_start, blank_line, matches_at, is_first_match};
use crate::status::HttpStatus;

verus! {

/// Capacity of an upload's working buffer.
pub const POST_BUFFER_SIZE: usize = 33554432;

/// Longest boundary delimiter accepted (`--` and the boundary token).
pub const MAX_DELIMITER_LEN: usize = 4096;

#[derive(PartialEq, Eq, Debug, Clone, Copy, Structural)]
pub enum PostRequestState {
    AwaitingFirstBody,
    AwaitingBody,
    AwaitingMeta,
    DiscardingData,
}

/// What the connection tells the parser: more bytes arrived, or how the
/// file operation it last asked for went.
#[derive(PartialEq, Eq, Debug, Clone, Copy, Structural)]
pub enum UploadEvent {
    DataArrived,
    FileCreated(bool),
    /// Bytes written, or `None` when the write failed.
    FileWritten(Option<usize>),
    FileRemoved(bool),
}

/// What the parser asks of the connection next.
#[derive(PartialEq, Eq, Debug, Clone)]
pub enum UploadAction {
    /// Read more of the body, then send `DataArrived`.
    NeedData,
    /// The terminal boundary was reached: the upload is complete.
    Finished,
    /// Create this file in the destination directory, failing if it exists.
    CreateFile(Vec<u8>),
    /// Write `buffer()[from..to]` to the open file.
    WriteFile(usize, usize),
    /// Delete this partially written file.
    RemoveFile(Vec<u8>),
}

#[derive(PartialEq, Eq, Debug, Clone)]
pub enum Pending {
    Idle,
    /// A file of this name was asked for; its body starts at this offset.
    Create(Vec<u8>, usize),
    /// A write up to this offset was asked for; `true` when it ends the part.
    Write(usize, bool),
    /// A file removal was asked for after these faults.
    Remove(Vec<UploadFault>),
}

/// One or more upload faults, reported together.
#[derive(Debug, Clone)]
pub struct PostBufferError {
    pub faults: Vec<UploadFault>,
}

impl PostBufferError {
    /// The status of the first fault.
    pub fn get_code(&self) -> (r: HttpStatus)
        ensures
            r == if self.faults@.len() > 0 { fault_status(self.faults@[0]) } else { HttpStatus::ServerError },
    {
        if self.faults.len() > 0 {
            self.faults[0].status()
        } else {
            HttpStatus::ServerError
        }
    }
}

/// Parsing stopped at the terminal boundary: in `state`, the first
/// boundary of the unparsed bytes `u` is followed by `--`.
pub open spec fn ends_at_terminal(state: PostRequestState, u: Seq<u8>, d: Seq<u8>) -> bool {
    &&& (state == PostRequestState::AwaitingFirstBody || state == PostRequestState::DiscardingData)
    &&& first_match(u, d) matches Some(i) && i + d.len() + 2 <= u.len()
        && u[i + d.len()] == 45u8 && u[i + d.len() + 1] == 45u8
}

/// Copies `data[..n]` into `buf` at offset `at`.
fn copy_into(buf: &mut Vec<u8>, at: usize, data: &[u8], n: usize)
    requires
        n <= data@.len(),
        at + n <= old(buf).len(),
    ensures
        final(buf)@.len() == old(buf)@.len(),
        forall|k: int| 0 <= k < at ==> final(buf)@[k] == old(buf)@[k],
        forall|k: int| 0 <= k < n ==> final(buf)@[at + k] == data@[k],
{
    let mut i: usize = 0;
    while i < n
        invariant
            i <= n <= data@.len(),
            at + n <= buf.len(),
            buf@.len() == old(buf)@.len(),
            forall|k: int| 0 <= k < at ==> buf@[k] == old(buf)@[k],
            forall|k: int| 0 <= k < i ==> buf@[at + k] == data@[k],
        decreases n - i,
    {
        buf.set(at + i, data[i]);
        i = i + 1;
    }
}

/// Moves `buf[p..p + n]` to the front of `buf`; the ranges may overlap.
fn move_to_front(buf: &mut Vec<u8>, p: usize, n: usize)
    requires
        p + n <= old(buf).len(),
    ensures
        final(buf)@.len() == old(buf)@.len(),
        forall|k: int| 0 <= k < n ==> final(buf)@[k] == old(buf)@[p + k],
{
    let mut i: usize = 0;
    while i < n
        invariant
            i <= n,
            p + n <= buf.len(),
            buf@.len() == old(buf)@.len(),
            forall|k: int| 0 <= k < i ==> buf@[k] == old(buf)@[p + k],
            forall|k: int| i <= k < buf@.len() ==> buf@[k] == old(buf)@[k],
        decreases n - i,
    {
        let b = buf[p + i];
        buf.set(i, b);
        i = i + 1;
    }
}

/// A boundary found in the received bytes is found in any window of them
/// that holds it.
proof fn lemma_window_match(buf: Seq<u8>, fill: int, start: int, d: Seq<u8>, j: int)
    requires
        0 <= start <= j,
        start <= fill <= buf.len(),
        matches_at(buf.subrange(0, fill), d, j),
    ensures
        matches_at(buf.subrange(start, fill), d, j - start),
{
    let w = buf.subrange(start, fill);
    assert(j + d.len() <= fill);
    assert(w.subrange(j - start, j - start + d.len()) =~= buf.subrange(0, fill).subrange(j, j + d.len()));
}

/// In `state`, the unparsed bytes `u` hold nothing the parser can act on:
/// no boundary with the two bytes that follow it, no complete part header
/// block, or, inside a part's body, no boundary and nothing beyond what a
/// split boundary and its CRLF could be.
pub open spec fn stalled(state: PostRequestState, u: Seq<u8>, d: Seq<u8>) -> bool {
    match state {
        PostRequestState::AwaitingMeta => first_match(u, blank_line()) is None,
        PostRequestState::AwaitingBody => (forall|k: int| !matches_at(u, d, k)) && u.len() <= d.len() + 2,
        _ => forall|k: int| matches_at(u, d, k) ==> k + d.len() + 2 > u.len(),
    }
}

/// How many unparsed bytes of a part's body the next flush writes: those
/// before the CRLF of the first boundary, or, with no boundary held, all
/// but the length of a boundary and its CRLF.
pub open spec fn flush_len(u: Seq<u8>, d: Seq<u8>) -> Option<int> {
    match first_match(u, d) {
        Some(k) => if k >= 2 && u[k - 2] == 13u8 && u[k - 1] == 10u8 && k - 2 > 0 { Some(k - 2) } else { None },
        None => if u.len() > d.len() + 2 { Some(u.len() - d.len() - 2) } else { None },
    }
}

/// One parse pass over `u` in `state` moves to another state instead of
/// answering: a boundary followed by CRLF, or, in a part's body, a
/// boundary right after the CRLF that ends it.
pub open spec fn moves_on(state: PostRequestState, u: Seq<u8>, d: Seq<u8>) -> bool {
    match state {
        PostRequestState::AwaitingMeta => false,
        PostRequestState::AwaitingBody => first_match(u, d) matches Some(k) && k == 2 && u[0] == 13u8 && u[1] == 10u8,
        _ => first_match(u, d) matches Some(i) && i + d.len() + 2 <= u.len()
            && !(u[i + d.len()] == 45u8 && u[i + d.len() + 1] == 45u8),
    }
}

/// The first boundary in a part's body lacks the CRLF before it.
pub open spec fn boundary_without_crlf(u: Seq<u8>, d: Seq<u8>) -> bool {
    first_match(u, d) matches Some(k) && !(k >= 2 && u[k - 2] == 13u8 && u[k - 1] == 10u8)
}

/// What the first complete part header block in `u` makes of its filename.
pub open spec fn header_block_result(u: Seq<u8>) -> Option<Result<Seq<u8>, UploadFault>> {
    match first_match(u, blank_line()) {
        Some(k) => Some(part_filename(u.subrange(0, k + 4))),
        None => None,
    }
}

/// The parser, as left by a step, shows the condition for fault `f`:
/// a flush past the size limit (413), a boundary without CRLF (400), or a
/// part header block without a usable filename (422).
pub open spec fn fault_cause(pb: &PostBuffer, f: UploadFault) -> bool {
    let u = pb.unparsed();
    let d = pb.spec_delimiter();
    match f {
        UploadFault::TooLarge => pb.spec_state() == PostRequestState::AwaitingBody && pb.spec_size_limit() > 0
            && (flush_len(u, d) matches Some(m) && pb.spec_total_written() + m > pb.spec_size_limit()),
        UploadFault::MissingCrlf => pb.spec_state() == PostRequestState::AwaitingBody && boundary_without_crlf(u, d),
        UploadFault::MissingDisposition | UploadFault::MissingFilename | UploadFault::InvalidFilename =>
            pb.spec_state() == PostRequestState::AwaitingMeta
                && header_block_result(u) == Some(Err::<Seq<u8>, UploadFault>(f)),
        _ => false,
    }
}

/// Fault `f` answers event `e` given what was pending: a file that could
/// not be created (500), a failed or impossible write, or an event that was
/// not asked for.
pub open spec fn event_fault(old_pb: &PostBuffer, e: UploadEvent, f: UploadFault) -> bool {
    match f {
        UploadFault::CannotCreate => old_pb.spec_pending() is Create && e == UploadEvent::FileCreated(false),
        UploadFault::WriteFailed => old_pb.spec_pending() matches Pending::Write(up_to, _) && e matches UploadEvent::FileWritten(w)
            && (w matches Some(n) ==> n == 0 || n > up_to - old_pb.spec_parse_idx()),
        UploadFault::Internal => match old_pb.spec_pending() {
            Pending::Idle => e != UploadEvent::DataArrived,
            Pending::Create(_, _) => !(e is FileCreated),
            Pending::Write(_, _) => !(e is FileWritten),
            Pending::Remove(_) => true,
        },
        _ => false,
    }
}

/// What one step does on new data with nothing pending, from the state
/// it starts in and the bytes it holds (`o` before, `n` after; a fault is
/// reported as `Err`):
/// - waiting for the first boundary: none, or one without its two following
///   bytes, asks for more data, holding only the tail that may still become a
///   boundary; one followed by `--` ends the upload;
/// - in a part's body: a flush past the size limit is 413, a boundary
///   without CRLF is 400, any other flush writes all but what may be a split
///   boundary and its CRLF; too little to flush asks for more data;
/// - at a part's header block: an incomplete one asks for more data, one
///   without a usable filename is its 422 fault, else that file is created.
pub open spec fn step_from(
    st: PostRequestState,
    u: Seq<u8>,
    d: Seq<u8>,
    limit: usize,
    total: int,
    r: Result<UploadAction, Seq<UploadFault>>,
    n: PostBuffer,
) -> bool {
    ({
        &&& st == PostRequestState::AwaitingFirstBody && first_match(u, d) is None ==> (
            r matches Ok(UploadAction::NeedData) && n.spec_state() == st
            && n.unparsed() == (if u.len() > d.len() { u.subrange(u.len() - d.len(), u.len() as int) } else { u }))
        &&& st == PostRequestState::AwaitingFirstBody && (first_match(u, d) matches Some(i) && i + d.len() + 2 > u.len()) ==> (
            r matches Ok(UploadAction::NeedData) && n.spec_state() == st
            && n.unparsed() == u.subrange(first_match(u, d)->0, u.len() as int))
        &&& st == PostRequestState::AwaitingFirstBody && (first_match(u, d) matches Some(i) && i + d.len() + 2 <= u.len()
            && u[i + d.len()] == 45u8 && u[i + d.len() + 1] == 45u8) ==> (r matches Ok(UploadAction::Finished))
        &&& st == PostRequestState::AwaitingBody && first_match(u, d) is None && u.len() <= d.len() + 2 ==> (
            r matches Ok(UploadAction::NeedData) && n.unparsed() == u)
        &&& st == PostRequestState::AwaitingBody && (flush_len(u, d) matches Some(m)
            && limit > 0 && total + m > limit) ==> (
            r == Err::<UploadAction, Seq<UploadFault>>(seq![UploadFault::TooLarge]))
        &&& st == PostRequestState::AwaitingBody && (flush_len(u, d) matches Some(m)
            && !(limit > 0 && total + m > limit)) ==> (
            r matches Ok(UploadAction::WriteFile(from, to)) && to - from == flush_len(u, d)->0 && from == n.spec_parse_idx()
            && n.unparsed() == u)
        &&& st == PostRequestState::AwaitingBody && boundary_without_crlf(u, d) ==> (
            r == Err::<UploadAction, Seq<UploadFault>>(seq![UploadFault::MissingCrlf]))
        &&& st == PostRequestState::AwaitingMeta && header_block_result(u) is None ==> (
            r matches Ok(UploadAction::NeedData) && n.unparsed() == u)
        &&& st == PostRequestState::AwaitingMeta && (header_block_result(u) matches Some(Err(e))) ==> (
            r == Err::<UploadAction, Seq<UploadFault>>(seq![header_block_result(u)->0->Err_0]))
        &&& st == PostRequestState::AwaitingMeta && (header_block_result(u) matches Some(Ok(fname))) ==> (
            r matches Ok(UploadAction::CreateFile(name)) && name@ == header_block_result(u)->0->Ok_0)
    })
}

/// Where a step resumes parsing after `event`, as (state, unparsed bytes,
/// bytes written so far): on new data, where it was; once the file of a
/// part is created, at that part's body; once `k` bytes are written, after
/// those `k` bytes, in the next part's boundary state if they ended the part.
#[verifier::opaque]
pub open spec fn resume_point(o: PostBuffer, event: UploadEvent) -> Option<(PostRequestState, Seq<u8>, int)> {
    match (o.spec_pending(), event) {
        (Pending::Idle, UploadEvent::DataArrived) => Some((o.spec_state(), o.unparsed(), o.spec_total_written() as int)),
        (Pending::Create(_, bs), UploadEvent::FileCreated(true)) => Some((
            PostRequestState::AwaitingBody,
            o.spec_buffer().subrange(bs as int, o.spec_fill() as int),
            o.spec_total_written() as int,
        )),
        (Pending::Write(up_to, last), UploadEvent::FileWritten(Some(k))) => if 0 < k <= up_to - o.spec_parse_idx() {
            Some((
                if last && o.spec_parse_idx() + k == up_to { PostRequestState::AwaitingFirstBody } else { PostRequestState::AwaitingBody },
                o.unparsed().subrange(k as int, o.unparsed().len() as int),
                if o.spec_total_written() + k <= usize::MAX { o.spec_total_written() + k } else { usize::MAX as int },
            ))
        } else {
            None
        },
        _ => None,
    }
}

/// What a step does from where it resumes (see `resume_point`).
pub open spec fn step_outcome(o: PostBuffer, event: UploadEvent, r: Result<UploadAction, Seq<UploadFault>>, n: PostBuffer) -> bool {
    match resume_point(o, event) {
        Some((st, u, total)) => step_from(st, u, o.spec_delimiter(), o.spec_size_limit(), total, r, n),
        None => true,
    }
}

proof fn lemma_prefix_of_append(a: Seq<UploadFault>, b: Seq<UploadFault>)
    ensures
        a.is_prefix_of(a + b),
        a.is_prefix_of(a),
{
    assert((a + b).subrange(0, a.len() as int) =~= a);
    assert(a.subrange(0, a.len() as int) =~= a);
}

/// The faults that direct mode reports for `event` on parser `o` (`n`
/// after): the stored faults once a removal is answered (plus a failed
/// removal), a file that could not be created, or on new data the one fault
/// the step's outcome names.
pub open spec fn reported_faults(o: PostBuffer, event: UploadEvent, q: Seq<UploadFault>, n: PostBuffer) -> bool {
    match (o.spec_pending(), event) {
        (Pending::Remove(f), _) => q == f@ + match event {
            UploadEvent::FileRemoved(true) => Seq::<UploadFault>::empty(),
            UploadEvent::FileRemoved(false) => seq![UploadFault::RemoveFailed],
            _ => seq![UploadFault::Internal],
        },
        (Pending::Create(_, _), UploadEvent::FileCreated(false)) => q == seq![UploadFault::CannotCreate],
        (Pending::Idle, UploadEvent::DataArrived) => q.len() == 1
            && step_outcome(o, event, Err::<UploadAction, Seq<UploadFault>>(q), n),
        _ => q.len() >= 1,
    }
}

/// A step's outcome on a fault does not depend on the state it leaves.
proof fn lemma_step_outcome_err(o: PostBuffer, event: UploadEvent, q: Seq<UploadFault>, n1: PostBuffer, n2: PostBuffer)
    requires
        step_outcome(o, event, Err::<UploadAction, Seq<UploadFault>>(q), n1),
    ensures
        step_outcome(o, event, Err::<UploadAction, Seq<UploadFault>>(q), n2),
{
}

/// Whatever an upload has been through, the bytes it has had written to
/// files never exceed its size limit (0 means no limit).
pub proof fn lemma_written_within_limit(pb: &PostBuffer)
    requires
        pb.wf(),
    ensures
        pb.spec_size_limit() > 0 ==> pb.spec_total_written() <= pb.spec_size_limit(),
{
}

/// Incremental parser of a multipart upload body.
pub struct PostBuffer {
    buffer: Vec<u8>,
    fill_location: usize,
    parse_idx: usize,
    post_delimeter: Vec<u8>,
    state: PostRequestState,
    current_file: Option<Vec<u8>>,
    pending: Pending,
    queued_error: Vec<UploadFault>,
    new_files: Vec<Vec<u8>>,
    total_written: usize,
    size_limit: usize,
    finished: bool,
}

impl PostBuffer {
    pub closed spec fn wf(&self) -> bool {
        &&& self.buffer@.len() == POST_BUFFER_SIZE
        &&& self.parse_idx <= self.fill_location <= POST_BUFFER_SIZE
        &&& 0 < self.post_delimeter@.len() <= MAX_DELIMITER_LEN
        &&& self.size_limit > 0 ==> self.total_written <= self.size_limit
        &&& self.queued_error@.len() > 0 ==> self.state == PostRequestState::DiscardingData
        &&& self.state == PostRequestState::DiscardingData ==> self.pending is Idle
        &&& self.current_file is Some ==> self.state == PostRequestState::AwaitingBody
        &&& self.current_file matches Some(n) ==> self.new_files@.len() > 0 && self.new_files@.last()@ == n@
        &&& self.state == PostRequestState::AwaitingBody && !(self.pending is Remove) ==> self.current_file is Some
        &&& match self.pending {
            Pending::Idle => true,
            Pending::Create(_, bs) => self.parse_idx <= bs <= self.fill_location
                && self.state == PostRequestState::AwaitingMeta,
            Pending::Write(up_to, _) => self.parse_idx < up_to <= self.fill_location
                && self.state == PostRequestState::AwaitingBody && self.current_file is Some
                && (self.size_limit > 0 ==> self.total_written + (up_to - self.parse_idx) <= self.size_limit),
            Pending::Remove(f) => self.current_file is None && f@.len() > 0,
        }
    }

    /// The bytes received and not yet consumed.
    pub closed spec fn unparsed(&self) -> Seq<u8> {
        self.buffer@.subrange(self.parse_idx as int, self.fill_location as int)
    }

    pub closed spec fn spec_state(&self) -> PostRequestState {
        self.state
    }

    pub closed spec fn spec_total_written(&self) -> usize {
        self.total_written
    }

    pub closed spec fn spec_size_limit(&self) -> usize {
        self.size_limit
    }

    pub closed spec fn spec_finished(&self) -> bool {
        self.finished
    }

    pub closed spec fn spec_fill(&self) -> usize {
        self.fill_location
    }

    pub closed spec fn spec_delimiter(&self) -> Seq<u8> {
        self.post_delimeter@
    }

    /// A destination file is open.
    pub closed spec fn spec_file_open(&self) -> bool {
        self.current_file is Some
    }

    pub closed spec fn spec_pending(&self) -> Pending {
        self.pending
    }

    pub closed spec fn spec_new_files(&self) -> Seq<Vec<u8>> {
        self.new_files@
    }

    pub closed spec fn spec_buffer(&self) -> Seq<u8> {
        self.buffer@
    }

    /// The bytes received so far and still held.
    pub closed spec fn spec_received(&self) -> Seq<u8> {
        self.buffer@.subrange(0, self.fill_location as int)
    }

    pub closed spec fn spec_parse_idx(&self) -> usize {
        self.parse_idx
    }

    pub closed spec fn spec_queued(&self) -> Seq<UploadFault> {
        self.queued_error@
    }

    /// A parser for a body delimited by `delim` (`--` and the boundary),
    /// seeded with the body bytes that came with the request headers.
    pub fn new(delim: Vec<u8>, slice: &[u8], size_limit: usize) -> (r: PostBuffer)
        requires
            0 < delim@.len() <= MAX_DELIMITER_LEN,
            slice@.len() <= POST_BUFFER_SIZE,
        ensures
            r.wf(),
            r.spec_state() == PostRequestState::AwaitingFirstBody,
            r.spec_buffer().subrange(0, slice@.len() as int) == slice@,
            r.spec_parse_idx() == 0,
            r.spec_fill() == slice@.len(),
            r.spec_delimiter() == delim@,
            r.spec_total_written() == 0,
            r.spec_size_limit() == size_limit,
            r.spec_pending() == Pending::Idle,
            r.spec_new_files().len() == 0,
            !r.spec_finished(),
            r.unparsed() == slice@,
            r.spec_queued().len() == 0,
    {
        let mut buffer: Vec<u8> = vec![0u8; POST_BUFFER_SIZE];
        let mut i: usize = 0;
        while i < slice.len()
            invariant
                i <= slice@.len() <= POST_BUFFER_SIZE,
                buffer@.len() == POST_BUFFER_SIZE,
                forall|k: int| 0 <= k < i ==> buffer@[k] == slice@[k],
            decreases slice@.len() - i,
        {
            buffer.set(i, slice[i]);
            i = i + 1;
        }
        assert(buffer@.subrange(0, slice@.len() as int) =~= slice@);
        PostBuffer {
            buffer,
            fill_location: slice.len(),
            parse_idx: 0,
            post_delimeter: delim,
            state: PostRequestState::AwaitingFirstBody,
            current_file: None,
            pending: Pending::Idle,
            queued_error: Vec::new(),
            new_files: Vec::new(),
            total_written: 0,
            size_limit,
            finished: false,
        }
    }

    /// Names of the files created so far.
    pub fn get_new_files(&self) -> (r: &Vec<Vec<u8>>)
        ensures
            r@ == self.spec_new_files(),
    {
        &self.new_files
    }

    /// The working buffer; a `WriteFile(from, to)` action refers to it.
    pub fn buffer(&self) -> (r: &[u8])
        ensures
            r@ == self.spec_buffer(),
    {
        self.buffer.as_slice()
    }

    /// Room left for incoming bytes.
    pub fn free_space(&self) -> (r: usize)
        requires
            self.wf(),
        ensures
            r == POST_BUFFER_SIZE - self.spec_fill(),
    {
        POST_BUFFER_SIZE - self.fill_location
    }

    /// Appends as many of `data` as there is room for; returns how many.
    pub fn read_into_buffer(&mut self, data: &[u8]) -> (r: usize)
        requires
            old(self).wf(),
        ensures
            final(self).wf(),
            r == if data@.len() <= POST_BUFFER_SIZE - old(self).spec_fill() {
                data@.len()
            } else {
                (POST_BUFFER_SIZE - old(self).spec_fill()) as nat
            },
            final(self).spec_fill() == old(self).spec_fill() + r,
            final(self).unparsed() == old(self).unparsed() + data@.subrange(0, r as int),
            final(self).spec_state() == old(self).spec_state(),
            final(self).spec_pending() == old(self).spec_pending(),
            final(self).spec_total_written() == old(self).spec_total_written(),
            final(self).spec_finished() == old(self).spec_finished(),
            final(self).spec_new_files() == old(self).spec_new_files(),
            final(self).spec_queued() == old(self).spec_queued(),
    {
        let room = POST_BUFFER_SIZE - self.fill_location;
        let n = if data.len() <= room { data.len() } else { room };
        let start = self.fill_location;
        copy_into(&mut self.buffer, start, data, n);
        self.fill_location = start + n;
        assert(self.unparsed() =~= old(self).unparsed() + data@.subrange(0, n as int));
        n
    }

    /// Moves the unparsed bytes to the front of the buffer.
    fn shuffle(&mut self)
        requires
            old(self).wf(),
            old(self).pending is Idle,
        ensures
            final(self).wf(),
            final(self).parse_idx == 0,
            final(self).unparsed() == old(self).unparsed(),
            final(self).fill_location == old(self).fill_location - old(self).parse_idx,
            final(self).state == old(self).state,
            final(self).pending == old(self).pending,
            final(self).current_file == old(self).current_file,
            final(self).total_written == old(self).total_written,
            final(self).size_limit == old(self).size_limit,
            final(self).finished == old(self).finished,
            final(self).new_files@ == old(self).new_files@,
            final(self).queued_error@ == old(self).queued_error@,
            final(self).post_delimeter@ == old(self).post_delimeter@,
    {
        let p = self.parse_idx;
        let remain = self.fill_location - p;
        let ghost before = self.buffer@;
        move_to_front(&mut self.buffer, p, remain);
        self.parse_idx = 0;
        self.fill_location = remain;
        assert(self.unparsed() =~= before.subrange(p as int, (p + remain) as int));
    }

    /// Drops all unparsed bytes but the last `keep` of them.
    fn discard_keeping(&mut self, keep: usize)
        requires
            old(self).wf(),
            old(self).pending is Idle,
        ensures
            final(self).wf(),
            final(self).parse_idx == 0,
            final(self).unparsed() == if keep < old(self).unparsed().len() {
                old(self).unparsed().subrange(old(self).unparsed().len() - keep, old(self).unparsed().len() as int)
            } else {
                old(self).unparsed()
            },
            final(self).state == old(self).state,
            final(self).pending == old(self).pending,
            final(self).current_file == old(self).current_file,
            final(self).total_written == old(self).total_written,
            final(self).size_limit == old(self).size_limit,
            final(self).finished == old(self).finished,
            final(self).new_files@ == old(self).new_files@,
            final(self).queued_error@ == old(self).queued_error@,
            final(self).post_delimeter@ == old(self).post_delimeter@,
    {
        if keep < self.fill_location - self.parse_idx {
            self.parse_idx = self.fill_location - keep;
        }
        assert(self.unparsed() =~= (if keep < old(self).unparsed().len() {
            old(self).unparsed().subrange(old(self).unparsed().len() - keep, old(self).unparsed().len() as int)
        } else {
            old(self).unparsed()
        }));
        self.shuffle();
    }

    /// Leftmost delimiter in the unparsed bytes from `start` on.
    fn find_next_delim(&self, start: usize) -> (r: Option<usize>)
        requires
            self.wf(),
            start <= self.fill_location,
        ensures
            r == match first_match(self.buffer@.subrange(start as int, self.fill_location as int), self.post_delimeter@) {
                Some(i) => Some((i + start) as usize),
                None => None::<usize>,
            },
            r matches Some(i) ==> start <= i && i + self.post_delimeter@.len() <= self.fill_location
                && matches_at(self.buffer@, self.post_delimeter@, i as int),
            start == self.parse_idx ==> match r {
                Some(i) => first_match(self.unparsed(), self.post_delimeter@) == Some(i - start),
                None => first_match(self.unparsed(), self.post_delimeter@) is None,
            },
    {
        let r = find_in_window(self.post_delimeter.as_slice(), self.buffer.as_slice(), start, self.fill_location);
        proof {
            crate::search::lemma_first_match_bounds(
                self.buffer@.subrange(start as int, self.fill_location as int), self.post_delimeter@);
            if let Some(i) = r {
                let w = self.buffer@.subrange(start as int, self.fill_location as int);
                let d = self.post_delimeter@;
                assert(w.subrange(i - start, i - start + d.len()) =~= self.buffer@.subrange(i as int, i + d.len()));
            }
        }
        r
    }

    /// Asks for `[parse_idx, up_to)` to be written, unless that would take
    /// the upload past its size limit.
    fn write_and_shuffle(&mut self, up_to: usize, last: bool) -> (r: Result<UploadAction, Vec<UploadFault>>)
        requires
            old(self).wf(),
            old(self).pending is Idle,
            old(self).current_file is Some,
            old(self).parse_idx < up_to <= old(self).fill_location,
        ensures
            final(self).wf(),
            final(self).buffer@ == old(self).buffer@,
            final(self).parse_idx == old(self).parse_idx,
            final(self).fill_location == old(self).fill_location,
            final(self).state == old(self).state,
            final(self).current_file == old(self).current_file,
            final(self).total_written == old(self).total_written,
            final(self).size_limit == old(self).size_limit,
            final(self).finished == old(self).finished,
            final(self).new_files@ == old(self).new_files@,
            final(self).queued_error@ == old(self).queued_error@,
            final(self).post_delimeter@ == old(self).post_delimeter@,
            old(self).size_limit > 0 && old(self).total_written + (up_to - old(self).parse_idx) > old(self).size_limit ==> {
                &&& r matches Err(e) && e@ == seq![UploadFault::TooLarge]
                &&& final(self).pending == Pending::Idle
            },
            !(old(self).size_limit > 0 && old(self).total_written + (up_to - old(self).parse_idx) > old(self).size_limit) ==> {
                &&& r == Ok::<UploadAction, Vec<UploadFault>>(UploadAction::WriteFile(old(self).parse_idx, up_to))
                &&& final(self).pending == Pending::Write(up_to, last)
            },
    {
        if self.size_limit > 0 && up_to - self.parse_idx > self.size_limit - self.total_written {
            return Err(vec![UploadFault::TooLarge]);
        }
        self.pending = Pending::Write(up_to, last);
        Ok(UploadAction::WriteFile(self.parse_idx, up_to))
    }

    /// Applies one event, then parses as far as the buffered bytes allow,
    /// stopping at the first thing that needs the outside world.
    #[verifier::rlimit(100)]
    #[verifier::spinoff_prover]
    pub fn handle_new_data_raw(&mut self, event: UploadEvent) -> (r: Result<UploadAction, Vec<UploadFault>>)
        requires
            old(self).wf(),
            !(old(self).spec_pending() is Remove),
        ensures
            final(self).wf(),
            final(self).spec_size_limit() == old(self).spec_size_limit(),
            final(self).spec_total_written() >= old(self).spec_total_written(),
            final(self).spec_delimiter() == old(self).spec_delimiter(),
            old(self).spec_finished() ==> final(self).spec_finished(),
            old(self).spec_new_files().is_prefix_of(final(self).spec_new_files()),
            final(self).spec_queued() == old(self).spec_queued(),
            (old(self).spec_state() == PostRequestState::DiscardingData)
                == (final(self).spec_state() == PostRequestState::DiscardingData),
            old(self).spec_state() == PostRequestState::DiscardingData && old(self).spec_pending() is Idle
                && event == UploadEvent::DataArrived ==> (r matches Ok(a) && (a is NeedData || a is Finished)),
            old(self).spec_state() == PostRequestState::DiscardingData ==> (r matches Ok(a) ==> (a is NeedData || a is Finished)),
            r matches Err(f) ==> f@.len() > 0 && final(self).spec_pending() is Idle,
            r matches Err(f) ==> f@.len() == 1 && (fault_cause(&*final(self), f@[0]) || event_fault(&*old(self), event, f@[0])),
            r matches Ok(a) ==> !(a is RemoveFile),
            step_outcome(*old(self), event, match r {
                Ok(a) => Ok(a),
                Err(f) => Err(f@),
            }, *final(self)),
            old(self).spec_pending() is Create && event == UploadEvent::FileCreated(false) ==> (
                r matches Err(f) && f@ == seq![UploadFault::CannotCreate] && !final(self).spec_file_open()),
            (old(self).spec_pending() matches Pending::Write(up_to, _) && event matches UploadEvent::FileWritten(Some(n))
                && 0 < n <= up_to - old(self).spec_parse_idx()) ==> final(self).spec_total_written() == (
                if old(self).spec_total_written() + event->FileWritten_0->0 <= usize::MAX {
                    old(self).spec_total_written() + event->FileWritten_0->0
                } else {
                    usize::MAX as int
                }),
            r matches Ok(a) && a is NeedData ==> final(self).spec_pending() is Idle,
            r matches Ok(a) && a is NeedData ==> stalled(final(self).spec_state(), final(self).unparsed(), final(self).spec_delimiter()),
            final(self).spec_new_files() == (match (old(self).spec_pending(), event) {
                (Pending::Create(n, _), UploadEvent::FileCreated(true)) => old(self).spec_new_files().push(n),
                _ => old(self).spec_new_files(),
            }),
            r matches Ok(a) && a is Finished ==> final(self).spec_finished()
                && ends_at_terminal(final(self).spec_state(), final(self).unparsed(), final(self).spec_delimiter()),
            r matches Ok(UploadAction::CreateFile(name)) ==> (final(self).spec_pending() matches Pending::Create(n, bs)
                && n@ == name@ && final(self).spec_parse_idx() <= bs <= final(self).spec_fill()
                && first_match(final(self).unparsed(), blank_line()) == Some(bs - 4 - final(self).spec_parse_idx())
                && part_filename(final(self).spec_buffer().subrange(final(self).spec_parse_idx() as int, bs as int))
                    == Ok::<Seq<u8>, UploadFault>(name@)),
            r matches Ok(UploadAction::WriteFile(from, to)) ==> (final(self).spec_pending() matches Pending::Write(up_to, _)
                && up_to == to && from == final(self).spec_parse_idx() && from < to <= final(self).spec_fill()
                && (final(self).spec_size_limit() > 0 ==> final(self).spec_total_written() + (to - from) <= final(self).spec_size_limit())),
            r matches Ok(UploadAction::WriteFile(from, to)) ==> forall|j: int| from <= j < to
                ==> !matches_at(final(self).spec_received(), final(self).spec_delimiter(), j),
            r matches Ok(UploadAction::WriteFile(from, to)) ==> (final(self).spec_pending() == Pending::Write(to, true)
                ==> (matches_at(final(self).spec_received(), final(self).spec_delimiter(), to + 2)
                    && final(self).spec_received()[to as int] == 13u8 && final(self).spec_received()[to + 1] == 10u8)),
    {
        let mut taken = Pending::Idle;
        std::mem::swap(&mut taken, &mut self.pending);
        match taken {
            Pending::Idle => {
                if event != UploadEvent::DataArrived {
                    proof { reveal(resume_point); }
                    return Err(vec![UploadFault::Internal]);
                }
            },
            Pending::Create(name, bs) => {
                match event {
                    UploadEvent::FileCreated(true) => {
                        let copy = vstd::slice::slice_to_vec(name.as_slice());
                        self.current_file = Some(copy);
                        self.new_files.push(name);
                        self.parse_idx = bs;
                        self.state = PostRequestState::AwaitingBody;
                    },
                    UploadEvent::FileCreated(false) => {
                        proof { reveal(resume_point); }
                        return Err(vec![UploadFault::CannotCreate]);
                    },
                    _ => {
                        proof { reveal(resume_point); }
                        return Err(vec![UploadFault::Internal]);
                    },
                }
            },
            Pending::Write(up_to, last) => {
                match event {
                    UploadEvent::FileWritten(Some(n)) => {
                        if n == 0 || n > up_to - self.parse_idx {
                            proof { reveal(resume_point); }
                            return Err(vec![UploadFault::WriteFailed]);
                        }
                        self.parse_idx = self.parse_idx + n;
                        assert(self.unparsed() =~= old(self).unparsed().subrange(n as int, old(self).unparsed().len() as int));
                        self.total_written = if self.total_written <= usize::MAX - n {
                            self.total_written + n
                        } else {
                            usize::MAX
                        };
                        if last && self.parse_idx == up_to {
                            self.current_file = None;
                            self.state = PostRequestState::AwaitingFirstBody;
                        }
                        self.shuffle();
                    },
                    UploadEvent::FileWritten(None) => {
                        proof { reveal(resume_point); }
                        return Err(vec![UploadFault::WriteFailed]);
                    },
                    _ => {
                        proof { reveal(resume_point); }
                        return Err(vec![UploadFault::Internal]);
                    },
                }
            },
            Pending::Remove(faults) => {
                proof { reveal(resume_point); }
                return Err(faults);
            },
        }
        let ghost started = resume_point(*old(self), event) is Some;
        let ghost rs = self.state;
        let ghost ru = self.unparsed();
        let ghost rt = self.total_written;
        let ghost mut first = started;
        proof {
            reveal(resume_point);
        }
        assert(started ==> resume_point(*old(self), event) == Some((rs, ru, rt as int)));
        let ghost fill0 = self.fill_location;
        let ghost discarding = self.state == PostRequestState::DiscardingData;
        let ghost files0 = self.new_files@;
        let dlen = self.post_delimeter.len();
        loop
            invariant
                self.wf(),
                self.pending is Idle,
                self.fill_location == fill0,
                dlen == self.post_delimeter@.len(),
                self.post_delimeter@ == old(self).post_delimeter@,
                self.size_limit == old(self).size_limit,
                self.total_written >= old(self).total_written,
                self.queued_error@ == old(self).queued_error@,
                old(self).finished ==> self.finished,
                self.new_files@ == files0,
                files0 == (match (old(self).pending, event) {
                    (Pending::Create(n, _), UploadEvent::FileCreated(true)) => old(self).new_files@.push(n),
                    _ => old(self).new_files@,
                }),
                discarding == (self.state == PostRequestState::DiscardingData),
                discarding == (old(self).state == PostRequestState::DiscardingData),
                !(old(self).pending is Create && event == UploadEvent::FileCreated(false)),
                started == (resume_point(*old(self), event) is Some),
                started ==> resume_point(*old(self), event) == Some((rs, ru, rt as int)),
                first ==> started && self.state == rs && self.unparsed() == ru && self.total_written == rt,
                started && !first ==> moves_on(rs, ru, old(self).post_delimeter@),
                old(self).pending matches Pending::Write(_, _) ==> self.total_written == (
                    if old(self).total_written + (event->FileWritten_0->0) <= usize::MAX {
                        old(self).total_written + (event->FileWritten_0->0)
                    } else {
                        usize::MAX as int
                    }),
            decreases 4 * (self.fill_location - self.parse_idx) + match self.state {
                PostRequestState::DiscardingData => 0int,
                PostRequestState::AwaitingFirstBody => 1int,
                PostRequestState::AwaitingBody => 2int,
                PostRequestState::AwaitingMeta => 3int,
            },
        {
            proof {
                if started && !first {
                    let u = ru;
                    let d = old(self).post_delimeter@;
                    assert(moves_on(rs, u, d));
                    if rs == PostRequestState::AwaitingBody {
                        assert(first_match(u, d) is Some);
                        assert(flush_len(u, d) is None);
                        assert(!boundary_without_crlf(u, d));
                    }
                    if rs == PostRequestState::AwaitingFirstBody {
                        assert(first_match(u, d) is Some);
                    }
                }
            }
            match self.state {
                PostRequestState::DiscardingData => {
                    match self.find_next_delim(self.parse_idx) {
                        None => {
                            // a boundary may be split across reads: keep its length
                            self.discard_keeping(dlen);
                            return Ok(UploadAction::NeedData);
                        },
                        Some(idx) => {
                            let new_idx = idx + dlen;
                            if self.fill_location - new_idx < 2 {
                                self.parse_idx = idx;
                                self.shuffle();
                                return Ok(UploadAction::NeedData);
                            }
                            if self.buffer[new_idx] == 45u8 && self.buffer[new_idx + 1] == 45u8 {
                                self.finished = true;
                                assert(self.unparsed()[(idx - self.parse_idx) + dlen] == self.buffer@[new_idx as int]);
                                assert(self.unparsed()[(idx - self.parse_idx) + dlen + 1] == self.buffer@[new_idx + 1]);
                                return Ok(UploadAction::Finished);
                            }

                            proof {
                                if first {
                                    let u = self.unparsed();
                                    let i = idx - self.parse_idx;
                                    assert(u[i + dlen] == self.buffer@[new_idx as int]);
                                    assert(u[i + dlen + 1] == self.buffer@[new_idx + 1]);
                                    assert(moves_on(rs, ru, old(self).post_delimeter@));
                                }
                                first = false;
                            }
                            self.parse_idx = new_idx;
                        },
                    }
                },
                PostRequestState::AwaitingFirstBody => {
                    let ghost u0 = self.unparsed();
                    let ghost p0 = self.parse_idx;
                    match self.find_next_delim(self.parse_idx) {
                        None => {
                            self.discard_keeping(dlen);
                            proof {
                                if first {
                                    assert(first_match(u0, old(self).post_delimeter@) is None);
                                    assert(self.unparsed() == (if u0.len() > dlen {
                                        u0.subrange(u0.len() - dlen, u0.len() as int)
                                    } else {
                                        u0
                                    }));
                                }
                            }
                            return Ok(UploadAction::NeedData);
                        },
                        Some(idx) => {
                            let new_idx = idx + dlen;
                            if self.fill_location - new_idx < 2 {
                                // need the CRLF or the "--" that follows
                                self.parse_idx = idx;
                                proof {
                                    if first {
                                        assert(first_match(u0, old(self).post_delimeter@) == Some(idx - p0));
                                        assert(self.unparsed() =~= u0.subrange(idx - p0, u0.len() as int));
                                    }
                                }
                                self.shuffle();
                                return Ok(UploadAction::NeedData);
                            }
                            if self.buffer[new_idx] == 45u8 && self.buffer[new_idx + 1] == 45u8 {
                                self.finished = true;
                                assert(self.unparsed()[(idx - self.parse_idx) + dlen] == self.buffer@[new_idx as int]);
                                assert(self.unparsed()[(idx - self.parse_idx) + dlen + 1] == self.buffer@[new_idx + 1]);
                                return Ok(UploadAction::Finished);
                            }

                            proof {
                                if first {
                                    let u = self.unparsed();
                                    let i = idx - self.parse_idx;
                                    assert(u[i + dlen] == self.buffer@[new_idx as int]);
                                    assert(u[i + dlen + 1] == self.buffer@[new_idx + 1]);
                                    assert(moves_on(rs, ru, old(self).post_delimeter@));
                                }
                                first = false;
                            }
                            self.parse_idx = new_idx + 2;
                            self.state = PostRequestState::AwaitingMeta;
                        },
                    }
                },
                PostRequestState::AwaitingMeta => {
                    let window = vstd::slice::slice_subrange(self.buffer.as_slice(), self.parse_idx, self.fill_location);
                    match find_body_start(window) {
                        None => {
                            self.shuffle();
                            return Ok(UploadAction::NeedData);
                        },
                        Some(b) => {
                            proof { crate::search::lemma_first_match_bounds(window@, blank_line()); }
                            let bs = self.parse_idx + b;
                            let meta = vstd::slice::slice_subrange(self.buffer.as_slice(), self.parse_idx, bs);
                            proof {
                                assert(window@ == self.unparsed());
                                assert(meta@ =~= self.unparsed().subrange(0, b as int));
                                assert(header_block_result(self.unparsed()) == Some(part_filename(meta@)));
                            }
                            match parse_part_filename(meta) {
                                Err(f) => {
                                    proof {
                                        assert(window@ == self.unparsed());
                                        assert(meta@ =~= self.unparsed().subrange(0, b as int));
                                        assert(header_block_result(self.unparsed()) == Some(Err::<Seq<u8>, UploadFault>(f)));
                                    }
                                    let v = vec![f];
                                    assert(v@ =~= seq![f]);
                                    return Err(v);
                                },
                                Ok(name) => {
                                    let copy = vstd::slice::slice_to_vec(name.as_slice());
                                    self.pending = Pending::Create(copy, bs);
                                    return Ok(UploadAction::CreateFile(name));
                                },
                            }
                        },
                    }
                },
                PostRequestState::AwaitingBody => {
                    match self.find_next_delim(self.parse_idx) {
                        None => {
                            // hold back what could be a split boundary and its CRLF
                            let keep = dlen + 2;
                            if self.fill_location - self.parse_idx > keep {
                                proof {
                                    let w = self.buffer@.subrange(self.parse_idx as int, self.fill_location as int);
                                    assert(!exists|k: int| matches_at(w, self.post_delimeter@, k));
                                    assert forall|j: int| self.parse_idx <= j < self.fill_location
                                        implies !matches_at(self.spec_received(), self.spec_delimiter(), j) by {
                                        if matches_at(self.spec_received(), self.spec_delimiter(), j) {
                                            lemma_window_match(self.buffer@, self.fill_location as int, self.parse_idx as int,
                                                self.post_delimeter@, j);
                                        }
                                    }
                                }
                                let ghost rc = self.spec_received();
                                let ghost d = self.spec_delimiter();
                                let res = self.write_and_shuffle(self.fill_location - keep, false);
                                assert(self.spec_received() == rc);
                                assert(self.spec_delimiter() == d);
                                return res;
                            }
                            self.shuffle();
                            return Ok(UploadAction::NeedData);
                        },
                        Some(idx) => {
                            proof {
                                crate::search::lemma_first_match_bounds(self.unparsed(), self.post_delimeter@);
                                assert(self.unparsed() == self.buffer@.subrange(self.parse_idx as int, self.fill_location as int));
                                assert(first_match(self.unparsed(), self.post_delimeter@) == Some(idx - self.parse_idx));
                            }
                            if idx < self.parse_idx + 2 || self.buffer[idx - 2] != 13u8 || self.buffer[idx - 1] != 10u8 {
                                proof {
                                    let k = idx - self.parse_idx;
                                    if k >= 2 {
                                        assert(self.unparsed()[k - 2] == self.buffer@[idx - 2]);
                                        assert(self.unparsed()[k - 1] == self.buffer@[idx - 1]);
                                    }
                                }
                                let v = vec![UploadFault::MissingCrlf];
                                assert(v@ =~= seq![UploadFault::MissingCrlf]);
                                return Err(v);
                            }
                            let end = idx - 2;
                            if end > self.parse_idx {
                                proof {
                                    let w = self.buffer@.subrange(self.parse_idx as int, self.fill_location as int);
                                    crate::search::lemma_first_match_bounds(w, self.post_delimeter@);
                                    assert(is_first_match(w, self.post_delimeter@, idx - self.parse_idx));
                                    assert forall|j: int| self.parse_idx <= j < end
                                        implies !matches_at(self.spec_received(), self.spec_delimiter(), j) by {
                                        if matches_at(self.spec_received(), self.spec_delimiter(), j) {
                                            lemma_window_match(self.buffer@, self.fill_location as int, self.parse_idx as int,
                                                self.post_delimeter@, j);
                                            assert(!matches_at(w, self.post_delimeter@, j - self.parse_idx));
                                        }
                                    }
                                    let rc = self.spec_received();
                                    let d = self.post_delimeter@;
                                    assert(rc.subrange(idx as int, idx + d.len()) =~= self.buffer@.subrange(idx as int, idx + d.len()));
                                    assert(matches_at(rc, d, end + 2));
                                }
                                let ghost rc = self.spec_received();
                                let ghost d = self.spec_delimiter();
                                let res = self.write_and_shuffle(end, true);
                                assert(self.spec_received() == rc);
                                assert(self.spec_delimiter() == d);
                                return res;
                            }
                            // the part's body is all written
                            proof {
                                if first {
                                    let u = self.unparsed();
                                    assert(u[0] == self.buffer@[self.parse_idx as int]);
                                    assert(u[1] == self.buffer@[self.parse_idx + 1]);
                                    assert(moves_on(rs, ru, old(self).post_delimeter@));
                                }
                                first = false;
                            }
                            self.current_file = None;
                            self.parse_idx = idx;
                            self.state = PostRequestState::AwaitingFirstBody;
                        },
                    }
                },
            }
        }
    }

    /// Direct mode: the first fault is reported as soon as it is found. A
    /// file created for the failing part is removed first (`RemoveFile`,
    /// answered by `FileRemoved`), and a failed removal adds to the fault.
    /// This mode never starts discarding data.
    pub fn handle_new_data(&mut self, event: UploadEvent) -> (r: Result<UploadAction, PostBufferError>)
        requires
            old(self).wf(),
        ensures
            final(self).wf(),
            final(self).spec_size_limit() == old(self).spec_size_limit(),
            final(self).spec_total_written() >= old(self).spec_total_written(),
            final(self).spec_delimiter() == old(self).spec_delimiter(),
            old(self).spec_finished() ==> final(self).spec_finished(),
            final(self).spec_queued() == old(self).spec_queued(),
            (old(self).spec_state() == PostRequestState::DiscardingData)
                == (final(self).spec_state() == PostRequestState::DiscardingData),
            old(self).spec_state() == PostRequestState::DiscardingData && old(self).spec_pending() is Idle
                && event == UploadEvent::DataArrived ==> (r matches Ok(a) && (a is NeedData || a is Finished)),
            old(self).spec_state() == PostRequestState::DiscardingData ==> (r matches Ok(a) ==> (a is NeedData || a is Finished)),
            r matches Err(e) ==> e.faults@.len() > 0 && final(self).spec_pending() is Idle
                && !final(self).spec_file_open(),
            r matches Ok(UploadAction::RemoveFile(_)) ==> final(self).spec_pending() is Remove,
            step_outcome(*old(self), event, match r {
                Ok(UploadAction::RemoveFile(_)) => match final(self).spec_pending() {
                    Pending::Remove(f) => Err(f@),
                    _ => Err(Seq::empty()),
                },
                Ok(a) => Ok(a),
                Err(e) => Err(e.faults@),
            }, *final(self)),
            old(self).spec_pending() is Idle && event == UploadEvent::DataArrived ==> (r matches Err(e)
                ==> e.faults@.len() == 1 && fault_cause(&*final(self), e.faults@[0])),
            old(self).spec_pending() is Idle && event == UploadEvent::DataArrived
                && old(self).spec_state() == PostRequestState::AwaitingBody
                && ((flush_len(old(self).unparsed(), old(self).spec_delimiter()) matches Some(m)
                    && old(self).spec_size_limit() > 0 && old(self).spec_total_written() + m > old(self).spec_size_limit())
                    || boundary_without_crlf(old(self).unparsed(), old(self).spec_delimiter()))
                ==> (r matches Ok(UploadAction::RemoveFile(_))),
            r matches Ok(UploadAction::RemoveFile(name)) ==> (final(self).spec_pending() matches Pending::Remove(f)
                && f@.len() == 1 && (fault_cause(&*final(self), f@[0]) || event_fault(&*old(self), event, f@[0]))
                && final(self).spec_new_files().len() > 0 && name@ == final(self).spec_new_files().last()@),
            old(self).spec_pending() matches Pending::Remove(f) ==> (r matches Err(e) && e.faults@ == f@ + match event {
                UploadEvent::FileRemoved(true) => Seq::<UploadFault>::empty(),
                UploadEvent::FileRemoved(false) => seq![UploadFault::RemoveFailed],
                _ => seq![UploadFault::Internal],
            }),
            (old(self).spec_pending() matches Pending::Write(up_to, _) && event matches UploadEvent::FileWritten(Some(n))
                && 0 < n <= up_to - old(self).spec_parse_idx()) ==> final(self).spec_total_written() == (
                if old(self).spec_total_written() + event->FileWritten_0->0 <= usize::MAX {
                    old(self).spec_total_written() + event->FileWritten_0->0
                } else {
                    usize::MAX as int
                }),
            old(self).spec_pending() is Create && event == UploadEvent::FileCreated(false) ==> (
                r matches Err(e) && e.faults@ == seq![UploadFault::CannotCreate]),
            r matches Ok(a) && a is NeedData ==> stalled(final(self).spec_state(), final(self).unparsed(), final(self).spec_delimiter()),
            r matches Ok(a) && a is Finished ==> final(self).spec_finished()
                && ends_at_terminal(final(self).spec_state(), final(self).unparsed(), final(self).spec_delimiter()),
            r matches Ok(UploadAction::WriteFile(from, to)) ==> from == final(self).spec_parse_idx()
                && from < to <= final(self).spec_fill()
                && (final(self).spec_size_limit() > 0 ==> final(self).spec_total_written() + (to - from) <= final(self).spec_size_limit()),
            r matches Ok(UploadAction::WriteFile(from, to)) ==> forall|j: int| from <= j < to
                ==> !matches_at(final(self).spec_received(), final(self).spec_delimiter(), j),
            r matches Ok(UploadAction::WriteFile(from, to)) ==> (final(self).spec_pending() == Pending::Write(to, true)
                ==> (matches_at(final(self).spec_received(), final(self).spec_delimiter(), to + 2)
                    && final(self).spec_received()[to as int] == 13u8 && final(self).spec_received()[to + 1] == 10u8)),
    {
        proof {
            reveal(resume_point);
        }
        let removing = match &self.pending {
            Pending::Remove(_) => true,
            _ => false,
        };
        if removing {
            let mut taken = Pending::Idle;
            std::mem::swap(&mut taken, &mut self.pending);
            let mut faults = match taken {
                Pending::Remove(f) => f,
                _ => vec![UploadFault::Internal],
            };
            match event {
                UploadEvent::FileRemoved(true) => {},
                UploadEvent::FileRemoved(false) => {
                    faults.push(UploadFault::RemoveFailed);
                },
                _ => {
                    faults.push(UploadFault::Internal);
                },
            }
            if self.state == PostRequestState::AwaitingBody {
                self.state = PostRequestState::AwaitingFirstBody;
            }
            return Err(PostBufferError { faults });
        }
        match self.handle_new_data_raw(event) {
            Ok(a) => Ok(a),
            Err(faults) => {
                match self.current_file.take() {
                    Some(name) => {
                        self.pending = Pending::Remove(faults);
                        Ok(UploadAction::RemoveFile(name))
                    },
                    None => Err(PostBufferError { faults }),
                }
            },
        }
    }

    fn take_queued_error(&mut self) -> (r: PostBufferError)
        requires
            old(self).wf(),
            old(self).state == PostRequestState::DiscardingData,
        ensures
            final(self).wf(),
            r.faults@ == old(self).queued_error@,
            final(self).queued_error@.len() == 0,
            final(self).state == old(self).state,
            final(self).pending == old(self).pending,
            final(self).finished == old(self).finished,
            final(self).total_written == old(self).total_written,
            final(self).size_limit == old(self).size_limit,
            final(self).buffer@ == old(self).buffer@,
            final(self).parse_idx == old(self).parse_idx,
            final(self).fill_location == old(self).fill_location,
            final(self).post_delimeter@ == old(self).post_delimeter@,
    {
        let mut q: Vec<UploadFault> = Vec::new();
        std::mem::swap(&mut q, &mut self.queued_error);
        PostBufferError { faults: q }
    }

    /// Draining mode: after a fault the rest of the body is read and
    /// discarded, and every fault met on the way is reported together,
    /// only once the terminal boundary has arrived.
    pub fn handle_new_data_queue_error(&mut self, event: UploadEvent) -> (r: Result<UploadAction, PostBufferError>)
        requires
            old(self).wf(),
        ensures
            final(self).wf(),
            final(self).spec_size_limit() == old(self).spec_size_limit(),
            final(self).spec_total_written() >= old(self).spec_total_written(),
            r matches Err(e) ==> e.faults@.len() > 0 && final(self).spec_finished()
                && final(self).spec_state() == PostRequestState::DiscardingData,
            r matches Ok(a) && a is Finished ==> final(self).spec_finished()
                && final(self).spec_state() != PostRequestState::DiscardingData,
            r matches Err(e) ==> old(self).spec_queued().is_prefix_of(e.faults@)
                && ends_at_terminal(final(self).spec_state(), final(self).unparsed(), final(self).spec_delimiter()),
            old(self).spec_state() == PostRequestState::DiscardingData && old(self).spec_queued().len() > 0
                && event == UploadEvent::DataArrived ==> (
                r matches Err(e) ==> e.faults@ == old(self).spec_queued()),
            r is Ok ==> old(self).spec_queued().is_prefix_of(final(self).spec_queued()),
            old(self).spec_state() != PostRequestState::DiscardingData
                && (r is Err || final(self).spec_state() == PostRequestState::DiscardingData) ==> reported_faults(
                *old(self), event, match r {
                    Err(e) => e.faults@,
                    Ok(_) => final(self).spec_queued(),
                }, *final(self)),
            old(self).spec_state() == PostRequestState::DiscardingData && event == UploadEvent::DataArrived
                && old(self).spec_queued().len() > 0 ==> (
                (r matches Ok(UploadAction::NeedData) && final(self).spec_queued() == old(self).spec_queued())
                || (r matches Err(e) && e.faults@ == old(self).spec_queued())),
            final(self).spec_state() == PostRequestState::DiscardingData && r is Ok ==> (
                r matches Ok(UploadAction::NeedData) && final(self).spec_queued().len() > 0
                    || old(self).spec_state() == PostRequestState::DiscardingData),
            final(self).spec_state() == PostRequestState::DiscardingData ==> (r is Err || r matches Ok(UploadAction::NeedData)),
            final(self).spec_state() != PostRequestState::DiscardingData ==> step_outcome(*old(self), event, match r {
                Ok(UploadAction::RemoveFile(_)) => match final(self).spec_pending() {
                    Pending::Remove(f) => Err(f@),
                    _ => Err(Seq::empty()),
                },
                Ok(a) => Ok(a),
                Err(e) => Err(e.faults@),
            }, *final(self)),
            r matches Ok(a) ==> (a is NeedData || final(self).spec_state() != PostRequestState::DiscardingData),
            r matches Ok(a) && a is NeedData ==> stalled(final(self).spec_state(), final(self).unparsed(), final(self).spec_delimiter()),
            r matches Ok(UploadAction::WriteFile(from, to)) ==> from == final(self).spec_parse_idx()
                && from < to <= final(self).spec_fill()
                && (final(self).spec_size_limit() > 0 ==> final(self).spec_total_written() + (to - from) <= final(self).spec_size_limit()),
            r matches Ok(UploadAction::WriteFile(from, to)) ==> forall|j: int| from <= j < to
                ==> !matches_at(final(self).spec_received(), final(self).spec_delimiter(), j),
            r matches Ok(UploadAction::WriteFile(from, to)) ==> (final(self).spec_pending() == Pending::Write(to, true)
                ==> (matches_at(final(self).spec_received(), final(self).spec_delimiter(), to + 2)
                    && final(self).spec_received()[to as int] == 13u8 && final(self).spec_received()[to + 1] == 10u8)),
    {
        proof { lemma_prefix_of_append(self.queued_error@, Seq::empty()); }
        match self.handle_new_data(event) {
            Ok(a) => {
                let is_finished = match a {
                    UploadAction::Finished => true,
                    _ => false,
                };
                if is_finished && self.state == PostRequestState::DiscardingData {
                    let e = self.take_queued_error();
                    if e.faults.len() == 0 {
                        let v = vec![UploadFault::Internal];
                        proof {
                            assert(e.faults@ == old(self).spec_queued());
                            lemma_prefix_of_append(e.faults@, v@);
                            assert(e.faults@ + v@ =~= v@);
                        }
                        return Err(PostBufferError { faults: v });
                    }
                    return Err(e);
                }
                Ok(a)
            },
            Err(e) => {
                let ghost mid = *self;
                proof {
                    if old(self).pending is Idle && event == UploadEvent::DataArrived {
                        assert(step_outcome(*old(self), event, Err::<UploadAction, Seq<UploadFault>>(e.faults@), mid));
                    }
                }
                self.state = PostRequestState::DiscardingData;
                let mut f = e.faults;
                let ghost q0 = self.queued_error@;
                let ghost f0 = f@;
                self.queued_error.append(&mut f);
                proof { lemma_prefix_of_append(q0, f0); }
                match self.handle_new_data(UploadEvent::DataArrived) {
                    Ok(UploadAction::Finished) => {
                        let q = self.take_queued_error();
                        assert(q.faults@ == q0 + f0);
                        proof {
                            if old(self).state != PostRequestState::DiscardingData {
                                assert(q0 =~= Seq::<UploadFault>::empty());
                                assert(q0 + f0 =~= f0);
                            }
                            if old(self).pending is Idle && event == UploadEvent::DataArrived {
                                lemma_step_outcome_err(*old(self), event, f0, mid, *self);
                            }
                        }
                        Err(q)
                    },
                    Ok(a) => {
                        proof {
                            if old(self).state != PostRequestState::DiscardingData {
                                assert(q0 =~= Seq::<UploadFault>::empty());
                                assert(q0 + f0 =~= f0);
                            }
                            if old(self).pending is Idle && event == UploadEvent::DataArrived {
                                lemma_step_outcome_err(*old(self), event, f0, mid, *self);
                            }
                        }
                        Ok(a)
                    },
                    Err(e2) => {
                        Err(e2)
                    },
                }
            },
        }
    }
}

} // verus!
