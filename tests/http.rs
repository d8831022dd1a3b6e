use hypershare::connection::{
    check_canon_path, control_action, interest, normalize_path, plan_get, plan_range, served_status,
    sweep_decision, ConnectionState, ControlAction, GetPlan, HeaderStep, HttpConnection, RequestPlan, TargetKind, UploadReply,
    BUFFER_SIZE,
};
use hypershare::range::{clamp_range, content_range_bounds, decode_content_range, parse_usize, ContentRange};
use hypershare::request::{decode_request, expects_continue, get_post_boundary, wants_keep_alive, HttpMethod, HttpVersion};
use hypershare::status::{is_socket_error, resolve_io_error, HttpStatus, IoErrorKind};
use hypershare::history::history_line;

#[test]
fn range_two_to_five_of_ten() {
    let cr = decode_content_range("bytes=2-5").unwrap();
    assert_eq!(cr, ContentRange { start: 2, len: Some(4) });
    let served = clamp_range(Some(cr), 10);
    assert_eq!((served.start, served.len, served.partial), (2, 4, true));
    assert_eq!(content_range_bounds(served), (2, 5));
    assert_eq!(served_status(served).code(), 206);
}

#[test]
fn range_from_zero_open_is_whole_and_200() {
    let served = clamp_range(decode_content_range("bytes=0-"), 10);
    assert_eq!((served.start, served.len, served.partial), (0, 10, false));
    assert_eq!(served_status(served), HttpStatus::OK);
}

#[test]
fn range_is_clamped_to_resource() {
    let served = clamp_range(decode_content_range("bytes=4-100"), 10);
    assert_eq!((served.start, served.len), (4, 6));
    let served = clamp_range(decode_content_range("bytes=99-"), 10);
    assert_eq!((served.start, served.len), (10, 0));
    let served = clamp_range(decode_content_range("bytes=-3"), 10);
    assert_eq!((served.start, served.len), (0, 4));
}

#[test]
fn range_rejections() {
    assert_eq!(decode_content_range("bytes=5-2"), None);
    assert_eq!(decode_content_range("bytes=0-0"), None);
    assert_eq!(decode_content_range("items=1-2"), None);
    assert_eq!(decode_content_range("bytes=12"), None);
    assert_eq!(decode_content_range("bytes=a-3"), None);
    assert_eq!(plan_range(Some(b"bytes=x"), 10), Err(HttpStatus::BadRequest));
    assert_eq!(plan_range(None, 10).unwrap().len, 10);
}

#[test]
fn range_end_at_usize_max_saturates() {
    let cr = decode_content_range(&format!("bytes=0-{}", usize::MAX)).unwrap();
    assert_eq!(cr.len, Some(usize::MAX));
    assert_eq!(clamp_range(Some(cr), 7).len, 7);
}

#[test]
fn decimal_reading_follows_from_str() {
    assert_eq!(parse_usize(b"+42"), Some(42));
    assert_eq!(parse_usize(b"007"), Some(7));
    assert_eq!(parse_usize(b"+"), None);
    assert_eq!(parse_usize(b""), None);
    assert_eq!(parse_usize(b"18446744073709551616"), None);
    assert_eq!(parse_usize(b"18446744073709551615"), Some(usize::MAX));
}

#[test]
fn request_decoding() {
    let req = decode_request(b"GET /file.txt HTTP/1.1\r\nRange: bytes=2-5\r\nConnection: Keep-Alive\r\n\r\n").unwrap();
    assert_eq!(req.method, Some(HttpMethod::GET));
    assert_eq!(req.path, b"/file.txt".to_vec());
    assert_eq!(req.version, HttpVersion::Http1_1);
    assert_eq!(req.get_header(b"range"), Some(&b"bytes=2-5"[..]));
    assert!(wants_keep_alive(&req));
    assert!(!expects_continue(&req));
}

#[test]
fn request_decoding_errors() {
    assert_eq!(decode_request(b"GET / HTTP/1.1\r\nX: \xff\r\n\r\n").err(), Some(HttpStatus::BadRequest));
    assert_eq!(decode_request(b"GET /\r\n\r\n").err(), Some(HttpStatus::BadRequest));
    assert_eq!(decode_request(b"GET / HTTP/2.0\r\n\r\n").err(), Some(HttpStatus::BadRequest));
    let req = decode_request(b"BREW /pot HTTP/1.0\r\n\r\n").unwrap();
    assert_eq!(req.method, None);
    assert!(!wants_keep_alive(&req));
}

#[test]
fn post_boundary_bare_and_quoted() {
    let req = decode_request(b"POST / HTTP/1.1\r\nContent-Type: multipart/form-data; boundary=X\r\nExpect: 100-continue\r\n\r\n").unwrap();
    assert_eq!(get_post_boundary(&req), Some(b"X".to_vec()));
    assert!(expects_continue(&req));
    let req = decode_request(b"POST / HTTP/1.1\r\ncontent-type: multipart/form-data; boundary=\"ab c\"\r\n\r\n").unwrap();
    assert_eq!(get_post_boundary(&req), Some(b"ab c".to_vec()));
    let req = decode_request(b"POST / HTTP/1.1\r\nContent-Type: text/plain\r\n\r\n").unwrap();
    assert_eq!(get_post_boundary(&req), None);
}

#[test]
fn connection_reads_head_in_pieces() {
    let mut conn = HttpConnection::new();
    assert_eq!(conn.header_bytes_received(b"GET / HTTP/1.1\r\n"), HeaderStep::NeedMore);
    assert_eq!(conn.header_bytes_received(b"\r\nbody"), HeaderStep::RequestReady);
    assert_eq!(conn.body_start_location, 18);
    let req = conn.begin_request().unwrap();
    assert_eq!(req.path, b"/".to_vec());
    assert_eq!(conn.num_requests, 1);
    assert_eq!(conn.last_requested_uri, Some(b"/".to_vec()));
    assert_eq!(conn.plan_request(&req, false, false), RequestPlan::Serve(false));
    assert!(!conn.keep_alive);
    assert_eq!(conn.header_bytes_received(b""), HeaderStep::PeerClosed);
}

#[test]
fn connection_head_too_large() {
    let mut conn = HttpConnection::new();
    let filler = vec![b'a'; BUFFER_SIZE];
    assert_eq!(conn.free_header_space(), BUFFER_SIZE);
    assert_eq!(conn.header_bytes_received(&filler), HeaderStep::TooLarge);
    assert_eq!(HttpStatus::RequestHeadersTooLarge.code(), 431);
}

#[test]
fn undecodable_request_still_counted() {
    let mut conn = HttpConnection::new();
    assert_eq!(conn.header_bytes_received(b"\xff\xfe\r\n\r\n"), HeaderStep::RequestReady);
    assert_eq!(conn.begin_request().err(), Some(HttpStatus::BadRequest));
    assert_eq!(conn.num_requests, 1);
    assert!(!conn.keep_alive);
}

#[test]
fn request_plans() {
    let mut conn = HttpConnection::new();
    let req = decode_request(b"POST /up HTTP/1.1\r\nContent-Type: multipart/form-data; boundary=X\r\nConnection: keep-alive\r\n\r\n").unwrap();
    assert_eq!(conn.plan_request(&req, true, true), RequestPlan::Error(HttpStatus::ServiceUnavailable));
    assert!(!conn.keep_alive);
    assert_eq!(conn.plan_request(&req, false, false), RequestPlan::Error(HttpStatus::MethodNotAllowed));
    assert_eq!(conn.plan_request(&req, false, true), RequestPlan::Upload(b"--X".to_vec()));
    assert!(conn.keep_alive);
    let head = decode_request(b"HEAD / HTTP/1.1\r\n\r\n").unwrap();
    assert_eq!(conn.plan_request(&head, false, true), RequestPlan::Serve(true));
    let other = decode_request(b"PUT / HTTP/1.1\r\n\r\n").unwrap();
    assert_eq!(conn.plan_request(&other, false, true), RequestPlan::Error(HttpStatus::NotImplemented));
}

#[test]
fn upload_starts_with_seeded_body() {
    let mut conn = HttpConnection::new();
    conn.header_bytes_received(b"POST / HTTP/1.1\r\n\r\n--X--");
    conn.start_upload(b"--X".to_vec(), 0);
    assert_eq!(conn.state, ConnectionState::ReadingPostBody);
    let pb = conn.post_buffer.as_mut().unwrap();
    assert_eq!(&pb.buffer()[..5], b"--X--");
}

#[test]
fn writes_finish_response() {
    let mut conn = HttpConnection::new();
    conn.response_started(10);
    assert_eq!(conn.body_bytes_written(4), ConnectionState::WritingResponse);
    assert_eq!(conn.body_bytes_written(6), ConnectionState::ReadingRequest);
    assert!(!conn.has_response);
    conn.keep_alive = false;
    conn.response_started(3);
    assert_eq!(conn.body_bytes_written(0), ConnectionState::Closing);
}

#[test]
fn containment_by_components() {
    assert!(check_canon_path(b"/srv/share", b"/srv/share"));
    assert!(check_canon_path(b"/srv/share", b"/srv/share/a/b"));
    assert!(!check_canon_path(b"/srv/share", b"/srv/shared/x"));
    assert!(!check_canon_path(b"/srv/share", b"/etc/passwd"));
    assert!(check_canon_path(b"/", b"/etc"));
}

#[test]
fn get_resolution() {
    assert_eq!(plan_get(false, b"../x", TargetKind::File(3), true, None, true), GetPlan::Error(HttpStatus::NotFound));
    assert_eq!(plan_get(true, b"dir", TargetKind::Directory, true, None, true), GetPlan::RedirectToSlash);
    assert_eq!(plan_get(true, b"", TargetKind::Directory, true, None, true), GetPlan::ListDirectory);
    assert_eq!(plan_get(true, b"dir/", TargetKind::Directory, true, None, false), GetPlan::Error(HttpStatus::PermissionDenied));
    assert_eq!(plan_get(true, b"dir/", TargetKind::Directory, true, Some(TargetKind::File(7)), false), GetPlan::SendFile(7, true));
    assert_eq!(plan_get(true, b"dev", TargetKind::Other, true, None, true), GetPlan::Error(HttpStatus::PermissionDenied));
    assert_eq!(plan_get(true, b"file.txt", TargetKind::File(10), true, None, true), GetPlan::SendFile(10, false));
    assert_eq!(normalize_path(b"/a/b"), b"a/b");
}

#[test]
fn missing_target_is_404() {
    assert_eq!(resolve_io_error(IoErrorKind::NotFound), Some(HttpStatus::NotFound));
    assert_eq!(resolve_io_error(IoErrorKind::PermissionDenied).unwrap().code(), 403);
    assert_eq!(resolve_io_error(IoErrorKind::Other), None);
    assert!(is_socket_error(IoErrorKind::ConnectionReset));
    assert!(!is_socket_error(IoErrorKind::NotFound));
}

#[test]
fn event_loop_decisions() {
    assert_eq!(control_action(0, b't'), ControlAction::Shutdown);
    assert_eq!(control_action(1, b't'), ControlAction::ToggleDisabled);
    assert_eq!(control_action(1, b'k'), ControlAction::ForceCloseAll);
    assert_eq!(control_action(1, b'p'), ControlAction::Wake);
    assert_eq!(interest(ConnectionState::ReadingPostBody), (true, false));
    assert_eq!(interest(ConnectionState::WritingResponse), (false, true));
    assert_eq!(interest(ConnectionState::Closing), (false, false));
    assert_eq!(sweep_decision(ConnectionState::Closing, false, 0), (true, true));
    assert_eq!(sweep_decision(ConnectionState::ReadingRequest, true, 2), (true, false));
    assert_eq!(sweep_decision(ConnectionState::ReadingRequest, false, 0), (false, false));
}

#[test]
fn upload_outcomes() {
    let mut conn = HttpConnection::new();
    assert_eq!(conn.upload_outcome(Ok(false), true), UploadReply::SendContinue);
    assert_eq!(conn.upload_outcome(Ok(false), false), UploadReply::KeepReading);
    assert_eq!(conn.upload_outcome(Ok(true), false), UploadReply::Created);
    assert!(conn.keep_alive);
    assert_eq!(conn.upload_outcome(Err(HttpStatus::PayloadTooLarge), false), UploadReply::Fail(HttpStatus::PayloadTooLarge));
    assert!(!conn.keep_alive);
}

#[test]
fn history_line_layout() {
    let files = vec![b"a.txt".to_vec(), b"b".to_vec()];
    let line = history_line(b"127.0.0.1:5000", Some(201), Some(HttpMethod::POST), Some(b"/up"), &files);
    assert_eq!(String::from_utf8(line).unwrap(), "127.0.0.1:5000         201 POST /up files: a.txt, b");
    let none: Vec<Vec<u8>> = Vec::new();
    let line = history_line(b"[::1]:80", None, None, None, &none);
    assert_eq!(String::from_utf8(line).unwrap(), "[::1]:80                   ???  [No path...]");
    let line = history_line(b"1.2.3.4:1", Some(404), Some(HttpMethod::GET), Some(b"/missing"), &none);
    assert_eq!(String::from_utf8(line).unwrap(), "1.2.3.4:1              404 GET  /missing");
}

#[test]
fn empty_body_read_is_400_and_closes() {
    let mut conn = HttpConnection::new();
    conn.header_bytes_received(b"POST / HTTP/1.1\r\n\r\n");
    conn.start_upload(b"--X".to_vec(), 0);
    assert_eq!(conn.post_body_read(b"--X"), None);
    assert!(conn.keep_alive);
    assert_eq!(conn.post_body_read(b""), Some(UploadReply::Fail(HttpStatus::BadRequest)));
    assert!(!conn.keep_alive);
    assert!(UploadReply::Fail(HttpStatus::BadRequest).ends_request());
    assert!(!UploadReply::KeepReading.ends_request());
}

#[test]
fn head_too_large_turns_keep_alive_off() {
    let mut conn = HttpConnection::new();
    assert!(conn.keep_alive);
    assert_eq!(conn.header_bytes_received(&vec![b'a'; BUFFER_SIZE]), HeaderStep::TooLarge);
    assert!(!conn.keep_alive);
}
