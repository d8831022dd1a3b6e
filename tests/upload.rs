use hypershare::multipart::{parse_part_filename, UploadFault};
use hypershare::post_buffer::{PostBuffer, PostBufferError, UploadAction, UploadEvent};
use hypershare::status::HttpStatus;
use std::collections::HashMap;

struct Disk {
    files: HashMap<Vec<u8>, Vec<u8>>,
    current: Option<Vec<u8>>,
}

impl Disk {
    fn new() -> Disk {
        Disk { files: HashMap::new(), current: None }
    }
}

/// Runs the parser until it needs more data or is done, doing its file
/// operations on an in-memory disk.
fn drive(pb: &mut PostBuffer, disk: &mut Disk, draining: bool) -> Result<bool, PostBufferError> {
    let mut event = UploadEvent::DataArrived;
    loop {
        let r = if draining { pb.handle_new_data_queue_error(event) } else { pb.handle_new_data(event) };
        match r? {
            UploadAction::NeedData => return Ok(false),
            UploadAction::Finished => return Ok(true),
            UploadAction::CreateFile(name) => {
                if disk.files.contains_key(&name) {
                    event = UploadEvent::FileCreated(false);
                } else {
                    disk.files.insert(name.clone(), Vec::new());
                    disk.current = Some(name);
                    event = UploadEvent::FileCreated(true);
                }
            }
            UploadAction::WriteFile(from, to) => {
                let data = pb.buffer()[from..to].to_vec();
                let name = disk.current.clone().unwrap();
                disk.files.get_mut(&name).unwrap().extend_from_slice(&data);
                event = UploadEvent::FileWritten(Some(to - from));
            }
            UploadAction::RemoveFile(name) => {
                disk.files.remove(&name);
                disk.current = None;
                event = UploadEvent::FileRemoved(true);
            }
        }
    }
}

fn body_one_file() -> Vec<u8> {
    b"--X\r\nContent-Disposition: form-data; name=\"f\"; filename=\"a.txt\"\r\nContent-Type: text/plain\r\n\r\nhello world\r\n--X--\r\n".to_vec()
}

fn upload_in_chunks(body: &[u8], seed: usize, chunk: usize, limit: usize, draining: bool) -> (Result<bool, PostBufferError>, Disk) {
    let mut pb = PostBuffer::new(b"--X".to_vec(), &body[..seed], limit);
    let mut disk = Disk::new();
    let mut r = drive(&mut pb, &mut disk, draining);
    let mut pos = seed;
    while let Ok(false) = r {
        if pos >= body.len() {
            break;
        }
        let end = std::cmp::min(pos + chunk, body.len());
        let n = pb.read_into_buffer(&body[pos..end]);
        pos += n;
        r = drive(&mut pb, &mut disk, draining);
    }
    (r, disk)
}

#[test]
fn upload_one_part_in_one_read() {
    let body = body_one_file();
    let (r, disk) = upload_in_chunks(&body, body.len(), 1, 0, true);
    assert!(matches!(r, Ok(true)));
    assert_eq!(disk.files.get(&b"a.txt".to_vec()).unwrap(), &b"hello world".to_vec());
    assert_eq!(disk.files.len(), 1);
}

#[test]
fn upload_split_at_every_offset_gives_same_files() {
    let body = body_one_file();
    for chunk in 1..body.len() {
        let (r, disk) = upload_in_chunks(&body, 0, chunk, 0, true);
        assert!(matches!(r, Ok(true)), "chunk {}", chunk);
        assert_eq!(disk.files.get(&b"a.txt".to_vec()).unwrap(), &b"hello world".to_vec(), "chunk {}", chunk);
    }
}

#[test]
fn upload_two_parts_split_bytewise() {
    let body = b"--X\r\nContent-Disposition: form-data; filename=a\r\n\r\nfirst\r\n--X\r\ncontent-disposition: form-data; filename=\"b.bin\"\r\n\r\n\r\n--X--".to_vec();
    let (r, disk) = upload_in_chunks(&body, 3, 1, 0, true);
    assert!(matches!(r, Ok(true)));
    assert_eq!(disk.files.get(&b"a".to_vec()).unwrap(), &b"first".to_vec());
    assert_eq!(disk.files.get(&b"b.bin".to_vec()).unwrap(), &Vec::<u8>::new());
}

#[test]
fn upload_over_limit_is_413_and_leaves_no_file() {
    let body = body_one_file();
    let (r, disk) = upload_in_chunks(&body, body.len(), 1, 5, false);
    let e = r.err().unwrap();
    assert_eq!(e.get_code(), HttpStatus::PayloadTooLarge);
    assert_eq!(e.get_code().code(), 413);
    assert!(disk.files.is_empty());
}

#[test]
fn draining_reports_error_only_at_terminal_boundary() {
    let body = body_one_file();
    let cut = body.len() - 6;
    let mut pb = PostBuffer::new(b"--X".to_vec(), &body[..cut], 5);
    let mut disk = Disk::new();
    let r = drive(&mut pb, &mut disk, true);
    assert!(matches!(r, Ok(false)));
    assert!(disk.files.is_empty());
    pb.read_into_buffer(&body[cut..]);
    let r = drive(&mut pb, &mut disk, true);
    assert_eq!(r.err().unwrap().get_code(), HttpStatus::PayloadTooLarge);
}

#[test]
fn existing_file_is_not_overwritten() {
    let body = body_one_file();
    let mut pb = PostBuffer::new(b"--X".to_vec(), &body, 0);
    let mut disk = Disk::new();
    disk.files.insert(b"a.txt".to_vec(), b"old".to_vec());
    let r = drive(&mut pb, &mut disk, false);
    assert_eq!(r.err().unwrap().faults, vec![UploadFault::CannotCreate]);
    assert_eq!(disk.files.get(&b"a.txt".to_vec()).unwrap(), &b"old".to_vec());
}

#[test]
fn missing_crlf_before_boundary_is_400() {
    let body = b"--X\r\nContent-Disposition: form-data; filename=a\r\n\r\ndata--X--".to_vec();
    let (r, disk) = upload_in_chunks(&body, body.len(), 1, 0, false);
    assert_eq!(r.err().unwrap().get_code(), HttpStatus::BadRequest);
    assert!(disk.files.is_empty());
}

#[test]
fn short_writes_are_retried() {
    let body = body_one_file();
    let mut pb = PostBuffer::new(b"--X".to_vec(), &body, 0);
    let mut out: Vec<u8> = Vec::new();
    let mut event = UploadEvent::DataArrived;
    loop {
        match pb.handle_new_data(event).ok().unwrap() {
            UploadAction::CreateFile(_) => event = UploadEvent::FileCreated(true),
            UploadAction::WriteFile(from, _to) => {
                out.push(pb.buffer()[from]);
                event = UploadEvent::FileWritten(Some(1));
            }
            UploadAction::Finished => break,
            other => panic!("unexpected {:?}", other),
        }
    }
    assert_eq!(out, b"hello world".to_vec());
    assert_eq!(pb.get_new_files(), &vec![b"a.txt".to_vec()]);
}

#[test]
fn part_filename_quoted_and_bare() {
    assert_eq!(parse_part_filename(b"Content-Disposition: form-data; filename=\"a.txt\"\r\n\r\n"), Ok(b"a.txt".to_vec()));
    assert_eq!(parse_part_filename(b"X: y\r\ncontent-DISPOSITION: attachment; filename= b \r\n\r\n"), Ok(b"b".to_vec()));
}

#[test]
fn part_filename_errors() {
    assert_eq!(parse_part_filename(b"Content-Type: text/plain\r\n\r\n"), Err(UploadFault::MissingDisposition));
    assert_eq!(parse_part_filename(b"Content-Disposition: form-data; name=\"f\"\r\n\r\n"), Err(UploadFault::MissingFilename));
    assert_eq!(parse_part_filename(b"Content-Disposition: form-data; filename=\"../x\"\r\n\r\n"), Err(UploadFault::InvalidFilename));
    assert_eq!(parse_part_filename(b"Content-Disposition: form-data; filename=\"\"\r\n\r\n"), Err(UploadFault::MissingFilename));
    assert_eq!(UploadFault::InvalidFilename.status().code(), 422);
}

#[test]
fn split_first_boundary_asks_for_more() {
    let mut pb = PostBuffer::new(b"--X".to_vec(), b"preamble--X", 0);
    assert_eq!(pb.handle_new_data(UploadEvent::DataArrived).ok(), Some(UploadAction::NeedData));
    pb.read_into_buffer(b"--");
    assert_eq!(pb.handle_new_data(UploadEvent::DataArrived).ok(), Some(UploadAction::Finished));
}

#[test]
fn flush_past_limit_removes_the_part_file() {
    let mut pb = PostBuffer::new(b"--X".to_vec(), b"--X\r\nContent-Disposition: form-data; filename=big\r\n\r\n0123456789abcdef", 4);
    let created = pb.handle_new_data(UploadEvent::DataArrived).ok();
    assert_eq!(created, Some(UploadAction::CreateFile(b"big".to_vec())));
    let removed = pb.handle_new_data(UploadEvent::FileCreated(true)).ok();
    assert_eq!(removed, Some(UploadAction::RemoveFile(b"big".to_vec())));
    let e = pb.handle_new_data(UploadEvent::FileRemoved(true)).err().unwrap();
    assert_eq!(e.faults, vec![UploadFault::TooLarge]);
    assert_eq!(e.get_code().code(), 413);
}
