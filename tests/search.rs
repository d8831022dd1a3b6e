use hypershare::search::{find_body_start, find_in_window};

#[test]
fn window_search_finds_leftmost_in_window() {
    let text = b"ab--Xcd--X";
    assert_eq!(find_in_window(b"--X", text, 0, text.len()), Some(2));
    assert_eq!(find_in_window(b"--X", text, 3, text.len()), Some(7));
    assert_eq!(find_in_window(b"--X", text, 3, 9), None);
    assert_eq!(find_in_window(b"--X", text, 0, 0), None);
}

#[test]
fn body_start_is_after_blank_line() {
    assert_eq!(find_body_start(b"GET / HTTP/1.1\r\n\r\nbody"), Some(18));
    assert_eq!(find_body_start(b"\r\n\r\n"), Some(4));
    assert_eq!(find_body_start(b"GET / HTTP/1.1\r\n"), None);
    assert_eq!(find_body_start(b""), None);
}
