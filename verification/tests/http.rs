use wb_switch_core::header::{has_field_value, read_content_length, read_first_line};
use wb_switch_core::http::{find_subslice, http_request, HttpReader, Read};
use wb_switch_core::text::{contains, decimal, starts_with};

fn bytes(s: &str) -> Read {
    Read::Bytes(s.as_bytes().to_vec())
}

#[test]
fn the_first_place_of_a_part_is_found() {
    assert_eq!(find_subslice(b"abcabc", b"bc"), Some(1));
    assert_eq!(find_subslice(b"aab", b"ab"), Some(1));
    assert_eq!(find_subslice(b"abc", b"abc"), Some(0));
    assert_eq!(find_subslice(b"abc", b"x"), None);
    assert_eq!(find_subslice(b"abc", b""), None);
    assert_eq!(find_subslice(b"ab", b"abc"), None);
}

#[test]
fn the_request_of_the_endpoint() {
    assert_eq!(
        http_request(9222, "/json/list"),
        "GET /json/list HTTP/1.1\r\nHost: 127.0.0.1:9222\r\nAccept: application/json\r\nConnection: close\r\n\r\n"
    );
}

#[test]
fn the_announced_length_ends_the_body() {
    let mut r = HttpReader::new();
    assert_eq!(r.on_read(bytes("HTTP/1.1 200 OK\r\nContent-Le")), None);
    assert_eq!(r.on_read(bytes("ngth:  5 \r\n\r")), None);
    assert_eq!(r.on_read(bytes("\nhel")), None);
    assert_eq!(r.on_read(bytes("lo and more")), Some(Ok("hello".to_string())));
}

#[test]
fn an_empty_body_is_there_with_the_head() {
    let mut r = HttpReader::new();
    assert_eq!(
        r.on_read(bytes("HTTP/1.1 200 OK\r\ncontent-length: 0\r\n\r\n")),
        Some(Ok(String::new()))
    );
}

#[test]
fn a_body_cut_short_is_what_came() {
    let mut r = HttpReader::new();
    assert_eq!(r.on_read(bytes("X\r\nContent-Length: 10\r\n\r\nabc")), None);
    assert_eq!(r.on_read(Read::Bytes(vec![])), Some(Ok("abc".to_string())));
}

#[test]
fn a_failed_read_of_an_announced_body() {
    let mut r = HttpReader::new();
    assert_eq!(r.on_read(bytes("X\r\nContent-Length: 10\r\n\r\nabc")), None);
    assert_eq!(
        r.on_read(Read::Failed("timeout".to_string())),
        Some(Err("读取响应体失败（已收 28 字节，期望 10）: timeout".to_string()))
    );
}

#[test]
fn without_a_length_the_end_of_the_connection_ends_the_body() {
    for end in [Read::Bytes(vec![]), Read::Failed("timeout".to_string())] {
        let mut r = HttpReader::new();
        assert_eq!(r.on_read(bytes("X\r\nA: b\r\n\r\nabc")), None);
        assert_eq!(r.on_read(bytes("def")), None);
        assert_eq!(r.on_read(end), Some(Ok("abcdef".to_string())));
    }
}

#[test]
fn a_head_that_does_not_come() {
    let mut r = HttpReader::new();
    assert_eq!(r.on_read(bytes("X\r\n")), None);
    assert_eq!(
        r.on_read(Read::Bytes(vec![])),
        Some(Err("连接被关闭（未收到完整响应头）".to_string()))
    );
    let mut r = HttpReader::new();
    assert_eq!(
        r.on_read(Read::Failed("reset".to_string())),
        Some(Err("读取响应头失败: reset".to_string()))
    );
}

#[test]
fn bytes_that_are_no_text_are_replaced() {
    let mut r = HttpReader::new();
    let mut b = b"X\r\nContent-Length: 3\r\n\r\n".to_vec();
    b.extend_from_slice(&[b'a', 0xff, b'b']);
    assert_eq!(r.on_read(Read::Bytes(b)), Some(Ok("a\u{fffd}b".to_string())));
}

#[test]
fn the_first_length_field_counts() {
    assert_eq!(read_content_length("a\r\nCONTENT-LENGTH:7\r\nContent-Length: 8\r\n"), Some(7));
    assert_eq!(read_content_length("Content-Length: +12\n"), Some(12));
    assert_eq!(read_content_length("Content-Length: x\r\nContent-Length: 8"), None);
    assert_eq!(read_content_length("Content-Length: 99999999999999999999999"), None);
    assert_eq!(read_content_length("Content-Length:"), None);
    assert_eq!(read_content_length(" Content-Length: 3"), None);
    assert_eq!(read_content_length(""), None);
}

#[test]
fn fields_are_compared_without_the_case_of_their_names() {
    let head = "HTTP/1.1 101 X\r\nSEC-a: one\r\nsec-A: \t two \u{a0}\r\n";
    assert!(has_field_value(head, "Sec-A", "one"));
    assert!(has_field_value(head, "Sec-A", "two"));
    assert!(!has_field_value(head, "Sec-A", "Two"));
    assert!(!has_field_value(head, "Sec-B", "one"));
    assert_eq!(read_first_line(head), "HTTP/1.1 101 X");
    assert_eq!(read_first_line(""), "");
    assert_eq!(read_first_line("x\r"), "x\r");
    assert_eq!(read_first_line("\r\nx"), "");
}

#[test]
fn texts_and_numerals() {
    assert!(contains("abc", "bc"));
    assert!(contains("abc", ""));
    assert!(!contains("abc", "cb"));
    assert!(starts_with("FOCUSED:X", "FOCUSED"));
    assert!(!starts_with("FOC", "FOCUSED"));
    assert_eq!(decimal(0), "0");
    assert_eq!(decimal(-120), "-120");
    assert_eq!(decimal(i128::MIN), "-170141183460469231731687303715884105728");
    assert_eq!(decimal(i128::MAX), "170141183460469231731687303715884105727");
}
