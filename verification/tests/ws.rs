use wb_switch_core::http::Read;
use wb_switch_core::ws::{
    accept_key, encode_text, parse_ws_url, send_text, Endpoint, Handshake, RecvAction, RecvEvent,
    Ws,
};

const NONCE: [u8; 16] = *b"the sample nonce";

fn received(action: RecvAction) -> Result<String, String> {
    match action {
        RecvAction::Done(r) => r,
        RecvAction::Read => panic!("read"),
        RecvAction::CheckClock => panic!("clock"),
    }
}

fn handshake() -> Handshake {
    Handshake::with_nonce(
        Endpoint { host: "127.0.0.1".to_string(), port: 9222, path: "/devtools/page/1".to_string() },
        NONCE,
    )
}

fn read(s: &str) -> Read {
    Read::Bytes(s.as_bytes().to_vec())
}

#[test]
fn the_answer_to_the_sample_key() {
    assert_eq!(accept_key("dGhlIHNhbXBsZSBub25jZQ=="), "s3pPLMBiTxaQ9kYGzzhZRbK+xOo=");
}

#[test]
fn addresses_are_taken_apart() {
    let parts = |url: &str| {
        let e = parse_ws_url(url).ok().unwrap();
        (e.host, e.port, e.path)
    };
    let expect = |h: &str, p: u16, path: &str| (h.to_string(), p, path.to_string());
    assert_eq!(
        parts("ws://127.0.0.1:9222/devtools/page/1"),
        expect("127.0.0.1", 9222, "/devtools/page/1")
    );
    assert_eq!(parts("ws://host"), expect("host", 80, "/"));
    assert_eq!(parts("ws://host/a:b"), expect("host", 80, "/a:b"));
    assert_eq!(parts("ws://host:x/a"), expect("host", 80, "/a"));
    assert_eq!(parts("ws://host:65536/"), expect("host", 80, "/"));
    assert_eq!(parts("ws://host:+81/"), expect("host", 81, "/"));
    assert_eq!(
        parse_ws_url("wss://host").err(),
        Some("不支持的 WebSocket 地址: wss://host".to_string())
    );
}

#[test]
fn the_request_that_opens_a_websocket() {
    let h = handshake();
    assert_eq!(h.address(), "127.0.0.1:9222");
    assert_eq!(
        h.request(),
        "GET /devtools/page/1 HTTP/1.1\r\nHost: 127.0.0.1:9222\r\nUpgrade: websocket\r\nConnection: Upgrade\r\nSec-WebSocket-Key: dGhlIHNhbXBsZSBub25jZQ==\r\nSec-WebSocket-Version: 13\r\n\r\n"
    );
}

#[test]
fn every_handshake_has_a_key_of_its_own() {
    let a = Handshake::connect("ws://h/").ok().unwrap().request();
    let b = Handshake::connect("ws://h/").ok().unwrap().request();
    assert_ne!(a, b);
    assert_eq!(a.len(), b.len());
    assert_eq!(
        Handshake::connect("http://h/").err(),
        Some("不支持的 WebSocket 地址: http://h/".to_string())
    );
}

#[test]
fn a_handshake_keeps_what_came_behind_it() {
    let mut h = handshake();
    assert!(h.on_read(read("HTTP/1.1 101 Switching Protocols\r\n")).is_none());
    assert!(h.on_read(read("sec-websocket-ACCEPT: s3pPLMBiTxaQ9kYGzzhZRbK+xOo=\r\n\r")).is_none());
    let mut ws = h.on_read(read("\nrest")).unwrap().ok().unwrap();
    assert_eq!(ws.read_exact(5), None);
    assert_eq!(ws.read_exact(4), Some(b"rest".to_vec()));
}

#[test]
fn a_handshake_that_is_refused() {
    let mut h = handshake();
    assert_eq!(
        h.on_read(read("HTTP/1.1 404 Not Found\r\nA: b\r\n\r\n")).unwrap().err(),
        Some("WebSocket 握手失败: HTTP/1.1 404 Not Found".to_string())
    );
    let mut h = handshake();
    assert_eq!(
        h.on_read(read("HTTP/1.1 101 X\r\nSec-WebSocket-Accept: nope\r\n\r\n")).unwrap().err(),
        Some("WebSocket 握手校验失败（Sec-WebSocket-Accept 不匹配）".to_string())
    );
    let mut h = handshake();
    assert_eq!(
        h.on_read(Read::Bytes(vec![])).unwrap().err(),
        Some("握手过程中连接被关闭".to_string())
    );
    let mut h = handshake();
    assert_eq!(
        h.on_read(Read::Failed("reset".to_string())).unwrap().err(),
        Some("读握手响应失败: reset".to_string())
    );
}

#[test]
fn the_frame_of_a_short_text() {
    assert_eq!(
        encode_text("Hello", [0x37, 0xfa, 0x21, 0x3d]),
        vec![0x81, 0x85, 0x37, 0xfa, 0x21, 0x3d, 0x7f, 0x9f, 0x4d, 0x51, 0x58]
    );
}

#[test]
fn the_length_takes_three_forms() {
    assert_eq!(encode_text(&"a".repeat(125), [0; 4])[..2], [0x81, 0xfd]);
    assert_eq!(encode_text(&"a".repeat(126), [0; 4])[..4], [0x81, 0xfe, 0, 126]);
    assert_eq!(encode_text(&"a".repeat(65535), [0; 4])[..4], [0x81, 0xfe, 0xff, 0xff]);
    assert_eq!(
        encode_text(&"a".repeat(65536), [0; 4])[..10],
        [0x81, 0xff, 0, 0, 0, 0, 0, 1, 0, 0]
    );
}

#[test]
fn what_is_sent_is_received() {
    for text in ["", "Hello", "你好，世界", &"x".repeat(126), &"y".repeat(70000)] {
        let mut ws = Ws::new(send_text(text));
        assert_eq!(received(ws.recv_text(RecvEvent::Clock(false))), Ok(text.to_string()));
        assert_eq!(ws.read_exact(1), None);
    }
}

#[test]
fn masks_are_fresh() {
    let masks: Vec<Vec<u8>> = (0..8).map(|_| send_text("x")[2..6].to_vec()).collect();
    assert!(masks.iter().any(|m| *m != masks[0]));
}

#[test]
fn a_frame_in_pieces_is_waited_for() {
    let frame = encode_text(&"z".repeat(200), [1, 2, 3, 4]);
    let mut ws = Ws::new(Vec::new());
    assert!(matches!(ws.recv_text(RecvEvent::Clock(false)), RecvAction::Read));
    for b in &frame[..frame.len() - 1] {
        assert!(matches!(
            ws.recv_text(RecvEvent::Read(Read::Bytes(vec![*b]))),
            RecvAction::Read
        ));
    }
    let last = ws.recv_text(RecvEvent::Read(Read::Bytes(vec![frame[frame.len() - 1]])));
    assert_eq!(received(last), Ok("z".repeat(200)));
}

#[test]
fn other_frames_are_skipped_and_a_close_ends_it() {
    let mut ws = Ws::new(vec![0x89, 0x01, b'p', 0x8a, 0x00, 0x81, 0x02, b'h', b'i', 0x88, 0x00]);
    assert!(matches!(ws.recv_text(RecvEvent::Clock(false)), RecvAction::CheckClock));
    assert!(matches!(ws.recv_text(RecvEvent::Clock(false)), RecvAction::CheckClock));
    assert_eq!(received(ws.recv_text(RecvEvent::Clock(false))), Ok("hi".to_string()));
    assert_eq!(
        received(ws.recv_text(RecvEvent::Clock(false))),
        Err("服务端关闭了 WebSocket".to_string())
    );
}

#[test]
fn receiving_fails_in_these_ways() {
    let mut ws = Ws::new(encode_text("x", [0; 4]));
    assert_eq!(
        received(ws.recv_text(RecvEvent::Clock(true))),
        Err("等待 CDP 响应超时".to_string())
    );
    assert_eq!(
        received(ws.recv_text(RecvEvent::Read(Read::Failed("t".to_string())))),
        Err("读取帧失败: t".to_string())
    );
    assert_eq!(
        received(ws.recv_text(RecvEvent::Read(Read::Bytes(vec![])))),
        Err("连接已关闭".to_string())
    );
}

#[test]
fn a_failed_read_has_used_up_the_head_that_was_there() {
    let mut ws = Ws::new(vec![0x81, 0x83, 1, 2, 3, 4, 9]);
    let failed = RecvEvent::Read(Read::Failed("t".to_string()));
    assert_eq!(received(ws.recv_text(failed)), Err("读取帧失败: t".to_string()));
    assert_eq!(ws.read_exact(1), Some(vec![9]));
    assert_eq!(ws.read_exact(1), None);
}
