//! The client side of a WebSocket.
use crate::header::{first_line, has_field, lines};
use crate::http::{head_end, Read};
use crate::laws::header::{law_a_line_ends_at_its_return, law_the_last_line};
use crate::laws::http::lemma_place_of_head;
use crate::laws::text::{
    law_a_numeral_stands_for_its_number, law_a_written_number_is_read,
    law_first_place_of_a_character,
};
use crate::text::{first_index, lossy, numeral, occurs, parse_unsigned};
use crate::ws::{
    accept_for, base64_text, be_bytes, be_limit, be_value, endpoint_of, frame_at,
    law_be_bytes_read_back, law_frames_in_pieces, masked, payload_length, recv_next, sha1_digest, text_frame, upgrade_outcome, upgrade_request,
    Endpoint, EndpointView, FrameView, RecvAction, RecvEvent, RecvView,
};
use vstd::prelude::*;
use vstd::utf8::*;

verus! {

/// Whether bytes behind the first byte of a frame announce a payload of `n` bytes: in seven bits of
/// one byte, or, where those are 126 or 127, in the two or eight bytes that follow, the most
/// significant first. The eighth bit of the first of them says whether the payload is masked.
pub open spec fn announces(len: Seq<u8>, is_masked: bool, n: int) -> bool {
    let mark: int = if is_masked {
        128
    } else {
        0
    };
    ||| len.len() == 1 && len[0] == mark + n && 0 <= n < 126
    ||| len.len() == 3 && len[0] == mark + 126 && n == len[1] * 256 + len[2]
    ||| len.len() == 9 && len[0] == mark + 127 && n == len[1] * 0x100_0000_0000_0000 + len[2]
        * 0x1_0000_0000_0000 + len[3] * 0x100_0000_0000 + len[4] * 0x1_0000_0000 + len[5]
        * 0x100_0000 + len[6] * 0x1_0000 + len[7] * 0x100 + len[8]
}

/// A frame as a server sends it, without a mask, is read as what it carries, for every length and in
/// each form of it, and ends where its payload ends.
pub proof fn law_a_servers_frame_is_read(first: u8, len: Seq<u8>, data: Seq<u8>, more: Seq<u8>)
    requires
        announces(len, false, data.len() as int),
        data.len() <= usize::MAX,
    ensures
        frame_at(seq![first] + len + data + more) == Some(
            FrameView {
                opcode: first % 16,
                payload: data,
                size: (1 + len.len() + data.len()) as int,
            },
        ),
{
    let buf = seq![first] + len + data + more;
    assert(buf.subrange(1, (1 + len.len()) as int) =~= len);
    lemma_length_of(buf, len, false, data.len() as int);
    let start = (1 + len.len()) as int;
    assert(buf.subrange(start, start + data.len()) =~= data);
}

/// A masked frame is read as what was masked.
pub proof fn law_a_masked_frame_is_read(
    first: u8,
    len: Seq<u8>,
    mask: Seq<u8>,
    wire: Seq<u8>,
    data: Seq<u8>,
    more: Seq<u8>,
)
    requires
        announces(len, true, data.len() as int),
        data.len() <= usize::MAX,
        mask.len() == 4,
        wire.len() == data.len(),
        forall|i: int| 0 <= i < data.len() ==> #[trigger] wire[i] == data[i] ^ mask[i % 4],
    ensures
        frame_at(seq![first] + len + mask + wire + more) == Some(
            FrameView {
                opcode: first % 16,
                payload: data,
                size: (5 + len.len() + data.len()) as int,
            },
        ),
{
    let buf = seq![first] + len + mask + wire + more;
    assert(buf.subrange(1, (1 + len.len()) as int) =~= len);
    lemma_length_of(buf, len, true, data.len() as int);
    let at = (1 + len.len()) as int;
    let start = at + 4;
    assert(buf.subrange(at, start) =~= mask);
    assert(buf.subrange(start, start + data.len()) =~= wire);
    assert forall|i: int| 0 <= i < data.len() implies masked(wire, mask)[i] == data[i] by {
        let d = data[i];
        let m = mask[i % 4];
        assert(wire[i] == d ^ m);
        assert((d ^ m) ^ m == d) by (bit_vector);
    }
    assert(masked(wire, mask) =~= data);
}

proof fn lemma_length_of(buf: Seq<u8>, len: Seq<u8>, is_masked: bool, n: int)
    requires
        announces(len, is_masked, n),
        0 <= n <= usize::MAX,
        buf.len() >= 1 + len.len(),
        buf.subrange(1, (1 + len.len()) as int) == len,
    ensures
        payload_length(buf) == n,
        buf[1] == len[0],
{
    let cut = buf.subrange(1, (1 + len.len()) as int);
    assert(cut[0] == buf[1]);
    if len.len() == 3 {
        let s = buf.subrange(2, 4);
        assert(s[0] == cut[1] && s[1] == cut[2]);
        reveal_with_fuel(be_value, 3);
    } else if len.len() == 9 {
        let s = buf.subrange(2, 10);
        assert(forall|i: int| 0 <= i < 8 ==> s[i] == cut[i + 1]);
        lemma_eight_bytes(s);
    }
}

proof fn lemma_eight_bytes(s: Seq<u8>)
    requires
        s.len() == 8,
    ensures
        be_value(s) == s[0] * 0x100_0000_0000_0000 + s[1] * 0x1_0000_0000_0000 + s[2]
            * 0x100_0000_0000 + s[3] * 0x1_0000_0000 + s[4] * 0x100_0000 + s[5] * 0x1_0000 + s[6]
            * 0x100 + s[7],
{
    reveal_with_fuel(be_value, 9);
}

/// What a server sends is received as the text that it carries, for every length, and exactly the
/// bytes behind the frame are left. A close frame ends it, any other frame is dropped.
pub proof fn law_what_a_server_sends_is_received(
    first: u8,
    len: Seq<u8>,
    data: Seq<u8>,
    more: Seq<u8>,
)
    requires
        announces(len, false, data.len() as int),
        data.len() <= usize::MAX,
    ensures
        recv_next(seq![first] + len + data + more, RecvEvent::Clock(false)) == (
            more,
            if first % 16 == 1 {
                RecvView::Done(Ok(lossy(data)))
            } else if first % 16 == 8 {
                RecvView::Done(Err("服务端关闭了 WebSocket"@))
            } else {
                RecvView::CheckClock
            },
        ),
{
    law_a_servers_frame_is_read(first, len, data, more);
    let buf = seq![first] + len + data + more;
    assert(buf.skip((1 + len.len() + data.len()) as int) =~= more);
}

/// A text that a server sends arrives as that text.
pub proof fn law_a_servers_text_arrives(len: Seq<u8>, text: Seq<char>, more: Seq<u8>)
    requires
        announces(len, false, encode_utf8(text).len() as int),
        encode_utf8(text).len() <= usize::MAX,
    ensures
        recv_next(seq![0x81u8] + len + encode_utf8(text) + more, RecvEvent::Clock(false)) == (
            more,
            RecvView::Done(Ok(text)),
        ),
{
    law_what_a_server_sends_is_received(0x81, len, encode_utf8(text), more);
    crate::text::law_text_of_its_bytes(text);
}

/// Where a frame comes in two pieces, the first is kept and more is read; with the second everything
/// is as if it had come at once.
pub proof fn law_pieces_are_put_together(
    first: u8,
    len: Seq<u8>,
    data: Seq<u8>,
    k: int,
    piece: Vec<u8>,
)
    requires
        announces(len, false, data.len() as int),
        data.len() <= usize::MAX,
        0 <= k < 1 + len.len() + data.len(),
        piece@ == (seq![first] + len + data).skip(k),
    ensures
        recv_next((seq![first] + len + data).take(k), RecvEvent::Clock(false)) == (
            (seq![first] + len + data).take(k),
            RecvView::Read,
        ),
        recv_next((seq![first] + len + data).take(k), RecvEvent::Read(Read::Bytes(piece)))
            == recv_next(seq![first] + len + data, RecvEvent::Clock(false)),
{
    let frame = seq![first] + len + data;
    assert(frame + Seq::<u8>::empty() =~= frame);
    law_a_servers_frame_is_read(first, len, data, seq![]);
    law_frames_in_pieces(frame, seq![], k);
    assert(frame.take(k) + piece@ =~= frame);
}

/// Past the deadline nothing is received, and nothing is lost.
pub proof fn law_the_deadline_ends_receiving(buf: Seq<u8>)
    ensures
        recv_next(buf, RecvEvent::Clock(true)) == (
            buf,
            RecvView::Done(Err("等待 CDP 响应超时"@)),
        ),
{
}

/// A connection that ends in the middle of a payload is an error, and of the frame only what came of
/// its payload is left.
pub proof fn law_a_connection_that_ends(
    first: u8,
    len: Seq<u8>,
    n: int,
    part: Seq<u8>,
    nothing: Vec<u8>,
    reason: String,
)
    requires
        announces(len, false, n),
        n <= usize::MAX,
        part.len() < n,
        nothing@.len() == 0,
    ensures
        recv_next(seq![first] + len + part, RecvEvent::Read(Read::Bytes(nothing))) == (
            part,
            RecvView::Done(Err("连接已关闭"@)),
        ),
        recv_next(seq![first] + len + part, RecvEvent::Read(Read::Failed(reason))) == (
            part,
            RecvView::Done(Err("读取帧失败: "@ + reason@)),
        ),
        recv_next(seq![], RecvEvent::Read(Read::Bytes(nothing))) == (
            Seq::<u8>::empty(),
            RecvView::Done(Err("连接已关闭"@)),
        ),
{
    let buf = seq![first] + len + part;
    assert(buf[1] == len[0]);
    assert(buf.skip((1 + len.len()) as int) =~= part);
    assert(Seq::<u8>::empty().skip(0) =~= seq![]);
}

/// A connection that ends in the head of a frame leaves what of the head was not complete: all of it
/// before its second byte, and what came of the longer length behind that.
pub proof fn law_a_connection_that_ends_in_a_head(
    first: u8,
    second: u8,
    part: Seq<u8>,
    one: Seq<u8>,
    nothing: Vec<u8>,
)
    requires
        second % 128 == 126 && part.len() < 2 || second % 128 == 127 && part.len() < 8,
        one.len() < 2,
        nothing@.len() == 0,
    ensures
        recv_next(seq![first, second] + part, RecvEvent::Read(Read::Bytes(nothing))) == (
            part,
            RecvView::Done(Err("连接已关闭"@)),
        ),
        recv_next(one, RecvEvent::Read(Read::Bytes(nothing))) == (
            one,
            RecvView::Done(Err("连接已关闭"@)),
        ),
{
    assert((seq![first, second] + part).skip(2) =~= part);
    assert(one.skip(0) =~= one);
}

/// What receiving needs next holds what it says.
pub proof fn law_what_receiving_holds(text: String)
    ensures
        RecvAction::CheckClock@ == RecvView::CheckClock,
        RecvAction::Read@ == RecvView::Read,
        RecvAction::Done(Ok(text))@ == RecvView::Done(Ok(text@)),
        RecvAction::Done(Err(text))@ == RecvView::Done(Err(text@)),
{
}

/// An endpoint holds its host, its port and its path.
pub proof fn law_what_an_endpoint_holds(e: Endpoint)
    ensures
        e@ == (EndpointView { host: e.host@, port: e.port as nat, path: e.path@ }),
{
}

/// A frame that is sent is one whole text frame: its length is that of the data in the shortest form,
/// with the mark that it is masked, then the mask, then the data under the mask.
pub proof fn law_a_sent_frame(data: Seq<u8>, mask: Seq<u8>) -> (len: Seq<u8>)
    requires
        mask.len() == 4,
        data.len() <= usize::MAX,
    ensures
        announces(len, true, data.len() as int),
        len.len() == (if data.len() < 126 {
            1int
        } else if data.len() < 65536 {
            3
        } else {
            9
        }),
        text_frame(data, mask).take((5 + len.len()) as int) == seq![0x81u8] + len + mask,
        text_frame(data, mask).len() == 5 + len.len() + data.len(),
        forall|i: int|
            0 <= i < data.len() ==> #[trigger] text_frame(data, mask)[5 + len.len() + i] == data[i]
                ^ mask[i % 4],
{
    let n = data.len();
    let frame = text_frame(data, mask);
    let len = if n < 126 {
        seq![(128 + n) as u8]
    } else if n < 65536 {
        seq![254u8] + be_bytes(n, 2)
    } else {
        seq![255u8] + be_bytes(n, 8)
    };
    if n >= 126 {
        if n < 65536 {
            reveal_with_fuel(be_limit, 3);
            law_be_bytes_read_back(n, 2);
            reveal_with_fuel(be_value, 3);
        } else {
            reveal_with_fuel(be_limit, 9);
            law_be_bytes_read_back(n, 8);
            lemma_eight_bytes(be_bytes(n, 8));
        }
    }
    let front = (5 + len.len()) as int;
    assert(frame =~= seq![0x81u8] + len + mask + masked(data, mask));
    assert(frame.take(front) =~= seq![0x81u8] + len + mask);
    assert forall|i: int| 0 <= i < data.len() implies #[trigger] frame[5 + len.len() + i] == data[i]
        ^ mask[i % 4] by {
        assert(frame[front + i] == masked(data, mask)[i]);
    }
    len
}

/// An address names its host, its port and its path, as they were put together.
pub proof fn law_an_address_is_taken_apart(host: Seq<char>, port: nat, path: Seq<char>)
    requires
        !host.contains(':'),
        !host.contains('/'),
        path.len() == 0 || path[0] == '/',
    ensures
        endpoint_of("ws://"@ + host + seq![':'] + numeral(port) + path) == Some(
            EndpointView {
                host,
                port: if port <= 65535 {
                    port
                } else {
                    80
                },
                path: if path.len() > 0 {
                    path
                } else {
                    seq!['/']
                },
            },
        ),
        endpoint_of("ws://"@ + host + path) == Some(
            EndpointView {
                host,
                port: 80,
                path: if path.len() > 0 {
                    path
                } else {
                    seq!['/']
                },
            },
        ),
{
    reveal_strlit("ws://");
    reveal_strlit("/");
    assert("/"@ =~= seq!['/']);
    law_a_numeral_stands_for_its_number(port);
    law_a_written_number_is_read(port, 65535);
    let n = numeral(port);
    let authority = host + seq![':'] + n;
    assert forall|j: int| 0 <= j < authority.len() implies authority[j] != '/' by {
        if j < host.len() {
            assert(host.contains(host[j]));
        } else if j > host.len() {
            assert('0' <= n[j - host.len() - 1]);
        }
    }
    law_first_place_of_a_character(host, ':', n);
    assert(authority.take(host.len() as int) =~= host);
    assert(authority.skip(host.len() as int + 1) =~= n);
    lemma_before_slash(authority, path);
    let url = "ws://"@ + host + seq![':'] + n + path;
    assert(url.subrange(0, 5) =~= "ws://"@);
    assert(url.skip(5) =~= authority + path);

    lemma_before_slash(host, path);
    law_first_place_of_a_character(host, ':', seq![]);
    let plain = "ws://"@ + host + path;
    assert(plain.subrange(0, 5) =~= "ws://"@);
    assert(plain.skip(5) =~= host + path);
}

proof fn lemma_before_slash(front: Seq<char>, path: Seq<char>)
    requires
        !front.contains('/'),
        path.len() == 0 || path[0] == '/',
    ensures
        match first_index(front + path, '/') {
            Some(i) => path.len() > 0 && i == front.len() && (front + path).take(i) == front && (
            front + path).skip(i) == path,
            None => path.len() == 0 && front + path == front,
        },
{
    let s = front + path;
    if path.len() > 0 {
        law_first_place_of_a_character(front, '/', path.skip(1));
        assert(s =~= front + seq!['/'] + path.skip(1));
        assert(s.take(front.len() as int) =~= front);
        assert(s.skip(front.len() as int) =~= path);
    } else {
        assert(s =~= front);
        law_first_place_of_a_character(front, '/', seq![]);
    }
}

/// What stands behind the colon and is no port leaves the port at 80.
pub proof fn law_no_port_is_eighty(host: Seq<char>, junk: Seq<char>, path: Seq<char>)
    requires
        !host.contains(':'),
        !host.contains('/'),
        !junk.contains('/'),
        path.len() > 0 && path[0] == '/',
        parse_unsigned(junk, 65535) is None,
    ensures
        endpoint_of("ws://"@ + host + seq![':'] + junk + path) == Some(
            EndpointView { host, port: 80, path },
        ),
{
    reveal_strlit("ws://");
    let authority = host + seq![':'] + junk;
    assert forall|j: int| 0 <= j < authority.len() implies authority[j] != '/' by {
        if j < host.len() {
            assert(host.contains(host[j]));
        } else if j > host.len() {
            assert(junk.contains(junk[j - host.len() - 1]));
        }
    }
    law_first_place_of_a_character(host, ':', junk);
    assert(authority.take(host.len() as int) =~= host);
    assert(authority.skip(host.len() as int + 1) =~= junk);
    lemma_before_slash(authority, path);
    let url = "ws://"@ + host + seq![':'] + junk + path;
    assert(url.subrange(0, 5) =~= "ws://"@);
    assert(url.skip(5) =~= authority + path);
}

/// Only addresses that begin with `ws://` are taken.
pub proof fn law_other_addresses_are_refused(url: Seq<char>)
    requires
        url.len() < 5 || url.take(5) != "ws://"@,
    ensures
        endpoint_of(url) is None,
{
    reveal_strlit("ws://");
    if url.len() >= 5 {
        assert(url.subrange(0, 5) =~= url.take(5));
    }
}

/// The answer to a key is the base64 text of the SHA-1 digest of the key followed by the identifier
/// that the protocol fixes.
pub proof fn law_the_answer_to_a_key(key: Seq<char>)
    ensures
        accept_for(key) == base64_text(
            sha1_digest(encode_utf8(key + "258EAFA5-E914-47DA-95CA-C5AB0DC85B11"@)),
        ),
{
    lemma_encode_one_after_the_other(key, "258EAFA5-E914-47DA-95CA-C5AB0DC85B11"@);
}

proof fn lemma_encode_one_after_the_other(a: Seq<char>, b: Seq<char>)
    ensures
        encode_utf8(a + b) == encode_utf8(a) + encode_utf8(b),
    decreases a.len(),
{
    if a.len() == 0 {
        assert(a + b =~= b);
        assert(encode_utf8(a) + encode_utf8(b) =~= encode_utf8(b));
    } else {
        lemma_encode_one_after_the_other(a.drop_first(), b);
        assert((a + b).drop_first() =~= a.drop_first() + b);
        assert((a + b)[0] == a[0]);
        assert(encode_utf8(a + b) =~= encode_utf8(a) + encode_utf8(b));
    }
}

/// The request that opens a WebSocket asks for its path at its host and port, wants the upgrade, and
/// carries the key.
pub proof fn law_the_lines_of_an_upgrade(e: EndpointView, key: Seq<char>)
    requires
        !e.path.contains('\n'),
        !e.host.contains('\n'),
        !key.contains('\n'),
    ensures
        lines(upgrade_request(e, key)) == seq![
            "GET "@ + e.path + " HTTP/1.1"@,
            "Host: "@ + e.host + ":"@ + numeral(e.port),
            "Upgrade: websocket"@,
            "Connection: Upgrade"@,
            "Sec-WebSocket-Key: "@ + key,
            "Sec-WebSocket-Version: 13"@,
            ""@,
        ],
{
    reveal_strlit("GET ");
    reveal_strlit(" HTTP/1.1\r\nHost: ");
    reveal_strlit(" HTTP/1.1");
    reveal_strlit("Host: ");
    reveal_strlit(":");
    reveal_strlit("\r\nUpgrade: websocket\r\nConnection: Upgrade\r\nSec-WebSocket-Key: ");
    reveal_strlit("Upgrade: websocket");
    reveal_strlit("Connection: Upgrade");
    reveal_strlit("Sec-WebSocket-Key: ");
    reveal_strlit("\r\nSec-WebSocket-Version: 13\r\n\r\n");
    reveal_strlit("Sec-WebSocket-Version: 13");
    reveal_strlit("");
    let end = seq!['\r', '\n'];
    let n = numeral(e.port);
    law_a_numeral_stands_for_its_number(e.port);
    let get = "GET "@ + e.path + " HTTP/1.1"@;
    let host = "Host: "@ + e.host + ":"@ + n;
    let keyed = "Sec-WebSocket-Key: "@ + key;
    let last = ""@ + end + seq![];
    let version = "Sec-WebSocket-Version: 13"@ + end + last;
    let keys = keyed + end + version;
    let connection = "Connection: Upgrade"@ + end + keys;
    let upgrade = "Upgrade: websocket"@ + end + connection;
    let hosts = host + end + upgrade;
    assert(" HTTP/1.1\r\nHost: "@ =~= " HTTP/1.1"@ + end + "Host: "@);
    assert("\r\nUpgrade: websocket\r\nConnection: Upgrade\r\nSec-WebSocket-Key: "@ =~= end
        + "Upgrade: websocket"@ + end + "Connection: Upgrade"@ + end + "Sec-WebSocket-Key: "@);
    assert("\r\nSec-WebSocket-Version: 13\r\n\r\n"@ =~= end + version);
    assert(upgrade_request(e, key) =~= get + end + hosts);
    assert forall|j: int| 0 <= j < get.len() implies get[j] != '\n' by {
        if 4 <= j < 4 + e.path.len() {
            assert(e.path.contains(e.path[j - 4]));
        }
    }
    assert forall|j: int| 0 <= j < host.len() implies host[j] != '\n' by {
        if 6 <= j < 6 + e.host.len() {
            assert(e.host.contains(e.host[j - 6]));
        } else if j >= 7 + e.host.len() {
            assert('0' <= n[j - 7 - e.host.len()]);
        }
    }
    assert forall|j: int| 0 <= j < keyed.len() implies keyed[j] != '\n' by {
        if 19 <= j {
            assert(key.contains(key[j - 19]));
        }
    }
    law_a_line_ends_at_its_return(get, hosts);
    law_a_line_ends_at_its_return(host, upgrade);
    law_a_line_ends_at_its_return("Upgrade: websocket"@, connection);
    law_a_line_ends_at_its_return("Connection: Upgrade"@, keys);
    law_a_line_ends_at_its_return(keyed, version);
    law_a_line_ends_at_its_return("Sec-WebSocket-Version: 13"@, last);
    law_a_line_ends_at_its_return(""@, seq![]);
    law_the_last_line(seq![]);
    assert(lines(upgrade_request(e, key)) =~= seq![
        get,
        host,
        "Upgrade: websocket"@,
        "Connection: Upgrade"@,
        keyed,
        "Sec-WebSocket-Version: 13"@,
        ""@,
    ]);
}

/// A server is taken for a WebSocket exactly where the first line of its head holds 101 and a field
/// holds the answer to the key. The bytes behind the head are kept; otherwise the reason is given.
pub proof fn law_which_servers_are_taken(
    head: Seq<char>,
    front: Seq<u8>,
    more: Seq<u8>,
    key: Seq<char>,
)
    requires
        front == encode_utf8(head) + seq![13u8, 10u8, 13u8, 10u8],
        forall|j: int|
            0 <= j < front.len() - 4 ==> #[trigger] front.subrange(j, j + 4) != seq![
                13u8,
                10u8,
                13u8,
                10u8,
            ],
    ensures
        upgrade_outcome(front + more, key) == Some(
            if !occurs(first_line(head), "101"@) {
                Err("WebSocket 握手失败: "@ + first_line(head))
            } else if !has_field(lines(head), "sec-websocket-accept"@, accept_for(key)) {
                Err("WebSocket 握手校验失败（Sec-WebSocket-Accept 不匹配）"@)
            } else {
                Ok(more)
            },
        ),
{
    let mark = seq![13u8, 10u8, 13u8, 10u8];
    let bytes = encode_utf8(head);
    assert(front.skip(front.len() - 4) =~= mark);
    lemma_place_of_head(front, more);
    let raw = front + more;
    assert(raw.take(bytes.len() as int) =~= bytes);
    assert(raw.skip(front.len() as int) =~= more);
    crate::text::law_text_of_its_bytes(head);
}

/// While the head of a server is not complete nothing is decided.
pub proof fn law_no_server_is_taken_early(raw: Seq<u8>, key: Seq<char>)
    requires
        forall|j: int|
            0 <= j <= raw.len() - 4 ==> #[trigger] raw.subrange(j, j + 4) != seq![
                13u8,
                10u8,
                13u8,
                10u8,
            ],
    ensures
        upgrade_outcome(raw, key) is None,
{
    crate::laws::http::law_no_place_of_a_part(raw, head_end());
}

} // verus!
