//! The client side of a WebSocket, without its socket: the opening handshake, masked text frames
//! out, text messages in.
//!
//! Only what the debugging protocol needs is there: text frames are sent whole, and of what comes
//! in, text frames are delivered, a close frame ends the session and everything else is skipped.
use crate::header::{first_line, has_field, has_field_value, lines, read_first_line};
use crate::http::{
    find_subslice, first_occurrence, head_end, lemma_first_occurrence,
    lemma_first_occurrence_in_prefix, Read,
};
use crate::text::{
    begins_with, chars_of, contains, decimal, decode_lossy, find_from, first_index, int_numeral,
    law_text_of_its_bytes, lossy, occurs, parse_unsigned, part, read_unsigned, starts_with,
};
use base64::Engine;
use sha1::Digest;
use vstd::prelude::*;
use vstd::slice::slice_subrange;
use vstd::string::*;
use vstd::utf8::*;

verus! {

// ---------------------------------------------------------------------------
// Frames
// ---------------------------------------------------------------------------

/// A number in `count` bytes, the most significant first.
pub open spec fn be_bytes(n: nat, count: nat) -> Seq<u8>
    decreases count,
{
    if count == 0 {
        seq![]
    } else {
        be_bytes(n / 256, (count - 1) as nat).push((n % 256) as u8)
    }
}

/// The number that some bytes stand for, the most significant first.
pub open spec fn be_value(s: Seq<u8>) -> nat
    decreases s.len(),
{
    if s.len() == 0 {
        0
    } else {
        be_value(s.drop_last()) * 256 + s.last() as nat
    }
}

/// How many numbers `count` bytes can stand for.
pub open spec fn be_limit(count: nat) -> nat
    decreases count,
{
    if count == 0 {
        1
    } else {
        256 * be_limit((count - 1) as nat)
    }
}

proof fn lemma_be_value_bound(s: Seq<u8>)
    ensures
        be_value(s) < be_limit(s.len()),
    decreases s.len(),
{
    if s.len() > 0 {
        lemma_be_value_bound(s.drop_last());
    }
}

/// A number that fits is read back from its bytes.
pub proof fn law_be_bytes_read_back(n: nat, count: nat)
    requires
        n < be_limit(count),
    ensures
        be_bytes(n, count).len() == count,
        be_value(be_bytes(n, count)) == n,
    decreases count,
{
    if count > 0 {
        law_be_bytes_read_back(n / 256, (count - 1) as nat);
        assert(be_bytes(n, count).drop_last() =~= be_bytes(n / 256, (count - 1) as nat));
    }
}

proof fn lemma_be_limits()
    ensures
        be_limit(2) == 65536,
        be_limit(8) == 0x1_0000_0000_0000_0000,
{
    reveal_with_fuel(be_limit, 9);
}

/// Bytes under a mask of four bytes, which is repeated over them.
pub open spec fn masked(data: Seq<u8>, mask: Seq<u8>) -> Seq<u8> {
    Seq::new(data.len(), |i: int| data[i] ^ mask[i % 4])
}

/// A mask applied twice gives the bytes back.
pub proof fn law_mask_twice(data: Seq<u8>, mask: Seq<u8>)
    ensures
        masked(masked(data, mask), mask) == data,
{
    assert forall|i: int| 0 <= i < data.len() implies masked(masked(data, mask), mask)[i]
        == data[i] by {
        let d = data[i];
        let m = mask[i % 4];
        assert((d ^ m) ^ m == d) by (bit_vector);
    }
    assert(masked(masked(data, mask), mask) =~= data);
}

/// The length of a payload as the frame of a client holds it, with the mask bit set.
pub open spec fn length_field(n: nat) -> Seq<u8> {
    if n < 126 {
        seq![(128 + n) as u8]
    } else if n < 65536 {
        seq![254u8] + be_bytes(n, 2)
    } else {
        seq![255u8] + be_bytes(n, 8)
    }
}

/// The frame of a whole text message from a client.
pub open spec fn text_frame(data: Seq<u8>, mask: Seq<u8>) -> Seq<u8> {
    seq![0x81u8] + length_field(data.len()) + mask + masked(data, mask)
}

/// What a frame holds.
pub struct FrameView {
    pub opcode: u8,
    pub payload: Seq<u8>,
    /// The bytes that the frame takes up.
    pub size: int,
}

/// How many bytes beyond the second hold the length.
pub open spec fn length_width(second: u8) -> int {
    if second % 128 == 126 {
        2
    } else if second % 128 == 127 {
        8
    } else {
        0
    }
}

/// How many bytes hold the mask.
pub open spec fn mask_width(second: u8) -> int {
    if second >= 128 {
        4
    } else {
        0
    }
}

/// The length of the payload of the frame at the front, given that its length bytes are there.
pub open spec fn payload_length(buf: Seq<u8>) -> int {
    let w = length_width(buf[1]);
    if w == 0 {
        (buf[1] % 128) as int
    } else {
        (be_value(buf.subrange(2, 2 + w)) as u64) as usize as int
    }
}

/// The frame at the front of what has been received, once all of it is there.
pub open spec fn frame_at(buf: Seq<u8>) -> Option<FrameView> {
    if buf.len() < 2 || buf.len() < 2 + length_width(buf[1]) {
        None
    } else {
        let at = 2 + length_width(buf[1]);
        let start = at + mask_width(buf[1]);
        let size = start + payload_length(buf);
        if buf.len() < size {
            None
        } else {
            let data = buf.subrange(start, size);
            Some(
                FrameView {
                    opcode: buf[0] % 16,
                    payload: if mask_width(buf[1]) == 0 {
                        data
                    } else {
                        masked(data, buf.subrange(at, start))
                    },
                    size,
                },
            )
        }
    }
}

/// The bytes of the front frame's head that a reader has used up when it has to wait for more:
/// the first two bytes, the length bytes and the mask are each taken when they are complete.
pub open spec fn head_taken(buf: Seq<u8>) -> int {
    if buf.len() < 2 {
        0
    } else {
        let at = 2 + length_width(buf[1]);
        let start = at + mask_width(buf[1]);
        if buf.len() < at {
            2
        } else if buf.len() < start {
            at
        } else {
            start
        }
    }
}

/// The first frame of a stream does not depend on what follows it, and is not seen before its
/// last byte: where a stream is cut into pieces makes no difference.
pub proof fn law_frames_in_pieces(buf: Seq<u8>, more: Seq<u8>, k: int)
    requires
        frame_at(buf) is Some,
        0 <= k < frame_at(buf)->0.size,
    ensures
        frame_at(buf + more) == frame_at(buf),
        frame_at(buf.take(k)) is None,
{
    let w = length_width(buf[1]);
    let at = 2 + w;
    let start = at + mask_width(buf[1]);
    let size = frame_at(buf)->0.size;
    let whole = buf + more;
    assert(whole.subrange(2, 2 + w) =~= buf.subrange(2, 2 + w));
    assert(whole.subrange(at, start) =~= buf.subrange(at, start));
    assert(whole.subrange(start, size) =~= buf.subrange(start, size));
    let part = buf.take(k);
    if k >= at {
        assert(part.subrange(2, 2 + w) =~= buf.subrange(2, 2 + w));
    }
}

/// What a peer reads from a frame that was sent: the text message with the bytes that went in,
/// whatever the mask, and nothing of what follows is touched.
pub proof fn law_frame_read_back(data: Seq<u8>, mask: Seq<u8>, more: Seq<u8>)
    requires
        mask.len() == 4,
        data.len() <= usize::MAX,
    ensures
        frame_at(text_frame(data, mask) + more) == Some(
            FrameView { opcode: 1, payload: data, size: text_frame(data, mask).len() as int },
        ),
{
    let n = data.len();
    let frame = text_frame(data, mask);
    let buf = frame + more;
    lemma_be_limits();
    if n >= 65536 {
        law_be_bytes_read_back(n, 8);
        assert(buf.subrange(2, 10) =~= be_bytes(n, 8));
    } else if n >= 126 {
        law_be_bytes_read_back(n, 2);
        assert(buf.subrange(2, 4) =~= be_bytes(n, 2));
    }
    assert(payload_length(buf) == n);
    let at = 2 + length_width(buf[1]);
    assert(buf.subrange(at, at + 4) =~= mask);
    assert(buf.subrange(at + 4, at + 4 + n) =~= masked(data, mask));
    law_mask_twice(data, mask);
}

/// Every frame that a client sends is masked, with its mask in front of the payload.
pub proof fn law_sent_frames_are_masked(data: Seq<u8>, mask: Seq<u8>)
    requires
        mask.len() == 4,
        data.len() <= usize::MAX,
    ensures
        mask_width(text_frame(data, mask)[1]) == 4,
        text_frame(data, mask).subrange(
            2 + length_width(text_frame(data, mask)[1]),
            6 + length_width(text_frame(data, mask)[1]),
        ) == mask,
{
    let n = data.len();
    let frame = text_frame(data, mask);
    lemma_be_limits();
    if n >= 65536 {
        law_be_bytes_read_back(n, 8);
    } else if n >= 126 {
        law_be_bytes_read_back(n, 2);
    }
    let at = 2 + length_width(frame[1]);
    assert(frame.subrange(at, at + 4) =~= mask);
}

fn push_be(out: &mut Vec<u8>, n: u64, count: u64)
    ensures
        final(out)@ == old(out)@ + be_bytes(n as nat, count as nat),
    decreases count,
{
    if count > 0 {
        push_be(out, n / 256, count - 1);
        out.push((n % 256) as u8);
        assert(out@ =~= old(out)@ + be_bytes(n as nat, count as nat));
    } else {
        assert(out@ =~= old(out)@ + be_bytes(n as nat, 0));
    }
}

fn read_be(s: &[u8]) -> (r: u64)
    requires
        s@.len() <= 8,
    ensures
        r as nat == be_value(s@),
{
    let mut i: usize = 0;
    let mut value: u64 = 0;
    while i < s.len()
        invariant
            i <= s@.len() <= 8,
            value as nat == be_value(s@.take(i as int)),
        decreases s@.len() - i,
    {
        proof {
            lemma_be_value_bound(s@.take(i as int));
            reveal_with_fuel(be_limit, 9);
            assert(s@.take(i + 1).drop_last() =~= s@.take(i as int));
        }
        value = value * 256 + s[i] as u64;
        i += 1;
    }
    assert(s@.take(i as int) =~= s@);
    value
}

/// Appends bytes under a mask of four bytes.
fn push_masked(out: &mut Vec<u8>, data: &[u8], mask: &[u8])
    requires
        mask@.len() == 4,
    ensures
        final(out)@ == old(out)@ + masked(data@, mask@),
{
    let mut i: usize = 0;
    while i < data.len()
        invariant
            i <= data@.len(),
            mask@.len() == 4,
            out@ == old(out)@ + masked(data@, mask@).take(i as int),
        decreases data@.len() - i,
    {
        let b = data[i] ^ mask[i % 4];
        out.push(b);
        assert(out@ =~= old(out)@ + masked(data@, mask@).take(i + 1));
        i += 1;
    }
    assert(masked(data@, mask@).take(i as int) =~= masked(data@, mask@));
}

/// The frame of a text message under a given mask.
pub fn encode_text(text: &str, mask: [u8; 4]) -> (r: Vec<u8>)
    ensures
        r@ == text_frame(encode_utf8(text@), mask@),
{
    let data = text.as_bytes();
    let mut frame: Vec<u8> = Vec::new();
    frame.push(0x81);
    let n: usize = data.len();
    if n < 126 {
        let short = n as u8;
        assert(short < 126 ==> 0x80u8 | short == 128 + short) by (bit_vector);
        frame.push(0x80 | short);
    } else if n < 65536 {
        assert(0x80u8 | 126 == 254) by (bit_vector);
        frame.push(0x80 | 126);
        push_be(&mut frame, n as u64, 2);
    } else {
        assert(0x80u8 | 127 == 255) by (bit_vector);
        frame.push(0x80 | 127);
        push_be(&mut frame, n as u64, 8);
    }
    assert(frame@ =~= seq![0x81u8] + length_field(data@.len()));
    frame.push(mask[0]);
    frame.push(mask[1]);
    frame.push(mask[2]);
    frame.push(mask[3]);
    assert(frame@ =~= seq![0x81u8] + length_field(data@.len()) + mask@);
    push_masked(&mut frame, data, mask.as_slice());
    frame
}

/// Sixteen random bytes, by `uuid::Uuid::new_v4` and `into_bytes`. They are random but for the
/// version and variant bits of such an identifier. It takes nothing and panics only where the
/// system cannot give random bytes.
#[verifier::external_body]
fn random_bytes() -> (r: [u8; 16])
    ensures
        0x40 <= r@[6] <= 0x4f,
        0x80 <= r@[8] <= 0xbf,
{
    uuid::Uuid::new_v4().into_bytes()
}

/// The frame of a text message under a fresh random mask.
pub fn send_text(text: &str) -> (r: Vec<u8>)
    ensures
        exists|mask: Seq<u8>|
            mask.len() == 4 && r@ == #[trigger] text_frame(encode_utf8(text@), mask),
{
    let bytes = random_bytes();
    let mask: [u8; 4] = [bytes[0], bytes[1], bytes[2], bytes[3]];
    encode_text(text, mask)
}

// ---------------------------------------------------------------------------
// Receiving
// ---------------------------------------------------------------------------

/// What receiving a message waits for.
pub enum RecvEvent {
    /// Whether the deadline has passed.
    Clock(bool),
    /// What a read from the connection brought.
    Read(Read),
}

/// What receiving a message needs next.
pub enum RecvAction {
    /// To know whether the deadline has passed.
    CheckClock,
    /// To have more read from the connection.
    Read,
    /// Nothing: the message, or why there is none.
    Done(Result<String, String>),
}

/// What receiving a message needs next, without the strings.
pub enum RecvView {
    CheckClock,
    Read,
    Done(Result<Seq<char>, Seq<char>>),
}

impl View for RecvAction {
    type V = RecvView;

    open spec fn view(&self) -> RecvView {
        match self {
            RecvAction::CheckClock => RecvView::CheckClock,
            RecvAction::Read => RecvView::Read,
            RecvAction::Done(Ok(s)) => RecvView::Done(Ok(s@)),
            RecvAction::Done(Err(e)) => RecvView::Done(Err(e@)),
        }
    }
}

/// What has been received and what comes next, after the front frame was looked at: a text frame
/// ends in its text, a close frame in an error, any other frame is dropped and the clock checked
/// before the next one.
pub open spec fn front_frame(buf: Seq<u8>) -> (Seq<u8>, RecvView) {
    match frame_at(buf) {
        None => (buf, RecvView::Read),
        Some(f) => (
            buf.skip(f.size),
            if f.opcode == 1 {
                RecvView::Done(Ok(lossy(f.payload)))
            } else if f.opcode == 8 {
                RecvView::Done(Err("服务端关闭了 WebSocket"@))
            } else {
                RecvView::CheckClock
            },
        ),
    }
}

/// How receiving a message goes on from an event.
pub open spec fn recv_next(buf: Seq<u8>, event: RecvEvent) -> (Seq<u8>, RecvView) {
    match event {
        RecvEvent::Clock(late) => if late {
            (buf, RecvView::Done(Err("等待 CDP 响应超时"@)))
        } else {
            front_frame(buf)
        },
        RecvEvent::Read(Read::Bytes(b)) => if b@.len() > 0 {
            front_frame(buf + b@)
        } else {
            (buf.skip(head_taken(buf)), RecvView::Done(Err("连接已关闭"@)))
        },
        RecvEvent::Read(Read::Failed(e)) => (
            buf.skip(head_taken(buf)),
            RecvView::Done(Err("读取帧失败: "@ + e@)),
        ),
    }
}

/// A text that was sent is the text that the peer receives, whatever the mask, and nothing of what
/// follows its frame is used.
pub proof fn law_text_round_trip(text: Seq<char>, mask: Seq<u8>, more: Seq<u8>)
    requires
        mask.len() == 4,
        encode_utf8(text).len() <= usize::MAX,
    ensures
        recv_next(text_frame(encode_utf8(text), mask) + more, RecvEvent::Clock(false)) == (
            more,
            RecvView::Done(Ok(text)),
        ),
{
    let frame = text_frame(encode_utf8(text), mask);
    law_frame_read_back(encode_utf8(text), mask, more);
    law_text_of_its_bytes(text);
    assert((frame + more).skip(frame.len() as int) =~= more);
}

/// A frame that is neither text nor close is dropped without a trace, and the deadline is looked
/// at before the next one.
pub proof fn law_other_frames_are_skipped(frame: Seq<u8>, more: Seq<u8>)
    requires
        frame_at(frame) is Some,
        frame_at(frame)->0.size == frame.len(),
        frame_at(frame)->0.opcode != 1,
        frame_at(frame)->0.opcode != 8,
    ensures
        recv_next(frame + more, RecvEvent::Clock(false)) == (more, RecvView::CheckClock),
{
    law_frames_in_pieces(frame, more, 0);
    assert((frame + more).skip(frame.len() as int) =~= more);
}

/// An open WebSocket: the bytes received and not yet used.
pub struct Ws {
    buf: Vec<u8>,
}

impl View for Ws {
    type V = Seq<u8>;

    closed spec fn view(&self) -> Seq<u8> {
        self.buf@
    }
}

/// The front frame, with the bytes that it takes up.
struct Frame {
    opcode: u8,
    payload: Vec<u8>,
    size: usize,
}

impl Ws {
    /// A WebSocket on which some bytes have come in already.
    pub fn new(buf: Vec<u8>) -> (r: Ws)
        ensures
            r@ == buf@,
    {
        Ws { buf }
    }

    /// Goes on receiving a text message. The first event is whether the deadline has passed; each
    /// later one answers the action before it.
    pub fn recv_text(&mut self, event: RecvEvent) -> (r: RecvAction)
        ensures
            (final(self)@, r@) == recv_next(old(self)@, event),
    {
        match event {
            RecvEvent::Clock(late) => if late {
                RecvAction::Done(Err("等待 CDP 响应超时".to_owned()))
            } else {
                self.take_front()
            },
            RecvEvent::Read(Read::Bytes(b)) => {
                if b.len() > 0 {
                    let mut b = b;
                    self.buf.append(&mut b);
                    self.take_front()
                } else {
                    self.drop_head();
                    RecvAction::Done(Err("连接已关闭".to_owned()))
                }
            },
            RecvEvent::Read(Read::Failed(e)) => {
                self.drop_head();
                let mut s = "读取帧失败: ".to_owned();
                s.append(e.as_str());
                RecvAction::Done(Err(s))
            },
        }
    }

    /// Takes `n` bytes off the front of what has been received, if that many are there.
    pub fn read_exact(&mut self, n: usize) -> (r: Option<Vec<u8>>)
        ensures
            match r {
                Some(b) => n <= old(self)@.len() && b@ == old(self)@.take(n as int) && final(self)@
                    == old(self)@.skip(n as int),
                None => n > old(self)@.len() && final(self)@ == old(self)@,
            },
    {
        if self.buf.len() < n {
            return None;
        }
        let ghost before = self.buf@;
        let mut tail = self.buf.split_off(n);
        let mut front: Vec<u8> = Vec::new();
        front.append(&mut self.buf);
        self.buf.append(&mut tail);
        assert(front@ =~= before.take(n as int));
        assert(self.buf@ =~= before.skip(n as int));
        Some(front)
    }

    fn take_front(&mut self) -> (r: RecvAction)
        ensures
            (final(self)@, r@) == front_frame(old(self)@),
    {
        match self.peek() {
            None => RecvAction::Read,
            Some(f) => {
                let _used = self.read_exact(f.size);
                if f.opcode == 1 {
                    RecvAction::Done(Ok(decode_lossy(f.payload.as_slice())))
                } else if f.opcode == 8 {
                    RecvAction::Done(Err("服务端关闭了 WebSocket".to_owned()))
                } else {
                    RecvAction::CheckClock
                }
            },
        }
    }

    fn drop_head(&mut self)
        ensures
            final(self)@ == old(self)@.skip(head_taken(old(self)@)),
    {
        let len: usize = self.buf.len();
        let mut taken: usize = 0;
        if len >= 2 {
            let (width, mask) = head_widths(self.buf[1]);
            taken = if len < 2 + width {
                2
            } else if len < 2 + width + mask {
                2 + width
            } else {
                2 + width + mask
            };
        }
        let _used = self.read_exact(taken);
    }

    fn peek(&self) -> (r: Option<Frame>)
        ensures
            match r {
                Some(f) => frame_at(self@) == Some(
                    FrameView { opcode: f.opcode, payload: f.payload@, size: f.size as int },
                ),
                None => frame_at(self@) is None,
            },
    {
        let len: usize = self.buf.len();
        if len < 2 {
            return None;
        }
        let first = self.buf[0];
        let second = self.buf[1];
        assert(first & 0x0f == first % 16) by (bit_vector);
        assert(second & 0x7f == second % 128) by (bit_vector);
        let (width, mask) = head_widths(second);
        let at: usize = 2 + width;
        let start: usize = at + mask;
        if len < at {
            return None;
        }
        let n: usize = if width == 0 {
            (second & 0x7f) as usize
        } else {
            let field = slice_subrange(self.buf.as_slice(), 2, at);
            read_be(field) as usize
        };
        if len < start || len - start < n {
            return None;
        }
        let size: usize = start + n;
        let data = slice_subrange(self.buf.as_slice(), start, size);
        let mut payload: Vec<u8> = Vec::new();
        if mask == 0 {
            payload.extend_from_slice(data);
            assert(payload@ =~= data@);
        } else {
            let key = slice_subrange(self.buf.as_slice(), at, start);
            push_masked(&mut payload, data, key);
            assert(payload@ =~= masked(data@, key@));
        }
        Some(Frame { opcode: first & 0x0f, payload, size })
    }
}

/// How many bytes hold the length beyond the second byte, and how many the mask.
fn head_widths(second: u8) -> (r: (usize, usize))
    ensures
        r.0 == length_width(second),
        r.1 == mask_width(second),
{
    assert(second & 0x7f == second % 128) by (bit_vector);
    assert((second & 0x80 != 0) == (second >= 128)) by (bit_vector);
    let short = second & 0x7f;
    let width: usize = if short == 126 {
        2
    } else if short == 127 {
        8
    } else {
        0
    };
    let mask: usize = if second & 0x80 != 0 {
        4
    } else {
        0
    };
    (width, mask)
}

// ---------------------------------------------------------------------------
// The opening handshake
// ---------------------------------------------------------------------------

/// Where a WebSocket is to be opened.
pub struct Endpoint {
    pub host: String,
    pub port: u16,
    pub path: String,
}

/// What an [`Endpoint`] holds.
pub struct EndpointView {
    pub host: Seq<char>,
    pub port: nat,
    pub path: Seq<char>,
}

impl View for Endpoint {
    type V = EndpointView;

    open spec fn view(&self) -> EndpointView {
        EndpointView { host: self.host@, port: self.port as nat, path: self.path@ }
    }
}

/// The text before the first `c`, and all of it where there is none.
pub open spec fn before(s: Seq<char>, c: char) -> Seq<char> {
    match first_index(s, c) {
        Some(i) => s.take(i),
        None => s,
    }
}

/// The endpoint that a `ws://` address names. The path begins at the first slash and is a slash
/// where there is none; the port stands behind the first colon before it, and is 80 where there
/// is none or what stands there is no port.
pub open spec fn endpoint_of(url: Seq<char>) -> Option<EndpointView> {
    if begins_with(url, "ws://"@) {
        let rest = url.skip(5);
        let authority = before(rest, '/');
        Some(
            EndpointView {
                host: before(authority, ':'),
                port: match first_index(authority, ':') {
                    Some(i) => match parse_unsigned(authority.skip(i + 1), u16::MAX as nat) {
                        Some(n) => n,
                        None => 80,
                    },
                    None => 80,
                },
                path: match first_index(rest, '/') {
                    Some(i) => rest.skip(i),
                    None => "/"@,
                },
            },
        )
    } else {
        None
    }
}

/// Reads a `ws://` address.
pub fn parse_ws_url(url: &str) -> (r: Result<Endpoint, String>)
    ensures
        match r {
            Ok(e) => endpoint_of(url@) == Some(e@),
            Err(m) => endpoint_of(url@) is None && m@ == "不支持的 WebSocket 地址: "@ + url@,
        },
{
    if !starts_with(url, "ws://") {
        let mut s = "不支持的 WebSocket 地址: ".to_owned();
        s.append(url);
        return Err(s);
    }
    proof {
        reveal_strlit("ws://");
    }
    let chars = chars_of(url);
    let len: usize = chars.len();
    let ghost rest = url@.skip(5);
    assert(rest =~= chars@.subrange(5, len as int));
    let slash = find_from(&chars, '/', 5, len);
    let ghost authority = before(rest, '/');
    assert(authority =~= chars@.subrange(5, slash as int));
    let colon = find_from(&chars, ':', 5, slash);
    assert(before(authority, ':') =~= chars@.subrange(5, colon as int));
    let host = part(url, 5, colon);
    let port: u16 = if colon < slash {
        assert(authority.skip(colon - 5 + 1) =~= chars@.subrange(colon + 1, slash as int));
        match read_unsigned(&chars, colon + 1, slash, u16::MAX as u64) {
            Some(n) => n as u16,
            None => 80,
        }
    } else {
        80
    };
    let path = if slash < len {
        assert(rest.skip(slash - 5) =~= chars@.subrange(slash as int, len as int));
        part(url, slash, len)
    } else {
        "/".to_owned()
    };
    Ok(Endpoint { host, port, path })
}

/// The standard base64 text of some bytes.
pub uninterp spec fn base64_text(bytes: Seq<u8>) -> Seq<char>;

/// Encodes bytes with the `STANDARD` engine of `base64`, which pads: four characters for every
/// three bytes begun. It panics only where that many characters cannot be counted.
#[verifier::external_body]
fn base64_encode(bytes: &[u8]) -> (r: String)
    requires
        bytes@.len() <= usize::MAX / 4,
    ensures
        r@ == base64_text(bytes@),
        r@.len() == (bytes@.len() + 2) / 3 * 4,
{
    base64::engine::general_purpose::STANDARD.encode(bytes)
}

/// The SHA-1 digest of some bytes.
pub uninterp spec fn sha1_digest(bytes: Seq<u8>) -> Seq<u8>;

/// Hashes two runs of bytes, one after the other, with `sha1::Sha1`; the digest has twenty bytes.
#[verifier::external_body]
fn sha1_both(first: &[u8], second: &[u8]) -> (r: Vec<u8>)
    ensures
        r@ == sha1_digest(first@ + second@),
        r@.len() == 20,
{
    let mut hasher = sha1::Sha1::new();
    hasher.update(first);
    hasher.update(second);
    hasher.finalize().to_vec()
}

/// The answer that proves a server to have understood the key of a handshake.
pub open spec fn accept_for(key: Seq<char>) -> Seq<char> {
    base64_text(
        sha1_digest(encode_utf8(key) + encode_utf8("258EAFA5-E914-47DA-95CA-C5AB0DC85B11"@)),
    )
}

/// The answer that proves a server to have understood the key of a handshake.
pub fn accept_key(key: &str) -> (r: String)
    ensures
        r@ == accept_for(key@),
{
    let digest = sha1_both(
        key.as_bytes(),
        "258EAFA5-E914-47DA-95CA-C5AB0DC85B11".as_bytes(),
    );
    base64_encode(digest.as_slice())
}

/// The request that opens a WebSocket.
pub open spec fn upgrade_request(e: EndpointView, key: Seq<char>) -> Seq<char> {
    "GET "@ + e.path + " HTTP/1.1\r\nHost: "@ + e.host + ":"@ + int_numeral(e.port as int)
        + "\r\nUpgrade: websocket\r\nConnection: Upgrade\r\nSec-WebSocket-Key: "@ + key
        + "\r\nSec-WebSocket-Version: 13\r\n\r\n"@
}

/// What a server's answer to the request comes to, once its head is complete: the bytes behind
/// the head belong to the WebSocket.
pub open spec fn upgrade_outcome(raw: Seq<u8>, key: Seq<char>) -> Option<
    Result<Seq<u8>, Seq<char>>,
> {
    match first_occurrence(raw, head_end()) {
        None => None,
        Some(i) => {
            let head = lossy(raw.take(i));
            Some(
                if !occurs(first_line(head), "101"@) {
                    Err("WebSocket 握手失败: "@ + first_line(head))
                } else if !has_field(lines(head), "sec-websocket-accept"@, accept_for(key)) {
                    Err("WebSocket 握手校验失败（Sec-WebSocket-Accept 不匹配）"@)
                } else {
                    Ok(raw.skip(i + 4))
                },
            )
        },
    }
}

/// An opening handshake under way.
pub struct Handshake {
    endpoint: Endpoint,
    key: String,
    raw: Vec<u8>,
}

impl Handshake {
    /// Where the WebSocket is to be opened.
    pub closed spec fn endpoint(&self) -> EndpointView {
        self.endpoint@
    }

    /// The key of this handshake.
    pub closed spec fn key(&self) -> Seq<char> {
        self.key@
    }

    /// What the server has answered so far.
    pub closed spec fn received(&self) -> Seq<u8> {
        self.raw@
    }

    /// Whether the server still owes the end of its head.
    pub closed spec fn wf(&self) -> bool {
        first_occurrence(self.raw@, head_end()) is None
    }

    /// A handshake for an address, with a fresh random key.
    pub fn connect(ws_url: &str) -> (r: Result<Handshake, String>)
        ensures
            match r {
                Ok(h) => endpoint_of(ws_url@) == Some(h.endpoint()) && h.wf() && h.received()
                    == Seq::<u8>::empty() && (exists|nonce: Seq<u8>|
                    nonce.len() == 16 && h.key() == #[trigger] base64_text(nonce))
                    && h.key().len() == 24,
                Err(m) => endpoint_of(ws_url@) is None && m@ == "不支持的 WebSocket 地址: "@
                    + ws_url@,
            },
    {
        match parse_ws_url(ws_url) {
            Ok(endpoint) => Ok(Handshake::with_nonce(endpoint, random_bytes())),
            Err(m) => Err(m),
        }
    }

    /// A handshake with a given nonce.
    pub fn with_nonce(endpoint: Endpoint, nonce: [u8; 16]) -> (r: Handshake)
        ensures
            r.wf(),
            r.endpoint() == endpoint@,
            r.key() == base64_text(nonce@),
            r.key().len() == 24,
            r.received() == Seq::<u8>::empty(),
    {
        let r = Handshake { endpoint, key: base64_encode(nonce.as_slice()), raw: Vec::new() };
        proof {
            lemma_first_occurrence(r.raw@, head_end());
        }
        r
    }

    /// The address to connect to.
    pub fn address(&self) -> (r: String)
        ensures
            r@ == self.endpoint().host + ":"@ + int_numeral(self.endpoint().port as int),
    {
        let mut s = self.endpoint.host.clone();
        s.append(":");
        s.append(decimal(self.endpoint.port as i128).as_str());
        s
    }

    /// The request to send.
    pub fn request(&self) -> (r: String)
        ensures
            r@ == upgrade_request(self.endpoint(), self.key()),
    {
        let mut s = "GET ".to_owned();
        s.append(self.endpoint.path.as_str());
        s.append(" HTTP/1.1\r\nHost: ");
        s.append(self.endpoint.host.as_str());
        s.append(":");
        s.append(decimal(self.endpoint.port as i128).as_str());
        s.append(
            "\r\nUpgrade: websocket\r\nConnection: Upgrade\r\nSec-WebSocket-Key: ",
        );
        s.append(self.key.as_str());
        s.append("\r\nSec-WebSocket-Version: 13\r\n\r\n");
        s
    }

    /// Takes in what a read brought. Gives the WebSocket or why there is none, or nothing where
    /// more has to be read.
    pub fn on_read(&mut self, event: Read) -> (r: Option<Result<Ws, String>>)
        requires
            old(self).wf(),
        ensures
            r is None ==> final(self).wf(),
            final(self).endpoint() == old(self).endpoint(),
            final(self).key() == old(self).key(),
            match event {
                Read::Bytes(b) if b@.len() > 0 => {
                    let raw = old(self).received() + b@;
                    match upgrade_outcome(raw, old(self).key()) {
                        None => r is None && final(self).received() == raw,
                        Some(Ok(rest)) => r matches Some(Ok(ws)) && ws@ == rest,
                        Some(Err(m)) => r matches Some(Err(e)) && e@ == m,
                    }
                },
                Read::Bytes(_) => r matches Some(Err(m)) && m@ == "握手过程中连接被关闭"@,
                Read::Failed(e) => r matches Some(Err(m)) && m@ == "读握手响应失败: "@ + e@,
            },
    {
        match event {
            Read::Failed(e) => {
                let mut s = "读握手响应失败: ".to_owned();
                s.append(e.as_str());
                Some(Err(s))
            },
            Read::Bytes(b) => {
                if b.len() == 0 {
                    return Some(Err("握手过程中连接被关闭".to_owned()));
                }
                let mut b = b;
                self.raw.append(&mut b);
                let mark: [u8; 4] = [13, 10, 13, 10];
                assert(mark@ =~= head_end());
                proof {
                    lemma_first_occurrence(self.raw@, head_end());
                }
                match find_subslice(self.raw.as_slice(), mark.as_slice()) {
                    None => None,
                    Some(i) => {
                        let head_bytes = slice_subrange(self.raw.as_slice(), 0, i);
                        assert(head_bytes@ =~= self.raw@.take(i as int));
                        let head = decode_lossy(head_bytes);
                        let status = read_first_line(head.as_str());
                        if !contains(status.as_str(), "101") {
                            let mut s = "WebSocket 握手失败: ".to_owned();
                            s.append(status.as_str());
                            return Some(Err(s));
                        }
                        let expected = accept_key(self.key.as_str());
                        if !has_field_value(head.as_str(), "sec-websocket-accept", expected.as_str()) {
                            return Some(
                                Err("WebSocket 握手校验失败（Sec-WebSocket-Accept 不匹配）".to_owned()),
                            );
                        }
                        let ghost whole = self.raw@;
                        assert(i + 4 <= self.raw.len());
                        let rest = self.raw.split_off(i + 4);
                        assert(rest@ =~= whole.skip(i + 4));
                        Some(Ok(Ws::new(rest)))
                    },
                }
            },
        }
    }
}

/// A server whose head carries the status 101 and the answer to the key is accepted, and the
/// WebSocket begins with the byte behind that head: nothing that came along with it is lost.
pub proof fn law_handshake_keeps_what_follows(head: Seq<u8>, more: Seq<u8>, key: Seq<char>)
    requires
        first_occurrence(head, head_end()) == Some(head.len() - 4),
        occurs(first_line(lossy(head.take(head.len() - 4))), "101"@),
        has_field(
            lines(lossy(head.take(head.len() - 4))),
            "sec-websocket-accept"@,
            accept_for(key),
        ),
    ensures
        upgrade_outcome(head + more, key) == Some(Ok::<Seq<u8>, Seq<char>>(more)),
{
    lemma_first_occurrence(head, head_end());
    lemma_first_occurrence_in_prefix(head, more, head_end());
    assert((head + more).take(head.len() - 4) =~= head.take(head.len() - 4));
    assert((head + more).skip(head.len() as int) =~= more);
}

} // verus!
