//! One HTTP exchange with the debugging endpoint, without its socket: the request text, and a
//! reader that is told what each read brought and says when the body is complete.
//!
//! The endpoint may keep the connection open, so the end of the body comes from `Content-Length`
//! where the head announces it, and from the end of the connection only where it does not.
use crate::header::{content_length, read_content_length};
use crate::text::{decimal, decode_lossy, int_numeral, lossy, occurs_at};
use vstd::prelude::*;
use vstd::slice::slice_subrange;
use vstd::string::*;

verus! {

/// Whether `i` is the first place where `needle` stands in `hay`.
pub open spec fn is_first(hay: Seq<u8>, needle: Seq<u8>, i: int) -> bool {
    &&& occurs_at(hay, needle, i)
    &&& forall|j: int| j < i ==> !occurs_at(hay, needle, j)
}

/// The first place where `needle` stands in `hay`; an empty needle is nowhere.
pub open spec fn first_occurrence(hay: Seq<u8>, needle: Seq<u8>) -> Option<int> {
    if needle.len() > 0 && exists|i: int| is_first(hay, needle, i) {
        Some(choose|i: int| is_first(hay, needle, i))
    } else {
        None
    }
}

/// What is known of the first occurrence: it is one and the first, or there is none at all.
pub proof fn lemma_first_occurrence(hay: Seq<u8>, needle: Seq<u8>)
    ensures
        match first_occurrence(hay, needle) {
            Some(i) => needle.len() > 0 && is_first(hay, needle, i),
            None => needle.len() == 0 || forall|i: int| !occurs_at(hay, needle, i),
        },
{
    if first_occurrence(hay, needle) is None && needle.len() > 0 {
        assert forall|i: int| !occurs_at(hay, needle, i) by {
            if occurs_at(hay, needle, i) {
                lemma_least_occurrence(hay, needle, i);
            }
        }
    }
}

proof fn lemma_least_occurrence(hay: Seq<u8>, needle: Seq<u8>, i: int)
    requires
        occurs_at(hay, needle, i),
    ensures
        exists|k: int| is_first(hay, needle, k),
    decreases i,
{
    if !is_first(hay, needle, i) {
        let j = choose|j: int| j < i && occurs_at(hay, needle, j);
        lemma_least_occurrence(hay, needle, j);
    }
}

/// A place that is first is the first occurrence.
pub proof fn lemma_is_first_occurrence(hay: Seq<u8>, needle: Seq<u8>, i: int)
    requires
        needle.len() > 0,
        is_first(hay, needle, i),
    ensures
        first_occurrence(hay, needle) == Some(i),
{
    let k = choose|k: int| is_first(hay, needle, k);
    assert(is_first(hay, needle, k));
}

/// The first place where `needle` stands in `hay`; an empty needle is nowhere.
pub fn find_subslice(hay: &[u8], needle: &[u8]) -> (r: Option<usize>)
    ensures
        match r {
            Some(i) => first_occurrence(hay@, needle@) == Some(i as int),
            None => first_occurrence(hay@, needle@) is None,
        },
{
    if needle.len() == 0 || hay.len() < needle.len() {
        proof {
            lemma_first_occurrence(hay@, needle@);
        }
        return None;
    }
    let last: usize = hay.len() - needle.len();
    let mut i: usize = 0;
    loop
        invariant
            0 < needle@.len(),
            last == hay@.len() - needle@.len(),
            i <= last,
            forall|k: int| k < i ==> !occurs_at(hay@, needle@, k),
        decreases last - i,
    {
        let mut j: usize = 0;
        while j < needle.len() && hay[i + j] == needle[j]
            invariant
                j <= needle@.len(),
                i + needle@.len() <= hay.len(),
                forall|k: int| 0 <= k < j ==> hay@[i + k] == needle@[k],
            decreases needle@.len() - j,
        {
            j += 1;
        }
        if j == needle.len() {
            proof {
                assert(hay@.subrange(i as int, i + needle@.len()) =~= needle@);
                lemma_is_first_occurrence(hay@, needle@, i as int);
            }
            return Some(i);
        }
        assert(hay@.subrange(i as int, i + needle@.len())[j as int] != needle@[j as int]);
        if i == last {
            proof {
                lemma_first_occurrence(hay@, needle@);
            }
            return None;
        }
        i += 1;
    }
}

/// A place in a prefix is the same place in the whole, and first there if it was first.
pub proof fn lemma_first_occurrence_in_prefix(hay: Seq<u8>, more: Seq<u8>, needle: Seq<u8>)
    requires
        first_occurrence(hay, needle) is Some,
    ensures
        first_occurrence(hay + more, needle) == first_occurrence(hay, needle),
{
    lemma_first_occurrence(hay, needle);
    let i = first_occurrence(hay, needle)->0;
    let whole = hay + more;
    assert(whole.subrange(i, i + needle.len()) =~= hay.subrange(i, i + needle.len()));
    assert forall|j: int| j < i implies !occurs_at(whole, needle, j) by {
        if occurs_at(whole, needle, j) {
            assert(hay.subrange(j, j + needle.len()) =~= whole.subrange(j, j + needle.len()));
            assert(occurs_at(hay, needle, j));
        }
    }
    lemma_is_first_occurrence(whole, needle, i);
}

/// The request for a path of the debugging endpoint.
pub open spec fn request_text(port: u16, path: Seq<char>) -> Seq<char> {
    "GET "@ + path + " HTTP/1.1\r\nHost: 127.0.0.1:"@ + int_numeral(port as int)
        + "\r\nAccept: application/json\r\nConnection: close\r\n\r\n"@
}

/// The request for a path of the debugging endpoint.
pub fn http_request(port: u16, path: &str) -> (r: String)
    ensures
        r@ == request_text(port, path@),
{
    let mut s = "GET ".to_owned();
    s.append(path);
    s.append(" HTTP/1.1\r\nHost: 127.0.0.1:");
    s.append(decimal(port as i128).as_str());
    s.append("\r\nAccept: application/json\r\nConnection: close\r\n\r\n");
    s
}

/// What one read from a connection brought.
pub enum Read {
    /// Some bytes; none at all means that the peer has closed the connection.
    Bytes(Vec<u8>),
    /// The read failed, for that reason.
    Failed(String),
}

/// The empty line that ends a head.
pub open spec fn head_end() -> Seq<u8> {
    seq![13u8, 10u8, 13u8, 10u8]
}

/// Where the body begins, and the length that the head announces for it; nothing while the head
/// is incomplete.
pub open spec fn body_plan(raw: Seq<u8>) -> Option<(int, Option<nat>)> {
    match first_occurrence(raw, head_end()) {
        Some(i) => Some((i + 4, content_length(lossy(raw.take(i + 4))))),
        None => None,
    }
}

/// The body, once as much of it is there as the head announces.
pub open spec fn complete_body(raw: Seq<u8>) -> Option<Seq<char>> {
    match body_plan(raw) {
        Some((start, Some(n))) => if raw.len() >= start + n {
            Some(lossy(raw.subrange(start, start + n)))
        } else {
            None
        },
        _ => None,
    }
}

/// What the exchange comes to when the peer closes the connection.
pub open spec fn at_close(raw: Seq<u8>) -> Result<Seq<char>, Seq<char>> {
    match body_plan(raw) {
        Some((start, _)) => Ok(lossy(raw.skip(start))),
        None => Err("连接被关闭（未收到完整响应头）"@),
    }
}

/// What the exchange comes to when a read fails: without an announced length, what has come is
/// taken for the body.
pub open spec fn at_failure(raw: Seq<u8>, reason: Seq<char>) -> Result<Seq<char>, Seq<char>> {
    match body_plan(raw) {
        Some((_, Some(n))) => Err(
            "读取响应体失败（已收 "@ + int_numeral(raw.len() as int) + " 字节，期望 "@ + int_numeral(
                n as int,
            ) + "）: "@ + reason,
        ),
        Some((start, None)) => Ok(lossy(raw.skip(start))),
        None => Err("读取响应头失败: "@ + reason),
    }
}

/// The characters of a result.
pub open spec fn result_view(r: Result<String, String>) -> Result<Seq<char>, Seq<char>> {
    match r {
        Ok(s) => Ok(s@),
        Err(e) => Err(e@),
    }
}

/// A response as far as it has been read.
pub struct HttpReader {
    raw: Vec<u8>,
    plan: Option<(usize, Option<usize>)>,
}

impl View for HttpReader {
    type V = Seq<u8>;

    closed spec fn view(&self) -> Seq<u8> {
        self.raw@
    }
}

impl HttpReader {
    /// What was worked out of the head is what the head says, and the body is not complete yet.
    pub closed spec fn wf(&self) -> bool {
        &&& match self.plan {
            Some((start, Some(n))) => body_plan(self.raw@) == Some((start as int, Some(n as nat))),
            Some((start, None)) => body_plan(self.raw@) == Some((start as int, None::<nat>)),
            None => body_plan(self.raw@) is None,
        }
        &&& complete_body(self.raw@) is None
    }

    /// A response of which nothing has been read.
    pub fn new() -> (r: HttpReader)
        ensures
            r.wf(),
            r@ == Seq::<u8>::empty(),
    {
        let r = HttpReader { raw: Vec::new(), plan: None };
        proof {
            lemma_first_occurrence(r.raw@, head_end());
        }
        r
    }

    /// Takes in what a read brought. Gives the end of the exchange, or nothing where more has to
    /// be read.
    pub fn on_read(&mut self, event: Read) -> (r: Option<Result<String, String>>)
        requires
            old(self).wf(),
        ensures
            r is None ==> final(self).wf(),
            match event {
                Read::Bytes(b) if b@.len() > 0 => {
                    &&& final(self)@ == old(self)@ + b@
                    &&& match complete_body(final(self)@) {
                        Some(body) => r matches Some(Ok(s)) && s@ == body,
                        None => r is None,
                    }
                },
                Read::Bytes(_) => {
                    &&& final(self)@ == old(self)@
                    &&& r matches Some(x) && result_view(x) == at_close(old(self)@)
                },
                Read::Failed(e) => {
                    &&& final(self)@ == old(self)@
                    &&& r matches Some(x) && result_view(x) == at_failure(old(self)@, e@)
                },
            },
    {
        match event {
            Read::Bytes(b) => {
                if b.len() == 0 {
                    return Some(
                        match self.plan {
                            Some((start, _)) => Ok(self.rest(start)),
                            None => Err("连接被关闭（未收到完整响应头）".to_owned()),
                        },
                    );
                }
                let mut b = b;
                let ghost before = self.raw@;
                let ghost more = b@;
                self.raw.append(&mut b);
                proof {
                    if first_occurrence(before, head_end()) is Some {
                        lemma_first_occurrence(before, head_end());
                        lemma_first_occurrence_in_prefix(before, more, head_end());
                        let i = first_occurrence(before, head_end())->0;
                        assert((before + more).take(i + 4) =~= before.take(i + 4));
                    }
                }
                if self.plan.is_none() {
                    self.look_for_head();
                }
                self.take_complete()
            },
            Read::Failed(e) => Some(
                match self.plan {
                    Some((_, Some(n))) => {
                        let mut s = "读取响应体失败（已收 ".to_owned();
                        s.append(decimal(self.raw.len() as i128).as_str());
                        s.append(" 字节，期望 ");
                        s.append(decimal(n as i128).as_str());
                        s.append("）: ");
                        s.append(e.as_str());
                        Err(s)
                    },
                    Some((start, None)) => Ok(self.rest(start)),
                    None => {
                        let mut s = "读取响应头失败: ".to_owned();
                        s.append(e.as_str());
                        Err(s)
                    },
                },
            ),
        }
    }

    /// The text of what has been read from `start` on.
    fn rest(&self, start: usize) -> (r: String)
        requires
            start <= self.raw@.len(),
        ensures
            r@ == lossy(self.raw@.skip(start as int)),
    {
        let tail = slice_subrange(self.raw.as_slice(), start, self.raw.len());
        assert(tail@ =~= self.raw@.skip(start as int));
        decode_lossy(tail)
    }

    fn look_for_head(&mut self)
        ensures
            final(self).raw@ == old(self).raw@,
            match final(self).plan {
                Some((start, Some(n))) => body_plan(old(self).raw@) == Some(
                    (start as int, Some(n as nat)),
                ),
                Some((start, None)) => body_plan(old(self).raw@) == Some((start as int, None::<nat>)),
                None => body_plan(old(self).raw@) is None,
            },
    {
        let mark: [u8; 4] = [13, 10, 13, 10];
        assert(mark@ =~= head_end());
        proof {
            lemma_first_occurrence(self.raw@, head_end());
        }
        match find_subslice(self.raw.as_slice(), mark.as_slice()) {
            Some(i) => {
                assert(i + 4 <= self.raw.len());
                let start: usize = i + 4;
                let head = slice_subrange(self.raw.as_slice(), 0, start);
                assert(head@ =~= self.raw@.take(start as int));
                let length = read_content_length(decode_lossy(head).as_str());
                self.plan = Some((start, length));
            },
            None => {
                self.plan = None;
            },
        }
    }

    fn take_complete(&self) -> (r: Option<Result<String, String>>)
        requires
            match self.plan {
                Some((start, Some(n))) => body_plan(self.raw@) == Some(
                    (start as int, Some(n as nat)),
                ),
                Some((start, None)) => body_plan(self.raw@) == Some((start as int, None::<nat>)),
                None => body_plan(self.raw@) is None,
            },
        ensures
            match complete_body(self.raw@) {
                Some(body) => r matches Some(Ok(s)) && s@ == body,
                None => r is None,
            },
    {
        proof {
            lemma_first_occurrence(self.raw@, head_end());
        }
        match self.plan {
            Some((start, Some(n))) => {
                if self.raw.len() - start >= n {
                    let body = slice_subrange(self.raw.as_slice(), start, start + n);
                    Some(Ok(decode_lossy(body)))
                } else {
                    None
                }
            },
            _ => None,
        }
    }
}

/// Where a head announces the length of the body, the body is what follows the head in that
/// length: the exchange ends as soon as it is there and not before, however the bytes come in
/// pieces, whatever follows them, and whether or not the connection is closed.
pub proof fn law_announced_body(head: Seq<u8>, body: Seq<u8>, more: Seq<u8>, k: int)
    requires
        first_occurrence(head, head_end()) == Some(head.len() - 4),
        content_length(lossy(head)) == Some(body.len()),
        0 <= k < head.len() + body.len(),
    ensures
        complete_body(head + body + more) == Some(lossy(body)),
        complete_body((head + body + more).take(k)) is None,
{
    let whole = head + body + more;
    lemma_first_occurrence(head, head_end());
    assert(whole =~= head + (body + more));
    lemma_first_occurrence_in_prefix(head, body + more, head_end());
    assert(whole.take(head.len() as int) =~= head);
    assert(whole.subrange(head.len() as int, (head.len() + body.len()) as int) =~= body);
    let part = whole.take(k);
    lemma_first_occurrence(part, head_end());
    if first_occurrence(part, head_end()) is Some {
        let i = first_occurrence(part, head_end())->0;
        lemma_first_occurrence_in_prefix(part, whole.skip(k), head_end());
        assert(part + whole.skip(k) =~= whole);
        assert(part.take(i + 4) =~= head);
    }
}

} // verus!
