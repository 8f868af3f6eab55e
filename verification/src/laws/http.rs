//! An HTTP exchange.
use crate::header::{content_length, lines};
use crate::http::{
    at_close, at_failure, complete_body, first_occurrence, head_end, is_first,
    lemma_first_occurrence, lemma_is_first_occurrence, request_text, result_view,
};
use crate::laws::header::{law_a_line_ends_at_its_return, law_the_last_line};
use crate::laws::text::law_a_numeral_stands_for_its_number;
use crate::text::{int_numeral, lossy, numeral, occurs_at};
use vstd::prelude::*;

verus! {

/// A part is found at its first place: where it stands, and it stood nowhere before.
pub proof fn law_the_first_place_of_a_part(hay: Seq<u8>, part: Seq<u8>, i: int)
    requires
        part.len() > 0,
        0 <= i <= hay.len() - part.len(),
        hay.subrange(i, i + part.len()) == part,
        forall|j: int| 0 <= j < i ==> #[trigger] hay.subrange(j, j + part.len()) != part,
    ensures
        first_occurrence(hay, part) == Some(i),
{
    assert forall|j: int| j < i implies !occurs_at(hay, part, j) by {
        if 0 <= j {
            assert(hay.subrange(j, j + part.len()) != part);
        }
    }
    assert(occurs_at(hay, part, i));
    lemma_is_first_occurrence(hay, part, i);
}

/// What is not there is not found, and neither is nothing.
pub proof fn law_no_place_of_a_part(hay: Seq<u8>, part: Seq<u8>)
    requires
        part.len() == 0 || forall|j: int|
            0 <= j <= hay.len() - part.len() ==> #[trigger] hay.subrange(j, j + part.len()) != part,
    ensures
        first_occurrence(hay, part) is None,
{
    lemma_first_occurrence(hay, part);
    if first_occurrence(hay, part) is Some {
        let i = first_occurrence(hay, part)->0;
        assert(is_first(hay, part, i));
        assert(hay.subrange(i, i + part.len()) == part);
    }
}

/// A head ends with an empty line: two carriage returns with their line feeds.
pub proof fn law_a_head_ends_with_an_empty_line()
    ensures
        head_end() == seq!['\r' as u8, '\n' as u8, '\r' as u8, '\n' as u8],
{
}

/// A request asks for its path, names the port, and wants JSON and no further use of the
/// connection.
pub proof fn law_the_lines_of_a_request(port: u16, path: Seq<char>)
    requires
        !path.contains('\n'),
    ensures
        lines(request_text(port, path)) == seq![
            "GET "@ + path + " HTTP/1.1"@,
            "Host: 127.0.0.1:"@ + numeral(port as nat),
            "Accept: application/json"@,
            "Connection: close"@,
            ""@,
        ],
{
    reveal_strlit("GET ");
    reveal_strlit(" HTTP/1.1\r\nHost: 127.0.0.1:");
    reveal_strlit(" HTTP/1.1");
    reveal_strlit("Host: 127.0.0.1:");
    reveal_strlit("\r\nAccept: application/json\r\nConnection: close\r\n\r\n");
    reveal_strlit("Accept: application/json");
    reveal_strlit("Connection: close");
    reveal_strlit("");
    let end = seq!['\r', '\n'];
    let n = numeral(port as nat);
    law_a_numeral_stands_for_its_number(port as nat);
    let get = "GET "@ + path + " HTTP/1.1"@;
    let host = "Host: 127.0.0.1:"@ + n;
    let last = ""@ + end + seq![];
    let close = "Connection: close"@ + end + last;
    let accept = "Accept: application/json"@ + end + close;
    let hosts = host + end + accept;
    assert(" HTTP/1.1\r\nHost: 127.0.0.1:"@ =~= " HTTP/1.1"@ + end + "Host: 127.0.0.1:"@);
    assert("\r\nAccept: application/json\r\nConnection: close\r\n\r\n"@ =~= end + accept);
    assert(request_text(port, path) =~= get + end + hosts);
    assert forall|j: int| 0 <= j < get.len() implies get[j] != '\n' by {
        if 4 <= j < 4 + path.len() {
            assert(path.contains(path[j - 4]));
        }
    }
    assert forall|j: int| 0 <= j < host.len() implies host[j] != '\n' by {
        if 16 <= j {
            assert('0' <= n[j - 16]);
        }
    }
    law_a_line_ends_at_its_return(get, hosts);
    law_a_line_ends_at_its_return(host, accept);
    law_a_line_ends_at_its_return("Accept: application/json"@, close);
    law_a_line_ends_at_its_return("Connection: close"@, last);
    law_a_line_ends_at_its_return(""@, seq![]);
    law_the_last_line(seq![]);
    assert(lines(request_text(port, path)) =~= seq![
        get,
        host,
        "Accept: application/json"@,
        "Connection: close"@,
        ""@,
    ]);
}

/// The body is what follows the head in the announced length: as soon as that much is there the
/// exchange is over, and while less is there it goes on. Bytes behind the body are no part of it.
pub proof fn law_the_body_is_as_long_as_announced(head: Seq<u8>, body: Seq<u8>, more: Seq<u8>)
    requires
        head.len() >= 4,
        head.skip(head.len() - 4) == seq![13u8, 10u8, 13u8, 10u8],
        forall|j: int|
            0 <= j < head.len() - 4 ==> #[trigger] head.subrange(j, j + 4) != seq![
                13u8,
                10u8,
                13u8,
                10u8,
            ],
        content_length(lossy(head)) == Some(body.len()),
    ensures
        complete_body(head + body + more) == Some(lossy(body)),
        forall|k: int|
            0 <= k < body.len() ==> complete_body(#[trigger] (head + body.take(k))) is None,
        forall|k: int|
            0 <= k < body.len() ==> at_close(#[trigger] (head + body.take(k))) == Ok::<
                Seq<char>,
                Seq<char>,
            >(lossy(body.take(k))),
        forall|k: int, reason: Seq<char>|
            0 <= k < body.len() ==> #[trigger] at_failure(head + body.take(k), reason) == Err::<
                Seq<char>,
                Seq<char>,
            >(
                "读取响应体失败（已收 "@ + int_numeral((head.len() + k) as int)
                    + " 字节，期望 "@ + int_numeral(body.len() as int) + "）: "@ + reason,
            ),
{
    lemma_place_of_head(head, body + more);
    assert(head + body + more =~= head + (body + more));
    assert((head + body + more).take(head.len() as int) =~= head);
    assert((head + body + more).subrange(
        head.len() as int,
        (head.len() + body.len()) as int,
    ) =~= body);
    assert forall|k: int| 0 <= k < body.len() implies complete_body(
        #[trigger] (head + body.take(k)),
    ) is None && at_close(head + body.take(k)) == Ok::<Seq<char>, Seq<char>>(
        lossy(body.take(k)),
    ) && forall|reason: Seq<char>| #[trigger]
        at_failure(head + body.take(k), reason) == Err::<Seq<char>, Seq<char>>(
            "读取响应体失败（已收 "@ + int_numeral((head.len() + k) as int) + " 字节，期望 "@
                + int_numeral(body.len() as int) + "）: "@ + reason,
        ) by {
        lemma_place_of_head(head, body.take(k));
        let raw = head + body.take(k);
        assert(raw.take(head.len() as int) =~= head);
        assert(raw.skip(head.len() as int) =~= body.take(k));
    }
}

/// Where no length is announced, only the end of the connection ends the body, in whatever way it
/// comes, and the body is all that followed the head.
pub proof fn law_a_body_of_unknown_length(head: Seq<u8>, body: Seq<u8>, reason: Seq<char>)
    requires
        head.len() >= 4,
        head.skip(head.len() - 4) == seq![13u8, 10u8, 13u8, 10u8],
        forall|j: int|
            0 <= j < head.len() - 4 ==> #[trigger] head.subrange(j, j + 4) != seq![
                13u8,
                10u8,
                13u8,
                10u8,
            ],
        content_length(lossy(head)) is None,
    ensures
        complete_body(head + body) is None,
        at_close(head + body) == Ok::<Seq<char>, Seq<char>>(lossy(body)),
        at_failure(head + body, reason) == Ok::<Seq<char>, Seq<char>>(lossy(body)),
{
    lemma_place_of_head(head, body);
    assert((head + body).take(head.len() as int) =~= head);
    assert((head + body).skip(head.len() as int) =~= body);
}

/// Without the end of a head there is no body, and the end of the connection is an error.
pub proof fn law_no_head_no_body(raw: Seq<u8>, reason: Seq<char>)
    requires
        forall|j: int|
            0 <= j <= raw.len() - 4 ==> #[trigger] raw.subrange(j, j + 4) != seq![
                13u8,
                10u8,
                13u8,
                10u8,
            ],
    ensures
        complete_body(raw) is None,
        at_close(raw) == Err::<Seq<char>, Seq<char>>("连接被关闭（未收到完整响应头）"@),
        at_failure(raw, reason) == Err::<Seq<char>, Seq<char>>("读取响应头失败: "@ + reason),
{
    law_no_place_of_a_part(raw, head_end());
}

/// What came of reading holds what it says.
pub proof fn law_what_reading_holds(r: Result<String, String>)
    ensures
        r matches Ok(s) ==> result_view(r) == Ok::<Seq<char>, Seq<char>>(s@),
        r matches Err(e) ==> result_view(r) == Err::<Seq<char>, Seq<char>>(e@),
{
}

/// The end of a head is found at the end of the head, whatever follows.
pub proof fn lemma_place_of_head(head: Seq<u8>, rest: Seq<u8>)
    requires
        head.len() >= 4,
        head.skip(head.len() - 4) == seq![13u8, 10u8, 13u8, 10u8],
        forall|j: int|
            0 <= j < head.len() - 4 ==> #[trigger] head.subrange(j, j + 4) != seq![
                13u8,
                10u8,
                13u8,
                10u8,
            ],
    ensures
        first_occurrence(head + rest, head_end()) == Some(head.len() - 4),
{
    let i = head.len() - 4;
    let all = head + rest;
    assert(all.subrange(i, i + 4) =~= head.skip(i));
    assert forall|j: int| 0 <= j < i implies #[trigger] all.subrange(j, j + 4) != head_end() by {
        assert(all.subrange(j, j + 4) =~= head.subrange(j, j + 4));
    }
    law_the_first_place_of_a_part(all, head_end(), i);
}

} // verus!
