//! The growth programme: requests, reports and tasks.
use crate::growth::{
    accept_call, accept_report, bind_call, bind_outcome, claim_call, claim_report, claim_views,
    claims_of, code_meaning, code_of, codes_to_accept, credit_of_claims, credit_where, count_status,
    growth_headers, headers_view, int_or_zero, invite_progress, is_earnable, is_pending, key_of,
    law_members_of_the_summary, message_of, no_code_report, outgoing, pending_entries, renewable,
    speaks_of_login, status_counts, strings_view, task_summary, tasks_call, tasks_in, text_array,
    titles_of, unauthorized, Api, ApiCall, ApiCallView, Claim, ClaimView, ExchangeStep,
    ExchangeStepView, Header, Outgoing, OutgoingView,
};
use crate::json::JsonView;
use crate::laws::text::{law_a_part_is_found, law_what_is_found_is_a_part};
use crate::text::{lowered, occurs};
use vstd::prelude::*;

verus! {

// ---------------------------------------------------------------------------
// Requests and responses
// ---------------------------------------------------------------------------

/// A code that has no meaning of its own is unknown.
pub proof fn law_other_codes_are_unknown(code: int)
    requires
        code != 0,
        !(12310 <= code <= 12316),
        code != 12319,
    ensures
        code_meaning(code) == "未知返回码"@,
{
}

/// Every other code has the meaning that the invitation service gives it.
pub proof fn law_codes_with_a_meaning(code: int)
    ensures
        code == 0 ==> code_meaning(code) == "绑定成功"@,
        code == 12310 ==> code_meaning(code) == "该账号已绑定过邀请码，无需重复绑定"@,
        code == 12311 ==> code_meaning(code)
            == "仅活动期间新注册的用户可绑定邀请码（老账号无法绑定）"@,
        code == 12312 ==> code_meaning(code) == "活动已结束，无法绑定邀请码"@,
        code == 12313 ==> code_meaning(code) == "已静默处理"@,
        code == 12314 ==> code_meaning(code) == "该邀请码不适用于当前活动"@,
        code == 12315 ==> code_meaning(code) == "收货地址已提交锁定，无法修改"@,
        code == 12316 ==> code_meaning(code) == "绑定请求被拒绝，请联系客服"@,
        code == 12319 ==> code_meaning(code) == "邀请码不存在，请检查后重试"@,
{
}

/// Of two headers with one name the later one counts, and every other one stays.
pub proof fn law_the_later_header_counts(hs: Seq<Header>, h: Header)
    ensures
        headers_view(seq![]) == Map::<Seq<char>, Seq<char>>::empty(),
        headers_view(hs.push(h)) == headers_view(hs).insert(h.name@, h.value@),
{
    assert(hs.push(h).drop_last() =~= hs);
}

/// A request carries the headers that authorise the account, and three of its own that make it one
/// of the web page.
pub proof fn law_the_headers_of_a_request(
    auth: Map<Seq<char>, Seq<char>>,
    api: Api,
    name: Seq<char>,
)
    requires
        name != "x-client-platform"@,
        name != "origin"@,
        name != "referer"@,
    ensures
        growth_headers(auth, api).contains_key(name) == auth.contains_key(name),
        auth.contains_key(name) ==> growth_headers(auth, api)[name] == auth[name],
        growth_headers(auth, api).contains_pair("x-client-platform"@, "web"@),
        growth_headers(auth, api).contains_pair("origin"@, api.endpoint@),
        growth_headers(auth, api).contains_pair(
            "referer"@,
            api.endpoint@ + "/profile/growth-center"@,
        ),
{
    reveal_strlit("x-client-platform");
    reveal_strlit("origin");
    reveal_strlit("referer");
    assert("x-client-platform"@.len() == 17 && "origin"@.len() == 6 && "referer"@.len() == 7);
}

/// What goes out is what is asked for, at the address of its path.
pub proof fn law_what_goes_out(api: Api, call: ApiCallView, auth: Map<Seq<char>, Seq<char>>)
    ensures
        outgoing(api, call, auth) == (OutgoingView {
            url: api.endpoint@ + call.path,
            method: call.method,
            body: call.body,
            headers: growth_headers(auth, api),
        }),
{
}

/// The requests of the programme: which method, which path, which body.
pub proof fn law_the_requests(api: Api, code: Seq<char>, codes: Seq<Seq<char>>)
    ensures
        tasks_call(api) == (ApiCallView {
            method: "GET"@,
            path: api.growth_prefix@ + "/tasks"@,
            body: None,
        }),
        claim_call(api, code) == (ApiCallView {
            method: "POST"@,
            path: api.growth_prefix@ + "/tasks/"@ + code + "/claim"@,
            body: None,
        }),
        bind_call(api, code) == (ApiCallView {
            method: "POST"@,
            path: api.invite_prefix@ + "/bind"@,
            body: Some(JsonView::Object(map!["inviteCode"@ => JsonView::Str(code)])),
        }),
        accept_call(api, codes).method == "POST"@,
        accept_call(api, codes).path == api.growth_prefix@ + "/tasks/accept"@,
        accept_call(api, codes).body == Some(
            JsonView::Object(
                map!["task_codes"@ => JsonView::Array(
                    Seq::new(codes.len(), |i: int| JsonView::Str(codes[i])),
                )],
            ),
        ),
        text_array(codes) == JsonView::Array(
            Seq::new(codes.len(), |i: int| JsonView::Str(codes[i])),
        ),
{
    assert(codes.map_values(|s: Seq<char>| JsonView::Str(s)) =~= Seq::new(
        codes.len(),
        |i: int| JsonView::Str(codes[i]),
    ));
}

/// An account goes by its id, and by its display name where it has none.
pub proof fn law_what_an_account_goes_by(account: JsonView, name: Seq<char>)
    ensures
        account.get("id"@) matches Some(JsonView::Str(id)) && id.len() > 0 ==> key_of(account, name)
            == account.get("id"@)->0->Str_0,
        !(account.get("id"@) matches Some(JsonView::Str(id)) && id.len() > 0) ==> key_of(
            account,
            name,
        ) == name,
{
}

/// The message and the code of a response are those that it names.
pub proof fn law_what_a_response_says(resp: JsonView, s: Seq<char>, n: int)
    ensures
        resp.get("message"@) == Some(JsonView::Str(s)) ==> message_of(resp) == s,
        resp.get("message"@) is None && resp.get("msg"@) == Some(JsonView::Str(s)) ==> message_of(
            resp,
        ) == s,
        resp.get("message"@) is Some && !(resp.get("message"@)->0 is Str) ==> message_of(resp).len()
            == 0,
        resp.get("message"@) is None && !(resp.get("msg"@) matches Some(JsonView::Str(_)))
            ==> message_of(resp).len() == 0,
        resp.get("code"@) == Some(JsonView::Int(n)) && -0x8000_0000_0000_0000 <= n
            <= 0x7fff_ffff_ffff_ffff ==> code_of(resp) == n,
        !(resp.get("code"@) matches Some(JsonView::Int(_))) ==> code_of(resp) == -1,
{
}

/// A message speaks of the login where one of these words stands in it, anywhere.
pub proof fn law_words_of_a_refused_login(a: Seq<char>, b: Seq<char>)
    ensures
        speaks_of_login(a + "unauthorized"@ + b),
        speaks_of_login(a + "401"@ + b),
        speaks_of_login(a + "登录"@ + b),
        speaks_of_login(a + "失效"@ + b),
        speaks_of_login(a + "过期"@ + b),
        speaks_of_login(a + "token"@ + b),
{
    law_a_part_is_found(a, "unauthorized"@, b);
    law_a_part_is_found(a, "401"@, b);
    law_a_part_is_found(a, "登录"@, b);
    law_a_part_is_found(a, "失效"@, b);
    law_a_part_is_found(a, "过期"@, b);
    law_a_part_is_found(a, "token"@, b);
}

/// A message that speaks of the login has one of those words in it.
pub proof fn law_no_other_words(message: Seq<char>) -> (r: (Seq<char>, Seq<char>, Seq<char>))
    requires
        speaks_of_login(message),
    ensures
        message == r.0 + r.1 + r.2,
        r.1 == "unauthorized"@ || r.1 == "401"@ || r.1 == "登录"@ || r.1 == "失效"@ || r.1 == "过期"@
            || r.1 == "token"@,
{
    let word = if occurs(message, "unauthorized"@) {
        "unauthorized"@
    } else if occurs(message, "401"@) {
        "401"@
    } else if occurs(message, "登录"@) {
        "登录"@
    } else if occurs(message, "失效"@) {
        "失效"@
    } else if occurs(message, "过期"@) {
        "过期"@
    } else {
        "token"@
    };
    let parts = law_what_is_found_is_a_part(message, word);
    (parts.0, word, parts.1)
}

/// A login is refused by its code or by what the message says, in whatever case; and it can be
/// renewed where the account has something to renew it with.
pub proof fn law_a_refused_login(resp: JsonView, account: JsonView, s: Seq<char>)
    ensures
        unauthorized(resp) <==> code_of(resp) == 401 || code_of(resp) == 403 || speaks_of_login(
            lowered(message_of(resp)),
        ),
        account.get("refresh_token"@) == Some(JsonView::Str(s)) ==> (renewable(account) <==> s.len()
            > 0),
        !(account.get("refresh_token"@) matches Some(JsonView::Str(_))) ==> !renewable(account),
{
}

// ---------------------------------------------------------------------------
// Reports
// ---------------------------------------------------------------------------

/// What is reported of the binding of a code.
pub proof fn law_the_report_on_a_binding(resp: JsonView)
    ensures
        bind_outcome(resp) == JsonView::Object(
            map!["ok"@ => JsonView::Bool(code_of(resp) == 0 || code_of(resp) == 12310),
                "code"@ => JsonView::Int(code_of(resp)), "message"@ => JsonView::Str(
                if message_of(resp).len() == 0 {
                    code_meaning(code_of(resp))
                } else {
                    message_of(resp)
                },
            ), "alreadyBound"@ => JsonView::Bool(code_of(resp) == 12310)],
        ),
        no_code_report() == JsonView::Object(
            map!["ok"@ => JsonView::Bool(false), "code"@ => JsonView::Int(-1),
                "message"@ => JsonView::Str("邀请码为空或格式无法识别"@),
                "alreadyBound"@ => JsonView::Bool(false)],
        ),
{
}

/// An integer is read from where it stands, and is zero where none that fits stands there.
pub proof fn law_an_integer_or_zero(v: JsonView, key: Seq<char>, n: int)
    ensures
        v.get(key) == Some(JsonView::Int(n)) && -0x8000_0000_0000_0000 <= n <= 0x7fff_ffff_ffff_ffff
            ==> int_or_zero(v, key) == n,
        v.get(key) == Some(JsonView::Int(n)) && !(-0x8000_0000_0000_0000 <= n
            <= 0x7fff_ffff_ffff_ffff) ==> int_or_zero(v, key) == 0,
        !(v.get(key) matches Some(JsonView::Int(_))) ==> int_or_zero(v, key) == 0,
{
}

/// What is reported of the progress of invitations.
pub proof fn law_the_report_on_invitations(progress: JsonView, mine: JsonView, d: JsonView)
    requires
        d == progress.at("data"@),
    ensures
        invite_progress(progress, mine) == JsonView::Object(
            map!["ok"@ => JsonView::Bool(code_of(progress) == 0), "inviteCode"@ => JsonView::Str(
                mine.at("data"@).text_at("invite_code"@),
            ), "inviteCount"@ => JsonView::Int(int_or_zero(d, "invite_count"@)),
                "validInviteCount"@ => JsonView::Int(int_or_zero(d, "valid_invite_count"@)),
                "totalCredits"@ => JsonView::Int(int_or_zero(d, "total_credits"@)),
                "invitedUsers"@ => if d.get("invited_users"@) is Some {
                    d.get("invited_users"@)->0
                } else {
                    JsonView::Array(seq![])
                }, "raw"@ => progress],
        ),
{
}

/// The tasks of a response are those that its data lists.
pub proof fn law_the_tasks_of_a_response(
    resp: JsonView,
    data: JsonView,
    ts: Seq<JsonView>,
)
    ensures
        resp.get("data"@) == Some(data) && data.get("tasks"@) == Some(JsonView::Array(ts))
            ==> tasks_in(resp) == ts,
        resp.get("data"@) is None ==> tasks_in(resp).len() == 0,
        resp.get("data"@) == Some(data) && !(data.get("tasks"@) matches Some(JsonView::Array(_)))
            ==> tasks_in(resp).len() == 0,
{
}

/// What is reported of tasks that were accepted, and of one that was claimed.
pub proof fn law_the_reports_on_tasks(resp: JsonView, count: nat)
    ensures
        accept_report(resp, count) == JsonView::Object(
            map!["ok"@ => JsonView::Bool(code_of(resp) == 0), "accepted"@ => JsonView::Int(
                if code_of(resp) == 0 {
                    count as int
                } else {
                    0
                },
            ), "message"@ => JsonView::Str(message_of(resp)), "raw"@ => resp],
        ),
        claim_report(resp) == JsonView::Object(
            map!["ok"@ => JsonView::Bool(code_of(resp) == 0), "code"@ => JsonView::Int(
                code_of(resp),
            ), "message"@ => JsonView::Str(message_of(resp)), "raw"@ => resp],
        ),
{
}

// ---------------------------------------------------------------------------
// Tasks
// ---------------------------------------------------------------------------

/// The codes to accept of two lists of tasks, one after the other, are those of the first and then
/// those of the second.
pub proof fn law_accepting_two_lists(a: Seq<JsonView>, b: Seq<JsonView>)
    ensures
        codes_to_accept(a + b) == codes_to_accept(a) + codes_to_accept(b),
    decreases b.len(),
{
    if b.len() == 0 {
        assert(a + b =~= a);
        assert(codes_to_accept(b) =~= seq![]);
    } else {
        law_accepting_two_lists(a, b.drop_last());
        assert((a + b).drop_last() =~= a + b.drop_last());
        assert((a + b).last() == b.last());
        assert(codes_to_accept(a + b) =~= codes_to_accept(a) + codes_to_accept(b));
    }
}

/// A task alone is accepted exactly where it says that it is not and has a code.
pub proof fn law_accepting_one_task(t: JsonView, code: Seq<char>)
    ensures
        codes_to_accept(seq![]) == Seq::<Seq<char>>::empty(),
        t.get("accept_status"@) == Some(JsonView::Str("not_accepted"@)) && t.get("task_code"@)
            == Some(JsonView::Str(code)) && code.len() > 0 ==> codes_to_accept(seq![t])
            == seq![code],
        t.get("accept_status"@) != Some(JsonView::Str("not_accepted"@)) ==> codes_to_accept(
            seq![t],
        ).len() == 0,
        !(t.get("task_code"@) matches Some(JsonView::Str(c)) && c.len() > 0) ==> codes_to_accept(
            seq![t],
        ).len() == 0,
{
    assert(seq![t].drop_last() =~= seq![]);
    assert(codes_to_accept(seq![]) =~= seq![]);
    if t.get("accept_status"@) == Some(JsonView::Str("not_accepted"@)) && t.get("task_code"@)
        == Some(JsonView::Str(code)) && code.len() > 0 {
        assert(codes_to_accept(seq![t]) =~= seq![code]);
    }
}

/// Every task that says that it is not accepted, and has a code, is accepted.
pub proof fn law_every_unaccepted_task_is_accepted(ts: Seq<JsonView>, j: int, code: Seq<char>)
    requires
        0 <= j < ts.len(),
        ts[j].get("accept_status"@) == Some(JsonView::Str("not_accepted"@)),
        ts[j].get("task_code"@) == Some(JsonView::Str(code)),
        code.len() > 0,
    ensures
        codes_to_accept(ts).contains(code),
        codes_to_accept(ts) == codes_to_accept(ts.take(j)) + seq![code] + codes_to_accept(
            ts.skip(j + 1),
        ),
{
    let a = ts.take(j);
    let b = seq![ts[j]] + ts.skip(j + 1);
    assert(ts =~= a + b);
    law_accepting_two_lists(a, b);
    law_accepting_two_lists(seq![ts[j]], ts.skip(j + 1));
    law_accepting_one_task(ts[j], code);
    assert(codes_to_accept(ts) =~= codes_to_accept(a) + seq![code] + codes_to_accept(
        ts.skip(j + 1),
    ));
    assert(codes_to_accept(ts)[codes_to_accept(a).len() as int] == code);
}

/// The claims of two lists of tasks, one after the other, are those of the first and then those of
/// the second.
pub proof fn law_claiming_two_lists(a: Seq<JsonView>, b: Seq<JsonView>)
    ensures
        claims_of(a + b) == claims_of(a) + claims_of(b),
    decreases b.len(),
{
    if b.len() == 0 {
        assert(a + b =~= a);
        assert(claims_of(b) =~= seq![]);
    } else {
        law_claiming_two_lists(a, b.drop_last());
        assert((a + b).drop_last() =~= a + b.drop_last());
        assert((a + b).last() == b.last());
        assert(claims_of(a + b) =~= claims_of(a) + claims_of(b));
    }
}

/// A task alone is claimed exactly where it says that it is completed and has a code, with its title
/// and its credit.
pub proof fn law_claiming_one_task(t: JsonView, code: Seq<char>)
    ensures
        claims_of(seq![]) == Seq::<ClaimView>::empty(),
        t.get("accept_status"@) == Some(JsonView::Str("completed"@)) && t.get("task_code"@) == Some(
            JsonView::Str(code),
        ) ==> claims_of(seq![t]) == seq![
            ClaimView {
                code,
                title: t.text_at("title"@),
                credit: int_or_zero(t, "reward_credit"@),
            },
        ],
        t.get("accept_status"@) != Some(JsonView::Str("completed"@)) ==> claims_of(seq![t]).len()
            == 0,
        !(t.get("task_code"@) matches Some(JsonView::Str(_))) ==> claims_of(seq![t]).len() == 0,
{
    assert(seq![t].drop_last() =~= seq![]);
    assert(claims_of(seq![]) =~= seq![]);
    if t.get("accept_status"@) == Some(JsonView::Str("completed"@)) && t.get("task_code"@) == Some(
        JsonView::Str(code),
    ) {
        assert(claims_of(seq![t]) =~= seq![
            ClaimView {
                code,
                title: t.text_at("title"@),
                credit: int_or_zero(t, "reward_credit"@),
            },
        ]);
    }
}

/// The credit and the titles of claims add up, claim by claim.
pub proof fn law_claims_add_up(claims: Seq<ClaimView>, c: ClaimView)
    ensures
        credit_of_claims(seq![]) == 0,
        credit_of_claims(claims.push(c)) == credit_of_claims(claims) + c.credit,
        titles_of(claims) == Seq::new(claims.len(), |i: int| claims[i].title),
{
    assert(claims.push(c).drop_last() =~= claims);
    assert(titles_of(claims) =~= Seq::new(claims.len(), |i: int| claims[i].title));
}

/// The summary of one task: its credit counts where it waits to be claimed or where the task is still
/// to be done, and then it is listed.
pub proof fn law_the_summary_of_one_task(
    t: JsonView,
    status: Seq<char>,
    credit: int,
    current: int,
    target: int,
)
    requires
        status == (match t.get("accept_status"@) {
            Some(JsonView::Str(s)) => s,
            _ => "not_accepted"@,
        }),
        credit == int_or_zero(t, "reward_credit"@),
        current == (match t.get("progress"@) {
            Some(p) => int_or_zero(p, "current"@),
            None => 0,
        }),
        target == (match t.get("progress"@) {
            Some(p) => int_or_zero(p, "target"@),
            None => 0,
        }),
    ensures
        ({
            let open = (status == "not_accepted"@ || status == "accepted"@ || status
                == "in_progress"@) && (target == 0 || current < target);
            task_summary(seq![t]) == JsonView::Object(
                map!["total"@ => JsonView::Int(1), "earnableCredit"@ => JsonView::Int(
                    if status == "completed"@ {
                        credit
                    } else {
                        0
                    },
                ), "pendingCredit"@ => JsonView::Int(
                    if open {
                        credit
                    } else {
                        0
                    },
                ), "statusCounts"@ => JsonView::Object(map![status => JsonView::Int(1)]),
                    "pending"@ => JsonView::Array(
                    if open {
                        seq![
                            JsonView::Object(
                                map!["taskCode"@ => JsonView::Str(t.text_at("task_code"@)),
                                    "title"@ => JsonView::Str(t.text_at("title"@)),
                                    "credit"@ => JsonView::Int(credit),
                                    "acceptStatus"@ => JsonView::Str(status),
                                    "current"@ => JsonView::Int(current),
                                    "target"@ => JsonView::Int(target),
                                    "jumpUrl"@ => JsonView::Str(t.text_at("jump_url"@)),
                                    "description"@ => JsonView::Str(t.text_at("description"@))],
                            ),
                        ]
                    } else {
                        seq![]
                    },
                )],
            )
        }),
{
    let one = seq![t];
    assert(one.drop_last() =~= seq![]);
    assert(one.last() == t);
    let earn = |t: JsonView| is_earnable(t);
    let pend = |t: JsonView| is_pending(t);
    assert(credit_where(seq![], earn) == 0 && credit_where(seq![], pend) == 0);
    assert(pending_entries(seq![]) =~= seq![]);
    assert forall|k: Seq<char>| #[trigger] count_status(one, k) == (if k == status {
        1nat
    } else {
        0nat
    }) by {
        assert(count_status(one.drop_last(), k) == 0);
    }
    assert(status_counts(one)->Object_0 =~= map![status => JsonView::Int(1)]);
    assert(pending_entries(one) =~= pending_entries(one.drop_last()) + (if is_pending(t) {
        seq![crate::growth::pending_entry(t)]
    } else {
        seq![]
    }));
}

/// The summary of two lists of tasks, one after the other: the numbers are added, state by state, and
/// those still to be done are listed one after the other.
pub proof fn law_summaries_add_up(a: Seq<JsonView>, b: Seq<JsonView>, status: Seq<char>)
    ensures
        task_summary(a + b).at("total"@) == JsonView::Int((a.len() + b.len()) as int),
        number(task_summary(a + b), "earnableCredit"@) == number(
            task_summary(a),
            "earnableCredit"@,
        ) + number(task_summary(b), "earnableCredit"@),
        number(task_summary(a + b), "pendingCredit"@) == number(task_summary(a), "pendingCredit"@)
            + number(task_summary(b), "pendingCredit"@),
        task_summary(a + b).at("pending"@)->Array_0 == task_summary(a).at("pending"@)->Array_0
            + task_summary(b).at("pending"@)->Array_0,
        number(task_summary(a + b).at("statusCounts"@), status) == number(
            task_summary(a).at("statusCounts"@),
            status,
        ) + number(task_summary(b).at("statusCounts"@), status),
        task_summary(a + b).at("statusCounts"@).get(status) is Some <==> task_summary(a).at(
            "statusCounts"@,
        ).get(status) is Some || task_summary(b).at("statusCounts"@).get(status) is Some,
{
    law_members_of_the_summary(a);
    law_members_of_the_summary(b);
    law_members_of_the_summary(a + b);
    lemma_credit_adds_up(a, b, |t: JsonView| is_earnable(t));
    lemma_credit_adds_up(a, b, |t: JsonView| is_pending(t));
    lemma_pending_adds_up(a, b);
    lemma_counts_add_up(a, b, status);
}

/// The integer of that member, of whatever size, and zero where there is none.
pub open spec fn number(v: JsonView, key: Seq<char>) -> int {
    match v {
        JsonView::Object(m) => if m.dom().contains(key) && m[key] is Int {
            m[key]->Int_0
        } else {
            0
        },
        _ => 0,
    }
}

proof fn lemma_credit_adds_up(a: Seq<JsonView>, b: Seq<JsonView>, p: spec_fn(JsonView) -> bool)
    ensures
        credit_where(a + b, p) == credit_where(a, p) + credit_where(b, p),
    decreases b.len(),
{
    if b.len() == 0 {
        assert(a + b =~= a);
    } else {
        lemma_credit_adds_up(a, b.drop_last(), p);
        assert((a + b).drop_last() =~= a + b.drop_last());
        assert((a + b).last() == b.last());
    }
}

proof fn lemma_pending_adds_up(a: Seq<JsonView>, b: Seq<JsonView>)
    ensures
        pending_entries(a + b) == pending_entries(a) + pending_entries(b),
    decreases b.len(),
{
    if b.len() == 0 {
        assert(a + b =~= a);
        assert(pending_entries(b) =~= seq![]);
    } else {
        lemma_pending_adds_up(a, b.drop_last());
        assert((a + b).drop_last() =~= a + b.drop_last());
        assert((a + b).last() == b.last());
        assert(pending_entries(a + b) =~= pending_entries(a) + pending_entries(b));
    }
}

proof fn lemma_counts_add_up(a: Seq<JsonView>, b: Seq<JsonView>, status: Seq<char>)
    ensures
        count_status(a + b, status) == count_status(a, status) + count_status(b, status),
    decreases b.len(),
{
    if b.len() == 0 {
        assert(a + b =~= a);
    } else {
        lemma_counts_add_up(a, b.drop_last(), status);
        assert((a + b).drop_last() =~= a + b.drop_last());
        assert((a + b).last() == b.last());
    }
}

/// Without tasks there is nothing to sum up.
pub proof fn law_the_summary_of_no_task()
    ensures
        task_summary(seq![]) == JsonView::Object(
            map!["total"@ => JsonView::Int(0), "earnableCredit"@ => JsonView::Int(0),
                "pendingCredit"@ => JsonView::Int(0), "statusCounts"@ => JsonView::Object(
                Map::empty(),
            ), "pending"@ => JsonView::Array(seq![])],
        ),
{
    assert(forall|k: Seq<char>| count_status(seq![], k) == 0);
    assert(status_counts(seq![])->Object_0 =~= Map::empty());
    assert(pending_entries(seq![]) =~= seq![]);
}

/// Calls, claims and strings hold what they say.
pub proof fn law_what_calls_and_claims_hold(
    call: ApiCall,
    out: Outgoing,
    claim: Claim,
    strings: Seq<String>,
    claims: Seq<Claim>,
    step: ExchangeStep,
)
    ensures
        claim_views(claims) == Seq::new(claims.len(), |i: int| claims[i]@),
        step is Renew <==> step@ is Renew,
        step matches ExchangeStep::Done(resp) ==> step@ == ExchangeStepView::Done(resp@),
        call@.method == call.method@,
        call@.path == call.path@,
        call.body matches Some(b) ==> call@.body == Some(b@),
        call.body is None ==> call@.body is None,
        out@.url == out.url@,
        out@.method == out.method@,
        out.body matches Some(b) ==> out@.body == Some(b@),
        out.body is None ==> out@.body is None,
        out@.headers == headers_view(out.headers@),
        claim@ == (ClaimView {
            code: claim.code@,
            title: claim.title@,
            credit: claim.credit as int,
        }),
        strings_view(strings) == Seq::new(strings.len(), |i: int| strings[i]@),
{
    assert(strings_view(strings) =~= Seq::new(strings.len(), |i: int| strings[i]@));
    assert(claim_views(claims) =~= Seq::new(claims.len(), |i: int| claims[i]@));
}

} // verus!
