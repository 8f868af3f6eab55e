//! The newcomer's round, and the rounds of all accounts.
use crate::growth::{
    accept_call, batch_report, batch_round, bind_call, claim_call, claims_of, code_meaning,
    code_of, codes_to_accept, credit_of_claims, int_or_zero, key_of, message_of, newbie_begin,
    newbie_next, newbie_report, newbie_start, not_run, present, report_view, round_entry, standing,
    task_summary, tasks_call, tasks_in, text_array, titles_of, total_of, Api, ApiCall, NewbieStage,
    NewbieStep, NewbieStepView, NewbieView, MAX_CONCURRENCY,
};
use crate::json::{Json, JsonView};
use vstd::prelude::*;

verus! {

// ---------------------------------------------------------------------------
// One round
// ---------------------------------------------------------------------------

/// A round begins with what the configuration and the account say; tasks are accepted and claimed
/// unless that is switched off.
pub proof fn law_what_a_round_begins_with(
    api: Api,
    config: JsonView,
    account: JsonView,
    name: Seq<char>,
)
    ensures
        newbie_start(api, config, account, name) == (NewbieView {
            api,
            label: name,
            account_id: key_of(account, name),
            invite_code: config.text_at("invite_code"@),
            auto_accept: config.get("auto_accept_tasks"@) != Some(JsonView::Bool(false)),
            auto_claim: config.get("auto_claim_tasks"@) != Some(JsonView::Bool(false)),
            stage: NewbieStage::Bind,
            steps: seq![],
            tasks: seq![],
            claims: seq![],
            answered: 0,
            claimed: seq![],
        }),
{
}

/// The first request of a round binds the code where that is wanted and there is one; else it lists
/// the tasks, and a code that was wanted and is missing is reported.
pub proof fn law_the_first_request(m: NewbieView, code: Seq<char>)
    ensures
        code.len() > 0 ==> newbie_begin(m, true, code) == (
            m,
            NewbieStepView::Call(0, bind_call(m.api, code)),
        ),
        code.len() == 0 ==> newbie_begin(m, true, code) == (
            NewbieView {
                stage: NewbieStage::Fetch,
                steps: m.steps.push(
                    JsonView::Object(
                        map!["step"@ => JsonView::Str("bind-invite"@), "ok"@ => JsonView::Bool(
                            false,
                        ), "code"@ => JsonView::Int(-1), "message"@ => JsonView::Str(
                            "邀请码为空或格式无法识别"@,
                        ), "inviteCode"@ => JsonView::Str(m.invite_code)],
                    ),
                ),
                ..m
            },
            NewbieStepView::Call(0, tasks_call(m.api)),
        ),
        newbie_begin(m, false, code) == (
            NewbieView { stage: NewbieStage::Fetch, ..m },
            NewbieStepView::Call(0, tasks_call(m.api)),
        ),
{
    lemma_keys();
}

/// After the binding, whatever came of it, it is reported and the tasks are listed.
pub proof fn law_after_the_binding(m: NewbieView, resp: JsonView)
    requires
        m.stage == NewbieStage::Bind,
    ensures
        newbie_next(m, resp) == (
            NewbieView {
                stage: NewbieStage::Fetch,
                steps: m.steps.push(
                    JsonView::Object(
                        map!["step"@ => JsonView::Str("bind-invite"@), "ok"@ => JsonView::Bool(
                            code_of(resp) == 0 || code_of(resp) == 12310,
                        ), "code"@ => JsonView::Int(code_of(resp)), "message"@ => JsonView::Str(
                            if message_of(resp).len() == 0 {
                                code_meaning(code_of(resp))
                            } else {
                                message_of(resp)
                            },
                        ), "inviteCode"@ => JsonView::Str(m.invite_code)],
                    ),
                ),
                ..m
            },
            NewbieStepView::Call(0, tasks_call(m.api)),
        ),
{
    lemma_keys();
}

proof fn lemma_keys()
    ensures
        "ok"@ != "code"@,
        "ok"@ != "message"@,
        "ok"@ != "alreadyBound"@,
        "ok"@ != "accepted"@,
        "ok"@ != "raw"@,
        "code"@ != "message"@,
        "code"@ != "alreadyBound"@,
        "message"@ != "alreadyBound"@,
        "accepted"@ != "message"@,
        "accepted"@ != "raw"@,
        "message"@ != "raw"@,
{
    reveal_strlit("ok");
    reveal_strlit("code");
    reveal_strlit("message");
    reveal_strlit("alreadyBound");
    reveal_strlit("accepted");
    reveal_strlit("raw");
    assert("ok"@.len() == 2 && "code"@.len() == 4 && "message"@.len() == 7
        && "alreadyBound"@.len() == 12 && "accepted"@.len() == 8 && "raw"@.len() == 3);
}

/// Where the tasks cannot be listed, the round ends with that.
pub proof fn law_tasks_that_cannot_be_listed(m: NewbieView, resp: JsonView)
    requires
        m.stage == NewbieStage::Fetch,
        code_of(resp) != 0,
    ensures
        newbie_next(m, resp).1 == NewbieStepView::Done(
            JsonView::Object(
                map!["ok"@ => JsonView::Bool(false), "account"@ => JsonView::Str(m.label),
                    "steps"@ => JsonView::Array(
                    m.steps.push(
                        JsonView::Object(
                            map!["step"@ => JsonView::Str("fetch-tasks"@),
                                "ok"@ => JsonView::Bool(false),
                                "message"@ => JsonView::Str(message_of(resp))],
                        ),
                    ),
                )],
            ),
        ),
{
}

/// Where some of the tasks that were listed wait to be accepted, and accepting is switched on, all of
/// those are accepted, in one request.
pub proof fn law_tasks_that_wait_are_accepted(m: NewbieView, resp: JsonView)
    requires
        m.stage == NewbieStage::Fetch,
        code_of(resp) == 0,
        m.auto_accept,
        codes_to_accept(tasks_in(resp)).len() > 0,
    ensures
        newbie_next(m, resp) == (
            NewbieView { stage: NewbieStage::Accept, tasks: tasks_in(resp), ..m },
            NewbieStepView::Call(0, accept_call(m.api, codes_to_accept(tasks_in(resp)))),
        ),
{
}

/// After the acceptance it is reported, with the codes, and the tasks are listed once more, after a
/// pause.
pub proof fn law_after_the_acceptance(m: NewbieView, resp: JsonView)
    requires
        m.stage == NewbieStage::Accept,
    ensures
        newbie_next(m, resp) == (
            NewbieView {
                stage: NewbieStage::Refetch,
                steps: m.steps.push(
                    JsonView::Object(
                        map!["step"@ => JsonView::Str("accept-tasks"@), "ok"@ => JsonView::Bool(
                            code_of(resp) == 0,
                        ), "accepted"@ => JsonView::Int(
                            if code_of(resp) == 0 {
                                codes_to_accept(m.tasks).len() as int
                            } else {
                                0
                            },
                        ), "taskCodes"@ => text_array(codes_to_accept(m.tasks)),
                            "message"@ => JsonView::Str(message_of(resp))],
                    ),
                ),
                ..m
            },
            NewbieStepView::Call(600, tasks_call(m.api)),
        ),
{
    lemma_keys();
}

/// When there is nothing more to accept, the tasks that are completed are claimed, one by one and in
/// their order, if that is switched on. The tasks are those listed last; a second listing that
/// fails leaves the first.
pub proof fn law_then_the_completed_tasks_are_claimed(
    m: NewbieView,
    resp: JsonView,
    tasks: Seq<JsonView>,
    steps: Seq<JsonView>,
)
    requires
        m.stage == NewbieStage::Refetch || m.stage == NewbieStage::Fetch && code_of(resp) == 0 && (
        !m.auto_accept || codes_to_accept(tasks_in(resp)).len() == 0),
        tasks == (if code_of(resp) == 0 {
            tasks_in(resp)
        } else {
            m.tasks
        }),
        steps == (if m.stage == NewbieStage::Fetch && m.auto_accept {
            m.steps.push(
                JsonView::Object(
                    map!["step"@ => JsonView::Str("accept-tasks"@), "ok"@ => JsonView::Bool(true),
                        "accepted"@ => JsonView::Int(0), "message"@ => JsonView::Str(
                        "没有待接受的任务"@,
                    )],
                ),
            )
        } else {
            m.steps
        }),
    ensures
        m.auto_claim && claims_of(tasks).len() > 0 ==> newbie_next(m, resp) == (
            NewbieView {
                stage: NewbieStage::Claim,
                tasks,
                steps,
                claims: claims_of(tasks),
                answered: 0,
                claimed: seq![],
                ..m
            },
            NewbieStepView::Call(0, claim_call(m.api, claims_of(tasks)[0].code)),
        ),
        m.auto_claim && claims_of(tasks).len() == 0 ==> newbie_next(m, resp).0.steps == steps.push(
            JsonView::Object(
                map!["step"@ => JsonView::Str("claim-tasks"@), "ok"@ => JsonView::Bool(true),
                    "claimed"@ => JsonView::Int(0), "credit"@ => JsonView::Int(0),
                    "titles"@ => JsonView::Array(seq![])],
            ),
        ) && newbie_next(m, resp).0.claimed.len() == 0 && newbie_next(m, resp).1
            == NewbieStepView::Done(newbie_report(newbie_next(m, resp).0)),
        !m.auto_claim ==> newbie_next(m, resp) == (
            NewbieView { tasks, steps, ..m },
            NewbieStepView::Done(newbie_report(NewbieView { tasks, steps, ..m })),
        ),
        newbie_next(m, resp).0.tasks == tasks,
        newbie_next(m, resp).0.label == m.label,
        newbie_next(m, resp).0.account_id == m.account_id,
{
    assert(titles_of(seq![]).map_values(|s: Seq<char>| JsonView::Str(s)) =~= seq![]);
}

/// After the answer to a claim comes the next one, and behind the last the end. What was granted is
/// kept, what was refused is not.
pub proof fn law_after_a_claim(m: NewbieView, resp: JsonView, claimed: Seq<crate::growth::ClaimView>)
    requires
        m.stage == NewbieStage::Claim,
        m.answered < m.claims.len(),
        claimed == (if code_of(resp) == 0 {
            m.claimed.push(m.claims[m.answered as int])
        } else {
            m.claimed
        }),
    ensures
        m.answered + 1 < m.claims.len() ==> newbie_next(m, resp) == (
            NewbieView { answered: m.answered + 1, claimed, ..m },
            NewbieStepView::Call(0, claim_call(m.api, m.claims[m.answered as int + 1].code)),
        ),
        m.answered + 1 == m.claims.len() ==> newbie_next(m, resp).0 == (NewbieView {
            answered: m.answered + 1,
            claimed,
            steps: m.steps.push(
                JsonView::Object(
                    map!["step"@ => JsonView::Str("claim-tasks"@), "ok"@ => JsonView::Bool(true),
                        "claimed"@ => JsonView::Int(claimed.len() as int), "credit"@
                        => JsonView::Int(credit_of_claims(claimed)), "titles"@ => text_array(
                        titles_of(claimed),
                    )],
                ),
            ),
            ..m
        }) && newbie_next(m, resp).1 == NewbieStepView::Done(newbie_report(newbie_next(m, resp).0)),
{
}

/// What is reported of a round that went through.
pub proof fn law_the_report_of_a_round(m: NewbieView, summary: JsonView)
    requires
        summary == task_summary(m.tasks),
    ensures
        newbie_report(m) == JsonView::Object(
            map!["ok"@ => JsonView::Bool(true), "account"@ => JsonView::Str(m.label),
                "accountId"@ => JsonView::Str(m.account_id), "claimedCount"@ => JsonView::Int(
                m.claimed.len() as int,
            ), "claimedCredit"@ => JsonView::Int(credit_of_claims(m.claimed)),
                "earnableCredit"@ => summary.at("earnableCredit"@),
                "pendingCredit"@ => summary.at("pendingCredit"@),
                "pending"@ => summary.at("pending"@),
                "statusCounts"@ => summary.at("statusCounts"@),
                "steps"@ => JsonView::Array(m.steps)],
        ),
{
}

/// What is logged of a round.
pub proof fn law_the_entry_of_a_round(
    now: int,
    id: Seq<char>,
    name: Seq<char>,
    report: JsonView,
)
    ensures
        round_entry(now, id, name, report) == JsonView::Object(
            map!["ts"@ => JsonView::Int(now), "accountId"@ => JsonView::Str(id),
                "email"@ => JsonView::Str(name), "ok"@ => report.at("ok"@),
                "claimedCount"@ => report.at("claimedCount"@),
                "claimedCredit"@ => report.at("claimedCredit"@),
                "pendingCredit"@ => report.at("pendingCredit"@)],
        ),
{
}

/// Steps and reports hold what they say.
pub proof fn law_what_the_steps_of_a_round_hold(ms: u64, call: ApiCall, report: Json)
    ensures
        NewbieStep::Call(ms, call)@ == NewbieStepView::Call(ms, call@),
        NewbieStep::Done(report)@ == NewbieStepView::Done(report@),
        report_view(Some(report)) == Some(report@),
        report_view(None) is None,
{
}

// ---------------------------------------------------------------------------
// The rounds of all accounts
// ---------------------------------------------------------------------------

/// The rounds are run where they are switched on, there is an account, and they are not running
/// already; else it is said why not.
pub proof fn law_when_the_rounds_are_run(running: bool, config: JsonView, accounts: nat)
    ensures
        running ==> not_run(running, config, accounts) == Some(
            JsonView::Object(
                map!["status"@ => JsonView::Str("skipped"@), "reason"@ => JsonView::Str(
                    "already_running"@,
                )],
            ),
        ),
        !running && config.get("enabled"@) != Some(JsonView::Bool(true)) ==> not_run(
            running,
            config,
            accounts,
        ) == Some(JsonView::Object(map!["status"@ => JsonView::Str("disabled"@)])),
        !running && config.get("enabled"@) == Some(JsonView::Bool(true)) && accounts == 0
            ==> not_run(running, config, accounts) == Some(
            JsonView::Object(map!["status"@ => JsonView::Str("no_accounts"@)]),
        ),
        !running && config.get("enabled"@) == Some(JsonView::Bool(true)) && accounts > 0 ==> not_run(
            running,
            config,
            accounts,
        ) is None,
{
}

/// The rounds of all accounts begin like every round without a binding.
pub proof fn law_a_round_of_all(api: Api, config: JsonView, account: JsonView, name: Seq<char>)
    ensures
        batch_round(api, config, account, name) == (
            NewbieView {
                stage: NewbieStage::Fetch,
                ..newbie_start(api, config, account, name)
            },
            NewbieStepView::Call(0, tasks_call(api)),
        ),
{
}

/// A report that came in is listed behind those before it; a missing one is passed over.
pub proof fn law_the_reports_that_came_in(reports: Seq<Option<JsonView>>, report: JsonView)
    ensures
        present(seq![]) == Seq::<JsonView>::empty(),
        present(reports.push(Some(report))) == present(reports).push(report),
        present(reports.push(None)) == present(reports),
{
    assert(reports.push(Some(report)).drop_last() =~= reports);
    assert(reports.push(None).drop_last() =~= reports);
}

/// The totals add up, report by report.
pub proof fn law_the_totals_add_up(reports: Seq<JsonView>, report: JsonView, key: Seq<char>)
    ensures
        total_of(seq![], key) == 0,
        total_of(reports.push(report), key) == total_of(reports, key) + int_or_zero(report, key),
{
    assert(reports.push(report).drop_last() =~= reports);
}

/// What is reported of the rounds of all accounts.
pub proof fn law_the_report_on_all_rounds(
    reports: Seq<Option<JsonView>>,
    elapsed: u64,
    rs: Seq<JsonView>,
)
    requires
        rs == present(reports),
    ensures
        batch_report(reports, elapsed) == JsonView::Object(
            map!["status"@ => JsonView::Str("ok"@), "accounts"@ => JsonView::Array(rs),
                "totalClaimed"@ => JsonView::Int(total_of(rs, "claimedCount"@)),
                "totalCredit"@ => JsonView::Int(total_of(rs, "claimedCredit"@)),
                "elapsedMs"@ => JsonView::Int(elapsed as int), "concurrency"@ => JsonView::Int(4)],
        ),
        MAX_CONCURRENCY == 4,
{
}

/// What is told of the standing of an account.
pub proof fn law_the_standing_of_an_account(
    config: JsonView,
    invite: JsonView,
    tasks_resp: JsonView,
    profile: JsonView,
    summary: JsonView,
    data: JsonView,
)
    requires
        summary == task_summary(tasks_in(tasks_resp)),
        data == profile.at("data"@),
    ensures
        standing(config, invite, tasks_resp, profile) == JsonView::Object(
            map!["ok"@ => JsonView::Bool(code_of(tasks_resp) == 0), "config"@ => config,
                "inviteProgress"@ => invite, "level"@ => data.at("level"@),
                "levelName"@ => data.at("level_name"@), "completedTasks"@ => data.at("completed"@),
                "totalTasks"@ => data.at("total"@),
                "earnableCredit"@ => summary.at("earnableCredit"@),
                "pendingCredit"@ => summary.at("pendingCredit"@),
                "statusCounts"@ => summary.at("statusCounts"@),
                "pending"@ => summary.at("pending"@)],
        ),
{
}

} // verus!
