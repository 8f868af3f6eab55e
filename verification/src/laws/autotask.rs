//! Growth tasks that are done through the desktop client.
use crate::autotask::{
    action_of, count_open, local_account, login_of, messages_in, only_view, open_credit,
    open_entries, outcome_view, plan_of, planned_views, prompts_of, run_begin, run_holds, run_next,
    run_of, run_start, settled, standing_of, texts, Action, Login, LoginView, Planned, PlannedView,
    RunStep, RunStepView, RunView,
};
use crate::growth::tasks_in;
use crate::json::{lemma_first_that, JsonView};
use crate::text::{int_numeral, quoted};
use vstd::prelude::*;

verus! {

// ---------------------------------------------------------------------------
// Tasks and their messages
// ---------------------------------------------------------------------------

/// A task is done by messages where it takes any, and else by hand.
pub proof fn law_done_by_messages_or_by_hand(code: Seq<char>)
    ensures
        prompts_of(code).len() > 0 <==> action_of(code) == Action::Chat,
        prompts_of(code).len() == 0 <==> action_of(code) == Action::Manual,
{
}

/// Five messages make up the task of five chats, every other task that is done by messages takes one,
/// and tasks of other codes take none.
pub proof fn law_how_many_messages_a_task_takes(code: Seq<char>)
    ensures
        code == "chat_5"@ <==> prompts_of(code).len() == 5,
        prompts_of(code).len() == 0 || prompts_of(code).len() == 1 || prompts_of(code).len() == 5,
        prompts_of(code).len() == 1 <==> (code == "RichMeow_Chat"@ || code == "skill_1"@ || code
            == "expert_5"@ || code == "Expert_team_use_3"@ || code == "automation_1"@ || code
            == "playbook_prompt"@ || code == "create_canvas"@),
{
    lemma_codes_differ();
}

/// The messages of each task, in the order in which they are sent.
pub proof fn law_the_messages_of_a_task(code: Seq<char>)
    ensures
        code == "RichMeow_Chat"@ ==> prompts_of(code) == seq!["你好"@],
        code == "chat_5"@ ==> prompts_of(code) == seq![
            "你好"@,
            "今天天气怎么样"@,
            "帮我写个短句"@,
            "推荐一本书"@,
            "讲个冷笑话"@,
        ],
        code == "skill_1"@ ==> prompts_of(code) == seq!["推荐一个热门技能并演示一下"@],
        code == "expert_5"@ ==> prompts_of(code) == seq!["召唤一个专家帮我分析问题"@],
        code == "Expert_team_use_3"@ ==> prompts_of(code) == seq!["召唤专家团"@],
        code == "automation_1"@ ==> prompts_of(code) == seq![
            "帮我创建一个每天定时执行的自动化任务"@,
        ],
        code == "playbook_prompt"@ ==> prompts_of(code) == seq!["给我一些创作灵感"@],
        code == "create_canvas"@ ==> prompts_of(code) == seq![
            "用设计创意模式帮我画一只小柴犬头像"@,
        ],
{
    lemma_codes_differ();
}

proof fn lemma_codes_differ()
    ensures
        "RichMeow_Chat"@.len() == 13,
        "chat_5"@.len() == 6,
        "skill_1"@.len() == 7,
        "expert_5"@.len() == 8,
        "Expert_team_use_3"@.len() == 17,
        "automation_1"@.len() == 12,
        "playbook_prompt"@.len() == 15,
        "create_canvas"@.len() == 13,
        "RichMeow_Chat"@ != "create_canvas"@,
{
    reveal_strlit("RichMeow_Chat");
    reveal_strlit("chat_5");
    reveal_strlit("skill_1");
    reveal_strlit("expert_5");
    reveal_strlit("Expert_team_use_3");
    reveal_strlit("automation_1");
    reveal_strlit("playbook_prompt");
    reveal_strlit("create_canvas");
    assert("RichMeow_Chat"@[0] == 'R' && "create_canvas"@[0] == 'c');
}

/// A task needs nothing more done exactly where it is completed or claimed.
pub proof fn law_what_is_settled(status: Seq<char>)
    ensures
        settled(status) <==> (status == "completed"@ || status == "claimed"@),
        settled("completed"@),
        settled("claimed"@),
        !settled("not_accepted"@),
        !settled("accepted"@),
        !settled("in_progress"@),
        !settled(seq![]),
{
    reveal_strlit("completed");
    reveal_strlit("claimed");
    reveal_strlit("not_accepted");
    reveal_strlit("accepted");
    reveal_strlit("in_progress");
    assert("completed"@.len() == 9 && "claimed"@.len() == 7 && "not_accepted"@.len() == 12
        && "accepted"@.len() == 8 && "in_progress"@.len() == 11);
}

// ---------------------------------------------------------------------------
// Who is logged in
// ---------------------------------------------------------------------------

/// Whether the account at that place is the first one with that user id; past the end, no account has
/// it.
pub open spec fn is_first_account(accounts: Seq<JsonView>, uid: Seq<char>, i: int) -> bool {
    &&& 0 <= i <= accounts.len()
    &&& forall|j: int|
        0 <= j < i ==> (#[trigger] accounts[j]).get("uid"@) != Some(JsonView::Str(uid))
    &&& i < accounts.len() ==> accounts[i].get("uid"@) == Some(JsonView::Str(uid))
}

/// An account is known by its user id, and the first one counts.
pub proof fn law_an_account_is_known_by_its_user_id(
    accounts: Seq<JsonView>,
    uid: Seq<char>,
    i: int,
)
    requires
        is_first_account(accounts, uid, i),
    ensures
        i < accounts.len() ==> local_account(accounts, uid) == Some(accounts[i]),
        i == accounts.len() ==> local_account(accounts, uid) is None,
{
    let wanted = |a: JsonView| crate::autotask::is_account_of(a, uid);
    assert forall|j: int| 0 <= j < i implies !wanted(#[trigger] accounts[j]) by {
        assert(accounts[j].get("uid"@) != Some(JsonView::Str(uid)));
    }
    lemma_first_that(accounts, wanted, i);
}

/// A client that does not answer is not reached, and an answer that is no success is not read.
pub proof fn law_no_login(answer: Result<JsonView, Seq<char>>, accounts: Seq<JsonView>)
    ensures
        answer matches Err(e) ==> login_of(answer, accounts) == LoginView::Unreachable(e),
        answer matches Ok(v) ==> (v.get("ok"@) != Some(JsonView::Bool(true)) <==> login_of(
            answer,
            accounts,
        ) == LoginView::Unread(v)),
{
}

/// An answer that is a success names who is logged in, and that account is known or it is not.
pub proof fn law_a_login(v: JsonView, accounts: Seq<JsonView>, uid: Seq<char>, i: int)
    requires
        v.get("ok"@) == Some(JsonView::Bool(true)),
        uid == v.at("v"@).text_at("uid"@),
        is_first_account(accounts, uid, i),
    ensures
        i < accounts.len() ==> login_of(Ok(v), accounts) == LoginView::Known(
            uid,
            v.at("v"@).at("nickname"@),
            accounts[i],
        ),
        i == accounts.len() ==> login_of(Ok(v), accounts) == LoginView::Unknown(
            uid,
            v.at("v"@).at("nickname"@),
        ),
{
    law_an_account_is_known_by_its_user_id(accounts, uid, i);
}

// ---------------------------------------------------------------------------
// What is left to do
// ---------------------------------------------------------------------------

/// The credit that a task names, and none where it names none that fits.
pub open spec fn credit_in(t: JsonView) -> int {
    match t.get("reward_credit"@) {
        Some(JsonView::Int(n)) => if -0x8000_0000_0000_0000 <= n <= 0x7fff_ffff_ffff_ffff {
            n
        } else {
            0
        },
        _ => 0,
    }
}

/// What is left of two lists of tasks is what is left of the one and of the other.
pub proof fn law_what_is_left_adds_up(a: Seq<JsonView>, b: Seq<JsonView>, action: Action)
    ensures
        count_open(seq![], action) == 0,
        open_credit(seq![]) == 0,
        open_entries(seq![]) == Seq::<JsonView>::empty(),
        count_open(a + b, action) == count_open(a, action) + count_open(b, action),
        open_credit(a + b) == open_credit(a) + open_credit(b),
        open_entries(a + b) == open_entries(a) + open_entries(b),
    decreases b.len(),
{
    if b.len() == 0 {
        assert(a + b =~= a);
        assert(open_entries(a) + open_entries(b) =~= open_entries(a));
    } else {
        law_what_is_left_adds_up(a, b.drop_last(), action);
        assert((a + b).drop_last() =~= a + b.drop_last());
        assert((a + b).last() == b.last());
        assert(open_entries(a + b) =~= open_entries(a) + open_entries(b));
    }
}

/// A task that is completed or claimed is not left.
pub proof fn law_a_task_that_is_done_is_not_left(t: JsonView, action: Action)
    requires
        t.text_at("accept_status"@) == "completed"@ || t.text_at("accept_status"@) == "claimed"@,
    ensures
        count_open(seq![t], action) == 0,
        open_credit(seq![t]) == 0,
        open_entries(seq![t]) == Seq::<JsonView>::empty(),
{
    lemma_one(t);
    reveal_with_fuel(count_open, 2);
    reveal_with_fuel(open_credit, 2);
    reveal_with_fuel(open_entries, 2);
}

/// Every other task is left, whatever its status: it is counted once, by how it is done, with its
/// credit, and told of with all that is known of it.
pub proof fn law_every_other_task_is_left(t: JsonView, status: Seq<char>, code: Seq<char>)
    requires
        status == t.text_at("accept_status"@),
        status != "completed"@,
        status != "claimed"@,
        code == t.text_at("task_code"@),
    ensures
        count_open(seq![t], Action::Chat) == (if prompts_of(code).len() > 0 {
            1nat
        } else {
            0nat
        }),
        count_open(seq![t], Action::Manual) == (if prompts_of(code).len() == 0 {
            1nat
        } else {
            0nat
        }),
        open_credit(seq![t]) == credit_in(t),
        open_entries(seq![t]) == seq![
            JsonView::Object(
                map!["taskCode"@ => JsonView::Str(code), "title"@ => t.at("title"@), "credit"@ => (
                match t.get("reward_credit"@) {
                    Some(v) => v,
                    None => JsonView::Int(0),
                }), "status"@ => JsonView::Str(status), "auto"@ => JsonView::Bool(
                    prompts_of(code).len() > 0,
                ), "promptCount"@ => JsonView::Int(prompts_of(code).len() as int), "jumpUrl"@
                    => t.at("jump_url"@)],
            ),
        ],
{
    lemma_one(t);
    reveal_with_fuel(count_open, 2);
    reveal_with_fuel(open_credit, 2);
    reveal_with_fuel(open_entries, 2);
    assert(open_entries(seq![t]) =~= seq![crate::autotask::open_entry(t)]);
}

proof fn lemma_one(t: JsonView)
    ensures
        seq![t].len() == 1,
        seq![t].last() == t,
        seq![t].drop_last() == Seq::<JsonView>::empty(),
{
    assert(seq![t].drop_last() =~= Seq::<JsonView>::empty());
}

/// The standing of the client, for each way of being logged in.
pub proof fn law_the_standing_of_the_client(
    port: u16,
    tasks_resp: JsonView,
    e: Seq<char>,
    acc: JsonView,
    uid: Seq<char>,
    nickname: JsonView,
    local: JsonView,
)
    ensures
        standing_of(port, LoginView::Unreachable(e), tasks_resp) == JsonView::Object(
            map!["cdpOk"@ => JsonView::Bool(false), "port"@ => JsonView::Int(port as int), "error"@
                => JsonView::Str(e), "hint"@ => JsonView::Str(
                "客户端需带 --remote-debugging-port="@ + int_numeral(port as int)
                    + " 启动。若它已在运行，先完全退出再带该参数重启。"@,
            )],
        ),
        standing_of(port, LoginView::Unread(acc), tasks_resp) == JsonView::Object(
            map!["cdpOk"@ => JsonView::Bool(true), "port"@ => JsonView::Int(port as int), "accountOk"@
                => JsonView::Bool(false), "userInfo"@ => acc, "hint"@ => JsonView::Str(
                "已连上客户端，但读取当前账号失败。"@,
            )],
        ),
        standing_of(port, LoginView::Unknown(uid, nickname), tasks_resp) == JsonView::Object(
            map!["cdpOk"@ => JsonView::Bool(true), "accountOk"@ => JsonView::Bool(false), "uid"@
                => JsonView::Str(uid), "nickname"@ => nickname, "hint"@ => JsonView::Str(
                "客户端当前登录的账号不在本机账号库里。请先用本工具把该账号导入/登录。"@,
            )],
        ),
        standing_of(port, LoginView::Known(uid, nickname, local), tasks_resp) == JsonView::Object(
            map!["cdpOk"@ => JsonView::Bool(true), "accountOk"@ => JsonView::Bool(true), "port"@
                => JsonView::Int(port as int), "uid"@ => JsonView::Str(uid), "nickname"@ => nickname,
                "accountId"@ => local.at("id"@), "autoCount"@ => JsonView::Int(
                count_open(tasks_in(tasks_resp), Action::Chat) as int,
            ), "manualCount"@ => JsonView::Int(
                count_open(tasks_in(tasks_resp), Action::Manual) as int,
            ), "pendingCredit"@ => JsonView::Int(open_credit(tasks_in(tasks_resp))), "pending"@
                => JsonView::Array(open_entries(tasks_in(tasks_resp)))],
        ),
{
}

// ---------------------------------------------------------------------------
// The plan
// ---------------------------------------------------------------------------

/// Whether a task of that code is wanted.
pub open spec fn wanted(code: Seq<char>, only: Option<Seq<Seq<char>>>) -> bool {
    match only {
        Some(codes) => codes.contains(code),
        None => true,
    }
}

/// What the plan holds of a task.
pub open spec fn as_planned(t: JsonView) -> PlannedView {
    PlannedView {
        code: t.text_at("task_code"@),
        title: t.text_at("title"@),
        prompts: prompts_of(t.text_at("task_code"@)),
        credit: credit_in(t),
    }
}

/// The plan for two lists of tasks is that for the one and then that for the other.
pub proof fn law_plans_add_up(
    a: Seq<JsonView>,
    b: Seq<JsonView>,
    only: Option<Seq<Seq<char>>>,
)
    ensures
        plan_of(seq![], only) == Seq::<PlannedView>::empty(),
        plan_of(a + b, only) == plan_of(a, only) + plan_of(b, only),
    decreases b.len(),
{
    if b.len() == 0 {
        assert(a + b =~= a);
        assert(plan_of(a, only) + plan_of(b, only) =~= plan_of(a, only));
    } else {
        law_plans_add_up(a, b.drop_last(), only);
        assert((a + b).drop_last() =~= a + b.drop_last());
        assert((a + b).last() == b.last());
        assert(plan_of(a + b, only) =~= plan_of(a, only) + plan_of(b, only));
    }
}

/// A task is planned exactly where it is neither completed nor claimed, is wanted, and takes messages.
pub proof fn law_planning_one_task(t: JsonView, only: Option<Seq<Seq<char>>>)
    ensures
        t.text_at("accept_status"@) != "completed"@ && t.text_at("accept_status"@) != "claimed"@
            && wanted(t.text_at("task_code"@), only) && prompts_of(t.text_at("task_code"@)).len() > 0
            ==> plan_of(seq![t], only) == seq![as_planned(t)],
        t.text_at("accept_status"@) == "completed"@ || t.text_at("accept_status"@) == "claimed"@
            || !wanted(t.text_at("task_code"@), only) || prompts_of(t.text_at("task_code"@)).len()
            == 0 ==> plan_of(seq![t], only) == Seq::<PlannedView>::empty(),
{
    lemma_one(t);
    reveal_with_fuel(plan_of, 2);
    assert(Seq::<PlannedView>::empty().push(as_planned(t)) =~= seq![as_planned(t)]);
}

/// Every task that is neither completed nor claimed, is wanted and takes messages is in the plan,
/// whatever else stands in the list, behind what is planned of the tasks before it.
pub proof fn law_every_unsettled_task_is_planned(
    ts: Seq<JsonView>,
    only: Option<Seq<Seq<char>>>,
    j: int,
)
    requires
        0 <= j < ts.len(),
        ts[j].text_at("accept_status"@) != "completed"@,
        ts[j].text_at("accept_status"@) != "claimed"@,
        only is Some ==> only->0.contains(ts[j].text_at("task_code"@)),
        prompts_of(ts[j].text_at("task_code"@)).len() > 0,
    ensures
        plan_of(ts.take(j), only).len() < plan_of(ts, only).len(),
        plan_of(ts, only)[plan_of(ts.take(j), only).len() as int] == as_planned(ts[j]),
        plan_of(ts, only).contains(as_planned(ts[j])),
{
    let one = seq![ts[j]];
    assert(ts =~= ts.take(j) + one + ts.skip(j + 1));
    law_plans_add_up(ts.take(j) + one, ts.skip(j + 1), only);
    law_plans_add_up(ts.take(j), one, only);
    law_planning_one_task(ts[j], only);
    assert(plan_of(ts, only)[plan_of(ts.take(j), only).len() as int] == as_planned(ts[j]));
}

/// Nothing else is in the plan.
pub proof fn law_nothing_else_is_planned(
    ts: Seq<JsonView>,
    only: Option<Seq<Seq<char>>>,
    p: PlannedView,
) -> (j: int)
    requires
        plan_of(ts, only).contains(p),
    ensures
        0 <= j < ts.len(),
        p == as_planned(ts[j]),
        ts[j].text_at("accept_status"@) != "completed"@,
        ts[j].text_at("accept_status"@) != "claimed"@,
        wanted(ts[j].text_at("task_code"@), only),
        p.prompts.len() > 0,
    decreases ts.len(),
{
    let last = ts.last();
    assert(ts =~= ts.drop_last() + seq![last]);
    law_plans_add_up(ts.drop_last(), seq![last], only);
    law_planning_one_task(last, only);
    if plan_of(ts.drop_last(), only).contains(p) {
        law_nothing_else_is_planned(ts.drop_last(), only, p)
    } else {
        let i = choose|i: int| 0 <= i < plan_of(ts, only).len() && plan_of(ts, only)[i] == p;
        if i < plan_of(ts.drop_last(), only).len() {
            assert(plan_of(ts.drop_last(), only)[i] == p);
        }
        ts.len() - 1
    }
}

// ---------------------------------------------------------------------------
// A run
// ---------------------------------------------------------------------------

/// Some texts as a JSON array.
pub open spec fn list_of(texts: Seq<Seq<char>>) -> JsonView {
    JsonView::Array(Seq::new(texts.len(), |i: int| JsonView::Str(texts[i])))
}

/// What is told of a task that was done, well or not, with what was logged.
pub open spec fn told_of(p: PlannedView, ok: bool, logs: Seq<Seq<char>>) -> JsonView {
    JsonView::Object(
        map!["taskCode"@ => JsonView::Str(p.code), "title"@ => JsonView::Str(p.title), "credit"@
            => JsonView::Int(p.credit), "ok"@ => JsonView::Bool(ok), "logs"@ => list_of(logs)],
    )
}

/// What is told of a run at its end.
pub open spec fn told_of_run(dry: bool, records: Seq<JsonView>, sent: int, meant: int) -> JsonView {
    JsonView::Object(
        map!["ok"@ => JsonView::Bool(true), "dryRun"@ => JsonView::Bool(dry), "ran"@
            => JsonView::Int(records.len() as int), "sentMessages"@ => JsonView::Int(sent),
            "plannedMessages"@ => JsonView::Int(meant), "results"@ => JsonView::Array(records),
            "note"@ => JsonView::Str(
            "任务完成状态由服务端判定。发完消息后请再执行一次「一键处理全部账号」领取积分。"@,
        )],
    )
}

/// The messages of some tasks are counted task by task.
pub proof fn law_messages_are_counted(plan: Seq<PlannedView>, p: PlannedView)
    ensures
        messages_in(seq![]) == 0,
        messages_in(plan.push(p)) == messages_in(plan) + p.prompts.len(),
{
    assert(plan.push(p).drop_last() =~= plan);
}

/// Without a known account there is no run, and it is said why.
pub proof fn law_no_run_without_an_account(
    port: u16,
    tasks_resp: JsonView,
    only: Option<Seq<Seq<char>>>,
    dry: bool,
    e: Seq<char>,
    acc: JsonView,
    uid: Seq<char>,
    nickname: JsonView,
)
    ensures
        run_of(port, LoginView::Unreachable(e), tasks_resp, only, dry) == RunStepView::Done(
            0,
            JsonView::Object(
                map!["ok"@ => JsonView::Bool(false), "stage"@ => JsonView::Str("connect"@), "error"@
                    => JsonView::Str(e), "hint"@ => JsonView::Str(
                    "请让 WorkBuddy 带 --remote-debugging-port="@ + int_numeral(port as int)
                        + " 启动。"@,
                )],
            ),
        ),
        run_of(port, LoginView::Unread(acc), tasks_resp, only, dry) == RunStepView::Done(
            0,
            JsonView::Object(
                map!["ok"@ => JsonView::Bool(false), "stage"@ => JsonView::Str("account"@), "error"@
                    => acc],
            ),
        ),
        run_of(port, LoginView::Unknown(uid, nickname), tasks_resp, only, dry)
            == RunStepView::Done(
            0,
            JsonView::Object(
                map!["ok"@ => JsonView::Bool(false), "stage"@ => JsonView::Str("account"@), "error"@
                    => JsonView::Str("客户端当前登录账号不在本机账号库"@), "uid"@ => JsonView::Str(
                    uid,
                )],
            ),
        ),
{
}

/// The run of a known account is that of its plan.
pub proof fn law_the_run_of_an_account(
    port: u16,
    uid: Seq<char>,
    nickname: JsonView,
    local: JsonView,
    tasks_resp: JsonView,
    only: Option<Seq<Seq<char>>>,
    dry: bool,
)
    ensures
        run_of(port, LoginView::Known(uid, nickname, local), tasks_resp, only, dry) == run_begin(
            plan_of(tasks_in(tasks_resp), only),
            dry,
        ),
{
}

/// A run of no task is over at once.
pub proof fn law_a_run_of_nothing(dry: bool)
    ensures
        run_begin(seq![], dry) == RunStepView::Done(
            0,
            JsonView::Object(
                map!["ok"@ => JsonView::Bool(true), "ran"@ => JsonView::Int(0), "message"@
                    => JsonView::Str("当前账号没有可自动完成的任务"@), "results"@ => JsonView::Array(
                    seq![],
                )],
            ),
        ),
{
}

/// A rehearsal is over at once: it tells of every task, in order, and of each message that would be
/// sent, and sends none.
pub proof fn law_a_rehearsal(plan: Seq<PlannedView>)
    requires
        plan.len() > 0,
    ensures
        run_begin(plan, true) == RunStepView::Done(
            0,
            told_of_run(
                true,
                Seq::new(
                    plan.len(),
                    |i: int|
                        told_of(
                            plan[i],
                            true,
                            Seq::new(
                                plan[i].prompts.len(),
                                |j: int| "[演练] 将发送："@ + plan[i].prompts[j],
                            ),
                        ),
                ),
                0,
                messages_in(plan) as int,
            ),
        ),
{
    let told = Seq::new(
        plan.len(),
        |i: int|
            told_of(
                plan[i],
                true,
                Seq::new(
                    plan[i].prompts.len(),
                    |j: int| "[演练] 将发送："@ + plan[i].prompts[j],
                ),
            ),
    );
    let records = plan.map_values(|p: PlannedView| crate::autotask::rehearsal_of(p));
    assert forall|i: int| 0 <= i < plan.len() implies records[i] == told[i] by {
        let p = plan[i];
        let logs = Seq::new(p.prompts.len(), |j: int| "[演练] 将发送："@ + p.prompts[j]);
        assert(p.prompts.map_values(|s: Seq<char>| crate::autotask::rehearsed(s)) =~= logs);
        assert(told[i] == told_of(p, true, logs)) by {
            assert(Seq::new(
                plan[i].prompts.len(),
                |j: int| "[演练] 将发送："@ + plan[i].prompts[j],
            ) =~= logs);
        }
        lemma_told(p, true, logs);
    }
    assert(records =~= told);
}

proof fn lemma_told(p: PlannedView, ok: bool, logs: Seq<Seq<char>>)
    ensures
        crate::autotask::record_of(p, ok, logs) == told_of(p, ok, logs),
{
    assert(logs.map_values(|s: Seq<char>| JsonView::Str(s)) =~= Seq::new(
        logs.len(),
        |i: int| JsonView::Str(logs[i]),
    ));
}

/// A run begins with the first message of the first task, without a pause.
pub proof fn law_a_run_begins(plan: Seq<PlannedView>)
    requires
        plan.len() > 0,
        plan[0].prompts.len() > 0,
    ensures
        run_begin(plan, false) == RunStepView::Send(0, plan[0].prompts[0]),
        run_start(plan) == (RunView {
            plan,
            task: 0,
            prompt: 0,
            logs: seq![],
            records: seq![],
            sent: 0,
        }),
{
}

/// After a message that was sent the next one of its task follows, after a pause.
pub proof fn law_the_next_message_of_a_task(r: RunView, reply: Seq<char>)
    requires
        r.task < r.plan.len(),
        r.prompt + 1 < r.plan[r.task as int].prompts.len(),
    ensures
        run_next(r, Ok(reply)) == (
            RunView {
                prompt: r.prompt + 1,
                logs: r.logs.push(
                    "发送 "@ + quoted(r.plan[r.task as int].prompts[r.prompt as int]) + " -> "@
                        + reply,
                ),
                sent: r.sent + 1,
                ..r
            },
            RunStepView::Send(1200, r.plan[r.task as int].prompts[(r.prompt + 1) as int]),
        ),
{
}

/// The run with its task behind it, and what was logged last.
pub open spec fn behind(r: RunView, line: Seq<char>, ok: bool, sent: nat) -> RunView {
    RunView {
        plan: r.plan,
        task: r.task + 1,
        prompt: 0,
        logs: seq![],
        records: r.records.push(told_of(r.plan[r.task as int], ok, r.logs.push(line))),
        sent,
    }
}

/// What follows once a task is behind the run: the first message of the next one, or after the last
/// one the end.
pub open spec fn what_follows(r: RunView, pause: u64) -> RunStepView {
    if r.task < r.plan.len() {
        RunStepView::Send(pause, r.plan[r.task as int].prompts[0])
    } else {
        RunStepView::Done(pause, told_of_run(false, r.records, r.sent as int, r.sent as int))
    }
}

/// After the last message of a task was sent the task is done well, and the run goes on with the next
/// task after a pause.
pub proof fn law_the_end_of_a_task(r: RunView, reply: Seq<char>, next: RunView)
    requires
        r.task < r.plan.len(),
        r.prompt + 1 == r.plan[r.task as int].prompts.len(),
        r.task + 1 < r.plan.len() ==> r.plan[(r.task + 1) as int].prompts.len() > 0,
        next == behind(
            r,
            "发送 "@ + quoted(r.plan[r.task as int].prompts[r.prompt as int]) + " -> "@ + reply,
            true,
            r.sent + 1,
        ),
    ensures
        run_next(r, Ok(reply)) == (next, what_follows(next, 1200)),
{
    lemma_told(
        r.plan[r.task as int],
        true,
        r.logs.push(
            "发送 "@ + quoted(r.plan[r.task as int].prompts[r.prompt as int]) + " -> "@ + reply,
        ),
    );
}

/// A message that cannot be sent ends its task, which is not done well, and the run goes on with the
/// next task at once.
pub proof fn law_a_message_that_fails(r: RunView, error: Seq<char>, next: RunView)
    requires
        r.task < r.plan.len(),
        r.prompt < r.plan[r.task as int].prompts.len(),
        r.task + 1 < r.plan.len() ==> r.plan[(r.task + 1) as int].prompts.len() > 0,
        next == behind(
            r,
            "发送 "@ + quoted(r.plan[r.task as int].prompts[r.prompt as int]) + " 失败: "@ + error,
            false,
            r.sent,
        ),
    ensures
        run_next(r, Err(error)) == (next, what_follows(next, 0)),
{
    lemma_told(
        r.plan[r.task as int],
        false,
        r.logs.push(
            "发送 "@ + quoted(r.plan[r.task as int].prompts[r.prompt as int]) + " 失败: "@ + error,
        ),
    );
}

/// A run that is over stays as it is.
pub proof fn law_a_run_that_is_over(r: RunView, outcome: Result<Seq<char>, Seq<char>>)
    requires
        r.task >= r.plan.len(),
    ensures
        run_next(r, outcome) == (r, what_follows(r, 0)),
{
}

/// A plan can always be run, and a run that is not over has a message to send.
pub proof fn law_a_plan_can_be_run(ts: Seq<JsonView>, only: Option<Seq<Seq<char>>>, r: RunView)
    ensures
        run_holds(run_start(plan_of(ts, only))),
        run_holds(r) && r.task < r.plan.len() ==> r.prompt < r.plan[r.task as int].prompts.len(),
        run_holds(r) ==> r.records.len() == r.task,
{
    let plan = plan_of(ts, only);
    assert forall|i: int| 0 <= i < plan.len() implies (#[trigger] plan[i]).prompts == prompts_of(
        plan[i].code,
    ) && plan[i].prompts.len() > 0 by {
        assert(plan.contains(plan[i]));
        let j = law_nothing_else_is_planned(ts, only, plan[i]);
    }
    if plan.len() > 0 {
        assert(plan[0].prompts.len() > 0);
    }
}

/// What logins, plans, steps and outcomes hold.
pub proof fn law_what_logins_and_plans_hold(
    login: Login,
    p: Planned,
    plan: Seq<Planned>,
    words: Seq<&'static str>,
    only: Option<Vec<String>>,
    step: RunStep,
    outcome: Result<String, String>,
)
    ensures
        login matches Login::Unreachable(e) ==> login@ == LoginView::Unreachable(e@),
        login matches Login::Unread(v) ==> login@ == LoginView::Unread(v@),
        login matches Login::Unknown(uid, n) ==> login@ == LoginView::Unknown(uid@, n@),
        login matches Login::Known(uid, n, a) ==> login@ == LoginView::Known(uid@, n@, a@),
        p@.code == p.code@,
        p@.title == p.title@,
        p@.credit == p.credit,
        p@.prompts == texts(p.prompts@),
        texts(words).len() == words.len(),
        forall|i: int| 0 <= i < words.len() ==> #[trigger] texts(words)[i] == words[i]@,
        planned_views(plan).len() == plan.len(),
        forall|i: int| 0 <= i < plan.len() ==> #[trigger] planned_views(plan)[i] == plan[i]@,
        only is None <==> only_view(only) is None,
        only matches Some(codes) ==> only_view(only)->0 == Seq::new(
            codes@.len(),
            |i: int| codes@[i]@,
        ),
        step matches RunStep::Send(ms, text) ==> step@ == RunStepView::Send(ms, text@),
        step matches RunStep::Done(ms, report) ==> step@ == RunStepView::Done(ms, report@),
        outcome matches Ok(s) ==> outcome_view(outcome) == Ok::<Seq<char>, Seq<char>>(s@),
        outcome matches Err(s) ==> outcome_view(outcome) == Err::<Seq<char>, Seq<char>>(s@),
{
    if let Some(codes) = only {
        assert(only_view(only)->0 =~= Seq::new(codes@.len(), |i: int| codes@[i]@));
    }
}

} // verus!
