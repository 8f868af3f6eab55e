//! Growth tasks that the desktop client can be driven through.
//!
//! Some tasks come down to sending messages; those are planned and run here. The others need
//! clicks in the client and are only listed.
use crate::client_cdp::reply_view;
use crate::growth::{int_or_zero, make_text_array, strings_view, tasks_in, tasks_of, text_array};
use crate::json::{copy_all, first_that, lemma_first_that, lemma_first_that_holds, views, Json, JsonView};
use crate::text::{debug_text, decimal, int_numeral, quoted, same};
use vstd::prelude::*;
use vstd::string::*;

verus! {

/// How a task can be done.
#[derive(Debug, Clone, Copy, PartialEq, Eq, Structural)]
pub enum Action {
    /// By sending messages.
    Chat,
    /// Only by hand, in the client.
    Manual,
}

/// The messages that do a task, in the order in which they are sent; none where the task has to
/// be done by hand.
pub open spec fn prompts_of(code: Seq<char>) -> Seq<Seq<char>> {
    if code == "RichMeow_Chat"@ {
        seq!["你好"@]
    } else if code == "chat_5"@ {
        seq!["你好"@, "今天天气怎么样"@, "帮我写个短句"@, "推荐一本书"@, "讲个冷笑话"@]
    } else if code == "skill_1"@ {
        seq!["推荐一个热门技能并演示一下"@]
    } else if code == "expert_5"@ {
        seq!["召唤一个专家帮我分析问题"@]
    } else if code == "Expert_team_use_3"@ {
        seq!["召唤专家团"@]
    } else if code == "automation_1"@ {
        seq!["帮我创建一个每天定时执行的自动化任务"@]
    } else if code == "playbook_prompt"@ {
        seq!["给我一些创作灵感"@]
    } else if code == "create_canvas"@ {
        seq!["用设计创意模式帮我画一只小柴犬头像"@]
    } else {
        seq![]
    }
}

/// How a task is done: by messages where there are any.
pub open spec fn action_of(code: Seq<char>) -> Action {
    if prompts_of(code).len() > 0 {
        Action::Chat
    } else {
        Action::Manual
    }
}

/// The characters of each of some texts.
pub open spec fn texts(v: Seq<&'static str>) -> Seq<Seq<char>> {
    v.map_values(|s: &'static str| s@)
}

/// The plan for a task: how it is done, and the messages that do it.
pub fn task_plan(code: &str) -> (r: (Action, Vec<&'static str>))
    ensures
        r.0 == action_of(code@),
        texts(r.1@) == prompts_of(code@),
{
    let prompts: Vec<&'static str> = if same(code, "RichMeow_Chat") {
        vec!["你好"]
    } else if same(code, "chat_5") {
        vec!["你好", "今天天气怎么样", "帮我写个短句", "推荐一本书", "讲个冷笑话"]
    } else if same(code, "skill_1") {
        vec!["推荐一个热门技能并演示一下"]
    } else if same(code, "expert_5") {
        vec!["召唤一个专家帮我分析问题"]
    } else if same(code, "Expert_team_use_3") {
        vec!["召唤专家团"]
    } else if same(code, "automation_1") {
        vec!["帮我创建一个每天定时执行的自动化任务"]
    } else if same(code, "playbook_prompt") {
        vec!["给我一些创作灵感"]
    } else if same(code, "create_canvas") {
        vec!["用设计创意模式帮我画一只小柴犬头像"]
    } else {
        Vec::new()
    };
    assert(texts(prompts@) =~= prompts_of(code@));
    if prompts.len() > 0 {
        (Action::Chat, prompts)
    } else {
        (Action::Manual, prompts)
    }
}

/// Whether a task in that state needs nothing more done.
pub open spec fn settled(status: Seq<char>) -> bool {
    status == "completed"@ || status == "claimed"@
}

/// Whether a task in that state needs nothing more done.
pub fn is_settled(status: &str) -> (r: bool)
    ensures
        r == settled(status@),
{
    same(status, "completed") || same(status, "claimed")
}

// ---------------------------------------------------------------------------
// Who is logged in
// ---------------------------------------------------------------------------

/// Whether an account is the one with that user id.
pub open spec fn is_account_of(account: JsonView, uid: Seq<char>) -> bool {
    account.at("uid"@).as_str() == Some(uid)
}

/// The first of the known accounts with that user id.
pub open spec fn local_account(accounts: Seq<JsonView>, uid: Seq<char>) -> Option<JsonView> {
    match first_that(accounts, |a: JsonView| is_account_of(a, uid)) {
        Some(i) => Some(accounts[i]),
        None => None,
    }
}

fn has_uid(account: &Json, uid: &str) -> (r: bool)
    ensures
        r == is_account_of(account@, uid@),
{
    match account.get("uid") {
        Some(Json::Str(s)) => same(s.as_str(), uid),
        _ => false,
    }
}

/// Finds the known account with that user id.
pub fn match_local_account(accounts: &Vec<Json>, uid: &str) -> (r: Option<Json>)
    ensures
        match r {
            Some(a) => local_account(views(accounts@), uid@) == Some(a@),
            None => local_account(views(accounts@), uid@) is None,
        },
{
    let ghost all = views(accounts@);
    let ghost wanted = |a: JsonView| is_account_of(a, uid@);
    let mut i: usize = 0;
    while i < accounts.len() && !has_uid(&accounts[i], uid)
        invariant
            i <= accounts@.len(),
            all == views(accounts@),
            wanted == (|a: JsonView| is_account_of(a, uid@)),
            forall|j: int| 0 <= j < i ==> !wanted(#[trigger] all[j]),
        decreases accounts@.len() - i,
    {
        i += 1;
    }
    proof {
        lemma_first_that(all, wanted, i as int);
    }
    if i < accounts.len() {
        Some(accounts[i].copy())
    } else {
        None
    }
}

/// Who is logged in in the client.
pub enum Login {
    /// The client did not answer, for that reason.
    Unreachable(String),
    /// The client answered, but not with an account.
    Unread(Json),
    /// An account that is not known here: its user id and its nickname.
    Unknown(String, Json),
    /// A known account: its user id, its nickname, and what is known of it.
    Known(String, Json, Json),
}

/// What a [`Login`] holds.
pub enum LoginView {
    Unreachable(Seq<char>),
    Unread(JsonView),
    Unknown(Seq<char>, JsonView),
    Known(Seq<char>, JsonView, JsonView),
}

impl View for Login {
    type V = LoginView;

    open spec fn view(&self) -> LoginView {
        match self {
            Login::Unreachable(e) => LoginView::Unreachable(e@),
            Login::Unread(v) => LoginView::Unread(v@),
            Login::Unknown(uid, nickname) => LoginView::Unknown(uid@, nickname@),
            Login::Known(uid, nickname, local) => LoginView::Known(uid@, nickname@, local@),
        }
    }
}

/// Who is logged in, from what the client answered and the accounts that are known.
pub open spec fn login_of(answer: Result<JsonView, Seq<char>>, accounts: Seq<JsonView>) -> LoginView {
    match answer {
        Err(e) => LoginView::Unreachable(e),
        Ok(v) => if v.bool_at("ok"@) != Some(true) {
            LoginView::Unread(v)
        } else {
            let uid = v.at("v"@).text_at("uid"@);
            let nickname = v.at("v"@).at("nickname"@);
            match local_account(accounts, uid) {
                Some(local) => LoginView::Known(uid, nickname, local),
                None => LoginView::Unknown(uid, nickname),
            }
        },
    }
}

/// Who is logged in, from what the client answered and the accounts that are known.
pub fn logged_in(answer: Result<Json, String>, accounts: &Vec<Json>) -> (r: Login)
    ensures
        r@ == login_of(reply_view(answer), views(accounts@)),
{
    let acc = match answer {
        Ok(v) => v,
        Err(e) => {
            return Login::Unreachable(e);
        },
    };
    let ok = match acc.bool_at("ok") {
        Some(b) => b,
        None => false,
    };
    if !ok {
        return Login::Unread(acc);
    }
    let info = acc.at("v");
    let uid = info.text_at("uid");
    let nickname = info.at("nickname");
    match match_local_account(accounts, uid.as_str()) {
        Some(local) => Login::Known(uid, nickname, local),
        None => Login::Unknown(uid, nickname),
    }
}

/// The account whose tasks are looked at and done is the one that is logged in in the client: a known
/// one, with the user id that the client gave. Without it no account has that id.
pub proof fn law_only_the_account_logged_in(
    answer: Result<JsonView, Seq<char>>,
    accounts: Seq<JsonView>,
)
    ensures
        match login_of(answer, accounts) {
            LoginView::Known(uid, _, local) => {
                &&& answer is Ok
                &&& uid == answer->Ok_0.at("v"@).text_at("uid"@)
                &&& accounts.contains(local)
                &&& is_account_of(local, uid)
            },
            LoginView::Unknown(uid, _) => forall|j: int|
                0 <= j < accounts.len() ==> !is_account_of(#[trigger] accounts[j], uid),
            _ => true,
        },
{
    if let Ok(v) = answer {
        let uid = v.at("v"@).text_at("uid"@);
        let wanted = |a: JsonView| is_account_of(a, uid);
        lemma_first_that_holds(accounts, wanted);
        if first_that(accounts, wanted) is None {
            assert forall|j: int| 0 <= j < accounts.len() implies !is_account_of(
                #[trigger] accounts[j],
                uid,
            ) by {
                assert(!wanted(accounts[j]));
            }
        }
    }
}

// ---------------------------------------------------------------------------
// What is left to do
// ---------------------------------------------------------------------------

/// Whether a task still needs something done.
pub open spec fn is_open(t: JsonView) -> bool {
    !settled(t.text_at("accept_status"@))
}

/// How many of the tasks are open and done in that way.
pub open spec fn count_open(ts: Seq<JsonView>, action: Action) -> nat
    decreases ts.len(),
{
    if ts.len() == 0 {
        0
    } else {
        count_open(ts.drop_last(), action) + (if is_open(ts.last()) && action_of(
            ts.last().text_at("task_code"@),
        ) == action {
            1nat
        } else {
            0nat
        })
    }
}

/// The credit of the open tasks.
pub open spec fn open_credit(ts: Seq<JsonView>) -> int
    decreases ts.len(),
{
    if ts.len() == 0 {
        0
    } else {
        open_credit(ts.drop_last()) + (if is_open(ts.last()) {
            int_or_zero(ts.last(), "reward_credit"@)
        } else {
            0
        })
    }
}

/// What there is left to do: how many tasks can be done by messages, how many only by hand, and
/// the credit of all of them.
pub fn summarize(tasks: &Vec<Json>) -> (r: (usize, usize, i128))
    ensures
        r.0 == count_open(views(tasks@), Action::Chat),
        r.1 == count_open(views(tasks@), Action::Manual),
        r.2 == open_credit(views(tasks@)),
{
    let ghost ts = views(tasks@);
    let mut auto: usize = 0;
    let mut manual: usize = 0;
    let mut credit: i128 = 0;
    let mut i: usize = 0;
    while i < tasks.len()
        invariant
            i <= tasks.len(),
            ts == views(tasks@),
            auto == count_open(ts.take(i as int), Action::Chat),
            manual == count_open(ts.take(i as int), Action::Manual),
            credit == open_credit(ts.take(i as int)),
            auto + manual <= i,
            -(i * 0x8000_0000_0000_0000) <= credit <= i * 0x8000_0000_0000_0000,
        decreases tasks@.len() - i,
    {
        let t = &tasks[i];
        assert(ts.take(i + 1).drop_last() =~= ts.take(i as int));
        assert(ts.take(i + 1).last() == t@);
        if !is_settled(t.text_at("accept_status").as_str()) {
            match task_plan(t.text_at("task_code").as_str()).0 {
                Action::Chat => {
                    auto += 1;
                },
                Action::Manual => {
                    manual += 1;
                },
            }
            credit = credit + (match t.int_at("reward_credit") {
                Some(n) => n,
                None => 0,
            }) as i128;
        }
        i += 1;
    }
    assert(ts.take(i as int) =~= ts);
    (auto, manual, credit)
}

/// Every open task is counted, once: as one done by messages or as one done by hand.
pub proof fn law_every_open_task_is_counted_once(ts: Seq<JsonView>)
    ensures
        count_open(ts, Action::Chat) + count_open(ts, Action::Manual) == ts.filter(
            |t: JsonView| is_open(t),
        ).len(),
    decreases ts.len(),
{
    reveal(Seq::filter);
    if ts.len() > 0 {
        law_every_open_task_is_counted_once(ts.drop_last());
    }
}

/// What is told of an open task.
pub open spec fn open_entry(t: JsonView) -> JsonView {
    let code = t.text_at("task_code"@);
    JsonView::object().with("taskCode"@, JsonView::Str(code)).with("title"@, t.at("title"@)).with(
        "credit"@,
        match t.get("reward_credit"@) {
            Some(v) => v,
            None => JsonView::Int(0),
        },
    ).with("status"@, JsonView::Str(t.text_at("accept_status"@))).with(
        "auto"@,
        JsonView::Bool(action_of(code) == Action::Chat),
    ).with("promptCount"@, JsonView::Int(prompts_of(code).len() as int)).with(
        "jumpUrl"@,
        t.at("jump_url"@),
    )
}

/// The open tasks, in their order.
pub open spec fn open_entries(ts: Seq<JsonView>) -> Seq<JsonView>
    decreases ts.len(),
{
    if ts.len() == 0 {
        seq![]
    } else if is_open(ts.last()) {
        open_entries(ts.drop_last()).push(open_entry(ts.last()))
    } else {
        open_entries(ts.drop_last())
    }
}

/// The open tasks, in their order.
pub fn pending_summary(tasks: &Vec<Json>) -> (r: Vec<Json>)
    ensures
        views(r@) == open_entries(views(tasks@)),
{
    let ghost ts = views(tasks@);
    let mut out: Vec<Json> = Vec::new();
    let mut i: usize = 0;
    assert(views(out@) =~= open_entries(ts.take(0)));
    while i < tasks.len()
        invariant
            i <= tasks@.len(),
            ts == views(tasks@),
            views(out@) == open_entries(ts.take(i as int)),
        decreases tasks@.len() - i,
    {
        let t = &tasks[i];
        assert(ts.take(i + 1).drop_last() =~= ts.take(i as int));
        assert(ts.take(i + 1).last() == t@);
        let status = t.text_at("accept_status");
        if !is_settled(status.as_str()) {
            let code = t.text_at("task_code");
            let (action, prompts) = task_plan(code.as_str());
            let credit = match t.get("reward_credit") {
                Some(v) => v.copy(),
                None => Json::Int(0),
            };
            let ghost before = out@;
            assert(prompts@.len() == texts(prompts@).len());
            out.push(
                Json::object().with("taskCode", Json::Str(code)).with("title", t.at("title")).with(
                    "credit",
                    credit,
                ).with("status", Json::Str(status)).with(
                    "auto",
                    Json::Bool(action == Action::Chat),
                ).with("promptCount", Json::Int(prompts.len() as i128)).with(
                    "jumpUrl",
                    t.at("jump_url"),
                ),
            );
            assert(views(out@) =~= views(before).push(open_entry(t@)));
        }
        i += 1;
    }
    assert(ts.take(i as int) =~= ts);
    out
}

// ---------------------------------------------------------------------------
// The standing of the client
// ---------------------------------------------------------------------------

/// What to do where the client does not listen.
pub open spec fn start_hint(port: u16) -> Seq<char> {
    "客户端需带 --remote-debugging-port="@ + int_numeral(port as int)
        + " 启动。若它已在运行，先完全退出再带该参数重启。"@
}

/// The standing of the client: whether it answers, who is logged in, and what that account has left
/// to do.
pub open spec fn standing_of(port: u16, login: LoginView, tasks_resp: JsonView) -> JsonView {
    match login {
        LoginView::Unreachable(e) => JsonView::object().with("cdpOk"@, JsonView::Bool(false)).with(
            "port"@,
            JsonView::Int(port as int),
        ).with("error"@, JsonView::Str(e)).with("hint"@, JsonView::Str(start_hint(port))),
        LoginView::Unread(acc) => JsonView::object().with("cdpOk"@, JsonView::Bool(true)).with(
            "port"@,
            JsonView::Int(port as int),
        ).with("accountOk"@, JsonView::Bool(false)).with("userInfo"@, acc).with(
            "hint"@,
            JsonView::Str("已连上客户端，但读取当前账号失败。"@),
        ),
        LoginView::Unknown(uid, nickname) => JsonView::object().with(
            "cdpOk"@,
            JsonView::Bool(true),
        ).with("accountOk"@, JsonView::Bool(false)).with("uid"@, JsonView::Str(uid)).with(
            "nickname"@,
            nickname,
        ).with(
            "hint"@,
            JsonView::Str(
                "客户端当前登录的账号不在本机账号库里。请先用本工具把该账号导入/登录。"@,
            ),
        ),
        LoginView::Known(uid, nickname, local) => {
            let ts = tasks_in(tasks_resp);
            JsonView::object().with("cdpOk"@, JsonView::Bool(true)).with(
                "accountOk"@,
                JsonView::Bool(true),
            ).with("port"@, JsonView::Int(port as int)).with("uid"@, JsonView::Str(uid)).with(
                "nickname"@,
                nickname,
            ).with("accountId"@, local.at("id"@)).with(
                "autoCount"@,
                JsonView::Int(count_open(ts, Action::Chat) as int),
            ).with("manualCount"@, JsonView::Int(count_open(ts, Action::Manual) as int)).with(
                "pendingCredit"@,
                JsonView::Int(open_credit(ts)),
            ).with("pending"@, JsonView::Array(open_entries(ts)))
        },
    }
}

/// The standing of the client. The response to the request for the tasks is that of the known
/// account, and is not looked at where none is logged in.
pub fn status(port: u16, login: &Login, tasks_resp: &Json) -> (r: Json)
    ensures
        r@ == standing_of(port, login@, tasks_resp@),
{
    match login {
        Login::Unreachable(e) => {
            let mut hint = "客户端需带 --remote-debugging-port=".to_owned();
            hint.append(decimal(port as i128).as_str());
            hint.append(" 启动。若它已在运行，先完全退出再带该参数重启。");
            Json::object().with("cdpOk", Json::Bool(false)).with(
                "port",
                Json::Int(port as i128),
            ).with("error", Json::Str(e.clone())).with("hint", Json::Str(hint))
        },
        Login::Unread(acc) => Json::object().with("cdpOk", Json::Bool(true)).with(
            "port",
            Json::Int(port as i128),
        ).with("accountOk", Json::Bool(false)).with("userInfo", acc.copy()).with(
            "hint",
            Json::text("已连上客户端，但读取当前账号失败。"),
        ),
        Login::Unknown(uid, nickname) => Json::object().with("cdpOk", Json::Bool(true)).with(
            "accountOk",
            Json::Bool(false),
        ).with("uid", Json::Str(uid.clone())).with("nickname", nickname.copy()).with(
            "hint",
            Json::text("客户端当前登录的账号不在本机账号库里。请先用本工具把该账号导入/登录。"),
        ),
        Login::Known(uid, nickname, local) => {
            let list = tasks_of(tasks_resp);
            let (auto_count, manual_count, credit) = summarize(&list);
            Json::object().with("cdpOk", Json::Bool(true)).with("accountOk", Json::Bool(true)).with(
                "port",
                Json::Int(port as i128),
            ).with("uid", Json::Str(uid.clone())).with("nickname", nickname.copy()).with(
                "accountId",
                local.at("id"),
            ).with("autoCount", Json::Int(auto_count as i128)).with(
                "manualCount",
                Json::Int(manual_count as i128),
            ).with("pendingCredit", Json::Int(credit)).with(
                "pending",
                Json::Array(pending_summary(&list)),
            )
        },
    }
}

// ---------------------------------------------------------------------------
// Doing the tasks
// ---------------------------------------------------------------------------

/// A task that is going to be done, with the messages that do it.
pub struct Planned {
    pub code: String,
    pub title: String,
    pub prompts: Vec<&'static str>,
    pub credit: i64,
}

/// What a [`Planned`] task holds.
pub struct PlannedView {
    pub code: Seq<char>,
    pub title: Seq<char>,
    pub prompts: Seq<Seq<char>>,
    pub credit: int,
}

impl View for Planned {
    type V = PlannedView;

    open spec fn view(&self) -> PlannedView {
        PlannedView {
            code: self.code@,
            title: self.title@,
            prompts: texts(self.prompts@),
            credit: self.credit as int,
        }
    }
}

/// What each of some planned tasks holds.
pub open spec fn planned_views(plan: Seq<Planned>) -> Seq<PlannedView> {
    plan.map_values(|p: Planned| p@)
}

/// Which tasks are wanted: those of some codes, or all.
pub open spec fn only_view(only: Option<Vec<String>>) -> Option<Seq<Seq<char>>> {
    match only {
        Some(codes) => Some(strings_view(codes@)),
        None => None,
    }
}

/// Whether a task is going to be done: it is open, wanted, and done by messages.
pub open spec fn will_be_done(t: JsonView, only: Option<Seq<Seq<char>>>) -> bool {
    let code = t.text_at("task_code"@);
    &&& is_open(t)
    &&& only matches Some(codes) ==> codes.contains(code)
    &&& action_of(code) == Action::Chat
}

/// A task with the messages that do it.
pub open spec fn planned(t: JsonView) -> PlannedView {
    PlannedView {
        code: t.text_at("task_code"@),
        title: t.text_at("title"@),
        prompts: prompts_of(t.text_at("task_code"@)),
        credit: int_or_zero(t, "reward_credit"@),
    }
}

/// The tasks that are going to be done, in their order.
pub open spec fn plan_of(ts: Seq<JsonView>, only: Option<Seq<Seq<char>>>) -> Seq<PlannedView>
    decreases ts.len(),
{
    if ts.len() == 0 {
        seq![]
    } else if will_be_done(ts.last(), only) {
        plan_of(ts.drop_last(), only).push(planned(ts.last()))
    } else {
        plan_of(ts.drop_last(), only)
    }
}

fn is_wanted(code: &str, only: &Option<Vec<String>>) -> (r: bool)
    ensures
        r == (only_view(*only) matches Some(codes) ==> codes.contains(code@)),
{
    match only {
        None => true,
        Some(codes) => {
            let ghost all = strings_view(codes@);
            let mut i: usize = 0;
            while i < codes.len()
                invariant
                    i <= codes@.len(),
                    all == strings_view(codes@),
                    only_view(*only) == Some(all),
                    forall|j: int| 0 <= j < i ==> #[trigger] all[j] != code@,
                decreases codes@.len() - i,
            {
                if same(codes[i].as_str(), code) {
                    assert(all[i as int] == code@);
                    return true;
                }
                assert(all[i as int] == codes@[i as int]@);
                i += 1;
            }
            false
        },
    }
}

/// Picks the tasks that are going to be done.
pub fn plan(tasks: &Vec<Json>, only: &Option<Vec<String>>) -> (r: Vec<Planned>)
    ensures
        planned_views(r@) == plan_of(views(tasks@), only_view(*only)),
{
    let ghost ts = views(tasks@);
    let ghost codes = only_view(*only);
    let mut out: Vec<Planned> = Vec::new();
    let mut i: usize = 0;
    assert(planned_views(out@) =~= plan_of(ts.take(0), codes));
    while i < tasks.len()
        invariant
            i <= tasks@.len(),
            ts == views(tasks@),
            codes == only_view(*only),
            planned_views(out@) == plan_of(ts.take(i as int), codes),
        decreases tasks@.len() - i,
    {
        let t = &tasks[i];
        assert(ts.take(i + 1).drop_last() =~= ts.take(i as int));
        assert(ts.take(i + 1).last() == t@);
        let code = t.text_at("task_code");
        if !is_settled(t.text_at("accept_status").as_str()) && is_wanted(code.as_str(), only) {
            let (action, prompts) = task_plan(code.as_str());
            if action == Action::Chat {
                let credit: i64 = match t.int_at("reward_credit") {
                    Some(n) => n,
                    None => 0,
                };
                let ghost before = out@;
                out.push(Planned { code, title: t.text_at("title"), prompts, credit });
                assert(planned_views(out@) =~= planned_views(before).push(planned(t@)));
            }
        }
        i += 1;
    }
    assert(ts.take(i as int) =~= ts);
    out
}

/// What became of a task.
pub open spec fn record_of(p: PlannedView, ok: bool, logs: Seq<Seq<char>>) -> JsonView {
    JsonView::object().with("taskCode"@, JsonView::Str(p.code)).with(
        "title"@,
        JsonView::Str(p.title),
    ).with("credit"@, JsonView::Int(p.credit)).with("ok"@, JsonView::Bool(ok)).with(
        "logs"@,
        text_array(logs),
    )
}

fn make_record(p: &Planned, ok: bool, logs: &Vec<String>) -> (r: Json)
    ensures
        r@ == record_of(p@, ok, strings_view(logs@)),
{
    Json::object().with("taskCode", Json::Str(p.code.clone())).with(
        "title",
        Json::Str(p.title.clone()),
    ).with("credit", Json::Int(p.credit as i128)).with("ok", Json::Bool(ok)).with(
        "logs",
        make_text_array(logs),
    )
}

/// What is logged of a message in a rehearsal.
pub open spec fn rehearsed(prompt: Seq<char>) -> Seq<char> {
    "[演练] 将发送："@ + prompt
}

/// What becomes of a task in a rehearsal: its messages are listed.
pub open spec fn rehearsal_of(p: PlannedView) -> JsonView {
    record_of(p, true, p.prompts.map_values(|s: Seq<char>| rehearsed(s)))
}

/// How many messages the tasks take.
pub open spec fn messages_in(plan: Seq<PlannedView>) -> nat
    decreases plan.len(),
{
    if plan.len() == 0 {
        0
    } else {
        messages_in(plan.drop_last()) + plan.last().prompts.len()
    }
}

/// The report on a run: what became of the tasks, how many messages were sent, and how many were
/// sent or, in a rehearsal, would be.
pub open spec fn run_report(dry_run: bool, records: Seq<JsonView>, sent: int, meant: int) -> JsonView {
    JsonView::object().with("ok"@, JsonView::Bool(true)).with(
        "dryRun"@,
        JsonView::Bool(dry_run),
    ).with("ran"@, JsonView::Int(records.len() as int)).with(
        "sentMessages"@,
        JsonView::Int(sent),
    ).with("plannedMessages"@, JsonView::Int(meant)).with(
        "results"@,
        JsonView::Array(records),
    ).with(
        "note"@,
        JsonView::Str(
            "任务完成状态由服务端判定。发完消息后请再执行一次「一键处理全部账号」领取积分。"@,
        ),
    )
}

fn make_run_report(dry_run: bool, records: Vec<Json>, sent: i128, meant: i128) -> (r: Json)
    ensures
        r@ == run_report(dry_run, views(records@), sent as int, meant as int),
{
    let ran: usize = records.len();
    Json::object().with("ok", Json::Bool(true)).with("dryRun", Json::Bool(dry_run)).with(
        "ran",
        Json::Int(ran as i128),
    ).with("sentMessages", Json::Int(sent)).with("plannedMessages", Json::Int(meant)).with(
        "results",
        Json::Array(records),
    ).with(
        "note",
        Json::text(
            "任务完成状态由服务端判定。发完消息后请再执行一次「一键处理全部账号」领取积分。",
        ),
    )
}

/// The report where there is nothing that can be done.
pub open spec fn nothing_to_run() -> JsonView {
    JsonView::object().with("ok"@, JsonView::Bool(true)).with("ran"@, JsonView::Int(0)).with(
        "message"@,
        JsonView::Str("当前账号没有可自动完成的任务"@),
    ).with("results"@, JsonView::Array(seq![]))
}

/// What a run needs done next, after a pause of so many milliseconds: a message sent; or nothing
/// more, with the report on the run.
pub enum RunStep {
    Send(u64, String),
    Done(u64, Json),
}

/// What a [`RunStep`] holds.
pub enum RunStepView {
    Send(u64, Seq<char>),
    Done(u64, JsonView),
}

impl View for RunStep {
    type V = RunStepView;

    open spec fn view(&self) -> RunStepView {
        match self {
            RunStep::Send(ms, text) => RunStepView::Send(*ms, text@),
            RunStep::Done(ms, report) => RunStepView::Done(*ms, report@),
        }
    }
}

/// A run: the planned tasks, the task and the message that it has come to, what is logged of that
/// task, what became of the tasks before it, and how many messages were sent.
pub struct RunView {
    pub plan: Seq<PlannedView>,
    pub task: nat,
    pub prompt: nat,
    pub logs: Seq<Seq<char>>,
    pub records: Seq<JsonView>,
    pub sent: nat,
}

impl RunView {
    /// Whether a message waits to be sent.
    pub open spec fn active(self) -> bool {
        self.task < self.plan.len() && self.prompt < self.plan[self.task as int].prompts.len()
    }

    /// The message that waits to be sent.
    pub open spec fn message(self) -> Seq<char> {
        self.plan[self.task as int].prompts[self.prompt as int]
    }

    /// The run with its task behind it.
    pub open spec fn closed(self, ok: bool) -> RunView {
        RunView {
            task: self.task + 1,
            prompt: 0,
            logs: seq![],
            records: self.records.push(record_of(self.plan[self.task as int], ok, self.logs)),
            ..self
        }
    }
}

/// What is logged of a message that was sent.
pub open spec fn sent_log(prompt: Seq<char>, reply: Seq<char>) -> Seq<char> {
    "发送 "@ + quoted(prompt) + " -> "@ + reply
}

/// What is logged of a message that could not be sent.
pub open spec fn failed_log(prompt: Seq<char>, error: Seq<char>) -> Seq<char> {
    "发送 "@ + quoted(prompt) + " 失败: "@ + error
}

/// The next message of a run, or its end.
pub open spec fn ask(pause: u64, r: RunView) -> (RunView, RunStepView) {
    if r.active() {
        (r, RunStepView::Send(pause, r.message()))
    } else {
        (
            r,
            RunStepView::Done(
                pause,
                run_report(false, r.records, r.sent as int, r.sent as int),
            ),
        )
    }
}

/// How a run goes on from what became of the message. The first message of a task that cannot be
/// sent ends the task, not the run.
pub open spec fn run_next(r: RunView, outcome: Result<Seq<char>, Seq<char>>) -> (
    RunView,
    RunStepView,
) {
    if !r.active() {
        ask(0, r)
    } else {
        match outcome {
            Ok(reply) => {
                let next = RunView {
                    logs: r.logs.push(sent_log(r.message(), reply)),
                    sent: r.sent + 1,
                    ..r
                };
                if r.prompt + 1 < r.plan[r.task as int].prompts.len() {
                    ask(1200, RunView { prompt: r.prompt + 1, ..next })
                } else {
                    ask(1200, next.closed(true))
                }
            },
            Err(e) => {
                let next = RunView { logs: r.logs.push(failed_log(r.message(), e)), ..r };
                ask(0, next.closed(false))
            },
        }
    }
}

/// A run that has done nothing yet.
pub open spec fn run_start(plan: Seq<PlannedView>) -> RunView {
    RunView { plan, task: 0, prompt: 0, logs: seq![], records: seq![], sent: 0 }
}

/// The first step of a run of planned tasks.
pub open spec fn run_begin(plan: Seq<PlannedView>, dry_run: bool) -> RunStepView {
    if plan.len() == 0 {
        RunStepView::Done(0, nothing_to_run())
    } else if dry_run {
        RunStepView::Done(
            0,
            run_report(
                true,
                plan.map_values(|p: PlannedView| rehearsal_of(p)),
                0,
                messages_in(plan) as int,
            ),
        )
    } else {
        ask(0, run_start(plan)).1
    }
}

/// The first step of a run, whoever is logged in: without a known account there is no run.
pub open spec fn run_of(
    port: u16,
    login: LoginView,
    tasks_resp: JsonView,
    only: Option<Seq<Seq<char>>>,
    dry_run: bool,
) -> RunStepView {
    match login {
        LoginView::Unreachable(e) => RunStepView::Done(
            0,
            JsonView::object().with("ok"@, JsonView::Bool(false)).with(
                "stage"@,
                JsonView::Str("connect"@),
            ).with("error"@, JsonView::Str(e)).with(
                "hint"@,
                JsonView::Str(
                    "请让 WorkBuddy 带 --remote-debugging-port="@ + int_numeral(port as int)
                        + " 启动。"@,
                ),
            ),
        ),
        LoginView::Unread(acc) => RunStepView::Done(
            0,
            JsonView::object().with("ok"@, JsonView::Bool(false)).with(
                "stage"@,
                JsonView::Str("account"@),
            ).with("error"@, acc),
        ),
        LoginView::Unknown(uid, _) => RunStepView::Done(
            0,
            JsonView::object().with("ok"@, JsonView::Bool(false)).with(
                "stage"@,
                JsonView::Str("account"@),
            ).with("error"@, JsonView::Str("客户端当前登录账号不在本机账号库"@)).with(
                "uid"@,
                JsonView::Str(uid),
            ),
        ),
        LoginView::Known(_, _, _) => run_begin(plan_of(tasks_in(tasks_resp), only), dry_run),
    }
}

/// A run of planned tasks.
pub struct Run {
    plan: Vec<Planned>,
    task: usize,
    prompt: usize,
    logs: Vec<String>,
    records: Vec<Json>,
    sent: u128,
}

impl View for Run {
    type V = RunView;

    closed spec fn view(&self) -> RunView {
        RunView {
            plan: planned_views(self.plan@),
            task: self.task as nat,
            prompt: self.prompt as nat,
            logs: strings_view(self.logs@),
            records: views(self.records@),
            sent: self.sent as nat,
        }
    }
}

/// What holds all through a run: every task takes the messages that its code calls for, a task that
/// is left has a message left, what became of each task before is on record, and no more was
/// sent than those took.
pub open spec fn run_holds(r: RunView) -> bool {
    &&& forall|i: int|
        0 <= i < r.plan.len() ==> (#[trigger] r.plan[i]).prompts == prompts_of(r.plan[i].code)
            && r.plan[i].prompts.len() > 0
    &&& r.task <= r.plan.len()
    &&& r.task < r.plan.len() ==> r.active()
    &&& r.task == r.plan.len() ==> r.prompt == 0
    &&& r.records.len() == r.task
    &&& r.sent <= messages_in(r.plan.take(r.task as int)) + r.prompt
}

proof fn lemma_messages_bound(plan: Seq<PlannedView>)
    requires
        forall|i: int|
            0 <= i < plan.len() ==> (#[trigger] plan[i]).prompts == prompts_of(plan[i].code),
    ensures
        messages_in(plan) <= 5 * plan.len(),
    decreases plan.len(),
{
    if plan.len() > 0 {
        let n = plan.len() - 1;
        assert forall|i: int| 0 <= i < plan.drop_last().len() implies (
        #[trigger] plan.drop_last()[i]).prompts == prompts_of(plan.drop_last()[i].code) by {
            assert(plan.drop_last()[i] == plan[i]);
        }
        lemma_messages_bound(plan.drop_last());
        assert(plan[n].prompts == prompts_of(plan[n].code));
    }
}

proof fn lemma_plan_holds(ts: Seq<JsonView>, only: Option<Seq<Seq<char>>>)
    ensures
        forall|i: int|
            0 <= i < plan_of(ts, only).len() ==> (#[trigger] plan_of(ts, only)[i]).prompts
                == prompts_of(plan_of(ts, only)[i].code) && plan_of(ts, only)[i].prompts.len() > 0,
    decreases ts.len(),
{
    if ts.len() > 0 {
        let before = plan_of(ts.drop_last(), only);
        lemma_plan_holds(ts.drop_last(), only);
        assert forall|i: int| 0 <= i < plan_of(ts, only).len() implies (
        #[trigger] plan_of(ts, only)[i]).prompts == prompts_of(plan_of(ts, only)[i].code)
            && plan_of(ts, only)[i].prompts.len() > 0 by {
            if i < before.len() {
                assert(plan_of(ts, only)[i] == before[i]);
            } else {
                assert(plan_of(ts, only)[i] == planned(ts.last()));
            }
        }
    }
}

/// A run goes through the tasks in order and comes to an end: with each message the run comes
/// nearer to its end, a task is behind it where its last message was sent or one could not be
/// sent, what is counted as sent was sent, and as long as none fails no message is left out.
pub proof fn law_run_in_order(r: RunView, outcome: Result<Seq<char>, Seq<char>>)
    requires
        run_holds(r),
        r.active(),
    ensures
        ({
            let (next, step) = run_next(r, outcome);
            &&& run_holds(next)
            &&& next.plan == r.plan
            &&& next.task == r.task && next.prompt == r.prompt + 1 && outcome is Ok || next.task
                == r.task + 1 && next.prompt == 0
            &&& outcome is Err ==> next.task == r.task + 1
            &&& next.sent == r.sent + (if outcome is Ok {
                1nat
            } else {
                0nat
            })
            &&& outcome is Ok && r.sent == messages_in(r.plan.take(r.task as int)) + r.prompt
                ==> next.sent == messages_in(next.plan.take(next.task as int)) + next.prompt
            &&& step is Done <==> next.task == next.plan.len()
        }),
{
    let (next, step) = run_next(r, outcome);
    let k = r.task as int;
    assert(r.plan.take(k + 1).drop_last() =~= r.plan.take(k));
    assert(r.plan.take(k + 1).last() == r.plan[k]);
    assert(messages_in(r.plan.take(k + 1)) == messages_in(r.plan.take(k)) + r.plan[k].prompts.len());
    if next.task < next.plan.len() {
        assert(next.plan[next.task as int].prompts.len() > 0);
    }
}

/// A rehearsal sends nothing: it is over at once, and its report names no message as sent and all
/// messages of the plan as meant.
pub proof fn law_rehearsal_sends_nothing(plan: Seq<PlannedView>)
    requires
        plan.len() > 0,
    ensures
        run_begin(plan, true) matches RunStepView::Done(_, report) && report.at("sentMessages"@)
            == JsonView::Int(0) && report.at("plannedMessages"@) == JsonView::Int(
            messages_in(plan) as int,
        ),
{
    reveal_strlit("sentMessages");
    reveal_strlit("plannedMessages");
    reveal_strlit("results");
    reveal_strlit("note");
    assert("sentMessages"@.len() == 12 && "plannedMessages"@.len() == 15 && "results"@.len() == 7
        && "note"@.len() == 4);
}

/// The only tasks that are done are open ones that can be done by messages, and, where only some
/// are wanted, those.
pub proof fn law_only_wanted_open_tasks_are_done(
    ts: Seq<JsonView>,
    only: Option<Seq<Seq<char>>>,
    i: int,
)
    requires
        0 <= i < plan_of(ts, only).len(),
    ensures
        exists|j: int|
            0 <= j < ts.len() && will_be_done(#[trigger] ts[j], only) && plan_of(ts, only)[i]
                == planned(ts[j]),
    decreases ts.len(),
{
    let init = ts.drop_last();
    let before = plan_of(init, only);
    if i < before.len() {
        law_only_wanted_open_tasks_are_done(init, only, i);
        let j = choose|j: int|
            0 <= j < init.len() && will_be_done(#[trigger] init[j], only) && before[i] == planned(
                init[j],
            );
        assert(ts[j] == init[j]);
    } else {
        assert(ts[ts.len() - 1] == ts.last());
    }
}

/// Begins a run. The response to the request for the tasks is that of the known account, and is
/// not looked at where none is logged in.
pub fn run(
    port: u16,
    login: &Login,
    tasks_resp: &Json,
    only: &Option<Vec<String>>,
    dry_run: bool,
) -> (r: (Run, RunStep))
    ensures
        run_holds(r.0@),
        r.1@ == run_of(port, login@, tasks_resp@, only_view(*only), dry_run),
        r.1@ is Send ==> r.0@ == run_start(plan_of(tasks_in(tasks_resp@), only_view(*only))),
{
    match login {
        Login::Unreachable(e) => {
            let mut hint = "请让 WorkBuddy 带 --remote-debugging-port=".to_owned();
            hint.append(decimal(port as i128).as_str());
            hint.append(" 启动。");
            let report = Json::object().with("ok", Json::Bool(false)).with(
                "stage",
                Json::text("connect"),
            ).with("error", Json::Str(e.clone())).with("hint", Json::Str(hint));
            (Run::of(Vec::new()), RunStep::Done(0, report))
        },
        Login::Unread(acc) => {
            let report = Json::object().with("ok", Json::Bool(false)).with(
                "stage",
                Json::text("account"),
            ).with("error", acc.copy());
            (Run::of(Vec::new()), RunStep::Done(0, report))
        },
        Login::Unknown(uid, _) => {
            let report = Json::object().with("ok", Json::Bool(false)).with(
                "stage",
                Json::text("account"),
            ).with("error", Json::text("客户端当前登录账号不在本机账号库")).with(
                "uid",
                Json::Str(uid.clone()),
            );
            (Run::of(Vec::new()), RunStep::Done(0, report))
        },
        Login::Known(_, _, _) => {
            let picked = plan(&tasks_of(tasks_resp), only);
            proof {
                lemma_plan_holds(tasks_in(tasks_resp@), only_view(*only));
            }
            if picked.len() == 0 {
                let none: Vec<Json> = Vec::new();
                assert(views(none@) =~= seq![]);
                let report = Json::object().with("ok", Json::Bool(true)).with(
                    "ran",
                    Json::Int(0),
                ).with("message", Json::text("当前账号没有可自动完成的任务")).with(
                    "results",
                    Json::Array(none),
                );
                return (Run::of(picked), RunStep::Done(0, report));
            }
            if dry_run {
                let report = rehearse(&picked);
                return (Run::of(picked), RunStep::Done(0, report));
            }
            let r = Run::of(picked);
            let step = r.next_step(0);
            (r, step)
        },
    }
}

fn rehearse(plan: &Vec<Planned>) -> (r: Json)
    requires
        forall|i: int|
            0 <= i < planned_views(plan@).len() ==> (#[trigger] planned_views(plan@)[i]).prompts
                == prompts_of(planned_views(plan@)[i].code),
    ensures
        r@ == run_report(
            true,
            planned_views(plan@).map_values(|p: PlannedView| rehearsal_of(p)),
            0,
            messages_in(planned_views(plan@)) as int,
        ),
{
    let ghost ps = planned_views(plan@);
    let mut records: Vec<Json> = Vec::new();
    let mut meant: i128 = 0;
    let mut i: usize = 0;
    while i < plan.len()
        invariant
            i <= plan.len(),
            ps == planned_views(plan@),
            forall|j: int|
                0 <= j < ps.len() ==> (#[trigger] ps[j]).prompts == prompts_of(ps[j].code),
            records@.len() == i,
            forall|j: int| 0 <= j < i ==> (#[trigger] records@[j])@ == rehearsal_of(ps[j]),
            meant == messages_in(ps.take(i as int)),
            0 <= meant <= 5 * i,
        decreases plan@.len() - i,
    {
        let p = &plan[i];
        assert(ps.take(i + 1).drop_last() =~= ps.take(i as int));
        assert(ps.take(i + 1).last() == p@);
        assert(ps[i as int] == p@);
        let mut logs: Vec<String> = Vec::new();
        let mut k: usize = 0;
        while k < p.prompts.len()
            invariant
                k <= p.prompts@.len(),
                logs@.len() == k,
                forall|j: int|
                    0 <= j < k ==> (#[trigger] logs@[j])@ == rehearsed(p.prompts@[j]@),
            decreases p.prompts@.len() - k,
        {
            let mut line = "[演练] 将发送：".to_owned();
            line.append(p.prompts[k]);
            logs.push(line);
            k += 1;
        }
        assert(strings_view(logs@) =~= p@.prompts.map_values(|s: Seq<char>| rehearsed(s)));
        assert(p.prompts@.len() == p@.prompts.len());
        meant = meant + p.prompts.len() as i128;
        records.push(make_record(p, true, &logs));
        i += 1;
    }
    assert(ps.take(i as int) =~= ps);
    assert(views(records@) =~= ps.map_values(|p: PlannedView| rehearsal_of(p)));
    make_run_report(true, records, 0, meant)
}

impl Run {
    fn of(plan: Vec<Planned>) -> (r: Run)
        requires
            forall|i: int|
                0 <= i < planned_views(plan@).len() ==> (#[trigger] planned_views(plan@)[i]).prompts
                    == prompts_of(planned_views(plan@)[i].code) && planned_views(
                    plan@,
                )[i].prompts.len() > 0,
        ensures
            run_holds(r@),
            r@ == run_start(planned_views(plan@)),
    {
        let r = Run { plan, task: 0, prompt: 0, logs: Vec::new(), records: Vec::new(), sent: 0 };
        proof {
            assert(r@.logs =~= seq![]);
            assert(r@.records =~= seq![]);
            if r@.plan.len() > 0 {
                assert(r@.plan[0].prompts.len() > 0);
            }
        }
        r
    }

    fn next_step(&self, pause: u64) -> (r: RunStep)
        requires
            run_holds(self@),
        ensures
            r@ == ask(pause, self@).1,
    {
        if self.task < self.plan.len() {
            let p = &self.plan[self.task];
            assert(self@.plan[self.task as int] == p@);
            assert(self.prompt < p.prompts@.len());
            RunStep::Send(pause, p.prompts[self.prompt].to_owned())
        } else {
            proof {
                assert(self@.plan.take(self.task as int) =~= self@.plan);
                lemma_messages_bound(self@.plan);
                assert(self@.plan.len() == self.plan.len());
            }
            let sent: i128 = self.sent as i128;
            RunStep::Done(pause, make_run_report(false, copy_all(&self.records), sent, sent))
        }
    }

    fn close(&mut self, ok: bool)
        requires
            old(self)@.task < old(self)@.plan.len(),
        ensures
            final(self)@ == old(self)@.closed(ok),
    {
        assert(self.task < self.plan.len());
        let record = make_record(&self.plan[self.task], ok, &self.logs);
        self.records.push(record);
        self.task = self.task + 1;
        self.prompt = 0;
        self.logs = Vec::new();
        assert(self@.records =~= old(self)@.closed(ok).records);
        assert(self@.logs =~= seq![]);
    }

    fn log(&mut self, line: String)
        ensures
            final(self)@ == (RunView { logs: old(self)@.logs.push(line@), ..old(self)@ }),
    {
        self.logs.push(line);
        assert(self@.logs =~= old(self)@.logs.push(line@));
    }

    /// Goes on from what became of the last message: what the client reported, or why it could not
    /// be sent.
    pub fn on_sent(&mut self, outcome: Result<String, String>) -> (r: RunStep)
        requires
            run_holds(old(self)@),
        ensures
            run_holds(final(self)@),
            (final(self)@, r@) == run_next(old(self)@, outcome_view(outcome)),
    {
        if self.task >= self.plan.len() {
            return self.next_step(0);
        }
        proof {
            law_run_in_order(self@, outcome_view(outcome));
            let done = self@.plan.take(self@.task as int);
            assert forall|i: int| 0 <= i < done.len() implies (#[trigger] done[i]).prompts
                == prompts_of(done[i].code) by {
                assert(done[i] == self@.plan[i]);
            }
            lemma_messages_bound(done);
            let p = self@.plan[self@.task as int];
            assert(p.prompts == prompts_of(p.code));
            assert(p == self.plan@[self.task as int]@);
        }
        let count: usize = self.plan[self.task].prompts.len();
        let message = self.plan[self.task].prompts[self.prompt];
        let mut line = "发送 ".to_owned();
        line.append(debug_text(message).as_str());
        match outcome {
            Ok(reply) => {
                line.append(" -> ");
                line.append(reply.as_str());
                self.log(line);
                self.sent = self.sent + 1;
                if self.prompt + 1 < count {
                    self.prompt = self.prompt + 1;
                } else {
                    self.close(true);
                }
                self.next_step(1200)
            },
            Err(e) => {
                line.append(" 失败: ");
                line.append(e.as_str());
                self.log(line);
                self.close(false);
                self.next_step(0)
            },
        }
    }
}

/// What became of a message.
pub open spec fn outcome_view(outcome: Result<String, String>) -> Result<Seq<char>, Seq<char>> {
    match outcome {
        Ok(s) => Ok(s@),
        Err(e) => Err(e@),
    }
}

/// What stands for a message whose thread broke down.
pub fn thread_failure(error: &str) -> (r: String)
    ensures
        r@ == "任务线程异常: "@ + error@,
{
    let mut s = "任务线程异常: ".to_owned();
    s.append(error);
    s
}

} // verus!
