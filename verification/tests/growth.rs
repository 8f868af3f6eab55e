use wb_switch_core::growth::{
    accept_growth_tasks, accept_request, account_key, bind_invite_code, bind_invite_request,
    build_growth_headers, claim_growth_task, claim_request, fetch_growth_profile,
    fetch_growth_tasks, fetch_invite_progress, growth_request, invite_code_message,
    invite_progress_requests, is_unauthorized, log_run, newbie_status, request_url, resp_msg,
    run_newbie_all, run_newbie_for_account, summarize_tasks, tasks_of, turn_never_came, Api,
    Batch, Exchange, ExchangeStep, Header, Newbie, NewbieStep, Outgoing,
};
use wb_switch_core::json::{parse, Json, Member};

fn api() -> Api {
    Api {
        endpoint: "https://host".to_string(),
        growth_prefix: "/growth".to_string(),
        invite_prefix: "/invite".to_string(),
    }
}

fn object(members: Vec<(&str, Json)>) -> Json {
    Json::Object(
        members
            .into_iter()
            .map(|(k, v)| Member { key: k.to_string(), value: v })
            .collect(),
    )
}

fn value(text: &str) -> Json {
    parse(text).unwrap()
}

fn call_of(step: NewbieStep) -> (u64, String, String, Option<Json>) {
    match step {
        NewbieStep::Call(ms, call) => (ms, call.method.to_string(), call.path, call.body),
        NewbieStep::Done(report) => panic!("done: {:?}", report),
    }
}

fn report_of(step: NewbieStep) -> Json {
    match step {
        NewbieStep::Call(_, call) => panic!("call: {}", call.path),
        NewbieStep::Done(report) => report,
    }
}

#[test]
fn every_return_code_has_its_meaning() {
    for (code, message) in [
        (0, "绑定成功"),
        (12310, "该账号已绑定过邀请码，无需重复绑定"),
        (12311, "仅活动期间新注册的用户可绑定邀请码（老账号无法绑定）"),
        (12312, "活动已结束，无法绑定邀请码"),
        (12313, "已静默处理"),
        (12314, "该邀请码不适用于当前活动"),
        (12315, "收货地址已提交锁定，无法修改"),
        (12316, "绑定请求被拒绝，请联系客服"),
        (12319, "邀请码不存在，请检查后重试"),
        (12317, "未知返回码"),
        (-1, "未知返回码"),
    ] {
        assert_eq!(invite_code_message(code), message);
    }
}

#[test]
fn an_account_is_named_by_its_id() {
    assert_eq!(account_key(&object(vec![("id", Json::text("x"))]), "Name"), "x");
    assert_eq!(account_key(&object(vec![("id", Json::text(""))]), "Name"), "Name");
    assert_eq!(account_key(&object(vec![("id", Json::Int(3))]), "Name"), "Name");
    assert_eq!(account_key(&Json::Null, "Name"), "Name");
}

#[test]
fn requests_are_those_of_the_web_page() {
    let auth = vec![
        Header { name: "authorization".to_string(), value: "Bearer t".to_string() },
        Header { name: "origin".to_string(), value: "elsewhere".to_string() },
    ];
    let headers = build_growth_headers(auth, &api());
    let last = |name: &str| {
        headers.iter().rev().find(|h| h.name == name).map(|h| h.value.as_str())
    };
    assert_eq!(last("authorization"), Some("Bearer t"));
    assert_eq!(last("x-client-platform"), Some("web"));
    assert_eq!(last("origin"), Some("https://host"));
    assert_eq!(last("referer"), Some("https://host/profile/growth-center"));
    assert_eq!(request_url(&api(), "/a/b"), "https://host/a/b");
}

#[test]
fn a_refused_login_is_recognised() {
    assert!(is_unauthorized(&value(r#"{"code":401}"#)));
    assert!(is_unauthorized(&value(r#"{"code":403}"#)));
    assert!(is_unauthorized(&value(r#"{"code":1,"message":"UNAUTHORIZED"}"#)));
    assert!(is_unauthorized(&value(r#"{"code":1,"msg":"Invalid ToKeN"}"#)));
    assert!(is_unauthorized(&value(r#"{"code":1,"message":"请重新登录"}"#)));
    assert!(is_unauthorized(&value(r#"{"msg":"已失效"}"#)));
    assert!(is_unauthorized(&value(r#"{"msg":"已过期"}"#)));
    assert!(is_unauthorized(&value(r#"{"msg":"HTTP 401"}"#)));
    assert!(!is_unauthorized(&value(r#"{"code":0,"message":"ok"}"#)));
    assert!(!is_unauthorized(&value(r#"{"message":5,"msg":"token"}"#)));
}

fn exchange(account: &str) -> Exchange {
    let call = bind_invite_request(&api(), "ABC").ok().unwrap();
    growth_request(api(), call, &value(account))
}

fn answered(step: ExchangeStep) -> Option<Json> {
    match step {
        ExchangeStep::Renew => None,
        ExchangeStep::Done(resp) => Some(resp),
    }
}

#[test]
fn a_login_is_renewed_once_and_only_where_it_can_be() {
    let refused = || value(r#"{"code":401}"#);
    let fine = || value(r#"{"code":0}"#);
    let renewable = r#"{"refresh_token":"r"}"#;

    let mut x = exchange(renewable);
    assert_eq!(answered(x.on_response(fine())), Some(fine()));
    let mut x = exchange(renewable);
    assert_eq!(answered(x.on_response(refused())), None);
    assert_eq!(answered(x.on_response(refused())), Some(refused()));
    let mut x = exchange(renewable);
    assert_eq!(answered(x.on_response(refused())), None);
    assert_eq!(answered(x.on_response(fine())), Some(fine()));
    let mut x = exchange(r#"{"refresh_token":""}"#);
    assert_eq!(answered(x.on_response(refused())), Some(refused()));
    let mut x = exchange("null");
    assert_eq!(answered(x.on_response(refused())), Some(refused()));
}

#[test]
fn a_repeated_request_differs_in_its_login_alone() {
    let auth = |token: &str| {
        vec![Header { name: "authorization".to_string(), value: token.to_string() }]
    };
    let mut x = exchange(r#"{"refresh_token":"r"}"#);
    let first = x.request(auth("old"));
    assert_eq!(first.url, "https://host/invite/bind");
    assert_eq!(first.method, "POST");
    assert_eq!(first.body, Some(value(r#"{"inviteCode":"ABC"}"#)));
    assert_eq!(answered(x.on_response(value(r#"{"code":403}"#))), None);
    let second = x.request(auth("new"));
    assert_eq!(second.url, first.url);
    assert_eq!(second.method, first.method);
    assert_eq!(second.body, first.body);
    let pairs = |out: &Outgoing| -> Vec<(String, String)> {
        out.headers.iter().map(|h| (h.name.clone(), h.value.clone())).collect()
    };
    assert_eq!(pairs(&first)[0], ("authorization".to_string(), "old".to_string()));
    assert_eq!(pairs(&second)[0], ("authorization".to_string(), "new".to_string()));
    assert_eq!(pairs(&second)[1..], pairs(&first)[1..]);
}

#[test]
fn the_message_of_a_response() {
    assert_eq!(resp_msg(&value(r#"{"message":"a","msg":"b"}"#)), "a");
    assert_eq!(resp_msg(&value(r#"{"msg":"b"}"#)), "b");
    assert_eq!(resp_msg(&value(r#"{"message":null,"msg":"b"}"#)), "");
    assert_eq!(resp_msg(&value("[]")), "");
}

#[test]
fn binding_a_code() {
    match bind_invite_request(&api(), "") {
        Err(report) => assert_eq!(
            report,
            object(vec![
                ("ok", Json::Bool(false)),
                ("code", Json::Int(-1)),
                ("message", Json::text("邀请码为空或格式无法识别")),
                ("alreadyBound", Json::Bool(false)),
            ])
        ),
        Ok(call) => panic!("{}", call.path),
    }
    let call = bind_invite_request(&api(), "ABC").ok().unwrap();
    assert_eq!(call.method, "POST");
    assert_eq!(call.path, "/invite/bind");
    assert_eq!(call.body, Some(object(vec![("inviteCode", Json::text("ABC"))])));

    let report = |ok, code, message: &str, already| {
        object(vec![
            ("ok", Json::Bool(ok)),
            ("code", Json::Int(code)),
            ("message", Json::text(message)),
            ("alreadyBound", Json::Bool(already)),
        ])
    };
    assert_eq!(bind_invite_code(&value(r#"{"code":0}"#)), report(true, 0, "绑定成功", false));
    assert_eq!(
        bind_invite_code(&value(r#"{"code":12310,"message":"again"}"#)),
        report(true, 12310, "again", true)
    );
    assert_eq!(
        bind_invite_code(&value(r#"{"code":12312}"#)),
        report(false, 12312, "活动已结束，无法绑定邀请码", false)
    );
    assert_eq!(bind_invite_code(&Json::Null), report(false, -1, "未知返回码", false));
}

#[test]
fn the_progress_of_invitations() {
    let (a, b) = invite_progress_requests(&api());
    assert_eq!((a.method, a.path.as_str()), ("GET", "/invite/my-progress"));
    assert_eq!((b.method, b.path.as_str()), ("GET", "/invite/my-code"));
    let progress = r#"{"code":0,"data":{"invite_count":3,"valid_invite_count":2,"total_credits":9,"invited_users":["u"]}}"#;
    let report = fetch_invite_progress(
        value(progress),
        &value(r#"{"data":{"invite_code":"C"}}"#),
    );
    assert_eq!(
        report,
        object(vec![
            ("ok", Json::Bool(true)),
            ("inviteCode", Json::text("C")),
            ("inviteCount", Json::Int(3)),
            ("validInviteCount", Json::Int(2)),
            ("totalCredits", Json::Int(9)),
            ("invitedUsers", Json::Array(vec![Json::text("u")])),
            ("raw", value(progress)),
        ])
    );
    let report = fetch_invite_progress(Json::Null, &Json::Null);
    assert_eq!(report.get("ok"), Some(&Json::Bool(false)));
    assert_eq!(report.get("inviteCode"), Some(&Json::text("")));
    assert_eq!(report.get("invitedUsers"), Some(&Json::Array(vec![])));
}

#[test]
fn requests_for_tasks() {
    assert_eq!(fetch_growth_tasks(&api()).path, "/growth/tasks");
    assert_eq!(fetch_growth_profile(&api()).path, "/growth/profile");
    let claim = claim_request(&api(), "t1");
    assert_eq!((claim.method, claim.path.as_str()), ("POST", "/growth/tasks/t1/claim"));
    assert_eq!(claim.body, None);
    let accept = accept_request(&api(), &vec!["a".to_string(), "b".to_string()]).ok().unwrap();
    assert_eq!((accept.method, accept.path.as_str()), ("POST", "/growth/tasks/accept"));
    assert_eq!(accept.body, Some(value(r#"{"task_codes":["a","b"]}"#)));
    match accept_request(&api(), &Vec::new()) {
        Err(report) => assert_eq!(
            report,
            object(vec![
                ("ok", Json::Bool(true)),
                ("accepted", Json::Int(0)),
                ("message", Json::text("没有待接受的任务")),
            ])
        ),
        Ok(call) => panic!("{}", call.path),
    }
}

#[test]
fn reports_on_tasks() {
    let ok = r#"{"code":0,"message":"m"}"#;
    let refused = r#"{"code":7,"msg":"n"}"#;
    assert_eq!(
        accept_growth_tasks(value(ok), 4),
        object(vec![
            ("ok", Json::Bool(true)),
            ("accepted", Json::Int(4)),
            ("message", Json::text("m")),
            ("raw", value(ok)),
        ])
    );
    assert_eq!(accept_growth_tasks(value(refused), 4).get("accepted"), Some(&Json::Int(0)));
    assert_eq!(
        claim_growth_task(value(refused)),
        object(vec![
            ("ok", Json::Bool(false)),
            ("code", Json::Int(7)),
            ("message", Json::text("n")),
            ("raw", value(refused)),
        ])
    );
    assert_eq!(tasks_of(&value(r#"{"data":{"tasks":[1,2]}}"#)), vec![Json::Int(1), Json::Int(2)]);
    assert_eq!(tasks_of(&value(r#"{"data":{"tasks":{}}}"#)), vec![]);
    assert_eq!(tasks_of(&Json::Null), vec![]);
}

#[test]
fn tasks_are_summed_up_by_state() {
    let tasks = vec![
        value(r#"{"task_code":"a","accept_status":"completed","reward_credit":10}"#),
        value(r#"{"task_code":"b","accept_status":"in_progress","reward_credit":5,"title":"B","progress":{"current":1,"target":3},"jump_url":"u","description":"d"}"#),
        value(r#"{"task_code":"c","accept_status":"accepted","reward_credit":7,"progress":{"current":3,"target":3}}"#),
        value(r#"{"task_code":"d","reward_credit":2}"#),
        value(r#"{"task_code":"e","accept_status":"claimed","reward_credit":100}"#),
        value(r#"{"task_code":"f","accept_status":"strange","reward_credit":100}"#),
        value(r#"{"task_code":"g","accept_status":"completed","reward_credit":1}"#),
    ];
    assert_eq!(
        summarize_tasks(&tasks),
        object(vec![
            ("total", Json::Int(7)),
            ("earnableCredit", Json::Int(11)),
            ("pendingCredit", Json::Int(7)),
            (
                "statusCounts",
                object(vec![
                    ("completed", Json::Int(2)),
                    ("in_progress", Json::Int(1)),
                    ("accepted", Json::Int(1)),
                    ("not_accepted", Json::Int(1)),
                    ("claimed", Json::Int(1)),
                    ("strange", Json::Int(1)),
                ])
            ),
            (
                "pending",
                Json::Array(vec![
                    object(vec![
                        ("taskCode", Json::text("b")),
                        ("title", Json::text("B")),
                        ("credit", Json::Int(5)),
                        ("acceptStatus", Json::text("in_progress")),
                        ("current", Json::Int(1)),
                        ("target", Json::Int(3)),
                        ("jumpUrl", Json::text("u")),
                        ("description", Json::text("d")),
                    ]),
                    object(vec![
                        ("taskCode", Json::text("d")),
                        ("title", Json::text("")),
                        ("credit", Json::Int(2)),
                        ("acceptStatus", Json::text("not_accepted")),
                        ("current", Json::Int(0)),
                        ("target", Json::Int(0)),
                        ("jumpUrl", Json::text("")),
                        ("description", Json::text("")),
                    ]),
                ])
            ),
        ])
    );
}

fn begin(config: &str, bind: bool, code: &str) -> (Newbie, NewbieStep) {
    run_newbie_for_account(api(), &value(config), &value(r#"{"id":"acc"}"#), "Name", bind, code)
}

#[test]
fn a_round_binds_accepts_and_claims() {
    let (mut round, step) = begin(r#"{"invite_code":"link?c=ABC"}"#, true, "ABC");
    let (ms, method, path, body) = call_of(step);
    assert_eq!((ms, method.as_str(), path.as_str()), (0, "POST", "/invite/bind"));
    assert_eq!(body, Some(value(r#"{"inviteCode":"ABC"}"#)));

    let (ms, method, path, _) = call_of(round.on_response(value(r#"{"code":0}"#)));
    assert_eq!((ms, method.as_str(), path.as_str()), (0, "GET", "/growth/tasks"));

    let listed = r#"{"code":0,"data":{"tasks":[
        {"task_code":"t1","accept_status":"not_accepted","reward_credit":3},
        {"task_code":"","accept_status":"not_accepted"},
        {"task_code":"t2"},
        {"task_code":"t3","accept_status":"completed","reward_credit":5}]}}"#;
    let (ms, method, path, body) = call_of(round.on_response(value(listed)));
    assert_eq!((ms, method.as_str(), path.as_str()), (0, "POST", "/growth/tasks/accept"));
    assert_eq!(body, Some(value(r#"{"task_codes":["t1"]}"#)));

    let (ms, method, path, _) = call_of(round.on_response(value(r#"{"code":0,"message":"done"}"#)));
    assert_eq!((ms, method.as_str(), path.as_str()), (600, "GET", "/growth/tasks"));

    let relisted = r#"{"code":0,"data":{"tasks":[
        {"task_code":"t1","accept_status":"completed","reward_credit":3,"title":"One"},
        {"accept_status":"completed","reward_credit":50},
        {"task_code":"t3","accept_status":"completed","reward_credit":5,"title":"Three"},
        {"task_code":"t4","accept_status":"accepted","reward_credit":8}]}}"#;
    let (_, method, path, _) = call_of(round.on_response(value(relisted)));
    assert_eq!((method.as_str(), path.as_str()), ("POST", "/growth/tasks/t1/claim"));
    let (_, _, path, _) = call_of(round.on_response(value(r#"{"code":0}"#)));
    assert_eq!(path, "/growth/tasks/t3/claim");
    let report = report_of(round.on_response(value(r#"{"code":9}"#)));

    assert_eq!(report.get("ok"), Some(&Json::Bool(true)));
    assert_eq!(report.get("account"), Some(&Json::text("Name")));
    assert_eq!(report.get("accountId"), Some(&Json::text("acc")));
    assert_eq!(report.get("claimedCount"), Some(&Json::Int(1)));
    assert_eq!(report.get("claimedCredit"), Some(&Json::Int(3)));
    assert_eq!(report.get("earnableCredit"), Some(&Json::Int(58)));
    assert_eq!(report.get("pendingCredit"), Some(&Json::Int(8)));
    assert_eq!(
        report.get("steps"),
        Some(&Json::Array(vec![
            object(vec![
                ("step", Json::text("bind-invite")),
                ("ok", Json::Bool(true)),
                ("code", Json::Int(0)),
                ("message", Json::text("绑定成功")),
                ("inviteCode", Json::text("link?c=ABC")),
            ]),
            object(vec![
                ("step", Json::text("accept-tasks")),
                ("ok", Json::Bool(true)),
                ("accepted", Json::Int(1)),
                ("taskCodes", Json::Array(vec![Json::text("t1")])),
                ("message", Json::text("done")),
            ]),
            object(vec![
                ("step", Json::text("claim-tasks")),
                ("ok", Json::Bool(true)),
                ("claimed", Json::Int(1)),
                ("credit", Json::Int(3)),
                ("titles", Json::Array(vec![Json::text("One")])),
            ]),
        ]))
    );

    let entry = log_run(42, &value(r#"{"id":"acc"}"#), "Name", &report);
    assert_eq!(
        entry,
        object(vec![
            ("ts", Json::Int(42)),
            ("accountId", Json::text("acc")),
            ("email", Json::text("Name")),
            ("ok", Json::Bool(true)),
            ("claimedCount", Json::Int(1)),
            ("claimedCredit", Json::Int(3)),
            ("pendingCredit", Json::Int(8)),
        ])
    );
}

#[test]
fn a_round_without_a_code_reports_it_and_goes_on() {
    let (_, step) = begin("{}", true, "");
    assert_eq!(call_of(step).2, "/growth/tasks");
    let (mut round, _) = begin("{}", true, "");
    let report = report_of(round.on_response(value(r#"{"code":5,"message":"down"}"#)));
    assert_eq!(
        report,
        object(vec![
            ("ok", Json::Bool(false)),
            ("account", Json::text("Name")),
            (
                "steps",
                Json::Array(vec![
                    object(vec![
                        ("step", Json::text("bind-invite")),
                        ("ok", Json::Bool(false)),
                        ("code", Json::Int(-1)),
                        ("message", Json::text("邀请码为空或格式无法识别")),
                        ("inviteCode", Json::text("")),
                    ]),
                    object(vec![
                        ("step", Json::text("fetch-tasks")),
                        ("ok", Json::Bool(false)),
                        ("message", Json::text("down")),
                    ]),
                ])
            ),
        ])
    );
    let entry = log_run(1, &Json::Null, "Name", &report);
    assert_eq!(entry.get("claimedCount"), Some(&Json::Null));
    assert_eq!(entry.get("accountId"), Some(&Json::text("Name")));
}

#[test]
fn a_round_leaves_out_what_is_switched_off() {
    let config = r#"{"auto_accept_tasks":false,"auto_claim_tasks":false}"#;
    let (mut round, step) = begin(config, false, "ABC");
    assert_eq!(call_of(step).2, "/growth/tasks");
    let listed = r#"{"code":0,"data":{"tasks":[
        {"task_code":"t1","accept_status":"not_accepted"},
        {"task_code":"t2","accept_status":"completed","reward_credit":5}]}}"#;
    let report = report_of(round.on_response(value(listed)));
    assert_eq!(report.get("steps"), Some(&Json::Array(vec![])));
    assert_eq!(report.get("claimedCount"), Some(&Json::Int(0)));
    assert_eq!(report.get("earnableCredit"), Some(&Json::Int(5)));
}

#[test]
fn a_round_with_nothing_to_accept_claims_at_once() {
    let (mut round, _) = begin("{}", false, "");
    let listed = r#"{"code":0,"data":{"tasks":[{"task_code":"","accept_status":"completed"}]}}"#;
    let (_, _, path, _) = call_of(round.on_response(value(listed)));
    assert_eq!(path, "/growth/tasks//claim");
    let report = report_of(round.on_response(value(r#"{"code":0}"#)));
    assert_eq!(
        report.get("steps"),
        Some(&Json::Array(vec![
            object(vec![
                ("step", Json::text("accept-tasks")),
                ("ok", Json::Bool(true)),
                ("accepted", Json::Int(0)),
                ("message", Json::text("没有待接受的任务")),
            ]),
            object(vec![
                ("step", Json::text("claim-tasks")),
                ("ok", Json::Bool(true)),
                ("claimed", Json::Int(1)),
                ("credit", Json::Int(0)),
                ("titles", Json::Array(vec![Json::text("")])),
            ]),
        ]))
    );
}

#[test]
fn a_second_listing_that_fails_leaves_the_first() {
    let (mut round, _) = begin("{}", false, "");
    let listed = r#"{"code":0,"data":{"tasks":[
        {"task_code":"t1","accept_status":"not_accepted","reward_credit":4},
        {"task_code":"t2","accept_status":"completed","reward_credit":5}]}}"#;
    call_of(round.on_response(value(listed)));
    call_of(round.on_response(value(r#"{"code":1}"#)));
    let (_, _, path, _) = call_of(round.on_response(value(r#"{"code":1}"#)));
    assert_eq!(path, "/growth/tasks/t2/claim");
}

#[test]
fn the_rounds_of_all_accounts_do_not_bind() {
    let config = value(r#"{"enabled":true,"invite_code":"ABC"}"#);
    let (mut round, step) = Batch::begin_round(api(), &config, &Json::Null, "Name");
    assert_eq!(call_of(step).2, "/growth/tasks");
    let report = report_of(round.on_response(value(r#"{"code":0}"#)));
    let steps = report.get("steps").unwrap().as_array().unwrap();
    assert_eq!(steps[0].get("step"), Some(&Json::text("accept-tasks")));
    assert_eq!(steps[1].get("step"), Some(&Json::text("claim-tasks")));
    assert_eq!(steps.len(), 2);
}

#[test]
fn the_rounds_of_all_accounts_are_gated() {
    let on = value(r#"{"enabled":true}"#);
    let refused = |r: Result<Batch, Json>| r.err().unwrap();
    assert_eq!(
        refused(run_newbie_all(true, &on, 3)),
        object(vec![
            ("status", Json::text("skipped")),
            ("reason", Json::text("already_running")),
        ])
    );
    assert_eq!(
        refused(run_newbie_all(false, &value(r#"{"enabled":"yes"}"#), 3)),
        object(vec![("status", Json::text("disabled"))])
    );
    assert_eq!(
        refused(run_newbie_all(false, &on, 0)),
        object(vec![("status", Json::text("no_accounts"))])
    );
}

#[test]
fn reports_are_listed_in_the_order_of_the_accounts() {
    let on = value(r#"{"enabled":true}"#);
    let a = r#"{"claimedCount":1,"claimedCredit":10}"#;
    let c = r#"{"claimedCount":2,"claimedCredit":-3}"#;
    let mut batch = run_newbie_all(false, &on, 4).ok().unwrap();
    batch.on_report(2, value(c));
    batch.on_report(3, turn_never_came());
    batch.on_report(0, value(a));
    assert_eq!(
        batch.report(77),
        object(vec![
            ("status", Json::text("ok")),
            (
                "accounts",
                Json::Array(vec![
                    value(a),
                    value(c),
                    object(vec![
                        ("ok", Json::Bool(false)),
                        ("account", Json::text("?")),
                        ("reason", Json::text("semaphore_closed")),
                    ]),
                ])
            ),
            ("totalClaimed", Json::Int(3)),
            ("totalCredit", Json::Int(7)),
            ("elapsedMs", Json::Int(77)),
            ("concurrency", Json::Int(4)),
        ])
    );
}

#[test]
fn the_standing_of_an_account() {
    let report = newbie_status(
        value(r#"{"enabled":true}"#),
        Json::text("invites"),
        &value(r#"{"code":0,"data":{"tasks":[{"accept_status":"completed","reward_credit":6}]}}"#),
        &value(r#"{"data":{"level":2,"level_name":"L","completed":1}}"#),
    );
    assert_eq!(
        report,
        object(vec![
            ("ok", Json::Bool(true)),
            ("config", value(r#"{"enabled":true}"#)),
            ("inviteProgress", Json::text("invites")),
            ("level", Json::Int(2)),
            ("levelName", Json::text("L")),
            ("completedTasks", Json::Int(1)),
            ("totalTasks", Json::Null),
            ("earnableCredit", Json::Int(6)),
            ("pendingCredit", Json::Int(0)),
            ("statusCounts", object(vec![("completed", Json::Int(1))])),
            ("pending", Json::Array(vec![])),
        ])
    );
}
