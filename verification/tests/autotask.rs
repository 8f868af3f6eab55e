use wb_switch_core::autotask::{
    is_settled, logged_in, match_local_account, run, status, summarize, task_plan, thread_failure,
    Action, Login, RunStep,
};
use wb_switch_core::json::{parse, Json, Member};

fn value(text: &str) -> Json {
    parse(text).unwrap()
}

fn object(members: Vec<(&str, Json)>) -> Json {
    Json::Object(
        members
            .into_iter()
            .map(|(k, v)| Member { key: k.to_string(), value: v })
            .collect(),
    )
}


#[test]
fn chat_tasks_have_prompts() {
    for code in [
        "RichMeow_Chat",
        "chat_5",
        "skill_1",
        "expert_5",
        "Expert_team_use_3",
        "automation_1",
        "playbook_prompt",
        "create_canvas",
    ] {
        let (action, prompts) = task_plan(code);
        assert_eq!(action, Action::Chat, "{code} 应为可自动");
        assert!(!prompts.is_empty(), "{code} 应有提示词");
    }
}

#[test]
fn manual_tasks_are_not_auto() {
    for code in ["Library_read", "Hp_Appearance", "Buddy_App", "template_5"] {
        assert_eq!(task_plan(code).0, Action::Manual, "{code} 应为需人工");
    }
}

#[test]
fn unknown_task_is_manual() {
    assert_eq!(task_plan("no_such_task").0, Action::Manual);
}

#[test]
fn settled_states_are_detected() {
    assert!(is_settled("completed"));
    assert!(is_settled("claimed"));
    assert!(!is_settled("accepted"));
    assert!(!is_settled("in_progress"));
}

fn known() -> Login {
    logged_in(
        Ok(value(r#"{"ok":true,"v":{"uid":"u1","nickname":"Nick"}}"#)),
        &vec![value(r#"{"uid":"u0"}"#), value(r#"{"uid":"u1","id":"acc"}"#)],
    )
}

fn tasks() -> Json {
    value(
        r#"{"data":{"tasks":[
        {"task_code":"chat_5","accept_status":"accepted","reward_credit":5,"title":"Chat"},
        {"task_code":"skill_1","accept_status":"completed","reward_credit":50},
        {"task_code":"Buddy_App","accept_status":"in_progress","reward_credit":7,"jump_url":"j"},
        {"task_code":"expert_5"}]}}"#,
    )
}

fn sent(step: RunStep) -> (u64, String) {
    match step {
        RunStep::Send(ms, text) => (ms, text),
        RunStep::Done(_, report) => panic!("done: {:?}", report),
    }
}

fn done(step: RunStep) -> (u64, Json) {
    match step {
        RunStep::Send(_, text) => panic!("send: {}", text),
        RunStep::Done(ms, report) => (ms, report),
    }
}

#[test]
fn the_plans_are_these() {
    assert_eq!(task_plan("RichMeow_Chat").1, vec!["你好"]);
    assert_eq!(
        task_plan("chat_5").1,
        vec!["你好", "今天天气怎么样", "帮我写个短句", "推荐一本书", "讲个冷笑话"]
    );
    assert_eq!(task_plan("skill_1").1, vec!["推荐一个热门技能并演示一下"]);
    assert_eq!(task_plan("expert_5").1, vec!["召唤一个专家帮我分析问题"]);
    assert_eq!(task_plan("Expert_team_use_3").1, vec!["召唤专家团"]);
    assert_eq!(task_plan("automation_1").1, vec!["帮我创建一个每天定时执行的自动化任务"]);
    assert_eq!(task_plan("playbook_prompt").1, vec!["给我一些创作灵感"]);
    assert_eq!(task_plan("create_canvas").1, vec!["用设计创意模式帮我画一只小柴犬头像"]);
    assert!(task_plan("first_buddy").1.is_empty());
    assert!(task_plan("").1.is_empty());
}

#[test]
fn the_first_account_with_the_user_id_is_found() {
    let accounts = vec![
        value(r#"{"uid":7}"#),
        value(r#"{"uid":"u","id":"first"}"#),
        value(r#"{"uid":"u","id":"second"}"#),
    ];
    let found = match_local_account(&accounts, "u").unwrap();
    assert_eq!(found.get("id"), Some(&Json::text("first")));
    assert_eq!(match_local_account(&accounts, "7"), None);
    assert_eq!(match_local_account(&Vec::new(), "u"), None);
}

#[test]
fn open_tasks_are_counted_by_how_they_are_done() {
    let list = wb_switch_core::growth::tasks_of(&tasks());
    assert_eq!(summarize(&list), (2, 1, 12));
}

#[test]
fn the_standing_where_the_client_is_silent() {
    let login = logged_in(Err("no".to_string()), &Vec::new());
    assert_eq!(
        status(9222, &login, &Json::Null),
        object(vec![
            ("cdpOk", Json::Bool(false)),
            ("port", Json::Int(9222)),
            ("error", Json::text("no")),
            (
                "hint",
                Json::text(
                    "客户端需带 --remote-debugging-port=9222 启动。若它已在运行，先完全退出再带该参数重启。"
                )
            ),
        ])
    );
}

#[test]
fn the_standing_where_no_account_is_read() {
    let login = logged_in(Ok(value(r#"{"ok":false,"m":"x"}"#)), &Vec::new());
    assert_eq!(
        status(9222, &login, &Json::Null),
        object(vec![
            ("cdpOk", Json::Bool(true)),
            ("port", Json::Int(9222)),
            ("accountOk", Json::Bool(false)),
            ("userInfo", value(r#"{"ok":false,"m":"x"}"#)),
            ("hint", Json::text("已连上客户端，但读取当前账号失败。")),
        ])
    );
}

#[test]
fn the_standing_where_the_account_is_unknown() {
    let login = logged_in(Ok(value(r#"{"ok":true,"v":{"uid":"u9"}}"#)), &Vec::new());
    assert_eq!(
        status(9222, &login, &Json::Null),
        object(vec![
            ("cdpOk", Json::Bool(true)),
            ("accountOk", Json::Bool(false)),
            ("uid", Json::text("u9")),
            ("nickname", Json::Null),
            (
                "hint",
                Json::text(
                    "客户端当前登录的账号不在本机账号库里。请先用本工具把该账号导入/登录。"
                )
            ),
        ])
    );
}

#[test]
fn the_standing_of_a_known_account() {
    let entry = |code: &str, title: Json, credit: i128, status: &str, auto, count, jump: Json| {
        object(vec![
            ("taskCode", Json::text(code)),
            ("title", title),
            ("credit", Json::Int(credit)),
            ("status", Json::text(status)),
            ("auto", Json::Bool(auto)),
            ("promptCount", Json::Int(count)),
            ("jumpUrl", jump),
        ])
    };
    assert_eq!(
        status(9222, &known(), &tasks()),
        object(vec![
            ("cdpOk", Json::Bool(true)),
            ("accountOk", Json::Bool(true)),
            ("port", Json::Int(9222)),
            ("uid", Json::text("u1")),
            ("nickname", Json::text("Nick")),
            ("accountId", Json::text("acc")),
            ("autoCount", Json::Int(2)),
            ("manualCount", Json::Int(1)),
            ("pendingCredit", Json::Int(12)),
            (
                "pending",
                Json::Array(vec![
                    entry("chat_5", Json::text("Chat"), 5, "accepted", true, 5, Json::Null),
                    entry("Buddy_App", Json::Null, 7, "in_progress", false, 0, Json::text("j")),
                    entry("expert_5", Json::Null, 0, "", true, 1, Json::Null),
                ])
            ),
        ])
    );
}

#[test]
fn a_run_needs_a_known_account() {
    let silent = logged_in(Err("no".to_string()), &Vec::new());
    assert_eq!(
        done(run(9222, &silent, &tasks(), &None, false).1).1,
        object(vec![
            ("ok", Json::Bool(false)),
            ("stage", Json::text("connect")),
            ("error", Json::text("no")),
            ("hint", Json::text("请让 WorkBuddy 带 --remote-debugging-port=9222 启动。")),
        ])
    );
    let unread = logged_in(Ok(Json::Null), &Vec::new());
    assert_eq!(
        done(run(9222, &unread, &tasks(), &None, false).1).1,
        object(vec![
            ("ok", Json::Bool(false)),
            ("stage", Json::text("account")),
            ("error", Json::Null),
        ])
    );
    let unknown = logged_in(Ok(value(r#"{"ok":true}"#)), &Vec::new());
    assert_eq!(
        done(run(9222, &unknown, &tasks(), &None, false).1).1,
        object(vec![
            ("ok", Json::Bool(false)),
            ("stage", Json::text("account")),
            ("error", Json::text("客户端当前登录账号不在本机账号库")),
            ("uid", Json::text("")),
        ])
    );
}

#[test]
fn a_run_without_tasks_is_over_at_once() {
    let only = Some(vec!["Buddy_App".to_string(), "skill_1".to_string()]);
    assert_eq!(
        done(run(9222, &known(), &tasks(), &only, false).1),
        (
            0,
            object(vec![
                ("ok", Json::Bool(true)),
                ("ran", Json::Int(0)),
                ("message", Json::text("当前账号没有可自动完成的任务")),
                ("results", Json::Array(vec![])),
            ])
        )
    );
}

#[test]
fn a_rehearsal_lists_the_messages_and_sends_none() {
    let only = Some(vec!["expert_5".to_string(), "chat_5".to_string()]);
    let (ms, report) = done(run(9222, &known(), &tasks(), &only, true).1);
    assert_eq!(ms, 0);
    assert_eq!(report.get("dryRun"), Some(&Json::Bool(true)));
    assert_eq!(report.get("ran"), Some(&Json::Int(2)));
    assert_eq!(report.get("sentMessages"), Some(&Json::Int(0)));
    assert_eq!(report.get("plannedMessages"), Some(&Json::Int(6)));
    let results = report.get("results").unwrap().as_array().unwrap();
    assert_eq!(
        results[1],
        object(vec![
            ("taskCode", Json::text("expert_5")),
            ("title", Json::text("")),
            ("credit", Json::Int(0)),
            ("ok", Json::Bool(true)),
            (
                "logs",
                Json::Array(vec![Json::text("[演练] 将发送：召唤一个专家帮我分析问题")])
            ),
        ])
    );
}

#[test]
fn a_run_sends_the_messages_of_each_task_up_to_a_failure() {
    let (mut r, step) = run(9222, &known(), &tasks(), &None, false);
    assert_eq!(sent(step), (0, "你好".to_string()));
    assert_eq!(sent(r.on_sent(Ok("OK".to_string()))), (1200, "今天天气怎么样".to_string()));
    let next = sent(r.on_sent(Err("gone".to_string())));
    assert_eq!(next, (0, "召唤一个专家帮我分析问题".to_string()));
    let (ms, report) = done(r.on_sent(Ok("fine".to_string())));
    assert_eq!(ms, 1200);
    assert_eq!(
        report,
        object(vec![
            ("ok", Json::Bool(true)),
            ("dryRun", Json::Bool(false)),
            ("ran", Json::Int(2)),
            ("sentMessages", Json::Int(2)),
            ("plannedMessages", Json::Int(2)),
            (
                "results",
                Json::Array(vec![
                    object(vec![
                        ("taskCode", Json::text("chat_5")),
                        ("title", Json::text("Chat")),
                        ("credit", Json::Int(5)),
                        ("ok", Json::Bool(false)),
                        (
                            "logs",
                            Json::Array(vec![
                                Json::text("发送 \"你好\" -> OK"),
                                Json::text("发送 \"今天天气怎么样\" 失败: gone"),
                            ])
                        ),
                    ]),
                    object(vec![
                        ("taskCode", Json::text("expert_5")),
                        ("title", Json::text("")),
                        ("credit", Json::Int(0)),
                        ("ok", Json::Bool(true)),
                        (
                            "logs",
                            Json::Array(vec![Json::text(
                                "发送 \"召唤一个专家帮我分析问题\" -> fine"
                            )])
                        ),
                    ]),
                ])
            ),
            (
                "note",
                Json::text(
                    "任务完成状态由服务端判定。发完消息后请再执行一次「一键处理全部账号」领取积分。"
                )
            ),
        ])
    );
    assert_eq!(thread_failure("panic"), "任务线程异常: panic");
}
