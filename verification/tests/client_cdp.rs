use wb_switch_core::client_cdp::{
    account_request, current_account, evaluate_params, evaluation, find_main_page, json_evaluation, list_request, list_targets,
    press_enter, probe, probe_failure, probe_requests, send_message, Cdp, Request, Step, ACCOUNT_JS, CLEAR_JS, DEFAULT_PORT,
    FOCUS_JS, PROBE_JS, READ_BACK_JS,
};
use wb_switch_core::json::{parse, Json, Member};
use wb_switch_core::ws::{encode_text, RecvAction, RecvEvent, Ws};

fn value(text: &str) -> Json {
    parse(text).unwrap()
}

fn object(members: Vec<(&str, Json)>) -> Json {
    Json::Object(
        members
            .into_iter()
            .map(|(k, v)| Member { key: k.to_string(), value: v })
            .collect(),
    )
}

fn evaluated(step: Step) -> String {
    match step {
        Step::Next(Request::Evaluate(e)) => e,
        _ => panic!("no evaluation"),
    }
}

fn called(step: Step) -> (String, Json) {
    match step {
        Step::Next(Request::Call(m, p)) => (m, p),
        _ => panic!("no call"),
    }
}

fn ended(step: Step) -> Result<String, String> {
    match step {
        Step::Done(r) => r,
        Step::Next(_) => panic!("not the end"),
    }
}

#[test]
fn targets_are_read_from_the_listing() {
    assert_eq!(list_targets(r#"[{"type":"page"},1]"#), Ok(vec![
        object(vec![("type", Json::text("page"))]),
        Json::Int(1),
    ]));
    let long = "字".repeat(300);
    let e = list_targets(&long).err().unwrap();
    assert!(e.starts_with("解析 /json/list 失败: expected value at line 1 column 1；原始响应前 200 字符: "));
    assert!(e.ends_with(&"字".repeat(200)));
    assert!(!e.ends_with(&"字".repeat(201)));
    assert!(list_targets("{}").is_err());
}

#[test]
fn the_main_page_goes_before_other_pages() {
    let targets = vec![
        value(r#"{"type":"worker","url":"renderer/index.html"}"#),
        value(r#"{"type":"page","url":"about:blank","webSocketDebuggerUrl":"ws://a"}"#),
        value(r#"{"type":"page","url":"file:///x/renderer/index.html#/","webSocketDebuggerUrl":"ws://b"}"#),
    ];
    let (ws, t) = find_main_page(&targets).ok().unwrap();
    assert_eq!(ws, "ws://b");
    assert_eq!(t, value(r#"{"type":"page","url":"file:///x/renderer/index.html#/","webSocketDebuggerUrl":"ws://b"}"#));
    let (ws, _) = find_main_page(&vec![value(
        r#"{"type":"page","webSocketDebuggerUrl":"ws://a"}"#,
    )])
    .ok()
    .unwrap();
    assert_eq!(ws, "ws://a");
    assert_eq!(
        find_main_page(&vec![value(r#"{"type":"worker"}"#)]).err(),
        Some("没找到可用的 page target（客户端主窗口未就绪？）".to_string())
    );
    assert_eq!(
        find_main_page(&vec![value(r#"{"type":"page"}"#)]).err(),
        Some("target 缺少 webSocketDebuggerUrl".to_string())
    );
}

#[test]
fn calls_are_numbered_and_answered_by_number() {
    let mut cdp = Cdp::connect_main_page(Ws::new(Vec::new()));
    let first = cdp.call("Page.enable", None);
    assert_eq!(first.text(), r#"{"id":1,"method":"Page.enable"}"#);
    let second = cdp.call("Input.insertText", Some(value(r#"{"text":"你"}"#)));
    assert_eq!(
        second.text(),
        r#"{"id":2,"method":"Input.insertText","params":{"text":"你"}}"#
    );
    assert_eq!(second.reply("no json"), None);
    assert_eq!(second.reply(r#"{"method":"event"}"#), None);
    assert_eq!(second.reply(r#"{"id":1,"result":1}"#), None);
    assert_eq!(second.reply(r#"{"id":"2","result":1}"#), None);
    assert_eq!(first.reply(r#"{"id":1,"result":{"a":1}}"#), Some(Ok(value(r#"{"a":1}"#))));
    assert_eq!(second.reply(r#"{"id":2}"#), Some(Ok(Json::Null)));
    assert_eq!(
        second.reply(r#"{"id":2,"error":{"message":"bad","code":-1.5}}"#),
        Some(Err(
            r#"CDP Input.insertText 返回错误: {"code":-1.5,"message":"bad"}"#.to_string()
        ))
    );
}

#[test]
fn a_session_receives_what_its_websocket_holds() {
    let mut cdp = Cdp::connect_main_page(Ws::new(encode_text("hi", [0; 4])));
    match cdp.recv_text(RecvEvent::Clock(false)) {
        RecvAction::Done(r) => assert_eq!(r, Ok("hi".to_string())),
        _ => panic!("no message"),
    }
}

#[test]
fn expressions_are_sent_to_be_evaluated() {
    assert_eq!(
        evaluate_params("1+1"),
        object(vec![
            ("expression", Json::text("1+1")),
            ("awaitPromise", Json::Bool(true)),
            ("returnByValue", Json::Bool(true)),
            ("userGesture", Json::Bool(true)),
        ])
    );
    let mut cdp = Cdp::connect_main_page(Ws::new(Vec::new()));
    assert_eq!(
        cdp.evaluate("1+1").text(),
        r#"{"id":1,"method":"Runtime.evaluate","params":{"awaitPromise":true,"expression":"1+1","returnByValue":true,"userGesture":true}}"#
    );
    assert_eq!(
        cdp.eval_json("x").text(),
        r#"{"id":2,"method":"Runtime.evaluate","params":{"awaitPromise":true,"expression":"(function(){try{return JSON.stringify(x)}catch(e){return JSON.stringify({__err:String(e&&e.message)})}})()","returnByValue":true,"userGesture":true}}"#
    );
}

#[test]
fn evaluations_come_to_a_value_or_an_exception() {
    assert_eq!(evaluation(&value(r#"{"result":{"value":3}}"#)), Ok(Json::Int(3)));
    assert_eq!(evaluation(&value(r#"{"result":{}}"#)), Ok(Json::Null));
    assert_eq!(evaluation(&Json::Null), Ok(Json::Null));
    assert_eq!(
        evaluation(&value(
            r#"{"exceptionDetails":{"text":"T","exception":{"description":"D"}}}"#
        )),
        Err("JS 异常: D".to_string())
    );
    assert_eq!(
        evaluation(&value(r#"{"exceptionDetails":{"text":"T","exception":{}}}"#)),
        Err("JS 异常: T".to_string())
    );
    assert_eq!(
        evaluation(&value(r#"{"exceptionDetails":{}}"#)),
        Err("JS 异常: 未知 JS 异常".to_string())
    );
}

#[test]
fn texts_of_values_are_read_back() {
    assert_eq!(json_evaluation(&Json::text(r#"{"a":[1]}"#)), Ok(value(r#"{"a":[1]}"#)));
    assert_eq!(json_evaluation(&Json::Int(3)), Ok(Json::Null));
    assert_eq!(
        json_evaluation(&Json::text("")),
        Err("解析 JS 结果失败: EOF while parsing a value at line 1 column 0".to_string())
    );
    assert_eq!(current_account(&Json::text(r#"{"ok":true}"#)), Ok(value(r#"{"ok":true}"#)));
    assert_eq!(
        current_account(&Json::text("x")),
        Err("解析账号信息失败: expected value at line 1 column 1；原始: x".to_string())
    );
}

#[test]
fn reports_on_the_connection() {
    assert_eq!(DEFAULT_PORT, 9222);
    assert_eq!(
        probe(
            9222,
            &value(r#"{"title":"T"}"#),
            Ok(Json::text("[1]")),
            Err("x".to_string()),
            Ok(Json::text("h")),
        ),
        object(vec![
            ("ok", Json::Bool(true)),
            ("port", Json::Int(9222)),
            ("targetTitle", Json::text("T")),
            ("targetUrl", Json::Null),
            ("documentTitle", Json::Null),
            ("href", Json::text("h")),
            ("dom", Json::Array(vec![Json::Int(1)])),
        ])
    );
    for dom in [Ok(Json::text("no json")), Ok(Json::Int(1)), Err("x".to_string())] {
        let report = probe(9222, &Json::Null, dom, Ok(Json::Null), Ok(Json::Null));
        assert_eq!(report.get("dom"), Some(&Json::Null));
    }
    assert_eq!(
        probe_failure(80, "why"),
        object(vec![
            ("ok", Json::Bool(false)),
            ("port", Json::Int(80)),
            ("error", Json::text("why")),
            (
                "hint",
                Json::text(
                    "请让 WorkBuddy 带 --remote-debugging-port=80 启动；若客户端已在运行，需要先完全退出再带参数重启。"
                )
            ),
        ])
    );
}

#[test]
fn a_message_is_typed_and_sent_with_enter() {
    let (mut m, first) = send_message("你好");
    assert_eq!(evaluated(Step::Next(first)), FOCUS_JS);
    assert_eq!(evaluated(m.on_reply(Ok(Json::text("FOCUSED:DIV")))), CLEAR_JS);
    assert_eq!(
        called(m.on_reply(Ok(Json::text("CLEARED")))),
        ("Input.insertText".to_string(), value(r#"{"text":"你好"}"#))
    );
    assert_eq!(evaluated(m.on_reply(Ok(Json::Null))), READ_BACK_JS);
    match m.on_reply(Ok(Json::text("你好"))) {
        Step::Next(Request::Pause(ms)) => assert_eq!(ms, 300),
        _ => panic!("no pause"),
    }
    assert_eq!(
        called(m.on_reply(Ok(Json::Null))),
        ("Input.dispatchKeyEvent".to_string(), press_enter("rawKeyDown"))
    );
    assert_eq!(
        called(m.on_reply(Ok(Json::Null))),
        ("Input.dispatchKeyEvent".to_string(), press_enter("keyUp"))
    );
    assert_eq!(ended(m.on_reply(Ok(Json::Null))), Ok("OK TYPED(你好)".to_string()));
    assert_eq!(
        press_enter("keyUp"),
        object(vec![
            ("type", Json::text("keyUp")),
            ("windowsVirtualKeyCode", Json::Int(13)),
            ("nativeVirtualKeyCode", Json::Int(13)),
            ("key", Json::text("Enter")),
            ("code", Json::text("Enter")),
            ("text", Json::text("\r")),
            ("unmodifiedText", Json::text("\r")),
        ])
    );
}

#[test]
fn a_message_needs_a_focused_input() {
    let (mut m, _) = send_message("x");
    assert_eq!(
        ended(m.on_reply(Ok(Json::text("NO_INPUT")))),
        Err("找不到可聚焦的输入框（NO_INPUT）".to_string())
    );
    let (mut m, _) = send_message("x");
    assert_eq!(ended(m.on_reply(Ok(Json::Null))), Err("找不到可聚焦的输入框（）".to_string()));
    let (mut m, _) = send_message("x");
    assert_eq!(ended(m.on_reply(Err("gone".to_string()))), Err("gone".to_string()));
}

#[test]
fn a_failed_read_back_does_not_stop_a_message() {
    let (mut m, _) = send_message("x");
    m.on_reply(Ok(Json::text("FOCUSED:DIV")));
    m.on_reply(Ok(Json::Null));
    m.on_reply(Ok(Json::Null));
    assert!(matches!(
        m.on_reply(Err("lost".to_string())),
        Step::Next(Request::Pause(300))
    ));
    m.on_reply(Ok(Json::Null));
    m.on_reply(Ok(Json::Null));
    assert_eq!(ended(m.on_reply(Ok(Json::Null))), Ok("OK TYPED()".to_string()));
}

#[test]
fn reading_requests_are_these() {
    assert_eq!(evaluated(Step::Next(account_request())), ACCOUNT_JS);
    assert_eq!(
        ACCOUNT_JS,
        "(async()=>{try{const r=await window.__wbInvoke('auth:getAccount');\
         return JSON.stringify({ok:true,v:r})}catch(e){\
         return JSON.stringify({ok:false,m:String(e&&e.message)})}})()"
    );
    let (dom, title, href) = probe_requests();
    let wrapped = evaluated(Step::Next(dom));
    assert!(wrapped.starts_with("(function(){try{return JSON.stringify("));
    assert!(wrapped.contains(PROBE_JS));
    assert_eq!(evaluated(Step::Next(title)), "document.title");
    assert_eq!(evaluated(Step::Next(href)), "location.href");
    assert!(list_request(9222).starts_with("GET /json/list HTTP/1.1\r\nHost: 127.0.0.1:9222\r\n"));
}
