//! The session with the desktop client.
use crate::client_cdp::{
    answer_in, answer_of, call_message, evaluate_message, evaluated, main_page, main_page_address,
    message_next, probe_report, reply_view, request_of, restart_hint, stringified,
    stringified_result, targets_of, MessageView, Request, RequestView, Stage, Step, StepView,
    ACCOUNT_JS, CLEAR_JS, FOCUS_JS, PROBE_JS, READ_BACK_JS,
};
use crate::json::{displayed, first_that, parsed, parsed_list, Json, JsonView};
use crate::laws::json::law_the_first_of_a_kind;
use crate::laws::text::law_a_part_is_found;
use crate::text::{numeral, occurs, occurs_at};
use vstd::prelude::*;

verus! {

/// A listing that can be read gives its targets; of one that cannot, the reason is given with at most
/// its first two hundred characters.
pub proof fn law_the_listing(body: Seq<char>, shown: Seq<char>, rest: Seq<char>)
    requires
        body == shown + rest,
        shown.len() == 200 || shown.len() < 200 && rest.len() == 0,
    ensures
        parsed_list(body) matches Ok(ts) ==> targets_of(body) == Ok::<Seq<JsonView>, Seq<char>>(ts),
        parsed_list(body) matches Err(e) ==> targets_of(body) == Err::<Seq<JsonView>, Seq<char>>(
            "解析 /json/list 失败: "@ + e + "；原始响应前 200 字符: "@ + shown,
        ),
{
    assert(body.take(shown.len() as int) =~= shown);
}

/// The first page whose address names the client's window is talked to, whatever stands before and
/// behind it in the list, and whatever else its address holds.
pub proof fn law_the_clients_window_is_found(
    before: Seq<JsonView>,
    t: JsonView,
    behind: Seq<JsonView>,
    a: Seq<char>,
    b: Seq<char>,
    ws: Seq<char>,
)
    requires
        t.get("type"@) == Some(JsonView::Str("page"@)),
        t.get("url"@) == Some(JsonView::Str(a + "renderer/index.html"@ + b)),
        t.get("webSocketDebuggerUrl"@) == Some(JsonView::Str(ws)),
        forall|i: int|
            0 <= i < before.len() ==> !((#[trigger] before[i]).get("type"@) == Some(
                JsonView::Str("page"@),
            ) && (before[i].get("url"@) matches Some(JsonView::Str(u)) && occurs(
                u,
                "renderer/index.html"@,
            ))),
    ensures
        main_page(before + seq![t] + behind) == Some(t),
        main_page_address(before + seq![t] + behind) == Ok::<(Seq<char>, JsonView), Seq<char>>(
            (ws, t),
        ),
{
    law_a_part_is_found(a, "renderer/index.html"@, b);
    let main = |t: JsonView| crate::client_cdp::is_main_page(t);
    assert forall|i: int| 0 <= i < before.len() implies !main(#[trigger] before[i]) by {}
    law_the_first_of_a_kind(before, t, behind, main);
}

/// Where no page is the client's window, the first page is talked to.
pub proof fn law_else_the_first_page(before: Seq<JsonView>, t: JsonView, behind: Seq<JsonView>)
    requires
        t.get("type"@) == Some(JsonView::Str("page"@)),
        forall|i: int|
            0 <= i < before.len() ==> (#[trigger] before[i]).get("type"@) != Some(
                JsonView::Str("page"@),
            ),
        forall|i: int|
            0 <= i < (seq![t] + behind).len() ==> !(#[trigger] (seq![t] + behind)[i].get("url"@)
                matches Some(JsonView::Str(u)) && occurs(u, "renderer/index.html"@)),
    ensures
        main_page(before + seq![t] + behind) == Some(t),
{
    let all = before + seq![t] + behind;
    let main = |t: JsonView| crate::client_cdp::is_main_page(t);
    let any = |t: JsonView| crate::client_cdp::is_page(t);
    assert forall|i: int| 0 <= i < before.len() implies !any(#[trigger] before[i]) by {}
    law_the_first_of_a_kind(before, t, behind, any);
    crate::json::lemma_first_that_holds(all, main);
    if first_that(all, main) is Some {
        let k = first_that(all, main)->0;
        if k < before.len() {
            assert(all[k] == before[k]);
        } else {
            assert(all[k] == (seq![t] + behind)[k - before.len()]);
            assert((seq![t] + behind)[k - before.len()].get("url"@) is Some);
        }
        assert(main(all[k]));
    }
}

/// Without a page there is nothing to talk to, and neither is there without its debugging address.
pub proof fn law_nothing_to_talk_to(targets: Seq<JsonView>)
    ensures
        (forall|i: int|
            0 <= i < targets.len() ==> (#[trigger] targets[i]).get("type"@) != Some(
                JsonView::Str("page"@),
            )) ==> main_page_address(targets) == Err::<(Seq<char>, JsonView), Seq<char>>(
            "没找到可用的 page target（客户端主窗口未就绪？）"@,
        ),
        main_page(targets) matches Some(t) && !(t.get("webSocketDebuggerUrl"@) matches Some(
            JsonView::Str(_),
        )) ==> main_page_address(targets) == Err::<(Seq<char>, JsonView), Seq<char>>(
            "target 缺少 webSocketDebuggerUrl"@,
        ),
{
    crate::client_cdp::law_the_main_page_comes_first(targets);
    if main_page(targets) is Some {
        let t = main_page(targets)->0;
        let i = targets.index_of(t);
        assert(targets[i] == t);
        assert(targets[i].get("type"@) == Some(JsonView::Str("page"@)));
    }
}

/// A call carries its number, its method and its parameters, where it has any, and nothing else.
pub proof fn law_the_message_of_a_call(id: nat, method: Seq<char>, params: JsonView)
    ensures
        call_message(id, method, None) == JsonView::Object(
            map!["id"@ => JsonView::Int(id as int), "method"@ => JsonView::Str(method)],
        ),
        call_message(id, method, Some(params)) == JsonView::Object(
            map!["id"@ => JsonView::Int(id as int), "method"@ => JsonView::Str(method),
                "params"@ => params],
        ),
{
}

/// An expression is evaluated with its promise awaited, its value returned, and as if a user had done
/// it.
pub proof fn law_the_message_of_an_evaluation(expression: Seq<char>)
    ensures
        evaluate_message(expression) == JsonView::Object(
            map!["expression"@ => JsonView::Str(expression), "awaitPromise"@ => JsonView::Bool(true),
                "returnByValue"@ => JsonView::Bool(true), "userGesture"@ => JsonView::Bool(true)],
        ),
{
}

/// A message with the number of a call answers it, with its result or its error; a message with
/// another number, or none, or that is no JSON, does not.
pub proof fn law_what_answers_a_call(
    id: nat,
    method: Seq<char>,
    raw: Seq<char>,
    m: Map<Seq<char>, JsonView>,
    other: int,
)
    requires
        id <= u64::MAX,
        other != id,
    ensures
        parsed(raw) == Ok::<JsonView, Seq<char>>(JsonView::Object(m)) ==> answer_of(id, method, raw)
            == answer_in(id, method, JsonView::Object(m)),
        parsed(raw) is Err ==> answer_of(id, method, raw) is None,
        m.contains_key("id"@) && m["id"@] == JsonView::Int(id as int) && !m.contains_key("error"@)
            && m.contains_key("result"@) ==> answer_in(id, method, JsonView::Object(m)) == Some(
            Ok::<JsonView, Seq<char>>(m["result"@]),
        ),
        m.contains_key("id"@) && m["id"@] == JsonView::Int(id as int) && !m.contains_key("error"@)
            && !m.contains_key("result"@) ==> answer_in(id, method, JsonView::Object(m)) == Some(
            Ok::<JsonView, Seq<char>>(JsonView::Null),
        ),
        m.contains_key("id"@) && m["id"@] == JsonView::Int(id as int) && m.contains_key("error"@)
            ==> answer_in(id, method, JsonView::Object(m)) == Some(
            Err::<JsonView, Seq<char>>(
                "CDP "@ + method + " 返回错误: "@ + displayed(m["error"@]),
            ),
        ),
        m.contains_key("id"@) && m["id"@] == JsonView::Int(other) ==> answer_in(
            id,
            method,
            JsonView::Object(m),
        ) is None,
        !m.contains_key("id"@) || m["id"@] !is Int ==> answer_in(id, method, JsonView::Object(m))
            is None,
{
}

/// An evaluation comes to the value in its result, or to the exception that it raised, by its
/// description, else by its text.
pub proof fn law_what_an_evaluation_comes_to(m: Map<Seq<char>, JsonView>, details: JsonView)
    ensures
        !m.contains_key("exceptionDetails"@) ==> evaluated(JsonView::Object(m)) == Ok::<
            JsonView,
            Seq<char>,
        >(
            match JsonView::Object(m).get("result"@) {
                Some(inner) => match inner.get("value"@) {
                    Some(v) => v,
                    None => JsonView::Null,
                },
                None => JsonView::Null,
            },
        ),
        m.contains_key("exceptionDetails"@) && m["exceptionDetails"@] == details ==> evaluated(
            JsonView::Object(m),
        ) == Err::<JsonView, Seq<char>>(
            "JS 异常: "@ + (if details.get("exception"@) matches Some(e) && e.get("description"@)
                matches Some(JsonView::Str(_)) {
                details.get("exception"@)->0.get("description"@)->0->Str_0
            } else if details.get("text"@) matches Some(JsonView::Str(_)) {
                details.get("text"@)->0->Str_0
            } else {
                "未知 JS 异常"@
            }),
        ),
{
}

/// A wrapped expression holds the whole expression where its text is made, and what it came to is
/// read from that text; anything else is read as null.
pub proof fn law_wrapped_expressions(expr: Seq<char>, raw: JsonView)
    ensures
        stringified(expr) == "(function(){try{return JSON.stringify("@ + expr
            + ")}catch(e){return JSON.stringify({__err:String(e&&e.message)})}})()"@,
        raw matches JsonView::Str(s) ==> stringified_result(raw) == (match parsed(s) {
            Ok(v) => Ok::<JsonView, Seq<char>>(v),
            Err(e) => Err("解析 JS 结果失败: "@ + e),
        }),
        raw !is Str ==> stringified_result(raw) == (match parsed("null"@) {
            Ok(v) => Ok::<JsonView, Seq<char>>(v),
            Err(e) => Err("解析 JS 结果失败: "@ + e),
        }),
{
}

/// The report on a connection tells where it goes and what its page says of itself.
pub proof fn law_the_report_on_a_connection(
    port: u16,
    target: JsonView,
    dom: Seq<char>,
    title: JsonView,
    href: JsonView,
    e: Seq<char>,
)
    ensures
        probe_report(port, target, Ok(JsonView::Str(dom)), Ok(title), Ok(href)) == JsonView::Object(
            map!["ok"@ => JsonView::Bool(true), "port"@ => JsonView::Int(port as int),
                "targetTitle"@ => target.at("title"@), "targetUrl"@ => target.at("url"@),
                "documentTitle"@ => title, "href"@ => href, "dom"@ => match parsed(dom) {
                    Ok(v) => v,
                    Err(_) => JsonView::Null,
                }],
        ),
        probe_report(port, target, Err(e), Err(e), Err(e)) == JsonView::Object(
            map!["ok"@ => JsonView::Bool(true), "port"@ => JsonView::Int(port as int),
                "targetTitle"@ => target.at("title"@), "targetUrl"@ => target.at("url"@),
                "documentTitle"@ => JsonView::Null, "href"@ => JsonView::Null,
                "dom"@ => JsonView::Null],
        ),
        restart_hint(port) == "请让 WorkBuddy 带 --remote-debugging-port="@ + numeral(port as nat)
            + " 启动；若客户端已在运行，需要先完全退出再带参数重启。"@,
{
}

/// A message that is sent to its good end went through all of this, in this order: the input box was
/// focused and emptied; the text of the message, all of it and nothing else, was put in, once; the
/// box was read back; and after a pause the Enter key went down and up.
pub proof fn law_a_message_that_is_sent(
    text: Seq<char>,
    replies: Seq<Result<JsonView, Seq<char>>>,
)
    requires
        replies.len() == 7,
    ensures
        ({
            let m = MessageView { text, stage: Stage::Focus, shown: seq![] };
            let (m1, s1) = message_next(m, replies[0]);
            let (m2, s2) = message_next(m1, replies[1]);
            let (m3, s3) = message_next(m2, replies[2]);
            let (m4, s4) = message_next(m3, replies[3]);
            let (m5, s5) = message_next(m4, replies[4]);
            let (m6, s6) = message_next(m5, replies[5]);
            let (m7, s7) = message_next(m6, replies[6]);
            let focused = replies[0] matches Ok(JsonView::Str(said)) && said.len() >= 7
                && said.take(7) == "FOCUSED"@;
            let all_went_well = focused && replies[1] is Ok && replies[2] is Ok && replies[4] is Ok
                && replies[5] is Ok && replies[6] is Ok;
            let key = |kind: Seq<char>|
                JsonView::Object(
                    map!["type"@ => JsonView::Str(kind), "windowsVirtualKeyCode"@ => JsonView::Int(
                        13,
                    ), "nativeVirtualKeyCode"@ => JsonView::Int(13), "key"@ => JsonView::Str(
                        "Enter"@,
                    ), "code"@ => JsonView::Str("Enter"@), "text"@ => JsonView::Str("\r"@),
                        "unmodifiedText"@ => JsonView::Str("\r"@)],
                );
            &&& request_of(Stage::Focus, text) == RequestView::Evaluate(FOCUS_JS@)
            &&& s1 is Next && s2 is Next && s3 is Next && s4 is Next && s5 is Next && s6 is Next
                && (s7 matches StepView::Done(Ok(_))) ==> all_went_well
            &&& all_went_well ==> {
                &&& s1 == StepView::Next(RequestView::Evaluate(CLEAR_JS@))
                &&& s2 == StepView::Next(
                    RequestView::Call(
                        "Input.insertText"@,
                        JsonView::Object(map!["text"@ => JsonView::Str(text)]),
                    ),
                )
                &&& s3 == StepView::Next(RequestView::Evaluate(READ_BACK_JS@))
                &&& s4 == StepView::Next(RequestView::Pause(300))
                &&& s5 == StepView::Next(
                    RequestView::Call("Input.dispatchKeyEvent"@, key("rawKeyDown"@)),
                )
                &&& s6 == StepView::Next(
                    RequestView::Call("Input.dispatchKeyEvent"@, key("keyUp"@)),
                )
                &&& s7 == StepView::Done(
                    Ok(
                        "OK TYPED("@ + (match replies[3] {
                            Ok(JsonView::Str(shown)) => shown,
                            _ => seq![],
                        }) + ")"@,
                    ),
                )
            }
        }),
{
    reveal_strlit("FOCUSED");
    if let Ok(JsonView::Str(said)) = replies[0] {
        if said.len() >= 7 {
            assert(said.subrange(0, 7) =~= said.take(7));
        }
    }
}

/// A request that fails ends the sending with its reason, whatever it was, but for the reading back;
/// and nothing is typed where no input box said that it is focused.
pub proof fn law_a_message_that_cannot_be_sent(
    m: MessageView,
    e: Seq<char>,
    said: Seq<char>,
    v: JsonView,
)
    requires
        said.len() < 7 || said.take(7) != "FOCUSED"@,
        v !is Str,
    ensures
        m.stage != Stage::ReadBack ==> message_next(m, Err(e)).1 == StepView::Done(Err(e)),
        m.stage == Stage::ReadBack ==> message_next(m, Err(e)).1 == StepView::Next(
            RequestView::Pause(300),
        ),
        m.stage == Stage::Focus ==> message_next(m, Ok(JsonView::Str(said))).1 == StepView::Done(
            Err("找不到可聚焦的输入框（"@ + said + "）"@),
        ),
        m.stage == Stage::Focus ==> message_next(m, Ok(v)).1 == StepView::Done(
            Err("找不到可聚焦的输入框（"@ + "）"@),
        ),
{
    reveal_strlit("FOCUSED");
    if said.len() >= 7 {
        assert(said.subrange(0, 7) =~= said.take(7));
    }
    let none = Seq::<char>::empty();
    assert("找不到可聚焦的输入框（"@ + none + "）"@ =~= "找不到可聚焦的输入框（"@ + "）"@);
}

/// Requests, steps and replies hold what they say.
pub proof fn law_what_requests_and_replies_hold(s: String, v: Json, ms: u64, q: Request)
    ensures
        Request::Evaluate(s)@ == RequestView::Evaluate(s@),
        Request::Call(s, v)@ == RequestView::Call(s@, v@),
        Request::Pause(ms)@ == RequestView::Pause(ms),
        Step::Next(q)@ == StepView::Next(q@),
        Step::Done(Ok(s))@ == StepView::Done(Ok(s@)),
        Step::Done(Err(s))@ == StepView::Done(Err(s@)),
        reply_view(Ok(v)) == Ok::<JsonView, Seq<char>>(v@),
        reply_view(Err(s)) == Err::<JsonView, Seq<char>>(s@),
{
}

// ---------------------------------------------------------------------------
// Expressions
// ---------------------------------------------------------------------------

proof fn lemma_stands(hay: Seq<char>, part: Seq<char>, i: int)
    requires
        0 <= i,
        i + part.len() <= hay.len(),
        hay.subrange(i, i + part.len()) =~= part,
    ensures
        occurs(hay, part),
{
    assert(occurs_at(hay, part, i));
}

/// The box that is focused is the last visible one of the first kind that there is, and it is said
/// which it was, or that there is none.
pub proof fn law_the_last_visible_box_is_focused()
    ensures
        occurs(FOCUS_JS@, r#"var sels = ['[contenteditable="true"]','div[role="textbox"]','textarea'];"#@),
        occurs(FOCUS_JS@, "Array.from(document.querySelectorAll(sels[i]))"@),
        occurs(FOCUS_JS@, "return e.offsetParent!==null && r.height>10 && r.width>40;"@),
        occurs(FOCUS_JS@, "var el = els[els.length-1]; el.focus();"@),
        occurs(FOCUS_JS@, "return 'FOCUSED:' + el.tagName;"@),
        occurs(FOCUS_JS@, "return 'NO_INPUT';"@),
{
    reveal_strlit(r#"(function(){
  var sels = ['[contenteditable="true"]','div[role="textbox"]','textarea'];
  for (var i=0;i<sels.length;i++){
    var els = Array.from(document.querySelectorAll(sels[i]))
      .filter(function(e){var r=e.getBoundingClientRect();
        return e.offsetParent!==null && r.height>10 && r.width>40;});
    if (els.length){ var el = els[els.length-1]; el.focus();
      return 'FOCUSED:' + el.tagName; }
  }
  return 'NO_INPUT';
})()"#);
    reveal_strlit(r#"var sels = ['[contenteditable="true"]','div[role="textbox"]','textarea'];"#);
    lemma_stands(FOCUS_JS@, r#"var sels = ['[contenteditable="true"]','div[role="textbox"]','textarea'];"#@, 15);
    reveal_strlit("Array.from(document.querySelectorAll(sels[i]))");
    lemma_stands(FOCUS_JS@, "Array.from(document.querySelectorAll(sels[i]))"@, 138);
    reveal_strlit("return e.offsetParent!==null && r.height>10 && r.width>40;");
    lemma_stands(FOCUS_JS@, "return e.offsetParent!==null && r.height>10 && r.width>40;"@, 252);
    reveal_strlit("var el = els[els.length-1]; el.focus();");
    lemma_stands(FOCUS_JS@, "var el = els[els.length-1]; el.focus();"@, 335);
    reveal_strlit("return 'FOCUSED:' + el.tagName;");
    lemma_stands(FOCUS_JS@, "return 'FOCUSED:' + el.tagName;"@, 381);
    reveal_strlit("return 'NO_INPUT';");
    lemma_stands(FOCUS_JS@, "return 'NO_INPUT';"@, 421);
}

/// What is emptied is the focused element: its value where it is a field, and else what it holds.
pub proof fn law_the_focused_box_is_emptied()
    ensures
        occurs(CLEAR_JS@, "var el = document.activeElement;"@),
        occurs(CLEAR_JS@, "if(!el) return 'NO_ACTIVE';"@),
        occurs(CLEAR_JS@, "if (el.tagName === 'TEXTAREA' || el.tagName === 'INPUT') { el.value=''; }"@),
        occurs(CLEAR_JS@, "else { el.innerHTML=''; }"@),
        occurs(CLEAR_JS@, "return 'CLEARED';"@),
{
    reveal_strlit(r#"(function(){
  var el = document.activeElement;
  if(!el) return 'NO_ACTIVE';
  if (el.tagName === 'TEXTAREA' || el.tagName === 'INPUT') { el.value=''; }
  else { el.innerHTML=''; }
  return 'CLEARED';
})()"#);
    reveal_strlit("var el = document.activeElement;");
    lemma_stands(CLEAR_JS@, "var el = document.activeElement;"@, 15);
    reveal_strlit("if(!el) return 'NO_ACTIVE';");
    lemma_stands(CLEAR_JS@, "if(!el) return 'NO_ACTIVE';"@, 50);
    reveal_strlit("if (el.tagName === 'TEXTAREA' || el.tagName === 'INPUT') { el.value=''; }");
    lemma_stands(CLEAR_JS@, "if (el.tagName === 'TEXTAREA' || el.tagName === 'INPUT') { el.value=''; }"@, 80);
    reveal_strlit("else { el.innerHTML=''; }");
    lemma_stands(CLEAR_JS@, "else { el.innerHTML=''; }"@, 156);
    reveal_strlit("return 'CLEARED';");
    lemma_stands(CLEAR_JS@, "return 'CLEARED';"@, 184);
}

/// What is read back is the beginning of what the focused element holds, and nothing where there is
/// none.
pub proof fn law_the_focused_box_is_read()
    ensures
        occurs(READ_BACK_JS@, "var el = document.activeElement;"@),
        occurs(READ_BACK_JS@, "if(!el) return '';"@),
        occurs(READ_BACK_JS@, "return (el.textContent||el.value||'').slice(0,60);"@),
{
    reveal_strlit(r#"(function(){
  var el = document.activeElement;
  if(!el) return '';
  return (el.textContent||el.value||'').slice(0,60);
})()"#);
    reveal_strlit("var el = document.activeElement;");
    lemma_stands(READ_BACK_JS@, "var el = document.activeElement;"@, 15);
    reveal_strlit("if(!el) return '';");
    lemma_stands(READ_BACK_JS@, "if(!el) return '';"@, 50);
    reveal_strlit("return (el.textContent||el.value||'').slice(0,60);");
    lemma_stands(READ_BACK_JS@, "return (el.textContent||el.value||'').slice(0,60);"@, 71);
}

/// A probe looks for input boxes of the same kinds, chooses the first visible one, and lists the
/// buttons.
pub proof fn law_boxes_and_buttons_are_listed()
    ensures
        occurs(PROBE_JS@, r#"var sels = ['[contenteditable="true"]','div[role="textbox"]','textarea'];"#@),
        occurs(PROBE_JS@, "Array.from(document.querySelectorAll(sels[i]))"@),
        occurs(PROBE_JS@, "var vis = e.offsetParent !== null && r.width > 40 && r.height > 10;"@),
        occurs(PROBE_JS@, "if (vis && !out.chosen) out.chosen = {sel: sels[i], h: Math.round(r.height)};"@),
        occurs(PROBE_JS@, "Array.from(document.querySelectorAll('button'))"@),
        occurs(PROBE_JS@, "return out;"@),
{
    reveal_strlit(r#"
(function(){
  var out = {candidates: [], chosen: null, buttons: []};
  var sels = ['[contenteditable="true"]','div[role="textbox"]','textarea'];
  for (var i=0;i<sels.length;i++){
    var els = Array.from(document.querySelectorAll(sels[i]));
    for (var j=0;j<els.length;j++){
      var e = els[j], r = e.getBoundingClientRect();
      var vis = e.offsetParent !== null && r.width > 40 && r.height > 10;
      out.candidates.push({
        sel: sels[i], tag: e.tagName,
        cls: String(e.className||'').slice(0,80),
        ph: e.getAttribute('data-placeholder')||e.getAttribute('placeholder')||'',
        w: Math.round(r.width), h: Math.round(r.height), vis: vis
      });
      if (vis && !out.chosen) out.chosen = {sel: sels[i], h: Math.round(r.height)};
    }
  }
  out.buttons = Array.from(document.querySelectorAll('button'))
    .filter(function(b){var r=b.getBoundingClientRect();return b.offsetParent!==null&&r.width>0&&r.height>0})
    .map(function(b){return {
      aria: b.getAttribute('aria-label')||'', title: b.getAttribute('title')||'',
      txt: (b.innerText||'').trim().slice(0,16),
      cls: String(b.className||'').slice(0,60)};})
    .slice(0, 50);
  return out;
})()
"#);
    reveal_strlit(r#"var sels = ['[contenteditable="true"]','div[role="textbox"]','textarea'];"#);
    lemma_stands(PROBE_JS@, r#"var sels = ['[contenteditable="true"]','div[role="textbox"]','textarea'];"#@, 73);
    reveal_strlit("Array.from(document.querySelectorAll(sels[i]))");
    lemma_stands(PROBE_JS@, "Array.from(document.querySelectorAll(sels[i]))"@, 196);
    reveal_strlit("var vis = e.offsetParent !== null && r.width > 40 && r.height > 10;");
    lemma_stands(PROBE_JS@, "var vis = e.offsetParent !== null && r.width > 40 && r.height > 10;"@, 339);
    reveal_strlit("if (vis && !out.chosen) out.chosen = {sel: sels[i], h: Math.round(r.height)};");
    lemma_stands(PROBE_JS@, "if (vis && !out.chosen) out.chosen = {sel: sels[i], h: Math.round(r.height)};"@, 688);
    reveal_strlit("Array.from(document.querySelectorAll('button'))");
    lemma_stands(PROBE_JS@, "Array.from(document.querySelectorAll('button'))"@, 792);
    reveal_strlit("return out;");
    lemma_stands(PROBE_JS@, "return out;"@, 1183);
}

/// The account is asked for over the channel that reads it, and a failure is told as one.
pub proof fn law_the_account_is_only_read()
    ensures
        occurs(ACCOUNT_JS@, "await window.__wbInvoke('auth:getAccount');"@),
        occurs(ACCOUNT_JS@, "return JSON.stringify({ok:true,v:r})"@),
        occurs(ACCOUNT_JS@, "return JSON.stringify({ok:false,m:String(e&&e.message)})"@),
{
    reveal_strlit("(async()=>{try{const r=await window.__wbInvoke('auth:getAccount');return JSON.stringify({ok:true,v:r})}catch(e){return JSON.stringify({ok:false,m:String(e&&e.message)})}})()");
    reveal_strlit("await window.__wbInvoke('auth:getAccount');");
    lemma_stands(ACCOUNT_JS@, "await window.__wbInvoke('auth:getAccount');"@, 23);
    reveal_strlit("return JSON.stringify({ok:true,v:r})");
    lemma_stands(ACCOUNT_JS@, "return JSON.stringify({ok:true,v:r})"@, 66);
    reveal_strlit("return JSON.stringify({ok:false,m:String(e&&e.message)})");
    lemma_stands(ACCOUNT_JS@, "return JSON.stringify({ok:false,m:String(e&&e.message)})"@, 112);
}

} // verus!
