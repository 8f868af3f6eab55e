//! A session of the Chrome DevTools Protocol with the desktop client, without its connection.
//!
//! The client is driven as a user drives it: text is put into its input box and sent with the
//! Enter key. What is called is only what observes or types; nothing changes the client's state
//! behind its back.
use crate::http::{http_request, request_text};
use crate::json::{
    displayed, first_that, lemma_first_that, lemma_first_that_holds, lemma_sound_with, parse, parse_list, parsed,
    parsed_list, render, sound, views, Json, JsonView,
};
use crate::text::{
    begins_with, contains, decimal, int_numeral, occurs, part, same, starts_with,
};
use crate::ws::{recv_next, RecvAction, RecvEvent, Ws};
use vstd::prelude::*;
use vstd::string::*;

verus! {

/// The usual debugging port.
pub const DEFAULT_PORT: u16 = 9222;

/// Lists the input boxes that could be meant and the visible buttons.
pub const PROBE_JS: &'static str = r#"
(function(){
  var out = {candidates: [], chosen: null, buttons: []};
  var sels = ['[contenteditable="true"]','div[role="textbox"]','textarea'];
  for (var i=0;i<sels.length;i++){
    var els = Array.from(document.querySelectorAll(sels[i]));
    for (var j=0;j<els.length;j++){
      var e = els[j], r = e.getBoundingClientRect();
      var vis = e.offsetParent !== null && r.width > 40 && r.height > 10;
      out.candidates.push({
        sel: sels[i], tag: e.tagName,
        cls: String(e.className||'').slice(0,80),
        ph: e.getAttribute('data-placeholder')||e.getAttribute('placeholder')||'',
        w: Math.round(r.width), h: Math.round(r.height), vis: vis
      });
      if (vis && !out.chosen) out.chosen = {sel: sels[i], h: Math.round(r.height)};
    }
  }
  out.buttons = Array.from(document.querySelectorAll('button'))
    .filter(function(b){var r=b.getBoundingClientRect();return b.offsetParent!==null&&r.width>0&&r.height>0})
    .map(function(b){return {
      aria: b.getAttribute('aria-label')||'', title: b.getAttribute('title')||'',
      txt: (b.innerText||'').trim().slice(0,16),
      cls: String(b.className||'').slice(0,60)};})
    .slice(0, 50);
  return out;
})()
"#;

/// Focuses the last visible input box and says which it was.
pub const FOCUS_JS: &'static str = r#"(function(){
  var sels = ['[contenteditable="true"]','div[role="textbox"]','textarea'];
  for (var i=0;i<sels.length;i++){
    var els = Array.from(document.querySelectorAll(sels[i]))
      .filter(function(e){var r=e.getBoundingClientRect();
        return e.offsetParent!==null && r.height>10 && r.width>40;});
    if (els.length){ var el = els[els.length-1]; el.focus();
      return 'FOCUSED:' + el.tagName; }
  }
  return 'NO_INPUT';
})()"#;

/// Empties the focused input box.
pub const CLEAR_JS: &'static str = r#"(function(){
  var el = document.activeElement;
  if(!el) return 'NO_ACTIVE';
  if (el.tagName === 'TEXTAREA' || el.tagName === 'INPUT') { el.value=''; }
  else { el.innerHTML=''; }
  return 'CLEARED';
})()"#;

/// Reads the beginning of what the focused input box holds.
pub const READ_BACK_JS: &'static str = r#"(function(){
  var el = document.activeElement;
  if(!el) return '';
  return (el.textContent||el.value||'').slice(0,60);
})()"#;

/// Reads the account that is logged in, through the one channel that only reads.
pub const ACCOUNT_JS: &'static str = "(async()=>{try{const r=await window.__wbInvoke('auth:getAccount');return JSON.stringify({ok:true,v:r})}catch(e){return JSON.stringify({ok:false,m:String(e&&e.message)})}})()";

// ---------------------------------------------------------------------------
// Targets
// ---------------------------------------------------------------------------

/// The targets that the listing of the endpoint holds, or what is wrong with it.
pub open spec fn targets_of(body: Seq<char>) -> Result<Seq<JsonView>, Seq<char>> {
    match parsed_list(body) {
        Ok(ts) => Ok(ts),
        Err(e) => Err(
            "解析 /json/list 失败: "@ + e + "；原始响应前 200 字符: "@ + body.take(
                if body.len() < 200 {
                    body.len() as int
                } else {
                    200
                },
            ),
        ),
    }
}

/// The request for the listing of the endpoint.
pub fn list_request(port: u16) -> (r: String)
    ensures
        r@ == request_text(port, "/json/list"@),
{
    http_request(port, "/json/list")
}

/// Reads the listing of the endpoint.
pub fn list_targets(body: &str) -> (r: Result<Vec<Json>, String>)
    ensures
        match r {
            Ok(ts) => targets_of(body@) == Ok::<Seq<JsonView>, Seq<char>>(views(ts@)),
            Err(m) => targets_of(body@) == Err::<Seq<JsonView>, Seq<char>>(m@),
        },
{
    match parse_list(body) {
        Ok(ts) => Ok(ts),
        Err(e) => {
            let len: usize = body.unicode_len();
            let shown: usize = if len < 200 {
                len
            } else {
                200
            };
            let mut s = "解析 /json/list 失败: ".to_owned();
            s.append(e.as_str());
            s.append("；原始响应前 200 字符: ");
            s.append(part(body, 0, shown).as_str());
            Err(s)
        },
    }
}

/// Whether a target is a page.
pub open spec fn is_page(t: JsonView) -> bool {
    t.get("type"@) matches Some(v) && v.as_str() == Some("page"@)
}

/// Whether a target is the main page of the client.
pub open spec fn is_main_page(t: JsonView) -> bool {
    &&& is_page(t)
    &&& t.get("url"@) matches Some(v) && v.as_str() matches Some(u) && occurs(
        u,
        "renderer/index.html"@,
    )
}

/// The target to talk to: the first main page, else the first page.
pub open spec fn main_page(targets: Seq<JsonView>) -> Option<JsonView> {
    match first_that(targets, |t: JsonView| is_main_page(t)) {
        Some(i) => Some(targets[i]),
        None => match first_that(targets, |t: JsonView| is_page(t)) {
            Some(i) => Some(targets[i]),
            None => None,
        },
    }
}

/// The debugging address of the target to talk to, and the target.
pub open spec fn main_page_address(targets: Seq<JsonView>) -> Result<
    (Seq<char>, JsonView),
    Seq<char>,
> {
    match main_page(targets) {
        None => Err("没找到可用的 page target（客户端主窗口未就绪？）"@),
        Some(t) => match t.get("webSocketDebuggerUrl"@) {
            Some(JsonView::Str(ws)) => Ok((ws, t)),
            _ => Err("target 缺少 webSocketDebuggerUrl"@),
        },
    }
}

fn page(t: &Json) -> (r: bool)
    ensures
        r == is_page(t@),
{
    match t.get("type") {
        Some(v) => match v.as_str() {
            Some(s) => same(s, "page"),
            None => false,
        },
        None => false,
    }
}

fn main_page_target(t: &Json) -> (r: bool)
    ensures
        r == is_main_page(t@),
{
    if !page(t) {
        return false;
    }
    match t.get("url") {
        Some(v) => match v.as_str() {
            Some(u) => contains(u, "renderer/index.html"),
            None => false,
        },
        None => false,
    }
}

/// Finds the target to talk to: its debugging address, and the target.
pub fn find_main_page(targets: &Vec<Json>) -> (r: Result<(String, Json), String>)
    ensures
        match r {
            Ok((ws, t)) => main_page_address(views(targets@)) == Ok::<
                (Seq<char>, JsonView),
                Seq<char>,
            >((ws@, t@)),
            Err(m) => main_page_address(views(targets@)) == Err::<
                (Seq<char>, JsonView),
                Seq<char>,
            >(m@),
        },
{
    let ghost ts = views(targets@);
    let ghost main = |t: JsonView| is_main_page(t);
    let ghost any = |t: JsonView| is_page(t);
    let mut i: usize = 0;
    while i < targets.len() && !main_page_target(&targets[i])
        invariant
            i <= targets@.len(),
            ts == views(targets@),
            main == (|t: JsonView| is_main_page(t)),
            forall|j: int| 0 <= j < i ==> !main(#[trigger] ts[j]),
        decreases targets@.len() - i,
    {
        i += 1;
    }
    proof {
        lemma_first_that(ts, main, i as int);
    }
    if i == targets.len() {
        i = 0;
        while i < targets.len() && !page(&targets[i])
            invariant
                i <= targets@.len(),
                ts == views(targets@),
                any == (|t: JsonView| is_page(t)),
                forall|j: int| 0 <= j < i ==> !any(#[trigger] ts[j]),
            decreases targets@.len() - i,
        {
            i += 1;
        }
        proof {
            lemma_first_that(ts, any, i as int);
        }
    }
    if i == targets.len() {
        return Err("没找到可用的 page target（客户端主窗口未就绪？）".to_owned());
    }
    let pick = &targets[i];
    assert(main_page(ts) == Some(pick@));
    match pick.get("webSocketDebuggerUrl") {
        Some(v) => match v.as_str() {
            Some(ws) => Ok((ws.to_owned(), pick.copy())),
            None => Err("target 缺少 webSocketDebuggerUrl".to_owned()),
        },
        None => Err("target 缺少 webSocketDebuggerUrl".to_owned()),
    }
}

/// The target that is talked to is one of those listed and a page, and it is the main page of the
/// client wherever that is listed; without one there is no page at all.
pub proof fn law_the_main_page_comes_first(targets: Seq<JsonView>)
    ensures
        match main_page(targets) {
            Some(t) => {
                &&& targets.contains(t)
                &&& is_page(t)
                &&& (exists|j: int| 0 <= j < targets.len() && is_main_page(#[trigger] targets[j]))
                    ==> is_main_page(t)
            },
            None => forall|j: int| 0 <= j < targets.len() ==> !is_page(#[trigger] targets[j]),
        },
{
    let main = |t: JsonView| is_main_page(t);
    let any = |t: JsonView| is_page(t);
    lemma_first_that_holds(targets, main);
    lemma_first_that_holds(targets, any);
    if first_that(targets, main) is None {
        assert forall|j: int| 0 <= j < targets.len() implies !is_main_page(#[trigger] targets[j]) by {
            assert(!main(targets[j]));
        }
        if first_that(targets, any) is None {
            assert forall|j: int| 0 <= j < targets.len() implies !is_page(#[trigger] targets[j]) by {
                assert(!any(targets[j]));
            }
        }
    }
}

// ---------------------------------------------------------------------------
// The session
// ---------------------------------------------------------------------------

/// The text of a result of the session, or its failure.
pub open spec fn reply_view(r: Result<Json, String>) -> Result<JsonView, Seq<char>> {
    match r {
        Ok(v) => Ok(v@),
        Err(e) => Err(e@),
    }
}

/// A session on one target.
pub struct Cdp {
    ws: Ws,
    next_id: u64,
}

/// A call that has been made and not been answered.
pub struct Call {
    id: u64,
    method: String,
    message: String,
}

/// The message of a call.
pub open spec fn call_message(id: nat, method: Seq<char>, params: Option<JsonView>) -> JsonView {
    let head = JsonView::object().with("id"@, JsonView::Int(id as int)).with(
        "method"@,
        JsonView::Str(method),
    );
    match params {
        Some(p) => head.with("params"@, p),
        None => head,
    }
}

/// What a message means for a call: nothing where it does not carry the number of the call.
pub open spec fn answer_in(id: nat, method: Seq<char>, message: JsonView) -> Option<
    Result<JsonView, Seq<char>>,
> {
    if message.get("id"@) matches Some(n) && n.as_u64() == Some(id as int) {
        match message.get("error"@) {
            Some(e) => Some(Err("CDP "@ + method + " 返回错误: "@ + displayed(e))),
            None => Some(Ok(message.at("result"@))),
        }
    } else {
        None
    }
}

/// What a received text means for a call: nothing where it is no JSON.
pub open spec fn answer_of(id: nat, method: Seq<char>, raw: Seq<char>) -> Option<
    Result<JsonView, Seq<char>>,
> {
    match parsed(raw) {
        Ok(message) => answer_in(id, method, message),
        Err(_) => None,
    }
}

/// A message answers at most one call.
pub proof fn law_answers_do_not_mix(
    id: nat,
    other: nat,
    method: Seq<char>,
    other_method: Seq<char>,
    message: JsonView,
)
    requires
        id != other,
        answer_in(id, method, message) is Some,
    ensures
        answer_in(other, other_method, message) is None,
{
}

impl Cdp {
    /// How many calls have been made.
    pub closed spec fn calls(&self) -> nat {
        self.next_id as nat
    }

    /// What has been received and not been used.
    pub closed spec fn received(&self) -> Seq<u8> {
        self.ws@
    }

    /// A session over an open WebSocket.
    pub fn connect_main_page(ws: Ws) -> (r: Cdp)
        ensures
            r.received() == ws@,
            r.calls() == 0,
    {
        Cdp { ws, next_id: 0 }
    }

    /// Goes on receiving a text message, as [`Ws::recv_text`] does.
    pub fn recv_text(&mut self, event: RecvEvent) -> (r: RecvAction)
        ensures
            (final(self).received(), r@) == recv_next(old(self).received(), event),
            final(self).calls() == old(self).calls(),
    {
        self.ws.recv_text(event)
    }

    /// Makes a call: numbers it anew and gives it with the message to send.
    pub fn call(&mut self, method: &str, params: Option<Json>) -> (r: Call)
        requires
            old(self).calls() < u64::MAX,
        ensures
            final(self).received() == old(self).received(),
            final(self).calls() == old(self).calls() + 1,
            r.id() == final(self).calls(),
            r.method() == method@,
            match params {
                Some(p) => sound(p@) ==> r.message() == displayed(
                    call_message(r.id(), method@, Some(p@)),
                ),
                None => r.message() == displayed(call_message(r.id(), method@, None)),
            },
    {
        self.next_id += 1;
        let id: u64 = self.next_id;
        let head = Json::object().with("id", Json::Int(id as i128)).with(
            "method",
            Json::text(method),
        );
        proof {
            let empty = JsonView::object();
            assert(sound(empty));
            lemma_sound_with(empty, "id"@, JsonView::Int(id as int));
            let numbered = empty.with("id"@, JsonView::Int(id as int));
            lemma_sound_with(numbered, "method"@, JsonView::Str(method@));
        }
        let message = match params {
            Some(p) => {
                proof {
                    if sound(p@) {
                        lemma_sound_with(head@, "params"@, p@);
                    }
                }
                render(&head.with("params", p))
            },
            None => render(&head),
        };
        Call { id, method: method.to_owned(), message }
    }

    /// Makes the call that has an expression evaluated; [`evaluation`] reads what it comes to.
    pub fn evaluate(&mut self, expression: &str) -> (r: Call)
        requires
            old(self).calls() < u64::MAX,
        ensures
            final(self).received() == old(self).received(),
            final(self).calls() == old(self).calls() + 1,
            r.id() == final(self).calls(),
            r.method() == "Runtime.evaluate"@,
            r.message() == displayed(
                call_message(r.id(), "Runtime.evaluate"@, Some(evaluate_message(expression@))),
            ),
    {
        self.call("Runtime.evaluate", Some(evaluate_params(expression)))
    }

    /// Makes the call that has an expression evaluated to JSON text; [`json_evaluation`] reads
    /// what the evaluation comes to.
    pub fn eval_json(&mut self, expr: &str) -> (r: Call)
        requires
            old(self).calls() < u64::MAX,
        ensures
            final(self).received() == old(self).received(),
            final(self).calls() == old(self).calls() + 1,
            r.id() == final(self).calls(),
            r.method() == "Runtime.evaluate"@,
            r.message() == displayed(
                call_message(
                    r.id(),
                    "Runtime.evaluate"@,
                    Some(evaluate_message(stringified(expr@))),
                ),
            ),
    {
        self.evaluate(stringify(expr).as_str())
    }
}

impl Call {
    /// The number of the call.
    pub closed spec fn id(&self) -> nat {
        self.id as nat
    }

    /// The method called.
    pub closed spec fn method(&self) -> Seq<char> {
        self.method@
    }

    /// The message of the call.
    pub closed spec fn message(&self) -> Seq<char> {
        self.message@
    }

    /// The message to send.
    pub fn text(&self) -> (r: &str)
        ensures
            r@ == self.message(),
    {
        self.message.as_str()
    }

    /// Looks whether a received text answers the call; other texts are to be passed over.
    pub fn reply(&self, raw: &str) -> (r: Option<Result<Json, String>>)
        ensures
            match r {
                Some(x) => answer_of(self.id(), self.method(), raw@) == Some(reply_view(x)),
                None => answer_of(self.id(), self.method(), raw@) is None,
            },
    {
        match parse(raw) {
            Ok(message) => self.answer(&message),
            Err(_) => None,
        }
    }

    /// Looks whether a message answers the call.
    pub fn answer(&self, message: &Json) -> (r: Option<Result<Json, String>>)
        ensures
            sound(message@) ==> match r {
                Some(x) => answer_in(self.id(), self.method(), message@) == Some(reply_view(x)),
                None => answer_in(self.id(), self.method(), message@) is None,
            },
            r is Some <==> answer_in(self.id(), self.method(), message@) is Some,
            r matches Some(Ok(v)) ==> answer_in(self.id(), self.method(), message@) == Some(
                Ok::<JsonView, Seq<char>>(v@),
            ),
    {
        let mine = match message.get("id") {
            Some(n) => match n.as_u64() {
                Some(id) => id == self.id,
                None => false,
            },
            None => false,
        };
        if !mine {
            return None;
        }
        match message.get("error") {
            Some(e) => {
                let mut s = "CDP ".to_owned();
                s.append(self.method.as_str());
                s.append(" 返回错误: ");
                s.append(render(e).as_str());
                Some(Err(s))
            },
            None => Some(Ok(message.at("result"))),
        }
    }
}

/// What is asked of the client to have an expression evaluated.
pub open spec fn evaluate_message(expression: Seq<char>) -> JsonView {
    JsonView::object().with("expression"@, JsonView::Str(expression)).with(
        "awaitPromise"@,
        JsonView::Bool(true),
    ).with("returnByValue"@, JsonView::Bool(true)).with("userGesture"@, JsonView::Bool(true))
}

/// The parameters of `Runtime.evaluate` for an expression.
pub fn evaluate_params(expression: &str) -> (r: Json)
    ensures
        r@ == evaluate_message(expression@),
        sound(r@),
{
    proof {
        let a = JsonView::object();
        assert(sound(a));
        lemma_sound_with(a, "expression"@, JsonView::Str(expression@));
        let b = a.with("expression"@, JsonView::Str(expression@));
        lemma_sound_with(b, "awaitPromise"@, JsonView::Bool(true));
        let c = b.with("awaitPromise"@, JsonView::Bool(true));
        lemma_sound_with(c, "returnByValue"@, JsonView::Bool(true));
        let d = c.with("returnByValue"@, JsonView::Bool(true));
        lemma_sound_with(d, "userGesture"@, JsonView::Bool(true));
    }
    Json::object().with("expression", Json::text(expression)).with(
        "awaitPromise",
        Json::Bool(true),
    ).with("returnByValue", Json::Bool(true)).with("userGesture", Json::Bool(true))
}

/// What the details of an exception say: its description, else its text.
pub open spec fn exception_text(details: JsonView) -> Seq<char> {
    let description = match details.get("exception"@) {
        Some(e) => match e.get("description"@) {
            Some(d) => d.as_str(),
            None => None,
        },
        None => None,
    };
    match description {
        Some(s) => s,
        None => match details.get("text"@) {
            Some(JsonView::Str(s)) => s,
            _ => "未知 JS 异常"@,
        },
    }
}

/// The value that an evaluation came to, or the exception that it raised.
pub open spec fn evaluated(result: JsonView) -> Result<JsonView, Seq<char>> {
    match result.get("exceptionDetails"@) {
        Some(details) => Err("JS 异常: "@ + exception_text(details)),
        None => Ok(result.at("result"@).at("value"@)),
    }
}

/// The value that an evaluation came to, or the exception that it raised.
pub fn evaluation(result: &Json) -> (r: Result<Json, String>)
    ensures
        reply_view(r) == evaluated(result@),
{
    match result.get("exceptionDetails") {
        Some(details) => {
            let mut s = "JS 异常: ".to_owned();
            let description = match details.get("exception") {
                Some(e) => match e.get("description") {
                    Some(d) => d.as_str(),
                    None => None,
                },
                None => None,
            };
            match description {
                Some(d) => s.append(d),
                None => match details.get("text") {
                    Some(Json::Str(t)) => s.append(t.as_str()),
                    _ => s.append("未知 JS 异常"),
                },
            }
            Err(s)
        },
        None => match result.get("result") {
            Some(inner) => Ok(inner.at("value")),
            None => Ok(Json::Null),
        },
    }
}

/// An expression wrapped so that its value comes back as JSON text.
pub open spec fn stringified(expr: Seq<char>) -> Seq<char> {
    "(function(){try{return JSON.stringify("@ + expr
        + ")}catch(e){return JSON.stringify({__err:String(e&&e.message)})}})()"@
}

fn stringify(expr: &str) -> (r: String)
    ensures
        r@ == stringified(expr@),
{
    let mut s = "(function(){try{return JSON.stringify(".to_owned();
    s.append(expr);
    s.append(")}catch(e){return JSON.stringify({__err:String(e&&e.message)})}})()");
    s
}

/// The JSON text that a wrapped expression came to; anything else stands for null.
pub open spec fn stringified_value(raw: JsonView) -> Seq<char> {
    match raw {
        JsonView::Str(s) => s,
        _ => "null"@,
    }
}

/// The value that a wrapped expression came to.
pub open spec fn stringified_result(raw: JsonView) -> Result<JsonView, Seq<char>> {
    match parsed(stringified_value(raw)) {
        Ok(v) => Ok(v),
        Err(e) => Err("解析 JS 结果失败: "@ + e),
    }
}

/// The value that a wrapped expression came to.
pub fn json_evaluation(raw: &Json) -> (r: Result<Json, String>)
    ensures
        reply_view(r) == stringified_result(raw@),
{
    let text = match raw {
        Json::Str(s) => s.as_str(),
        _ => "null",
    };
    match parse(text) {
        Ok(v) => Ok(v),
        Err(e) => {
            let mut s = "解析 JS 结果失败: ".to_owned();
            s.append(e.as_str());
            Err(s)
        },
    }
}

/// The one request that reads the account that is logged in: through the channel that only reads,
/// and no other.
pub fn account_request() -> (r: Request)
    ensures
        r@ == RequestView::Evaluate(ACCOUNT_JS@),
{
    Request::Evaluate(ACCOUNT_JS.to_owned())
}

/// The account that is logged in, from what the request for it came to.
pub fn current_account(raw: &Json) -> (r: Result<Json, String>)
    ensures
        reply_view(r) == match parsed(stringified_value(raw@)) {
            Ok(v) => Ok::<JsonView, Seq<char>>(v),
            Err(e) => Err("解析账号信息失败: "@ + e + "；原始: "@ + stringified_value(raw@)),
        },
{
    let text = match raw {
        Json::Str(s) => s.as_str(),
        _ => "null",
    };
    match parse(text) {
        Ok(v) => Ok(v),
        Err(e) => {
            let mut s = "解析账号信息失败: ".to_owned();
            s.append(e.as_str());
            s.append("；原始: ");
            s.append(text);
            Err(s)
        },
    }
}

// ---------------------------------------------------------------------------
// The report on the connection
// ---------------------------------------------------------------------------

/// A value, or null where it could not be had.
pub open spec fn value_or_null(r: Result<JsonView, Seq<char>>) -> JsonView {
    match r {
        Ok(v) => v,
        Err(_) => JsonView::Null,
    }
}

fn take_or_null(r: Result<Json, String>) -> (v: Json)
    ensures
        v@ == value_or_null(reply_view(r)),
{
    match r {
        Ok(v) => v,
        Err(_) => Json::Null,
    }
}

/// The requests of the report on a connection, in their order: what helps to find the input box, as
/// JSON text, the title of the page, and its address. None of them changes anything.
pub fn probe_requests() -> (r: (Request, Request, Request))
    ensures
        r.0@ == RequestView::Evaluate(stringified(PROBE_JS@)),
        r.1@ == RequestView::Evaluate("document.title"@),
        r.2@ == RequestView::Evaluate("location.href"@),
{
    (
        Request::Evaluate(stringify(PROBE_JS)),
        Request::Evaluate("document.title".to_owned()),
        Request::Evaluate("location.href".to_owned()),
    )
}

/// The report on a connection that stands, from the replies to its requests: what could not be read
/// is null.
pub open spec fn probe_report(
    port: u16,
    target: JsonView,
    dom: Result<JsonView, Seq<char>>,
    title: Result<JsonView, Seq<char>>,
    href: Result<JsonView, Seq<char>>,
) -> JsonView {
    JsonView::object().with("ok"@, JsonView::Bool(true)).with(
        "port"@,
        JsonView::Int(port as int),
    ).with("targetTitle"@, target.at("title"@)).with("targetUrl"@, target.at("url"@)).with(
        "documentTitle"@,
        value_or_null(title),
    ).with("href"@, value_or_null(href)).with(
        "dom"@,
        match dom {
            Ok(raw) => value_or_null(stringified_result(raw)),
            Err(_) => JsonView::Null,
        },
    )
}

/// The report on a connection that stands, from the replies to [`probe_requests`].
pub fn probe(
    port: u16,
    target: &Json,
    dom: Result<Json, String>,
    title: Result<Json, String>,
    href: Result<Json, String>,
) -> (r: Json)
    ensures
        r@ == probe_report(
            port,
            target@,
            reply_view(dom),
            reply_view(title),
            reply_view(href),
        ),
{
    let found = match dom {
        Ok(raw) => take_or_null(json_evaluation(&raw)),
        Err(_) => Json::Null,
    };
    Json::object().with("ok", Json::Bool(true)).with("port", Json::Int(port as i128)).with(
        "targetTitle",
        target.at("title"),
    ).with("targetUrl", target.at("url")).with("documentTitle", take_or_null(title)).with(
        "href",
        take_or_null(href),
    ).with("dom", found)
}

/// What to do where the client does not listen.
pub open spec fn restart_hint(port: u16) -> Seq<char> {
    "请让 WorkBuddy 带 --remote-debugging-port="@ + int_numeral(port as int)
        + " 启动；若客户端已在运行，需要先完全退出再带参数重启。"@
}

/// The report on a connection that could not be had.
pub fn probe_failure(port: u16, error: &str) -> (r: Json)
    ensures
        r@ == JsonView::object().with("ok"@, JsonView::Bool(false)).with(
            "port"@,
            JsonView::Int(port as int),
        ).with("error"@, JsonView::Str(error@)).with("hint"@, JsonView::Str(restart_hint(port))),
{
    let mut hint = "请让 WorkBuddy 带 --remote-debugging-port=".to_owned();
    hint.append(decimal(port as i128).as_str());
    hint.append(" 启动；若客户端已在运行，需要先完全退出再带参数重启。");
    Json::object().with("ok", Json::Bool(false)).with("port", Json::Int(port as i128)).with(
        "error",
        Json::text(error),
    ).with("hint", Json::Str(hint))
}

// ---------------------------------------------------------------------------
// Sending a message
// ---------------------------------------------------------------------------

/// What the client is needed for next.
pub enum Request {
    /// An expression evaluated.
    Evaluate(String),
    /// A method called.
    Call(String, Json),
    /// A pause of that many milliseconds.
    Pause(u64),
}

/// What a [`Request`] holds.
pub enum RequestView {
    Evaluate(Seq<char>),
    Call(Seq<char>, JsonView),
    Pause(u64),
}

impl View for Request {
    type V = RequestView;

    open spec fn view(&self) -> RequestView {
        match self {
            Request::Evaluate(e) => RequestView::Evaluate(e@),
            Request::Call(m, p) => RequestView::Call(m@, p@),
            Request::Pause(ms) => RequestView::Pause(*ms),
        }
    }
}

/// How far the sending of a message has come: the request that waits for its reply.
#[derive(Clone, Copy, PartialEq, Eq, Structural)]
pub enum Stage {
    Focus,
    Clear,
    Insert,
    ReadBack,
    Settle,
    KeyDown,
    KeyUp,
}

/// The next request, or the end.
pub enum Step {
    Next(Request),
    Done(Result<String, String>),
}

/// What a [`Step`] holds.
pub enum StepView {
    Next(RequestView),
    Done(Result<Seq<char>, Seq<char>>),
}

impl View for Step {
    type V = StepView;

    open spec fn view(&self) -> StepView {
        match self {
            Step::Next(q) => StepView::Next(q@),
            Step::Done(Ok(s)) => StepView::Done(Ok(s@)),
            Step::Done(Err(e)) => StepView::Done(Err(e@)),
        }
    }
}

/// The sending of a message: what is sent, how far it has come, and what the input box showed.
pub struct MessageView {
    pub text: Seq<char>,
    pub stage: Stage,
    pub shown: Seq<char>,
}

/// The parameters of a key event of the Enter key.
pub open spec fn enter_event(kind: Seq<char>) -> JsonView {
    JsonView::object().with("type"@, JsonView::Str(kind)).with(
        "windowsVirtualKeyCode"@,
        JsonView::Int(13),
    ).with("nativeVirtualKeyCode"@, JsonView::Int(13)).with("key"@, JsonView::Str("Enter"@)).with(
        "code"@,
        JsonView::Str("Enter"@),
    ).with("text"@, JsonView::Str("\r"@)).with("unmodifiedText"@, JsonView::Str("\r"@))
}

/// The parameters of a key event of the Enter key.
pub fn press_enter(kind: &str) -> (r: Json)
    ensures
        r@ == enter_event(kind@),
{
    Json::object().with("type", Json::text(kind)).with("windowsVirtualKeyCode", Json::Int(13)).with(
        "nativeVirtualKeyCode",
        Json::Int(13),
    ).with("key", Json::text("Enter")).with("code", Json::text("Enter")).with(
        "text",
        Json::text("\r"),
    ).with("unmodifiedText", Json::text("\r"))
}

/// The text of a value, or the empty text.
pub open spec fn text_or_empty(v: JsonView) -> Seq<char> {
    match v {
        JsonView::Str(s) => s,
        _ => seq![],
    }
}

/// The request that a stage waits for.
pub open spec fn request_of(stage: Stage, text: Seq<char>) -> RequestView {
    match stage {
        Stage::Focus => RequestView::Evaluate(FOCUS_JS@),
        Stage::Clear => RequestView::Evaluate(CLEAR_JS@),
        Stage::Insert => RequestView::Call(
            "Input.insertText"@,
            JsonView::object().with("text"@, JsonView::Str(text)),
        ),
        Stage::ReadBack => RequestView::Evaluate(READ_BACK_JS@),
        Stage::Settle => RequestView::Pause(300),
        Stage::KeyDown => RequestView::Call("Input.dispatchKeyEvent"@, enter_event("rawKeyDown"@)),
        Stage::KeyUp => RequestView::Call("Input.dispatchKeyEvent"@, enter_event("keyUp"@)),
    }
}

/// The sending of a message at a stage, with the request that the stage waits for.
pub open spec fn go_to(m: MessageView, stage: Stage) -> (MessageView, StepView) {
    (MessageView { stage, ..m }, StepView::Next(request_of(stage, m.text)))
}

/// How the sending goes on from a reply. A failed request ends it, but for the reading back of
/// the input box, which only informs. Without a focused input box nothing is typed.
pub open spec fn message_next(m: MessageView, reply: Result<JsonView, Seq<char>>) -> (
    MessageView,
    StepView,
) {
    match (m.stage, reply) {
        (Stage::ReadBack, _) => go_to(
            MessageView { shown: text_or_empty(value_or_null(reply)), ..m },
            Stage::Settle,
        ),
        (_, Err(e)) => (m, StepView::Done(Err(e))),
        (Stage::Focus, Ok(v)) => if begins_with(text_or_empty(v), "FOCUSED"@) {
            go_to(m, Stage::Clear)
        } else {
            (m, StepView::Done(Err("找不到可聚焦的输入框（"@ + text_or_empty(v) + "）"@)))
        },
        (Stage::Clear, Ok(_)) => go_to(m, Stage::Insert),
        (Stage::Insert, Ok(_)) => go_to(m, Stage::ReadBack),
        (Stage::Settle, Ok(_)) => go_to(m, Stage::KeyDown),
        (Stage::KeyDown, Ok(_)) => go_to(m, Stage::KeyUp),
        (Stage::KeyUp, Ok(_)) => (m, StepView::Done(Ok("OK TYPED("@ + m.shown + ")"@))),
    }
}

/// The sending of one message.
pub struct Message {
    text: String,
    stage: Stage,
    shown: String,
}

impl View for Message {
    type V = MessageView;

    closed spec fn view(&self) -> MessageView {
        MessageView { text: self.text@, stage: self.stage, shown: self.shown@ }
    }
}

/// Begins to send a message, with the first request.
pub fn send_message(text: &str) -> (r: (Message, Request))
    ensures
        r.0@ == (MessageView { text: text@, stage: Stage::Focus, shown: seq![] }),
        r.1@ == request_of(Stage::Focus, text@),
{
    let m = Message { text: text.to_owned(), stage: Stage::Focus, shown: String::new() };
    let q = m.request();
    (m, q)
}

impl Message {
    fn request(&self) -> (r: Request)
        ensures
            r@ == request_of(self@.stage, self@.text),
    {
        match self.stage {
            Stage::Focus => Request::Evaluate(FOCUS_JS.to_owned()),
            Stage::Clear => Request::Evaluate(CLEAR_JS.to_owned()),
            Stage::Insert => Request::Call(
                "Input.insertText".to_owned(),
                Json::object().with("text", Json::Str(self.text.clone())),
            ),
            Stage::ReadBack => Request::Evaluate(READ_BACK_JS.to_owned()),
            Stage::Settle => Request::Pause(300),
            Stage::KeyDown => Request::Call(
                "Input.dispatchKeyEvent".to_owned(),
                press_enter("rawKeyDown"),
            ),
            Stage::KeyUp => Request::Call("Input.dispatchKeyEvent".to_owned(), press_enter("keyUp")),
        }
    }

    /// Goes on from the reply to the last request; a pause is answered with any value.
    pub fn on_reply(&mut self, reply: Result<Json, String>) -> (r: Step)
        ensures
            (final(self)@, r@) == message_next(old(self)@, reply_view(reply)),
    {
        if self.stage == Stage::ReadBack {
            self.shown = match reply {
                Ok(Json::Str(s)) => s,
                _ => String::new(),
            };
            self.stage = Stage::Settle;
            return Step::Next(self.request());
        }
        let v = match reply {
            Ok(v) => v,
            Err(e) => {
                return Step::Done(Err(e));
            },
        };
        match self.stage {
            Stage::Focus => {
                let said = match &v {
                    Json::Str(s) => s.as_str(),
                    _ => "",
                };
                proof {
                    reveal_strlit("");
                    assert(""@ =~= Seq::<char>::empty());
                }
                if !starts_with(said, "FOCUSED") {
                    let mut s = "找不到可聚焦的输入框（".to_owned();
                    s.append(said);
                    s.append("）");
                    return Step::Done(Err(s));
                }
                self.stage = Stage::Clear;
            },
            Stage::Clear => {
                self.stage = Stage::Insert;
            },
            Stage::Insert => {
                self.stage = Stage::ReadBack;
            },
            Stage::Settle => {
                self.stage = Stage::KeyDown;
            },
            Stage::KeyDown => {
                self.stage = Stage::KeyUp;
            },
            _ => {
                let mut s = "OK TYPED(".to_owned();
                s.append(self.shown.as_str());
                s.append(")");
                return Step::Done(Ok(s));
            },
        }
        Step::Next(self.request())
    }
}

/// How far a stage is from the end.
pub open spec fn stages_left(stage: Stage) -> nat {
    match stage {
        Stage::Focus => 7,
        Stage::Clear => 6,
        Stage::Insert => 5,
        Stage::ReadBack => 4,
        Stage::Settle => 3,
        Stage::KeyDown => 2,
        Stage::KeyUp => 1,
    }
}

/// Every reply brings the sending one stage nearer to its end or ends it, the message stays the
/// same, and it ends well only behind the last stage: no stage is left out.
pub proof fn law_message_in_order(m: MessageView, reply: Result<JsonView, Seq<char>>)
    ensures
        ({
            let (next, step) = message_next(m, reply);
            &&& next.text == m.text
            &&& step is Next ==> stages_left(next.stage) == stages_left(m.stage) - 1
            &&& step matches StepView::Done(Ok(_)) ==> m.stage == Stage::KeyUp
        }),
{
}

/// Whatever a message needs done only observes or types: expressions are evaluated, and the only
/// methods called are those that put text in and press a key.
pub proof fn law_sending_only_observes_and_types(stage: Stage, text: Seq<char>)
    ensures
        request_of(stage, text) matches RequestView::Call(method, _) ==> method
            == "Input.insertText"@ || method == "Input.dispatchKeyEvent"@,
{
}

} // verus!
