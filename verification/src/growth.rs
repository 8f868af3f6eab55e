//! The growth programme: invitation codes, tasks and their credit.
//!
//! A task goes from `not_accepted` over `accepted` and `in_progress` to `completed` and, when its
//! credit has been claimed, to `claimed`. What the service can be asked for is to accept tasks and
//! to claim what is completed; the steps between are made by using the client.
use crate::json::{copy_all, views, Json, JsonView};
use crate::text::{contains, lowered, occurs, same, to_lowercase};
use vstd::prelude::*;
use vstd::string::*;

verus! {

/// A task that has not been accepted.
pub const ST_NOT_ACCEPTED: &'static str = "not_accepted";

/// A task that has been accepted.
pub const ST_ACCEPTED: &'static str = "accepted";

/// A task that has been begun.
pub const ST_IN_PROGRESS: &'static str = "in_progress";

/// A task that is done and whose credit waits.
pub const ST_COMPLETED: &'static str = "completed";

/// A task whose credit has been claimed.
pub const ST_CLAIMED: &'static str = "claimed";

/// The meaning of a return code of the invitation service.
pub open spec fn code_meaning(code: int) -> Seq<char> {
    if code == 0 {
        "绑定成功"@
    } else if code == 12310 {
        "该账号已绑定过邀请码，无需重复绑定"@
    } else if code == 12311 {
        "仅活动期间新注册的用户可绑定邀请码（老账号无法绑定）"@
    } else if code == 12312 {
        "活动已结束，无法绑定邀请码"@
    } else if code == 12313 {
        "已静默处理"@
    } else if code == 12314 {
        "该邀请码不适用于当前活动"@
    } else if code == 12315 {
        "收货地址已提交锁定，无法修改"@
    } else if code == 12316 {
        "绑定请求被拒绝，请联系客服"@
    } else if code == 12319 {
        "邀请码不存在，请检查后重试"@
    } else {
        "未知返回码"@
    }
}

/// The meaning of a return code of the invitation service.
pub fn invite_code_message(code: i64) -> (r: &'static str)
    ensures
        r@ == code_meaning(code as int),
{
    match code {
        0 => "绑定成功",
        12310 => "该账号已绑定过邀请码，无需重复绑定",
        12311 => "仅活动期间新注册的用户可绑定邀请码（老账号无法绑定）",
        12312 => "活动已结束，无法绑定邀请码",
        12313 => "已静默处理",
        12314 => "该邀请码不适用于当前活动",
        12315 => "收货地址已提交锁定，无法修改",
        12316 => "绑定请求被拒绝，请联系客服",
        12319 => "邀请码不存在，请检查后重试",
        _ => "未知返回码",
    }
}

// ---------------------------------------------------------------------------
// Requests and responses
// ---------------------------------------------------------------------------

/// Where the services are: the host, and the paths under which they stand.
#[derive(Debug)]
pub struct Api {
    pub endpoint: String,
    pub growth_prefix: String,
    pub invite_prefix: String,
}

/// A request to a service.
pub struct ApiCall {
    pub method: &'static str,
    pub path: String,
    pub body: Option<Json>,
}

/// What an [`ApiCall`] holds.
pub struct ApiCallView {
    pub method: Seq<char>,
    pub path: Seq<char>,
    pub body: Option<JsonView>,
}

impl View for ApiCall {
    type V = ApiCallView;

    open spec fn view(&self) -> ApiCallView {
        ApiCallView {
            method: self.method@,
            path: self.path@,
            body: match self.body {
                Some(b) => Some(b@),
                None => None,
            },
        }
    }
}

fn joined(a: &str, b: &str) -> (r: String)
    ensures
        r@ == a@ + b@,
{
    let mut s = a.to_owned();
    s.append(b);
    s
}

/// The address of a path.
pub fn request_url(api: &Api, path: &str) -> (r: String)
    ensures
        r@ == api.endpoint@ + path@,
{
    joined(api.endpoint.as_str(), path)
}

/// A header of a request.
pub struct Header {
    pub name: String,
    pub value: String,
}

/// The headers by name; of two with one name the later one counts.
pub open spec fn headers_view(hs: Seq<Header>) -> Map<Seq<char>, Seq<char>>
    decreases hs.len(),
{
    if hs.len() == 0 {
        Map::empty()
    } else {
        headers_view(hs.drop_last()).insert(hs.last().name@, hs.last().value@)
    }
}

fn put_header(hs: &mut Vec<Header>, name: &str, value: &str)
    ensures
        headers_view(final(hs)@) == headers_view(old(hs)@).insert(name@, value@),
{
    hs.push(Header { name: name.to_owned(), value: value.to_owned() });
    assert(hs@.drop_last() =~= old(hs)@);
}

/// The headers of a request to the growth and invitation services: those that authorise the
/// account, and those that make it a request of the web page.
pub open spec fn growth_headers(auth: Map<Seq<char>, Seq<char>>, api: Api) -> Map<
    Seq<char>,
    Seq<char>,
> {
    auth.insert("x-client-platform"@, "web"@).insert("origin"@, api.endpoint@).insert(
        "referer"@,
        api.endpoint@ + "/profile/growth-center"@,
    )
}

/// The headers of a request to the growth and invitation services, from those that authorise the
/// account.
pub fn build_growth_headers(auth: Vec<Header>, api: &Api) -> (r: Vec<Header>)
    ensures
        headers_view(r@) == growth_headers(headers_view(auth@), *api),
{
    let mut hs = auth;
    put_header(&mut hs, "x-client-platform", "web");
    put_header(&mut hs, "origin", api.endpoint.as_str());
    put_header(
        &mut hs,
        "referer",
        joined(api.endpoint.as_str(), "/profile/growth-center").as_str(),
    );
    hs
}

/// The id of an account, or its display name where it has none.
pub open spec fn key_of(account: JsonView, display_name: Seq<char>) -> Seq<char> {
    if account.text_at("id"@).len() > 0 {
        account.text_at("id"@)
    } else {
        display_name
    }
}

/// The id of an account, or its display name where it has none.
pub fn account_key(account: &Json, display_name: &str) -> (r: String)
    ensures
        r@ == key_of(account@, display_name@),
{
    let id = account.text_at("id");
    if id.as_str().is_empty() {
        display_name.to_owned()
    } else {
        id
    }
}

/// The message of a response: `message`, or `msg` where there is none of the first name.
pub open spec fn message_of(resp: JsonView) -> Seq<char> {
    if resp.get("message"@) is Some {
        resp.text_at("message"@)
    } else {
        resp.text_at("msg"@)
    }
}

/// The message of a response.
pub fn resp_msg(resp: &Json) -> (r: String)
    ensures
        r@ == message_of(resp@),
{
    if resp.get("message").is_some() {
        resp.text_at("message")
    } else {
        resp.text_at("msg")
    }
}

/// The return code of a response, or -1 where it has none.
pub open spec fn code_of(resp: JsonView) -> int {
    match resp.int_at("code"@) {
        Some(n) => n,
        None => -1,
    }
}

fn resp_code(resp: &Json) -> (r: i64)
    ensures
        r == code_of(resp@),
{
    match resp.int_at("code") {
        Some(n) => n,
        None => -1,
    }
}

/// Whether a response reports success.
pub fn resp_ok(resp: &Json) -> (r: bool)
    ensures
        r == (code_of(resp@) == 0),
{
    resp_code(resp) == 0
}

/// Whether a message in lower case speaks of a login that does not count any more.
pub open spec fn speaks_of_login(message: Seq<char>) -> bool {
    ||| occurs(message, "unauthorized"@)
    ||| occurs(message, "401"@)
    ||| occurs(message, "登录"@)
    ||| occurs(message, "失效"@)
    ||| occurs(message, "过期"@)
    ||| occurs(message, "token"@)
}

/// Whether a message in lower case speaks of a login that does not count any more.
pub fn says_unauthorized(message: &str) -> (r: bool)
    ensures
        r == speaks_of_login(message@),
{
    contains(message, "unauthorized") || contains(message, "401") || contains(message, "登录")
        || contains(message, "失效") || contains(message, "过期") || contains(message, "token")
}

/// Whether a response refuses the login of the account.
pub open spec fn unauthorized(resp: JsonView) -> bool {
    ||| code_of(resp) == 401
    ||| code_of(resp) == 403
    ||| speaks_of_login(lowered(message_of(resp)))
}

/// Whether a response refuses the login of the account.
pub fn is_unauthorized(resp: &Json) -> (r: bool)
    ensures
        r == unauthorized(resp@),
{
    let code: i64 = resp_code(resp);
    if code == 401 || code == 403 {
        return true;
    }
    says_unauthorized(to_lowercase(resp_msg(resp).as_str()).as_str())
}

/// Whether an account has what it takes to renew its login.
pub open spec fn renewable(account: JsonView) -> bool {
    account.text_at("refresh_token"@).len() > 0
}

/// A request as it goes out.
pub struct Outgoing {
    pub url: String,
    pub method: &'static str,
    pub body: Option<Json>,
    pub headers: Vec<Header>,
}

/// What an [`Outgoing`] request holds.
pub struct OutgoingView {
    pub url: Seq<char>,
    pub method: Seq<char>,
    pub body: Option<JsonView>,
    pub headers: Map<Seq<char>, Seq<char>>,
}

impl View for Outgoing {
    type V = OutgoingView;

    open spec fn view(&self) -> OutgoingView {
        OutgoingView {
            url: self.url@,
            method: self.method@,
            body: match self.body {
                Some(b) => Some(b@),
                None => None,
            },
            headers: headers_view(self.headers@),
        }
    }
}

/// A request as it goes out for an account that those headers authorise.
pub open spec fn outgoing(
    api: Api,
    call: ApiCallView,
    auth: Map<Seq<char>, Seq<char>>,
) -> OutgoingView {
    OutgoingView {
        url: api.endpoint@ + call.path,
        method: call.method,
        body: call.body,
        headers: growth_headers(auth, api),
    }
}

/// What an exchange needs next: the login of the account renewed and the request repeated, or
/// nothing more, with the response.
pub enum ExchangeStep {
    Renew,
    Done(Json),
}

/// What an [`ExchangeStep`] holds.
pub enum ExchangeStepView {
    Renew,
    Done(JsonView),
}

impl View for ExchangeStep {
    type V = ExchangeStepView;

    open spec fn view(&self) -> ExchangeStepView {
        match self {
            ExchangeStep::Renew => ExchangeStepView::Renew,
            ExchangeStep::Done(resp) => ExchangeStepView::Done(resp@),
        }
    }
}

/// The exchange of a request: what is asked for, and whether the login of the account can still be
/// renewed for it.
pub struct ExchangeView {
    pub api: Api,
    pub call: ApiCallView,
    pub may_renew: bool,
}

/// How an exchange goes on from a response. A refused login is renewed once: whatever comes back
/// for the repeated request is the response.
pub open spec fn exchange_next(x: ExchangeView, resp: JsonView) -> (
    ExchangeView,
    ExchangeStepView,
) {
    if x.may_renew && unauthorized(resp) {
        (ExchangeView { may_renew: false, ..x }, ExchangeStepView::Renew)
    } else {
        (x, ExchangeStepView::Done(resp))
    }
}

/// The exchange of a request.
pub struct Exchange {
    api: Api,
    call: ApiCall,
    may_renew: bool,
}

impl View for Exchange {
    type V = ExchangeView;

    closed spec fn view(&self) -> ExchangeView {
        ExchangeView { api: self.api, call: self.call@, may_renew: self.may_renew }
    }
}

/// Begins the exchange of a request for an account; [`Exchange::request`] gives what goes out.
pub fn growth_request(api: Api, call: ApiCall, account: &Json) -> (r: Exchange)
    ensures
        r@ == (ExchangeView { api, call: call@, may_renew: renewable(account@) }),
{
    let may_renew = !account.text_at("refresh_token").as_str().is_empty();
    Exchange { api, call, may_renew }
}

impl Exchange {
    /// The request as it goes out, the first time and when it is repeated. The headers are those
    /// that authorise the account as it is then.
    pub fn request(&self, auth: Vec<Header>) -> (r: Outgoing)
        ensures
            r@ == outgoing(self@.api, self@.call, headers_view(auth@)),
    {
        Outgoing {
            url: request_url(&self.api, self.call.path.as_str()),
            method: self.call.method,
            body: match &self.call.body {
                Some(b) => Some(b.copy()),
                None => None,
            },
            headers: build_growth_headers(auth, &self.api),
        }
    }

    /// Goes on from the response to the last request.
    pub fn on_response(&mut self, resp: Json) -> (r: ExchangeStep)
        ensures
            (final(self)@, r@) == exchange_next(old(self)@, resp@),
    {
        if self.may_renew && is_unauthorized(&resp) {
            self.may_renew = false;
            ExchangeStep::Renew
        } else {
            ExchangeStep::Done(resp)
        }
    }
}

/// A request is repeated exactly where its login was refused and the account can renew it. Then the
/// same is asked for again, at the same address, with the headers of the renewed account; and the
/// response to that is the response, whatever it is. There is no third request.
pub proof fn law_a_request_is_repeated_once(
    api: Api,
    call: ApiCallView,
    account: JsonView,
    first: JsonView,
    second: JsonView,
    auth: Map<Seq<char>, Seq<char>>,
    renewed: Map<Seq<char>, Seq<char>>,
)
    ensures
        ({
            let begun = ExchangeView { api, call, may_renew: renewable(account) };
            let (next, step) = exchange_next(begun, first);
            let sent = outgoing(begun.api, begun.call, auth);
            let repeated = outgoing(next.api, next.call, renewed);
            &&& step is Renew <==> unauthorized(first) && renewable(account)
            &&& step !is Renew ==> step == ExchangeStepView::Done(first)
            &&& step is Renew ==> exchange_next(next, second).1 == ExchangeStepView::Done(second)
            &&& repeated.url == sent.url
            &&& repeated.method == sent.method
            &&& repeated.body == sent.body
            &&& repeated.headers == growth_headers(renewed, api)
        }),
{
}

// ---------------------------------------------------------------------------
// Invitation codes
// ---------------------------------------------------------------------------

/// The report on binding an invitation code.
pub open spec fn bind_report(ok: bool, code: int, message: Seq<char>, already: bool) -> JsonView {
    JsonView::object().with("ok"@, JsonView::Bool(ok)).with("code"@, JsonView::Int(code)).with(
        "message"@,
        JsonView::Str(message),
    ).with("alreadyBound"@, JsonView::Bool(already))
}

fn make_bind_report(ok: bool, code: i64, message: String, already: bool) -> (r: Json)
    ensures
        r@ == bind_report(ok, code as int, message@, already),
{
    Json::object().with("ok", Json::Bool(ok)).with("code", Json::Int(code as i128)).with(
        "message",
        Json::Str(message),
    ).with("alreadyBound", Json::Bool(already))
}

/// The request that binds an invitation code.
pub open spec fn bind_call(api: Api, code: Seq<char>) -> ApiCallView {
    ApiCallView {
        method: "POST"@,
        path: api.invite_prefix@ + "/bind"@,
        body: Some(JsonView::object().with("inviteCode"@, JsonView::Str(code))),
    }
}

/// The report where there is no code to bind.
pub open spec fn no_code_report() -> JsonView {
    bind_report(false, -1, "邀请码为空或格式无法识别"@, false)
}

/// The request that binds an invitation code, or the report where there is no code to bind.
pub fn bind_invite_request(api: &Api, code: &str) -> (r: Result<ApiCall, Json>)
    ensures
        match r {
            Ok(call) => code@.len() > 0 && call@ == bind_call(*api, code@),
            Err(report) => code@.len() == 0 && report@ == no_code_report(),
        },
{
    if code.is_empty() {
        return Err(make_bind_report(false, -1, "邀请码为空或格式无法识别".to_owned(), false));
    }
    Ok(
        ApiCall {
            method: "POST",
            path: joined(api.invite_prefix.as_str(), "/bind"),
            body: Some(Json::object().with("inviteCode", Json::text(code))),
        },
    )
}

/// What the response to the binding of a code comes to. A code that was bound before counts as
/// bound; the message is that of the service, or the meaning of its code where it has none.
pub open spec fn bind_outcome(resp: JsonView) -> JsonView {
    let code = code_of(resp);
    let message = message_of(resp);
    bind_report(
        code == 0 || code == 12310,
        code,
        if message.len() > 0 {
            message
        } else {
            code_meaning(code)
        },
        code == 12310,
    )
}

/// The report on the response to the binding of a code.
pub fn bind_invite_code(resp: &Json) -> (r: Json)
    ensures
        r@ == bind_outcome(resp@),
{
    let code: i64 = resp_code(resp);
    let message = resp_msg(resp);
    let already = code == 12310;
    let shown = if message.as_str().is_empty() {
        invite_code_message(code).to_owned()
    } else {
        message
    };
    make_bind_report(code == 0 || already, code, shown, already)
}

/// A code counts as bound where it was bound now and where it was bound before; in the second
/// case the report says so.
pub proof fn law_bound_now_or_before(resp: JsonView)
    ensures
        bind_outcome(resp).bool_at("ok"@) == Some(code_of(resp) == 0 || code_of(resp) == 12310),
        bind_outcome(resp).bool_at("alreadyBound"@) == Some(code_of(resp) == 12310),
{
    reveal_strlit("ok");
    reveal_strlit("code");
    reveal_strlit("message");
    reveal_strlit("alreadyBound");
    assert("ok"@.len() == 2 && "code"@.len() == 4 && "message"@.len() == 7
        && "alreadyBound"@.len() == 12);
}

/// The integer of that member, or zero.
pub open spec fn int_or_zero(v: JsonView, key: Seq<char>) -> int {
    match v.int_at(key) {
        Some(n) => n,
        None => 0,
    }
}

fn read_int_or_zero(v: &Json, key: &str) -> (r: i64)
    ensures
        r == int_or_zero(v@, key@),
{
    match v.int_at(key) {
        Some(n) => n,
        None => 0,
    }
}

/// The requests for the progress of an account's invitations: the counts, and its own code, which
/// the counts do not hold.
pub fn invite_progress_requests(api: &Api) -> (r: (ApiCall, ApiCall))
    ensures
        r.0@ == (ApiCallView {
            method: "GET"@,
            path: api.invite_prefix@ + "/my-progress"@,
            body: None,
        }),
        r.1@ == (ApiCallView {
            method: "GET"@,
            path: api.invite_prefix@ + "/my-code"@,
            body: None,
        }),
{
    (
        ApiCall {
            method: "GET",
            path: joined(api.invite_prefix.as_str(), "/my-progress"),
            body: None,
        },
        ApiCall {
            method: "GET",
            path: joined(api.invite_prefix.as_str(), "/my-code"),
            body: None,
        },
    )
}

/// The progress of an account's invitations, from the two responses.
pub open spec fn invite_progress(progress: JsonView, mine: JsonView) -> JsonView {
    let d = progress.at("data"@);
    JsonView::object().with("ok"@, JsonView::Bool(code_of(progress) == 0)).with(
        "inviteCode"@,
        JsonView::Str(mine.at("data"@).text_at("invite_code"@)),
    ).with("inviteCount"@, JsonView::Int(int_or_zero(d, "invite_count"@))).with(
        "validInviteCount"@,
        JsonView::Int(int_or_zero(d, "valid_invite_count"@)),
    ).with("totalCredits"@, JsonView::Int(int_or_zero(d, "total_credits"@))).with(
        "invitedUsers"@,
        match d.get("invited_users"@) {
            Some(users) => users,
            None => JsonView::Array(seq![]),
        },
    ).with("raw"@, progress)
}

/// The report on the progress of an account's invitations.
pub fn fetch_invite_progress(progress: Json, mine: &Json) -> (r: Json)
    ensures
        r@ == invite_progress(progress@, mine@),
{
    let d = progress.at("data");
    let users = match d.get("invited_users") {
        Some(users) => users.copy(),
        None => {
            let none: Vec<Json> = Vec::new();
            assert(views(none@) =~= seq![]);
            Json::Array(none)
        },
    };
    Json::object().with("ok", Json::Bool(resp_ok(&progress))).with(
        "inviteCode",
        Json::Str(mine.at("data").text_at("invite_code")),
    ).with("inviteCount", Json::Int(read_int_or_zero(&d, "invite_count") as i128)).with(
        "validInviteCount",
        Json::Int(read_int_or_zero(&d, "valid_invite_count") as i128),
    ).with("totalCredits", Json::Int(read_int_or_zero(&d, "total_credits") as i128)).with(
        "invitedUsers",
        users,
    ).with("raw", progress)
}

// ---------------------------------------------------------------------------
// Tasks
// ---------------------------------------------------------------------------

/// The request for the tasks of an account.
pub open spec fn tasks_call(api: Api) -> ApiCallView {
    ApiCallView { method: "GET"@, path: api.growth_prefix@ + "/tasks"@, body: None }
}

/// The request for the tasks of an account.
pub fn fetch_growth_tasks(api: &Api) -> (r: ApiCall)
    ensures
        r@ == tasks_call(*api),
{
    ApiCall { method: "GET", path: joined(api.growth_prefix.as_str(), "/tasks"), body: None }
}

/// The request for the level of an account.
pub fn fetch_growth_profile(api: &Api) -> (r: ApiCall)
    ensures
        r@ == (ApiCallView {
            method: "GET"@,
            path: api.growth_prefix@ + "/profile"@,
            body: None,
        }),
{
    ApiCall { method: "GET", path: joined(api.growth_prefix.as_str(), "/profile"), body: None }
}

/// The tasks that a response lists, or none where it lists none.
pub open spec fn tasks_in(resp: JsonView) -> Seq<JsonView> {
    match resp.at("data"@).get("tasks"@) {
        Some(JsonView::Array(ts)) => ts,
        _ => seq![],
    }
}

/// The tasks that a response lists, or none where it lists none.
pub fn tasks_of(resp: &Json) -> (r: Vec<Json>)
    ensures
        views(r@) == tasks_in(resp@),
{
    match resp.get("data") {
        Some(d) => match d.get("tasks") {
            Some(Json::Array(ts)) => {
                return copy_all(ts);
            },
            _ => {},
        },
        None => {},
    }
    let none: Vec<Json> = Vec::new();
    assert(views(none@) =~= seq![]);
    none
}

/// Some texts as a JSON array.
pub open spec fn text_array(texts: Seq<Seq<char>>) -> JsonView {
    JsonView::Array(texts.map_values(|s: Seq<char>| JsonView::Str(s)))
}

/// The characters of each of some strings.
pub open spec fn strings_view(v: Seq<String>) -> Seq<Seq<char>> {
    v.map_values(|s: String| s@)
}

/// Some texts as a JSON array.
pub fn make_text_array(texts: &Vec<String>) -> (r: Json)
    ensures
        r@ == text_array(strings_view(texts@)),
{
    let mut out: Vec<Json> = Vec::new();
    let mut i: usize = 0;
    while i < texts.len()
        invariant
            i <= texts@.len(),
            out@.len() == i,
            forall|j: int| 0 <= j < i ==> (#[trigger] out@[j])@ == JsonView::Str(texts@[j]@),
        decreases texts@.len() - i,
    {
        out.push(Json::Str(texts[i].clone()));
        i += 1;
    }
    assert(views(out@) =~= strings_view(texts@).map_values(|s: Seq<char>| JsonView::Str(s)));
    Json::Array(out)
}

/// The request that accepts tasks.
pub open spec fn accept_call(api: Api, codes: Seq<Seq<char>>) -> ApiCallView {
    ApiCallView {
        method: "POST"@,
        path: api.growth_prefix@ + "/tasks/accept"@,
        body: Some(JsonView::object().with("task_codes"@, text_array(codes))),
    }
}

/// The request that accepts tasks, or the report where there are none to accept.
pub fn accept_request(api: &Api, codes: &Vec<String>) -> (r: Result<ApiCall, Json>)
    ensures
        match r {
            Ok(call) => codes@.len() > 0 && call@ == accept_call(*api, strings_view(codes@)),
            Err(report) => codes@.len() == 0 && report@ == JsonView::object().with(
                "ok"@,
                JsonView::Bool(true),
            ).with("accepted"@, JsonView::Int(0)).with(
                "message"@,
                JsonView::Str("没有待接受的任务"@),
            ),
        },
{
    if codes.len() == 0 {
        return Err(
            Json::object().with("ok", Json::Bool(true)).with("accepted", Json::Int(0)).with(
                "message",
                Json::text("没有待接受的任务"),
            ),
        );
    }
    Ok(
        ApiCall {
            method: "POST",
            path: joined(api.growth_prefix.as_str(), "/tasks/accept"),
            body: Some(Json::object().with("task_codes", make_text_array(codes))),
        },
    )
}

/// The report on the acceptance of `count` tasks: all of them, or none where the service refused.
pub open spec fn accept_report(resp: JsonView, count: nat) -> JsonView {
    JsonView::object().with("ok"@, JsonView::Bool(code_of(resp) == 0)).with(
        "accepted"@,
        JsonView::Int(
            if code_of(resp) == 0 {
                count as int
            } else {
                0
            },
        ),
    ).with("message"@, JsonView::Str(message_of(resp))).with("raw"@, resp)
}

/// The report on the response to the acceptance of `count` tasks.
pub fn accept_growth_tasks(resp: Json, count: usize) -> (r: Json)
    ensures
        r@ == accept_report(resp@, count as nat),
{
    let ok = resp_ok(&resp);
    Json::object().with("ok", Json::Bool(ok)).with(
        "accepted",
        Json::Int(
            if ok {
                count as i128
            } else {
                0
            },
        ),
    ).with("message", Json::Str(resp_msg(&resp))).with("raw", resp)
}

/// The request that claims the credit of a task.
pub open spec fn claim_call(api: Api, task_code: Seq<char>) -> ApiCallView {
    ApiCallView {
        method: "POST"@,
        path: api.growth_prefix@ + "/tasks/"@ + task_code + "/claim"@,
        body: None,
    }
}

/// The request that claims the credit of a task.
pub fn claim_request(api: &Api, task_code: &str) -> (r: ApiCall)
    ensures
        r@ == claim_call(*api, task_code@),
{
    let mut path = joined(api.growth_prefix.as_str(), "/tasks/");
    path.append(task_code);
    path.append("/claim");
    ApiCall { method: "POST", path, body: None }
}

/// The report on the claim of a task.
pub open spec fn claim_report(resp: JsonView) -> JsonView {
    JsonView::object().with("ok"@, JsonView::Bool(code_of(resp) == 0)).with(
        "code"@,
        JsonView::Int(code_of(resp)),
    ).with("message"@, JsonView::Str(message_of(resp))).with("raw"@, resp)
}

/// The report on the response to the claim of a task.
pub fn claim_growth_task(resp: Json) -> (r: Json)
    ensures
        r@ == claim_report(resp@),
{
    Json::object().with("ok", Json::Bool(resp_ok(&resp))).with(
        "code",
        Json::Int(resp_code(&resp) as i128),
    ).with("message", Json::Str(resp_msg(&resp))).with("raw", resp)
}

/// A claim is reported as granted exactly where the service returned the code zero.
pub proof fn law_claim_is_granted_by_code_zero(resp: JsonView)
    ensures
        claim_report(resp).bool_at("ok"@) == Some(code_of(resp) == 0),
{
    reveal_strlit("ok");
    reveal_strlit("code");
    reveal_strlit("message");
    reveal_strlit("raw");
    assert("ok"@.len() == 2 && "code"@.len() == 4 && "message"@.len() == 7 && "raw"@.len() == 3);
}

// ---------------------------------------------------------------------------
// The summary of the tasks
// ---------------------------------------------------------------------------

/// The state of a task; one that names none has not been accepted.
pub open spec fn status_of(t: JsonView) -> Seq<char> {
    match t.get("accept_status"@) {
        Some(JsonView::Str(s)) => s,
        _ => ST_NOT_ACCEPTED@,
    }
}

/// The credit of a task.
pub open spec fn credit_of(t: JsonView) -> int {
    int_or_zero(t, "reward_credit"@)
}

/// How far a task has come.
pub open spec fn current_of(t: JsonView) -> int {
    int_or_zero(t.at("progress"@), "current"@)
}

/// How far a task has to come; zero where that is not told.
pub open spec fn target_of(t: JsonView) -> int {
    int_or_zero(t.at("progress"@), "target"@)
}

/// Whether the credit of a task waits to be claimed.
pub open spec fn is_earnable(t: JsonView) -> bool {
    status_of(t) == ST_COMPLETED@
}

/// Whether a task is still to be done.
pub open spec fn is_pending(t: JsonView) -> bool {
    &&& status_of(t) == ST_NOT_ACCEPTED@ || status_of(t) == ST_ACCEPTED@ || status_of(t)
        == ST_IN_PROGRESS@
    &&& target_of(t) == 0 || current_of(t) < target_of(t)
}

/// The credit of the tasks for which `p` holds.
pub open spec fn credit_where(ts: Seq<JsonView>, p: spec_fn(JsonView) -> bool) -> int
    decreases ts.len(),
{
    if ts.len() == 0 {
        0
    } else {
        credit_where(ts.drop_last(), p) + (if p(ts.last()) {
            credit_of(ts.last())
        } else {
            0
        })
    }
}

/// How many of the tasks are in that state.
pub open spec fn count_status(ts: Seq<JsonView>, status: Seq<char>) -> nat
    decreases ts.len(),
{
    if ts.len() == 0 {
        0
    } else {
        count_status(ts.drop_last(), status) + (if status_of(ts.last()) == status {
            1nat
        } else {
            0nat
        })
    }
}

/// The number of tasks in each state that occurs.
pub open spec fn status_counts(ts: Seq<JsonView>) -> JsonView {
    JsonView::Object(
        Map::new(
            |k: Seq<char>| count_status(ts, k) > 0,
            |k: Seq<char>| JsonView::Int(count_status(ts, k) as int),
        ),
    )
}

/// What is told of a task that is still to be done.
pub open spec fn pending_entry(t: JsonView) -> JsonView {
    JsonView::object().with("taskCode"@, JsonView::Str(t.text_at("task_code"@))).with(
        "title"@,
        JsonView::Str(t.text_at("title"@)),
    ).with("credit"@, JsonView::Int(credit_of(t))).with(
        "acceptStatus"@,
        JsonView::Str(status_of(t)),
    ).with("current"@, JsonView::Int(current_of(t))).with(
        "target"@,
        JsonView::Int(target_of(t)),
    ).with("jumpUrl"@, JsonView::Str(t.text_at("jump_url"@))).with(
        "description"@,
        JsonView::Str(t.text_at("description"@)),
    )
}

/// The tasks still to be done, in their order.
pub open spec fn pending_entries(ts: Seq<JsonView>) -> Seq<JsonView>
    decreases ts.len(),
{
    if ts.len() == 0 {
        seq![]
    } else if is_pending(ts.last()) {
        pending_entries(ts.drop_last()).push(pending_entry(ts.last()))
    } else {
        pending_entries(ts.drop_last())
    }
}

/// The summary of some tasks: how many, the credit that waits, the credit still to be earned, how
/// many in each state, and those still to be done.
pub open spec fn task_summary(ts: Seq<JsonView>) -> JsonView {
    JsonView::object().with("total"@, JsonView::Int(ts.len() as int)).with(
        "earnableCredit"@,
        JsonView::Int(credit_where(ts, |t: JsonView| is_earnable(t))),
    ).with(
        "pendingCredit"@,
        JsonView::Int(credit_where(ts, |t: JsonView| is_pending(t))),
    ).with("statusCounts"@, status_counts(ts)).with(
        "pending"@,
        JsonView::Array(pending_entries(ts)),
    )
}

fn read_status(t: &Json) -> (r: String)
    ensures
        r@ == status_of(t@),
{
    match t.get("accept_status") {
        Some(Json::Str(s)) => s.clone(),
        _ => ST_NOT_ACCEPTED.to_owned(),
    }
}

fn read_progress(t: &Json, key: &str) -> (r: i64)
    ensures
        r == int_or_zero(t@.at("progress"@), key@),
{
    match t.get("progress") {
        Some(p) => read_int_or_zero(p, key),
        None => 0,
    }
}

proof fn lemma_status_counts_step(ts: Seq<JsonView>)
    requires
        ts.len() > 0,
    ensures
        status_counts(ts) == status_counts(ts.drop_last()).with(
            status_of(ts.last()),
            JsonView::Int(count_status(ts.drop_last(), status_of(ts.last())) as int + 1),
        ),
{
    let st = status_of(ts.last());
    let before = status_counts(ts.drop_last())->Object_0;
    let now = status_counts(ts)->Object_0;
    assert(now =~= before.insert(
        st,
        JsonView::Int(count_status(ts.drop_last(), status_of(ts.last())) as int + 1),
    ));
}

proof fn lemma_count_status_bound(ts: Seq<JsonView>, status: Seq<char>)
    ensures
        count_status(ts, status) <= ts.len(),
    decreases ts.len(),
{
    if ts.len() > 0 {
        lemma_count_status_bound(ts.drop_last(), status);
    }
}

/// Summarises tasks. Sums are taken without wrapping around.
pub fn summarize_tasks(tasks: &Vec<Json>) -> (r: Json)
    ensures
        r@ == task_summary(views(tasks@)),
{
    let ghost ts = views(tasks@);
    let ghost earn = |t: JsonView| is_earnable(t);
    let ghost pend = |t: JsonView| is_pending(t);
    let mut earnable: i128 = 0;
    let mut pending_credit: i128 = 0;
    let mut counts = Json::object();
    let mut pending: Vec<Json> = Vec::new();
    let mut i: usize = 0;
    proof {
        assert(status_counts(ts.take(0))->Object_0 =~= Map::empty());
        assert(views(pending@) =~= seq![]);
    }
    while i < tasks.len()
        invariant
            i <= tasks@.len(),
            ts == views(tasks@),
            earn == (|t: JsonView| is_earnable(t)),
            pend == (|t: JsonView| is_pending(t)),
            earnable == credit_where(ts.take(i as int), earn),
            pending_credit == credit_where(ts.take(i as int), pend),
            -(i * 0x8000_0000_0000_0000) <= earnable <= i * 0x8000_0000_0000_0000,
            -(i * 0x8000_0000_0000_0000) <= pending_credit <= i * 0x8000_0000_0000_0000,
            counts@ == status_counts(ts.take(i as int)),
            views(pending@) == pending_entries(ts.take(i as int)),
        decreases tasks@.len() - i,
    {
        let t = &tasks[i];
        let ghost now = ts.take(i + 1);
        proof {
            assert(now.drop_last() =~= ts.take(i as int));
            assert(now.last() == t@);
            lemma_status_counts_step(now);
            lemma_count_status_bound(ts.take(i as int), status_of(t@));
        }
        let st = read_status(t);
        let credit: i64 = read_int_or_zero(t, "reward_credit");
        let current: i64 = read_progress(t, "current");
        let target: i64 = read_progress(t, "target");

        let n: i128 = match counts.get(st.as_str()) {
            Some(Json::Int(n)) => *n,
            _ => 0,
        };
        assert(n == count_status(ts.take(i as int), st@));
        counts = counts.with(st.as_str(), Json::Int(n + 1));

        if same(st.as_str(), ST_COMPLETED) {
            earnable = earnable + credit as i128;
            proof {
                lemma_states_differ();
            }
        } else if same(st.as_str(), ST_NOT_ACCEPTED) || same(st.as_str(), ST_ACCEPTED) || same(
            st.as_str(),
            ST_IN_PROGRESS,
        ) {
            if target == 0 || current < target {
                pending_credit = pending_credit + credit as i128;
                let ghost old_pending = pending@;
                pending.push(
                    Json::object().with("taskCode", Json::Str(t.text_at("task_code"))).with(
                        "title",
                        Json::Str(t.text_at("title")),
                    ).with("credit", Json::Int(credit as i128)).with(
                        "acceptStatus",
                        Json::Str(st),
                    ).with("current", Json::Int(current as i128)).with(
                        "target",
                        Json::Int(target as i128),
                    ).with("jumpUrl", Json::Str(t.text_at("jump_url"))).with(
                        "description",
                        Json::Str(t.text_at("description")),
                    ),
                );
                assert(views(pending@) =~= views(old_pending).push(pending_entry(t@)));
            }
        }
        i += 1;
    }
    assert(ts.take(i as int) =~= ts);
    Json::object().with("total", Json::Int(tasks.len() as i128)).with(
        "earnableCredit",
        Json::Int(earnable),
    ).with("pendingCredit", Json::Int(pending_credit)).with("statusCounts", counts).with(
        "pending",
        Json::Array(pending),
    )
}

proof fn lemma_states_differ()
    ensures
        ST_COMPLETED@ != ST_NOT_ACCEPTED@,
        ST_COMPLETED@ != ST_ACCEPTED@,
        ST_COMPLETED@ != ST_IN_PROGRESS@,
        ST_COMPLETED@ != ST_CLAIMED@,
{
    reveal_strlit("not_accepted");
    reveal_strlit("accepted");
    reveal_strlit("in_progress");
    reveal_strlit("completed");
    reveal_strlit("claimed");
    assert(ST_COMPLETED@[0] == 'c');
    assert(ST_COMPLETED@.len() == 9);
}

/// No credit is counted twice: a task whose credit waits is not still to be done.
pub proof fn law_earnable_is_not_pending(t: JsonView)
    ensures
        !(is_earnable(t) && is_pending(t)),
{
    lemma_states_differ();
}

/// Each task adds to the count of one state, its own, and to no other.
pub proof fn law_every_task_is_counted_once(ts: Seq<JsonView>, t: JsonView, status: Seq<char>)
    ensures
        count_status(ts.push(t), status) == count_status(ts, status) + (if status == status_of(t) {
            1nat
        } else {
            0nat
        }),
        status_counts(ts.push(t)).get(status_of(t)) == Some(
            JsonView::Int(count_status(ts, status_of(t)) as int + 1),
        ),
{
    assert(ts.push(t).drop_last() =~= ts);
}

/// The credit still to be earned is the credit of the tasks that are listed as still to be done.
pub proof fn law_pending_credit_is_that_of_the_list(ts: Seq<JsonView>)
    ensures
        credit_where(ts, |t: JsonView| is_pending(t)) == listed_credit(pending_entries(ts)),
    decreases ts.len(),
{
    if ts.len() > 0 {
        law_pending_credit_is_that_of_the_list(ts.drop_last());
        let pend = |t: JsonView| is_pending(t);
        if is_pending(ts.last()) {
            let before = pending_entries(ts.drop_last());
            let entry = pending_entry(ts.last());
            assert(before.push(entry).drop_last() =~= before);
            lemma_entry_credit(ts.last());
        }
    }
}

/// The credit that a list of tasks still to be done names.
pub open spec fn listed_credit(entries: Seq<JsonView>) -> int
    decreases entries.len(),
{
    if entries.len() == 0 {
        0
    } else {
        listed_credit(entries.drop_last()) + int_or_zero(entries.last(), "credit"@)
    }
}

proof fn lemma_entry_credit(t: JsonView)
    ensures
        int_or_zero(pending_entry(t), "credit"@) == credit_of(t),
{
    reveal_strlit("credit");
    reveal_strlit("acceptStatus");
    reveal_strlit("current");
    reveal_strlit("target");
    reveal_strlit("jumpUrl");
    reveal_strlit("description");
    assert("credit"@.len() == 6);
    assert("target"@[0] == 't');
    assert("credit"@[0] == 'c');
}

/// What the members of a summary are.
pub proof fn law_members_of_the_summary(ts: Seq<JsonView>)
    ensures
        task_summary(ts).at("total"@) == JsonView::Int(ts.len() as int),
        task_summary(ts).at("earnableCredit"@) == JsonView::Int(
            credit_where(ts, |t: JsonView| is_earnable(t)),
        ),
        task_summary(ts).at("pendingCredit"@) == JsonView::Int(
            credit_where(ts, |t: JsonView| is_pending(t)),
        ),
        task_summary(ts).at("statusCounts"@) == status_counts(ts),
        task_summary(ts).at("pending"@) == JsonView::Array(pending_entries(ts)),
{
    reveal_strlit("total");
    reveal_strlit("earnableCredit");
    reveal_strlit("pendingCredit");
    reveal_strlit("statusCounts");
    reveal_strlit("pending");
    assert("total"@.len() == 5 && "earnableCredit"@.len() == 14 && "pendingCredit"@.len() == 13
        && "statusCounts"@.len() == 12 && "pending"@.len() == 7);
}

// ---------------------------------------------------------------------------
// The newcomer's round: bind, accept, claim
// ---------------------------------------------------------------------------

/// The codes of the tasks to accept: those that say that they have not been accepted and that
/// have a code, in their order.
pub open spec fn codes_to_accept(ts: Seq<JsonView>) -> Seq<Seq<char>>
    decreases ts.len(),
{
    if ts.len() == 0 {
        seq![]
    } else {
        let t = ts.last();
        let before = codes_to_accept(ts.drop_last());
        if t.at("accept_status"@).as_str() == Some(ST_NOT_ACCEPTED@) && t.text_at(
            "task_code"@,
        ).len() > 0 {
            before.push(t.text_at("task_code"@))
        } else {
            before
        }
    }
}

/// The codes of the tasks to accept.
pub fn tasks_to_accept(tasks: &Vec<Json>) -> (r: Vec<String>)
    ensures
        strings_view(r@) == codes_to_accept(views(tasks@)),
{
    let ghost ts = views(tasks@);
    let mut out: Vec<String> = Vec::new();
    let mut i: usize = 0;
    assert(strings_view(out@) =~= codes_to_accept(ts.take(0)));
    while i < tasks.len()
        invariant
            i <= tasks@.len(),
            ts == views(tasks@),
            strings_view(out@) == codes_to_accept(ts.take(i as int)),
        decreases tasks@.len() - i,
    {
        let t = &tasks[i];
        assert(ts.take(i + 1).drop_last() =~= ts.take(i as int));
        assert(ts.take(i + 1).last() == t@);
        let open = match t.get("accept_status") {
            Some(Json::Str(s)) => same(s.as_str(), ST_NOT_ACCEPTED),
            _ => false,
        };
        let code = t.text_at("task_code");
        if open && !code.as_str().is_empty() {
            let ghost before = out@;
            out.push(code);
            assert(strings_view(out@) =~= strings_view(before).push(t@.text_at("task_code"@)));
        }
        i += 1;
    }
    assert(ts.take(i as int) =~= ts);
    out
}

/// A task whose credit waits to be claimed.
pub struct Claim {
    pub code: String,
    pub title: String,
    pub credit: i64,
}

/// What a [`Claim`] holds.
pub struct ClaimView {
    pub code: Seq<char>,
    pub title: Seq<char>,
    pub credit: int,
}

impl View for Claim {
    type V = ClaimView;

    open spec fn view(&self) -> ClaimView {
        ClaimView { code: self.code@, title: self.title@, credit: self.credit as int }
    }
}

/// What each of some claims holds.
pub open spec fn claim_views(claims: Seq<Claim>) -> Seq<ClaimView> {
    claims.map_values(|c: Claim| c@)
}

/// Whether the credit of a task can be claimed: it is completed and has a code.
pub open spec fn can_be_claimed(t: JsonView) -> bool {
    &&& t.at("accept_status"@).as_str() == Some(ST_COMPLETED@)
    &&& t.at("task_code"@).as_str() is Some
}

/// The claim for the credit of a task.
pub open spec fn claim_for(t: JsonView) -> ClaimView {
    ClaimView {
        code: t.text_at("task_code"@),
        title: t.text_at("title"@),
        credit: credit_of(t),
    }
}

/// The claims for the tasks that are completed, in their order.
pub open spec fn claims_of(ts: Seq<JsonView>) -> Seq<ClaimView>
    decreases ts.len(),
{
    if ts.len() == 0 {
        seq![]
    } else if can_be_claimed(ts.last()) {
        claims_of(ts.drop_last()).push(claim_for(ts.last()))
    } else {
        claims_of(ts.drop_last())
    }
}

/// The claims for the tasks that are completed.
pub fn tasks_to_claim(tasks: &Vec<Json>) -> (r: Vec<Claim>)
    ensures
        claim_views(r@) == claims_of(views(tasks@)),
{
    let ghost ts = views(tasks@);
    let mut out: Vec<Claim> = Vec::new();
    let mut i: usize = 0;
    assert(claim_views(out@) =~= claims_of(ts.take(0)));
    while i < tasks.len()
        invariant
            i <= tasks@.len(),
            ts == views(tasks@),
            claim_views(out@) == claims_of(ts.take(i as int)),
        decreases tasks@.len() - i,
    {
        let t = &tasks[i];
        assert(ts.take(i + 1).drop_last() =~= ts.take(i as int));
        assert(ts.take(i + 1).last() == t@);
        let completed = match t.get("accept_status") {
            Some(Json::Str(s)) => same(s.as_str(), ST_COMPLETED),
            _ => false,
        };
        if completed {
            match t.get("task_code") {
                Some(Json::Str(code)) => {
                    let ghost before = out@;
                    out.push(
                        Claim {
                            code: code.clone(),
                            title: t.text_at("title"),
                            credit: read_int_or_zero(t, "reward_credit"),
                        },
                    );
                    assert(claim_views(out@) =~= claim_views(before).push(claim_for(t@)));
                },
                _ => {},
            }
        }
        i += 1;
    }
    assert(ts.take(i as int) =~= ts);
    out
}

/// The credit of some claims.
pub open spec fn credit_of_claims(claims: Seq<ClaimView>) -> int
    decreases claims.len(),
{
    if claims.len() == 0 {
        0
    } else {
        credit_of_claims(claims.drop_last()) + claims.last().credit
    }
}

/// The titles of some claims.
pub open spec fn titles_of(claims: Seq<ClaimView>) -> Seq<Seq<char>> {
    claims.map_values(|c: ClaimView| c.title)
}

fn sum_of_claims(claims: &Vec<Claim>) -> (r: i128)
    ensures
        r == credit_of_claims(claim_views(claims@)),
{
    let ghost cs = claim_views(claims@);
    let mut sum: i128 = 0;
    let mut i: usize = 0;
    while i < claims.len()
        invariant
            i <= claims@.len(),
            cs == claim_views(claims@),
            sum == credit_of_claims(cs.take(i as int)),
            -(i * 0x8000_0000_0000_0000) <= sum <= i * 0x8000_0000_0000_0000,
        decreases claims@.len() - i,
    {
        assert(cs.take(i + 1).drop_last() =~= cs.take(i as int));
        assert(cs.take(i + 1).last() == claims@[i as int]@);
        sum = sum + claims[i].credit as i128;
        i += 1;
    }
    assert(cs.take(i as int) =~= cs);
    sum
}

fn titles_of_claims(claims: &Vec<Claim>) -> (r: Vec<String>)
    ensures
        strings_view(r@) == titles_of(claim_views(claims@)),
{
    let mut out: Vec<String> = Vec::new();
    let mut i: usize = 0;
    while i < claims.len()
        invariant
            i <= claims@.len(),
            out@.len() == i,
            forall|j: int| 0 <= j < i ==> (#[trigger] out@[j])@ == claims@[j].title@,
        decreases claims@.len() - i,
    {
        out.push(claims[i].title.clone());
        i += 1;
    }
    assert(strings_view(out@) =~= titles_of(claim_views(claims@)));
    out
}

/// What the round is waiting for: the response to the request of that name.
#[derive(Clone, Copy, PartialEq, Eq, Structural)]
pub enum NewbieStage {
    Bind,
    Fetch,
    Accept,
    Refetch,
    Claim,
}

/// What the round needs done next: a request, sent after a pause of so many milliseconds; or
/// nothing more, with the report on the round.
pub enum NewbieStep {
    Call(u64, ApiCall),
    Done(Json),
}

/// What a [`NewbieStep`] holds.
pub enum NewbieStepView {
    Call(u64, ApiCallView),
    Done(JsonView),
}

impl View for NewbieStep {
    type V = NewbieStepView;

    open spec fn view(&self) -> NewbieStepView {
        match self {
            NewbieStep::Call(ms, call) => NewbieStepView::Call(*ms, call@),
            NewbieStep::Done(report) => NewbieStepView::Done(report@),
        }
    }
}

/// The round of one account: what it was begun with, what it waits for, the steps reported so far,
/// the tasks as last listed, the claims for them, how many of those were answered, and which of
/// them were granted.
pub struct NewbieView {
    pub api: Api,
    pub label: Seq<char>,
    pub account_id: Seq<char>,
    pub invite_code: Seq<char>,
    pub auto_accept: bool,
    pub auto_claim: bool,
    pub stage: NewbieStage,
    pub steps: Seq<JsonView>,
    pub tasks: Seq<JsonView>,
    pub claims: Seq<ClaimView>,
    pub answered: nat,
    pub claimed: Seq<ClaimView>,
}

impl NewbieView {
    /// The round with one more step reported.
    pub open spec fn reporting(self, step: JsonView) -> NewbieView {
        NewbieView { steps: self.steps.push(step), ..self }
    }
}

/// The step that reports the binding of an invitation code.
pub open spec fn bind_step(report: JsonView, invite_code: Seq<char>) -> JsonView {
    JsonView::object().with("step"@, JsonView::Str("bind-invite"@)).with(
        "ok"@,
        JsonView::Bool(report.bool_at("ok"@) == Some(true)),
    ).with("code"@, report.at("code"@)).with("message"@, report.at("message"@)).with(
        "inviteCode"@,
        JsonView::Str(invite_code),
    )
}

/// The step that reports that the tasks could not be listed.
pub open spec fn fetch_failed_step(resp: JsonView) -> JsonView {
    JsonView::object().with("step"@, JsonView::Str("fetch-tasks"@)).with(
        "ok"@,
        JsonView::Bool(false),
    ).with("message"@, JsonView::Str(message_of(resp)))
}

/// The step that reports the acceptance of tasks.
pub open spec fn accept_step(report: JsonView, codes: Seq<Seq<char>>) -> JsonView {
    JsonView::object().with("step"@, JsonView::Str("accept-tasks"@)).with(
        "ok"@,
        report.at("ok"@),
    ).with("accepted"@, report.at("accepted"@)).with("taskCodes"@, text_array(codes)).with(
        "message"@,
        report.at("message"@),
    )
}

/// The step that reports that there was nothing to accept.
pub open spec fn nothing_to_accept_step() -> JsonView {
    JsonView::object().with("step"@, JsonView::Str("accept-tasks"@)).with(
        "ok"@,
        JsonView::Bool(true),
    ).with("accepted"@, JsonView::Int(0)).with("message"@, JsonView::Str("没有待接受的任务"@))
}

/// The step that reports the claims that were granted.
pub open spec fn claim_step(claimed: Seq<ClaimView>) -> JsonView {
    JsonView::object().with("step"@, JsonView::Str("claim-tasks"@)).with(
        "ok"@,
        JsonView::Bool(true),
    ).with("claimed"@, JsonView::Int(claimed.len() as int)).with(
        "credit"@,
        JsonView::Int(credit_of_claims(claimed)),
    ).with("titles"@, text_array(titles_of(claimed)))
}

/// The report on a round that ended because the tasks could not be listed.
pub open spec fn newbie_failure(m: NewbieView) -> JsonView {
    JsonView::object().with("ok"@, JsonView::Bool(false)).with(
        "account"@,
        JsonView::Str(m.label),
    ).with("steps"@, JsonView::Array(m.steps))
}

/// The report on a round that went through.
pub open spec fn newbie_report(m: NewbieView) -> JsonView {
    let summary = task_summary(m.tasks);
    JsonView::object().with("ok"@, JsonView::Bool(true)).with(
        "account"@,
        JsonView::Str(m.label),
    ).with("accountId"@, JsonView::Str(m.account_id)).with(
        "claimedCount"@,
        JsonView::Int(m.claimed.len() as int),
    ).with("claimedCredit"@, JsonView::Int(credit_of_claims(m.claimed))).with(
        "earnableCredit"@,
        summary.at("earnableCredit"@),
    ).with("pendingCredit"@, summary.at("pendingCredit"@)).with(
        "pending"@,
        summary.at("pending"@),
    ).with("statusCounts"@, summary.at("statusCounts"@)).with("steps"@, JsonView::Array(m.steps))
}

/// The round on its way to list the tasks.
pub open spec fn to_fetch(m: NewbieView) -> (NewbieView, NewbieStepView) {
    (NewbieView { stage: NewbieStage::Fetch, ..m }, NewbieStepView::Call(0, tasks_call(m.api)))
}

/// The round with its tasks listed: on to accepting those that wait for it, if that is wanted.
pub open spec fn to_accept(m: NewbieView) -> (NewbieView, NewbieStepView) {
    let codes = codes_to_accept(m.tasks);
    if !m.auto_accept {
        to_claim(m)
    } else if codes.len() == 0 {
        to_claim(m.reporting(nothing_to_accept_step()))
    } else {
        (
            NewbieView { stage: NewbieStage::Accept, ..m },
            NewbieStepView::Call(0, accept_call(m.api, codes)),
        )
    }
}

/// The round with its tasks accepted: on to claiming what is completed, if that is wanted.
pub open spec fn to_claim(m: NewbieView) -> (NewbieView, NewbieStepView) {
    if !m.auto_claim {
        (m, NewbieStepView::Done(newbie_report(m)))
    } else {
        claim_on(
            NewbieView {
                stage: NewbieStage::Claim,
                claims: claims_of(m.tasks),
                answered: 0,
                claimed: seq![],
                ..m
            },
        )
    }
}

/// The round among its claims: on to the next one, or to the end behind the last.
pub open spec fn claim_on(m: NewbieView) -> (NewbieView, NewbieStepView) {
    if m.answered < m.claims.len() {
        (m, NewbieStepView::Call(0, claim_call(m.api, m.claims[m.answered as int].code)))
    } else {
        let end = m.reporting(claim_step(m.claimed));
        (end, NewbieStepView::Done(newbie_report(end)))
    }
}

/// How the round goes on from a response.
pub open spec fn newbie_next(m: NewbieView, resp: JsonView) -> (NewbieView, NewbieStepView) {
    match m.stage {
        NewbieStage::Bind => to_fetch(m.reporting(bind_step(bind_outcome(resp), m.invite_code))),
        NewbieStage::Fetch => if code_of(resp) == 0 {
            to_accept(NewbieView { tasks: tasks_in(resp), ..m })
        } else {
            let end = m.reporting(fetch_failed_step(resp));
            (end, NewbieStepView::Done(newbie_failure(end)))
        },
        NewbieStage::Accept => {
            let codes = codes_to_accept(m.tasks);
            let next = m.reporting(accept_step(accept_report(resp, codes.len()), codes));
            (
                NewbieView { stage: NewbieStage::Refetch, ..next },
                NewbieStepView::Call(600, tasks_call(m.api)),
            )
        },
        NewbieStage::Refetch => to_claim(
            NewbieView {
                tasks: if code_of(resp) == 0 {
                    tasks_in(resp)
                } else {
                    m.tasks
                },
                ..m
            },
        ),
        NewbieStage::Claim => if m.answered < m.claims.len() {
            claim_on(
                NewbieView {
                    answered: m.answered + 1,
                    claimed: if code_of(resp) == 0 {
                        m.claimed.push(m.claims[m.answered as int])
                    } else {
                        m.claimed
                    },
                    ..m
                },
            )
        } else {
            (m, NewbieStepView::Done(newbie_report(m)))
        },
    }
}

/// The round of one account.
pub struct Newbie {
    api: Api,
    label: String,
    account_id: String,
    invite_code: String,
    auto_accept: bool,
    auto_claim: bool,
    stage: NewbieStage,
    steps: Vec<Json>,
    tasks: Vec<Json>,
    claims: Vec<Claim>,
    answered: usize,
    claimed: Vec<Claim>,
}

impl View for Newbie {
    type V = NewbieView;

    closed spec fn view(&self) -> NewbieView {
        NewbieView {
            api: self.api,
            label: self.label@,
            account_id: self.account_id@,
            invite_code: self.invite_code@,
            auto_accept: self.auto_accept,
            auto_claim: self.auto_claim,
            stage: self.stage,
            steps: views(self.steps@),
            tasks: views(self.tasks@),
            claims: claim_views(self.claims@),
            answered: self.answered as nat,
            claimed: claim_views(self.claimed@),
        }
    }
}

/// Whether the configuration leaves something switched on.
pub open spec fn switched_on(config: JsonView, key: Seq<char>) -> bool {
    config.bool_at(key) != Some(false)
}

fn read_switch(config: &Json, key: &str) -> (r: bool)
    ensures
        r == switched_on(config@, key@),
{
    match config.bool_at(key) {
        Some(b) => b,
        None => true,
    }
}

/// The round of an account before its first step.
pub open spec fn newbie_start(
    api: Api,
    config: JsonView,
    account: JsonView,
    display_name: Seq<char>,
) -> NewbieView {
    NewbieView {
        api,
        label: display_name,
        account_id: key_of(account, display_name),
        invite_code: config.text_at("invite_code"@),
        auto_accept: switched_on(config, "auto_accept_tasks"@),
        auto_claim: switched_on(config, "auto_claim_tasks"@),
        stage: NewbieStage::Bind,
        steps: seq![],
        tasks: seq![],
        claims: seq![],
        answered: 0,
        claimed: seq![],
    }
}

/// The first step of a round: to bind the invitation code, if that is wanted and there is one.
pub open spec fn newbie_begin(m: NewbieView, bind_invite: bool, code: Seq<char>) -> (
    NewbieView,
    NewbieStepView,
) {
    if !bind_invite {
        to_fetch(m)
    } else if code.len() == 0 {
        to_fetch(m.reporting(bind_step(no_code_report(), m.invite_code)))
    } else {
        (m, NewbieStepView::Call(0, bind_call(m.api, code)))
    }
}

/// Begins the round of an account. `code` is the invitation code that was read out of the
/// configured text.
pub fn run_newbie_for_account(
    api: Api,
    config: &Json,
    account: &Json,
    display_name: &str,
    bind_invite: bool,
    code: &str,
) -> (r: (Newbie, NewbieStep))
    ensures
        (r.0@, r.1@) == newbie_begin(
            newbie_start(api, config@, account@, display_name@),
            bind_invite,
            code@,
        ),
{
    let mut m = Newbie {
        api,
        label: display_name.to_owned(),
        account_id: account_key(account, display_name),
        invite_code: config.text_at("invite_code"),
        auto_accept: read_switch(config, "auto_accept_tasks"),
        auto_claim: read_switch(config, "auto_claim_tasks"),
        stage: NewbieStage::Bind,
        steps: Vec::new(),
        tasks: Vec::new(),
        claims: Vec::new(),
        answered: 0,
        claimed: Vec::new(),
    };
    proof {
        assert(views(m.steps@) =~= seq![]);
        assert(views(m.tasks@) =~= seq![]);
        assert(claim_views(m.claims@) =~= seq![]);
        assert(claim_views(m.claimed@) =~= seq![]);
    }
    if !bind_invite {
        let step = m.go_to_fetch();
        return (m, step);
    }
    match bind_invite_request(&m.api, code) {
        Ok(call) => (m, NewbieStep::Call(0, call)),
        Err(report) => {
            m.report_bind(&report);
            let step = m.go_to_fetch();
            (m, step)
        },
    }
}

impl Newbie {
    fn report(&mut self, step: Json)
        ensures
            final(self)@ == old(self)@.reporting(step@),
    {
        self.steps.push(step);
        assert(views(self.steps@) =~= views(old(self).steps@).push(step@));
    }

    fn report_bind(&mut self, report: &Json)
        ensures
            final(self)@ == old(self)@.reporting(bind_step(report@, old(self)@.invite_code)),
    {
        let ok = match report.bool_at("ok") {
            Some(b) => b,
            None => false,
        };
        let code = Json::Str(self.invite_code.clone());
        self.report(
            Json::object().with("step", Json::text("bind-invite")).with("ok", Json::Bool(ok)).with(
                "code",
                report.at("code"),
            ).with("message", report.at("message")).with("inviteCode", code),
        );
    }

    fn go_to_fetch(&mut self) -> (r: NewbieStep)
        ensures
            (final(self)@, r@) == to_fetch(old(self)@),
    {
        self.stage = NewbieStage::Fetch;
        NewbieStep::Call(0, fetch_growth_tasks(&self.api))
    }

    fn go_to_accept(&mut self) -> (r: NewbieStep)
        ensures
            (final(self)@, r@) == to_accept(old(self)@),
    {
        if !self.auto_accept {
            return self.go_to_claim();
        }
        let codes = tasks_to_accept(&self.tasks);
        match accept_request(&self.api, &codes) {
            Ok(call) => {
                self.stage = NewbieStage::Accept;
                NewbieStep::Call(0, call)
            },
            Err(_) => {
                self.report(
                    Json::object().with("step", Json::text("accept-tasks")).with(
                        "ok",
                        Json::Bool(true),
                    ).with("accepted", Json::Int(0)).with(
                        "message",
                        Json::text("没有待接受的任务"),
                    ),
                );
                self.go_to_claim()
            },
        }
    }

    fn go_to_claim(&mut self) -> (r: NewbieStep)
        ensures
            (final(self)@, r@) == to_claim(old(self)@),
    {
        if !self.auto_claim {
            return NewbieStep::Done(self.final_report());
        }
        self.stage = NewbieStage::Claim;
        self.claims = tasks_to_claim(&self.tasks);
        self.answered = 0;
        self.claimed = Vec::new();
        assert(claim_views(self.claimed@) =~= seq![]);
        self.go_on_claiming()
    }

    fn go_on_claiming(&mut self) -> (r: NewbieStep)
        ensures
            (final(self)@, r@) == claim_on(old(self)@),
    {
        if self.answered < self.claims.len() {
            return NewbieStep::Call(
                0,
                claim_request(&self.api, self.claims[self.answered].code.as_str()),
            );
        }
        let count: usize = self.claimed.len();
        let credit: i128 = sum_of_claims(&self.claimed);
        let titles = titles_of_claims(&self.claimed);
        self.report(
            Json::object().with("step", Json::text("claim-tasks")).with(
                "ok",
                Json::Bool(true),
            ).with("claimed", Json::Int(count as i128)).with("credit", Json::Int(credit)).with(
                "titles",
                make_text_array(&titles),
            ),
        );
        NewbieStep::Done(self.final_report())
    }

    fn final_report(&self) -> (r: Json)
        ensures
            r@ == newbie_report(self@),
    {
        let summary = summarize_tasks(&self.tasks);
        Json::object().with("ok", Json::Bool(true)).with(
            "account",
            Json::Str(self.label.clone()),
        ).with("accountId", Json::Str(self.account_id.clone())).with(
            "claimedCount",
            Json::Int(self.claimed.len() as i128),
        ).with("claimedCredit", Json::Int(sum_of_claims(&self.claimed))).with(
            "earnableCredit",
            summary.at("earnableCredit"),
        ).with("pendingCredit", summary.at("pendingCredit")).with(
            "pending",
            summary.at("pending"),
        ).with("statusCounts", summary.at("statusCounts")).with(
            "steps",
            Json::Array(copy_all(&self.steps)),
        )
    }

    /// Goes on from the response to the last request.
    pub fn on_response(&mut self, resp: Json) -> (r: NewbieStep)
        ensures
            (final(self)@, r@) == newbie_next(old(self)@, resp@),
    {
        match self.stage {
            NewbieStage::Bind => {
                self.report_bind(&bind_invite_code(&resp));
                self.go_to_fetch()
            },
            NewbieStage::Fetch => {
                if !resp_ok(&resp) {
                    self.report(
                        Json::object().with("step", Json::text("fetch-tasks")).with(
                            "ok",
                            Json::Bool(false),
                        ).with("message", Json::Str(resp_msg(&resp))),
                    );
                    return NewbieStep::Done(
                        Json::object().with("ok", Json::Bool(false)).with(
                            "account",
                            Json::Str(self.label.clone()),
                        ).with("steps", Json::Array(copy_all(&self.steps))),
                    );
                }
                self.tasks = tasks_of(&resp);
                self.go_to_accept()
            },
            NewbieStage::Accept => {
                let codes = tasks_to_accept(&self.tasks);
                let report = accept_growth_tasks(resp, codes.len());
                self.report(
                    Json::object().with("step", Json::text("accept-tasks")).with(
                        "ok",
                        report.at("ok"),
                    ).with("accepted", report.at("accepted")).with(
                        "taskCodes",
                        make_text_array(&codes),
                    ).with("message", report.at("message")),
                );
                self.stage = NewbieStage::Refetch;
                NewbieStep::Call(600, fetch_growth_tasks(&self.api))
            },
            NewbieStage::Refetch => {
                if resp_ok(&resp) {
                    self.tasks = tasks_of(&resp);
                }
                self.go_to_claim()
            },
            NewbieStage::Claim => {
                if self.answered >= self.claims.len() {
                    return NewbieStep::Done(self.final_report());
                }
                proof {
                    law_claim_is_granted_by_code_zero(resp@);
                }
                let report = claim_growth_task(resp);
                if report.bool_at("ok") == Some(true) {
                    let c = &self.claims[self.answered];
                    let won = Claim {
                        code: c.code.clone(),
                        title: c.title.clone(),
                        credit: c.credit,
                    };
                    self.claimed.push(won);
                    assert(claim_views(self.claimed@) =~= claim_views(old(self).claimed@).push(
                        old(self)@.claims[old(self)@.answered as int],
                    ));
                }
                self.answered = self.answered + 1;
                self.go_on_claiming()
            },
        }
    }
}

/// Only tasks that are completed are claimed.
pub proof fn law_only_completed_tasks_are_claimed(ts: Seq<JsonView>, i: int)
    requires
        0 <= i < claims_of(ts).len(),
    ensures
        exists|j: int|
            0 <= j < ts.len() && can_be_claimed(#[trigger] ts[j]) && claims_of(ts)[i] == claim_for(
                ts[j],
            ),
    decreases ts.len(),
{
    let init = ts.drop_last();
    let before = claims_of(init);
    if i < before.len() {
        law_only_completed_tasks_are_claimed(init, i);
        let j = choose|j: int|
            0 <= j < init.len() && can_be_claimed(#[trigger] init[j]) && before[i] == claim_for(
                init[j],
            );
        assert(ts[j] == init[j]);
    } else {
        assert(ts[ts.len() - 1] == ts.last());
    }
}

/// Every task that is completed is claimed.
pub proof fn law_every_completed_task_is_claimed(ts: Seq<JsonView>, j: int)
    requires
        0 <= j < ts.len(),
        can_be_claimed(ts[j]),
    ensures
        claims_of(ts).contains(claim_for(ts[j])),
    decreases ts.len(),
{
    let init = ts.drop_last();
    let before = claims_of(init);
    if j < init.len() {
        law_every_completed_task_is_claimed(init, j);
        let i = before.index_of(claim_for(init[j]));
        assert(claims_of(ts)[i] == before[i]);
    } else {
        assert(claims_of(ts)[before.len() as int] == claim_for(ts[j]));
    }
}

/// What is accepted are tasks that say that they have not been accepted, and each has a code.
pub proof fn law_only_unaccepted_tasks_are_accepted(ts: Seq<JsonView>, i: int)
    requires
        0 <= i < codes_to_accept(ts).len(),
    ensures
        codes_to_accept(ts)[i].len() > 0,
        exists|j: int|
            0 <= j < ts.len() && (#[trigger] ts[j]).at("accept_status"@).as_str() == Some(
                ST_NOT_ACCEPTED@,
            ) && codes_to_accept(ts)[i] == ts[j].text_at("task_code"@),
    decreases ts.len(),
{
    let init = ts.drop_last();
    let before = codes_to_accept(init);
    if i < before.len() {
        law_only_unaccepted_tasks_are_accepted(init, i);
        let j = choose|j: int|
            0 <= j < init.len() && (#[trigger] init[j]).at("accept_status"@).as_str() == Some(
                ST_NOT_ACCEPTED@,
            ) && before[i] == init[j].text_at("task_code"@);
        assert(ts[j] == init[j]);
    } else {
        assert(ts[ts.len() - 1] == ts.last());
    }
}

/// What holds all through a round: among its claims, they are those for the tasks as last listed,
/// and what was granted is among what was answered.
pub open spec fn round_holds(m: NewbieView) -> bool {
    m.stage == NewbieStage::Claim ==> {
        &&& m.claims == claims_of(m.tasks)
        &&& m.answered <= m.claims.len()
        &&& m.claimed.len() <= m.answered
        &&& forall|i: int|
            0 <= i < m.claimed.len() ==> m.claims.take(m.answered as int).contains(
                #[trigger] m.claimed[i],
            )
    }
}

/// How many kinds of request a round can still make.
pub open spec fn stages_ahead(stage: NewbieStage) -> nat {
    match stage {
        NewbieStage::Bind => 4,
        NewbieStage::Fetch => 3,
        NewbieStage::Accept => 2,
        NewbieStage::Refetch => 1,
        NewbieStage::Claim => 0,
    }
}

/// A round keeps its order. It never comes back to an earlier request, never binds a code a second
/// time, and makes no end of claims: with each response there are fewer of them left. A claim is
/// only made for a task that is completed, and nothing is reported as claimed that was not granted.
pub proof fn law_round_in_order(m: NewbieView, resp: JsonView)
    requires
        round_holds(m),
    ensures
        ({
            let (next, step) = newbie_next(m, resp);
            &&& round_holds(next)
            &&& next.stage != NewbieStage::Bind
            &&& stages_ahead(next.stage) <= stages_ahead(m.stage)
            &&& step is Call && next.stage == m.stage ==> next.claims.len() - next.answered
                < m.claims.len() - m.answered
            &&& step is Call && next.stage == NewbieStage::Claim ==> exists|j: int|
                0 <= j < next.tasks.len() && can_be_claimed(#[trigger] next.tasks[j])
                    && step->Call_1 == claim_call(next.api, next.tasks[j].text_at("task_code"@))
        }),
{
    let (next, step) = newbie_next(m, resp);
    if m.stage == NewbieStage::Claim && m.answered < m.claims.len() {
        let k = m.answered as int;
        let before = m.claims.take(k);
        let after = m.claims.take(k + 1);
        assert forall|i: int| 0 <= i < next.claimed.len() implies after.contains(
            #[trigger] next.claimed[i],
        ) by {
            if i < m.claimed.len() {
                assert(before.contains(m.claimed[i]));
                let x = before.index_of(m.claimed[i]);
                assert(after[x] == m.claimed[i]);
            } else {
                assert(after[k] == m.claims[k]);
            }
        }
    }
    if step is Call && next.stage == NewbieStage::Claim {
        law_only_completed_tasks_are_claimed(next.tasks, next.answered as int);
    }
}

/// What holds all through a round holds at its beginning.
pub proof fn law_round_begins_well(
    api: Api,
    config: JsonView,
    account: JsonView,
    display_name: Seq<char>,
    bind_invite: bool,
    code: Seq<char>,
)
    ensures
        round_holds(
            newbie_begin(newbie_start(api, config, account, display_name), bind_invite, code).0,
        ),
{
}

/// Where the binding is left out, the round begins with listing the tasks, and nothing is bound.
pub proof fn law_round_without_binding(m: NewbieView, code: Seq<char>)
    ensures
        newbie_begin(m, false, code).1 == NewbieStepView::Call(0, tasks_call(m.api)),
        newbie_begin(m, false, code).0.stage == NewbieStage::Fetch,
        newbie_begin(m, false, code).0.steps == m.steps,
{
}

/// The report on a round counts the claims that were granted, and their credit.
pub proof fn law_report_counts_what_was_granted(m: NewbieView)
    ensures
        newbie_report(m).at("claimedCount"@) == JsonView::Int(m.claimed.len() as int),
        newbie_report(m).at("claimedCredit"@) == JsonView::Int(credit_of_claims(m.claimed)),
{
    reveal_strlit("claimedCount");
    reveal_strlit("claimedCredit");
    reveal_strlit("earnableCredit");
    reveal_strlit("pendingCredit");
    reveal_strlit("pending");
    reveal_strlit("statusCounts");
    reveal_strlit("steps");
    assert("claimedCount"@[0] == 'c' && "claimedCredit"@[0] == 'c' && "pendingCredit"@[0] == 'p'
        && "statusCounts"@[0] == 's');
    assert("claimedCount"@.len() == 12 && "claimedCredit"@.len() == 13
        && "earnableCredit"@.len() == 14 && "pending"@.len() == 7 && "steps"@.len() == 5);
}

/// The entry that a round leaves in the log.
pub open spec fn round_entry(
    now: int,
    account_id: Seq<char>,
    display_name: Seq<char>,
    report: JsonView,
) -> JsonView {
    JsonView::object().with("ts"@, JsonView::Int(now)).with(
        "accountId"@,
        JsonView::Str(account_id),
    ).with("email"@, JsonView::Str(display_name)).with("ok"@, report.at("ok"@)).with(
        "claimedCount"@,
        report.at("claimedCount"@),
    ).with("claimedCredit"@, report.at("claimedCredit"@)).with(
        "pendingCredit"@,
        report.at("pendingCredit"@),
    )
}

/// The entry that a round leaves in the log.
pub fn log_run(now: i64, account: &Json, display_name: &str, report: &Json) -> (r: Json)
    ensures
        r@ == round_entry(now as int, key_of(account@, display_name@), display_name@, report@),
{
    Json::object().with("ts", Json::Int(now as i128)).with(
        "accountId",
        Json::Str(account_key(account, display_name)),
    ).with("email", Json::text(display_name)).with("ok", report.at("ok")).with(
        "claimedCount",
        report.at("claimedCount"),
    ).with("claimedCredit", report.at("claimedCredit")).with(
        "pendingCredit",
        report.at("pendingCredit"),
    )
}

// ---------------------------------------------------------------------------
// The rounds of all accounts
// ---------------------------------------------------------------------------

/// How many accounts have their round at the same time.
pub const MAX_CONCURRENCY: usize = 4;

/// A report that names a status and nothing else.
pub open spec fn status_report(status: Seq<char>) -> JsonView {
    JsonView::object().with("status"@, JsonView::Str(status))
}

/// The report where the rounds of all accounts are not to be run: they are running already, they
/// are not switched on, or there is no account.
pub open spec fn not_run(running: bool, config: JsonView, accounts: nat) -> Option<JsonView> {
    if running {
        Some(status_report("skipped"@).with("reason"@, JsonView::Str("already_running"@)))
    } else if config.bool_at("enabled"@) != Some(true) {
        Some(status_report("disabled"@))
    } else if accounts == 0 {
        Some(status_report("no_accounts"@))
    } else {
        None
    }
}

/// Begins the rounds of `accounts` accounts, or says why they are not run.
pub fn run_newbie_all(running: bool, config: &Json, accounts: usize) -> (r: Result<Batch, Json>)
    ensures
        match r {
            Ok(batch) => not_run(running, config@, accounts as nat) is None && batch@
                == Seq::<Option<JsonView>>::new(accounts as nat, |i: int| None),
            Err(report) => not_run(running, config@, accounts as nat) == Some(report@),
        },
{
    if running {
        return Err(
            Json::object().with("status", Json::text("skipped")).with(
                "reason",
                Json::text("already_running"),
            ),
        );
    }
    let enabled = match config.bool_at("enabled") {
        Some(b) => b,
        None => false,
    };
    if !enabled {
        return Err(Json::object().with("status", Json::text("disabled")));
    }
    if accounts == 0 {
        return Err(Json::object().with("status", Json::text("no_accounts")));
    }
    let mut reports: Vec<Option<Json>> = Vec::new();
    let mut i: usize = 0;
    while i < accounts
        invariant
            i <= accounts,
            reports@.len() == i,
            forall|j: int| 0 <= j < i ==> #[trigger] reports@[j] is None,
        decreases accounts - i,
    {
        reports.push(None);
        i += 1;
    }
    let batch = Batch { reports };
    assert(batch@ =~= Seq::<Option<JsonView>>::new(accounts as nat, |i: int| None));
    Ok(batch)
}

/// What stands for an account whose turn never came.
pub fn turn_never_came() -> (r: Json)
    ensures
        r@ == JsonView::object().with("ok"@, JsonView::Bool(false)).with(
            "account"@,
            JsonView::Str("?"@),
        ).with("reason"@, JsonView::Str("semaphore_closed"@)),
{
    Json::object().with("ok", Json::Bool(false)).with("account", Json::text("?")).with(
        "reason",
        Json::text("semaphore_closed"),
    )
}

/// The reports of the accounts, in the order of the accounts, whatever the order in which they
/// come in. An account whose round broke down has none.
pub struct Batch {
    reports: Vec<Option<Json>>,
}

/// What a report that may be missing holds.
pub open spec fn report_view(r: Option<Json>) -> Option<JsonView> {
    match r {
        Some(v) => Some(v@),
        None => None,
    }
}

impl View for Batch {
    type V = Seq<Option<JsonView>>;

    closed spec fn view(&self) -> Seq<Option<JsonView>> {
        self.reports@.map_values(|r: Option<Json>| report_view(r))
    }
}

/// The reports that came in, in the order of the accounts.
pub open spec fn present(reports: Seq<Option<JsonView>>) -> Seq<JsonView>
    decreases reports.len(),
{
    if reports.len() == 0 {
        seq![]
    } else {
        match reports.last() {
            Some(v) => present(reports.drop_last()).push(v),
            None => present(reports.drop_last()),
        }
    }
}

/// The sum of a member over some reports.
pub open spec fn total_of(reports: Seq<JsonView>, key: Seq<char>) -> int
    decreases reports.len(),
{
    if reports.len() == 0 {
        0
    } else {
        total_of(reports.drop_last(), key) + int_or_zero(reports.last(), key)
    }
}

/// The report on the rounds of all accounts.
pub open spec fn batch_report(reports: Seq<Option<JsonView>>, elapsed: u64) -> JsonView {
    let rs = present(reports);
    status_report("ok"@).with("accounts"@, JsonView::Array(rs)).with(
        "totalClaimed"@,
        JsonView::Int(total_of(rs, "claimedCount"@)),
    ).with("totalCredit"@, JsonView::Int(total_of(rs, "claimedCredit"@))).with(
        "elapsedMs"@,
        JsonView::Int(elapsed as int),
    ).with("concurrency"@, JsonView::Int(MAX_CONCURRENCY as int))
}

fn sum_over(reports: &Vec<Json>, key: &str) -> (r: i128)
    ensures
        r == total_of(views(reports@), key@),
{
    let ghost rs = views(reports@);
    let mut sum: i128 = 0;
    let mut i: usize = 0;
    while i < reports.len()
        invariant
            i <= reports@.len(),
            rs == views(reports@),
            sum == total_of(rs.take(i as int), key@),
            -(i * 0x8000_0000_0000_0000) <= sum <= i * 0x8000_0000_0000_0000,
        decreases reports@.len() - i,
    {
        assert(rs.take(i + 1).drop_last() =~= rs.take(i as int));
        assert(rs.take(i + 1).last() == reports@[i as int]@);
        sum = sum + read_int_or_zero(&reports[i], key) as i128;
        i += 1;
    }
    assert(rs.take(i as int) =~= rs);
    sum
}

/// The first step of the round of an account in the rounds of all: nothing is bound in those.
pub open spec fn batch_round(
    api: Api,
    config: JsonView,
    account: JsonView,
    display_name: Seq<char>,
) -> (NewbieView, NewbieStepView) {
    newbie_begin(newbie_start(api, config, account, display_name), false, seq![])
}

impl Batch {
    /// Begins the round of an account in the rounds of all. These only accept and claim; a code is
    /// bound when an account is new, not again in every round.
    pub fn begin_round(api: Api, config: &Json, account: &Json, display_name: &str) -> (r: (
        Newbie,
        NewbieStep,
    ))
        ensures
            (r.0@, r.1@) == batch_round(api, config@, account@, display_name@),
    {
        proof {
            reveal_strlit("");
            assert(""@ =~= Seq::<char>::empty());
        }
        run_newbie_for_account(api, config, account, display_name, false, "")
    }

    /// Takes the report of the account at that place.
    pub fn on_report(&mut self, index: usize, report: Json)
        requires
            index < old(self)@.len(),
        ensures
            final(self)@ == old(self)@.update(index as int, Some(report@)),
    {
        self.reports.set(index, Some(report));
        assert(self@ =~= old(self)@.update(index as int, Some(report@)));
    }

    /// The report on the rounds of all accounts.
    pub fn report(&self, elapsed: u64) -> (r: Json)
        ensures
            r@ == batch_report(self@, elapsed),
    {
        let ghost all = self@;
        let mut out: Vec<Json> = Vec::new();
        let mut i: usize = 0;
        assert(views(out@) =~= present(all.take(0)));
        while i < self.reports.len()
            invariant
                i <= self.reports@.len(),
                all == self@,
                views(out@) == present(all.take(i as int)),
            decreases self.reports@.len() - i,
        {
            assert(all.take(i + 1).drop_last() =~= all.take(i as int));
            assert(all.take(i + 1).last() == report_view(self.reports@[i as int]));
            match &self.reports[i] {
                Some(v) => {
                    let ghost before = out@;
                    out.push(v.copy());
                    assert(views(out@) =~= views(before).push(v@));
                },
                None => {},
            }
            i += 1;
        }
        assert(all.take(i as int) =~= all);
        let claimed: i128 = sum_over(&out, "claimedCount");
        let credit: i128 = sum_over(&out, "claimedCredit");
        Json::object().with("status", Json::text("ok")).with("accounts", Json::Array(out)).with(
            "totalClaimed",
            Json::Int(claimed),
        ).with("totalCredit", Json::Int(credit)).with("elapsedMs", Json::Int(elapsed as i128)).with(
            "concurrency",
            Json::Int(MAX_CONCURRENCY as i128),
        )
    }
}

/// In the rounds of all accounts no code is bound: a round there begins with listing the tasks, and
/// whatever comes back, its later requests list, accept or claim, as those of every round do.
pub proof fn law_rounds_of_all_accounts_do_not_bind(
    api: Api,
    config: JsonView,
    account: JsonView,
    display_name: Seq<char>,
    m: NewbieView,
    resp: JsonView,
)
    ensures
        batch_round(api, config, account, display_name).1 == NewbieStepView::Call(
            0,
            tasks_call(api),
        ),
        batch_round(api, config, account, display_name).0.steps.len() == 0,
        is_no_binding(newbie_next(m, resp).0, newbie_next(m, resp).1),
{
}

/// Whether a step of a round at that point is none that binds: it lists the tasks, accepts those
/// that wait for it, claims the next one, or ends the round.
pub open spec fn is_no_binding(m: NewbieView, step: NewbieStepView) -> bool {
    step matches NewbieStepView::Call(_, call) ==> {
        ||| call == tasks_call(m.api)
        ||| call == accept_call(m.api, codes_to_accept(m.tasks))
        ||| m.answered < m.claims.len() && call == claim_call(
            m.api,
            m.claims[m.answered as int].code,
        )
    }
}

/// The order in which the reports of two accounts come in makes no difference.
pub proof fn law_order_of_arrival_does_not_matter(
    reports: Seq<Option<JsonView>>,
    i: int,
    a: JsonView,
    j: int,
    b: JsonView,
)
    requires
        0 <= i < reports.len(),
        0 <= j < reports.len(),
        i != j,
    ensures
        reports.update(i, Some(a)).update(j, Some(b)) == reports.update(j, Some(b)).update(
            i,
            Some(a),
        ),
{
    assert(reports.update(i, Some(a)).update(j, Some(b)) =~= reports.update(j, Some(b)).update(
        i,
        Some(a),
    ));
}

/// Where the report of every account came in, they are listed one for one, in the order of the
/// accounts.
pub proof fn law_reports_in_the_order_of_the_accounts(reports: Seq<Option<JsonView>>)
    requires
        forall|i: int| 0 <= i < reports.len() ==> #[trigger] reports[i] is Some,
    ensures
        present(reports).len() == reports.len(),
        forall|i: int|
            0 <= i < reports.len() ==> Some(#[trigger] present(reports)[i]) == reports[i],
    decreases reports.len(),
{
    if reports.len() > 0 {
        assert(reports.last() == reports[reports.len() - 1]);
        law_reports_in_the_order_of_the_accounts(reports.drop_last());
    }
}

// ---------------------------------------------------------------------------
// The standing of an account
// ---------------------------------------------------------------------------

/// The standing of an account: the configuration, its invitations, its level and its tasks.
pub open spec fn standing(
    config: JsonView,
    invite: JsonView,
    tasks_resp: JsonView,
    profile: JsonView,
) -> JsonView {
    let summary = task_summary(tasks_in(tasks_resp));
    let data = profile.at("data"@);
    JsonView::object().with("ok"@, JsonView::Bool(code_of(tasks_resp) == 0)).with(
        "config"@,
        config,
    ).with("inviteProgress"@, invite).with("level"@, data.at("level"@)).with(
        "levelName"@,
        data.at("level_name"@),
    ).with("completedTasks"@, data.at("completed"@)).with("totalTasks"@, data.at("total"@)).with(
        "earnableCredit"@,
        summary.at("earnableCredit"@),
    ).with("pendingCredit"@, summary.at("pendingCredit"@)).with(
        "statusCounts"@,
        summary.at("statusCounts"@),
    ).with("pending"@, summary.at("pending"@))
}

/// The standing of an account, from the report on its invitations and the responses to the
/// requests for its tasks and its level.
pub fn newbie_status(config: Json, invite: Json, tasks_resp: &Json, profile: &Json) -> (r: Json)
    ensures
        r@ == standing(config@, invite@, tasks_resp@, profile@),
{
    let summary = summarize_tasks(&tasks_of(tasks_resp));
    let data = profile.at("data");
    Json::object().with("ok", Json::Bool(resp_ok(tasks_resp))).with("config", config).with(
        "inviteProgress",
        invite,
    ).with("level", data.at("level")).with("levelName", data.at("level_name")).with(
        "completedTasks",
        data.at("completed"),
    ).with("totalTasks", data.at("total")).with(
        "earnableCredit",
        summary.at("earnableCredit"),
    ).with("pendingCredit", summary.at("pendingCredit")).with(
        "statusCounts",
        summary.at("statusCounts"),
    ).with("pending", summary.at("pending"))
}

} // verus!
