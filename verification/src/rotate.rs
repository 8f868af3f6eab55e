//! Rotation between accounts, so that credit is used before it expires.
//!
//! A check looks at the credit of every account and changes to the account whose credit expires
//! first. It holds back where that would only make the active account flutter: shortly after a
//! change, while the active account is in use, and where little would be gained.
use crate::client_cdp::reply_view;
use crate::json::{
    is_finite, less, positive, views, zero_view, Json, JsonView, Real, RealView,
};
use crate::text::{decimal, int_numeral, same};
use vstd::prelude::*;
use vstd::string::*;

verus! {

/// The credit of an account.
#[derive(Debug, Clone)]
pub struct Candidate {
    pub account_id: String,
    pub display_name: String,
    /// When the first of the remaining credit expires, in milliseconds; nothing where none does.
    pub soonest_expire_at: Option<i64>,
    pub total_remaining: Real,
    /// Whether the account can be changed to: its credit is known, and there is some left.
    pub valid: bool,
    pub error: Option<String>,
}

/// What a [`Candidate`] holds.
pub struct CandidateView {
    pub account_id: Seq<char>,
    pub display_name: Seq<char>,
    pub soonest: Option<int>,
    pub remaining: RealView,
    pub valid: bool,
    pub error: Option<Seq<char>>,
}

impl View for Candidate {
    type V = CandidateView;

    open spec fn view(&self) -> CandidateView {
        CandidateView {
            account_id: self.account_id@,
            display_name: self.display_name@,
            soonest: moment(self.soonest_expire_at),
            remaining: self.total_remaining@,
            valid: self.valid,
            error: match self.error {
                Some(e) => Some(e@),
                None => None,
            },
        }
    }
}

/// A moment that may be missing.
pub open spec fn moment(t: Option<i64>) -> Option<int> {
    match t {
        Some(ms) => Some(ms as int),
        None => None,
    }
}

/// What each of some candidates holds.
pub open spec fn candidate_views(cs: Seq<Candidate>) -> Seq<CandidateView> {
    cs.map_values(|c: Candidate| c@)
}

/// How urgent an account is: the earlier its credit expires, the lower; without a time of expiry
/// it comes last.
pub open spec fn urgency(c: CandidateView) -> (int, int) {
    match c.soonest {
        Some(ts) => (0, ts),
        None => (1, 0),
    }
}

/// Whether the first account is more urgent than the second.
pub open spec fn more_urgent(a: CandidateView, b: CandidateView) -> bool {
    urgency(a).0 < urgency(b).0 || (urgency(a).0 == urgency(b).0 && urgency(a).1 < urgency(b).1)
}

impl Candidate {
    /// How urgent the account is: the earlier its credit expires, the lower.
    pub fn urgency_key(&self) -> (r: (i64, i64))
        ensures
            (r.0 as int, r.1 as int) == urgency(self@),
    {
        match self.soonest_expire_at {
            Some(ts) => (0, ts),
            None => (1, 0),
        }
    }
}

/// The credit of an account, from the account and what the credit service says of it.
pub open spec fn candidate_of(
    account: JsonView,
    display_name: Seq<char>,
    credit: JsonView,
) -> CandidateView {
    let remaining = match credit.at("totalRemaining"@).as_f64() {
        Some(x) => x,
        None => zero_view(),
    };
    CandidateView {
        account_id: account.text_at("id"@),
        display_name,
        soonest: credit.int_at("soonestExpireAt"@),
        remaining,
        valid: credit.bool_at("ok"@) == Some(true) && credit.bool_at("expired"@) != Some(true)
            && positive(remaining.bits),
        error: credit.at("error"@).as_str(),
    }
}

/// The credit of an account. Where it could not be had, the account is there but cannot be changed
/// to.
pub fn to_candidate(account: &Json, display_name: &str, credit: &Json) -> (r: Candidate)
    ensures
        r@ == candidate_of(account@, display_name@, credit@),
{
    let ok = match credit.bool_at("ok") {
        Some(b) => b,
        None => false,
    };
    let expired = match credit.bool_at("expired") {
        Some(b) => b,
        None => false,
    };
    let total_remaining = match credit.at("totalRemaining").as_f64() {
        Some(x) => x,
        None => Real::zero(),
    };
    let error = match credit.get("error") {
        Some(Json::Str(s)) => Some(s.clone()),
        _ => None,
    };
    Candidate {
        account_id: account.text_at("id"),
        display_name: display_name.to_owned(),
        soonest_expire_at: credit.int_at("soonestExpireAt"),
        valid: ok && !expired && total_remaining.is_positive(),
        total_remaining,
        error,
    }
}

/// What a rotation check came to.
#[derive(Debug, PartialEq, Eq)]
pub enum Decision {
    /// Stay, for a reason.
    Skip(String),
    /// Change to the account of that id.
    Switch(String),
}

/// What a [`Decision`] holds.
pub enum DecisionView {
    Skip(Seq<char>),
    Switch(Seq<char>),
}

impl View for Decision {
    type V = DecisionView;

    open spec fn view(&self) -> DecisionView {
        match self {
            Decision::Skip(reason) => DecisionView::Skip(reason@),
            Decision::Switch(id) => DecisionView::Switch(id@),
        }
    }
}

// ---------------------------------------------------------------------------
// The decision
// ---------------------------------------------------------------------------

/// When to hold back, in milliseconds and credit.
pub struct Policy {
    /// How long after a change there is no other one.
    pub cooldown_ms: i128,
    /// The credit has to expire earlier than that of the active account by more than this.
    pub min_gap_ms: i128,
    /// How soon the credit has to expire.
    pub min_urgency_ms: i128,
    /// How long after its last use the active account counts as in use.
    pub active_guard_ms: i128,
    /// How much credit there has to be, where this is above zero.
    pub min_remaining: Real,
}

/// What a [`Policy`] holds.
pub struct PolicyView {
    pub cooldown: int,
    pub min_gap: int,
    pub min_urgency: int,
    pub active_guard: int,
    pub min_remaining: RealView,
}

impl View for Policy {
    type V = PolicyView;

    open spec fn view(&self) -> PolicyView {
        PolicyView {
            cooldown: self.cooldown_ms as int,
            min_gap: self.min_gap_ms as int,
            min_urgency: self.min_urgency_ms as int,
            active_guard: self.active_guard_ms as int,
            min_remaining: self.min_remaining@,
        }
    }
}

/// What a decision rests on besides the candidates: the active account, the last change, the last
/// use of the active account, and the moment.
pub struct SituationView {
    pub current: Option<Seq<char>>,
    pub last_switch: Option<int>,
    pub activity: Option<int>,
    pub now: int,
}

/// The place of the most urgent account that can be changed to: of equally urgent ones the first.
pub open spec fn target_index(cs: Seq<CandidateView>) -> Option<int>
    decreases cs.len(),
{
    if cs.len() == 0 {
        None
    } else {
        let c = cs.last();
        match target_index(cs.drop_last()) {
            Some(i) => if c.valid && more_urgent(c, cs[i]) {
                Some(cs.len() - 1)
            } else {
                Some(i)
            },
            None => if c.valid {
                Some(cs.len() - 1)
            } else {
                None
            },
        }
    }
}

/// The place of the first account with that id.
pub open spec fn index_of_id(cs: Seq<CandidateView>, id: Seq<char>) -> Option<int>
    decreases cs.len(),
{
    if cs.len() == 0 {
        None
    } else {
        match index_of_id(cs.drop_last(), id) {
            Some(i) => Some(i),
            None => if cs.last().account_id == id {
                Some(cs.len() - 1)
            } else {
                None
            },
        }
    }
}

/// The quotient without its fraction.
pub open spec fn toward_zero(a: int, b: int) -> int {
    if a >= 0 {
        a / b
    } else {
        -((-a) / b)
    }
}

/// Whether the credit of the account expires too late for a change to be needed.
pub open spec fn is_early(target: CandidateView, s: SituationView, p: PolicyView) -> bool {
    target.soonest matches Some(ts) && ts - s.now > p.min_urgency
}

/// Whether the last change was too recent.
pub open spec fn is_cooling(s: SituationView, p: PolicyView) -> bool {
    s.last_switch matches Some(ts) && ts + p.cooldown > s.now
}

/// Whether the active account was in use too recently.
pub open spec fn is_in_use(s: SituationView, p: PolicyView) -> bool {
    s.activity matches Some(ts) && ts + p.active_guard > s.now
}

/// Whether the account has too little credit.
pub open spec fn is_poor(target: CandidateView, p: PolicyView) -> bool {
    positive(p.min_remaining.bits) && less(target.remaining.bits, p.min_remaining.bits)
}

/// How much earlier the credit of the target expires than that of the active account, where it is
/// earlier but not by more than the gap that is asked for.
pub open spec fn narrow_gap(
    cs: Seq<CandidateView>,
    target: CandidateView,
    s: SituationView,
    p: PolicyView,
) -> Option<int> {
    let id = match s.current {
        Some(id) => id,
        None => seq![],
    };
    match index_of_id(cs, id) {
        Some(k) => match (cs[k].soonest, target.soonest) {
            (Some(cur), Some(ts)) => if cur > 0 && ts < cur && cur - ts <= p.min_gap {
                Some(cur - ts)
            } else {
                None
            },
            _ => None,
        },
        None => None,
    }
}

/// What a check comes to.
pub open spec fn decision(cs: Seq<CandidateView>, s: SituationView, p: PolicyView) -> DecisionView {
    match target_index(cs) {
        None => DecisionView::Skip("没有可用账号（查询失败/已过期/无剩余积分）"@),
        Some(i) => {
            let target = cs[i];
            if is_early(target, s, p) {
                DecisionView::Skip(
                    "所有账号到期都还早（最紧迫的还剩 "@ + int_numeral(
                        toward_zero(target.soonest->0 - s.now, 86_400_000),
                    ) + " 天），无需切换"@,
                )
            } else if s.current == Some(target.account_id) {
                DecisionView::Skip("当前账号已是最紧迫账号"@)
            } else if is_cooling(s, p) {
                DecisionView::Skip("处于切换冷却期"@)
            } else if is_in_use(s, p) {
                DecisionView::Skip("CLI 正在使用中，暂不切换"@)
            } else if is_poor(target, p) {
                DecisionView::Skip(
                    "目标账号剩余积分不足（"@ + target.remaining.text + "，阈值 "@
                        + p.min_remaining.text + "），不值得切换"@,
                )
            } else {
                match narrow_gap(cs, target, s, p) {
                    Some(gap) => DecisionView::Skip(
                        "目标到期仅早 "@ + int_numeral(gap / 3_600_000)
                            + " 小时，未达切换阈值（"@ + int_numeral(p.min_gap / 3_600_000)
                            + " 小时）"@,
                    ),
                    None => DecisionView::Switch(target.account_id),
                }
            }
        },
    }
}

fn find_target(cs: &Vec<Candidate>) -> (r: Option<usize>)
    ensures
        match r {
            Some(i) => i < cs@.len() && target_index(candidate_views(cs@)) == Some(i as int),
            None => target_index(candidate_views(cs@)) is None,
        },
{
    let ghost all = candidate_views(cs@);
    let mut found: Option<usize> = None;
    let mut i: usize = 0;
    while i < cs.len()
        invariant
            i <= cs@.len(),
            all == candidate_views(cs@),
            match found {
                Some(k) => k < i && target_index(all.take(i as int)) == Some(k as int),
                None => target_index(all.take(i as int)) is None,
            },
        decreases cs@.len() - i,
    {
        assert(all.take(i + 1).drop_last() =~= all.take(i as int));
        assert(all.take(i + 1).last() == cs@[i as int]@);
        let c = &cs[i];
        if c.valid {
            match found {
                Some(k) => {
                    assert(all.take(i + 1)[k as int] == cs@[k as int]@);
                    let a = c.urgency_key();
                    let b = cs[k].urgency_key();
                    if a.0 < b.0 || (a.0 == b.0 && a.1 < b.1) {
                        found = Some(i);
                    }
                },
                None => {
                    found = Some(i);
                },
            }
        }
        i += 1;
    }
    assert(all.take(i as int) =~= all);
    found
}

fn find_id(cs: &Vec<Candidate>, id: &str) -> (r: Option<usize>)
    ensures
        match r {
            Some(i) => i < cs@.len() && index_of_id(candidate_views(cs@), id@) == Some(i as int),
            None => index_of_id(candidate_views(cs@), id@) is None,
        },
{
    let ghost all = candidate_views(cs@);
    let mut found: Option<usize> = None;
    let mut i: usize = 0;
    while i < cs.len()
        invariant
            i <= cs@.len(),
            all == candidate_views(cs@),
            match found {
                Some(k) => k < i && index_of_id(all.take(i as int), id@) == Some(k as int),
                None => index_of_id(all.take(i as int), id@) is None,
            },
        decreases cs@.len() - i,
    {
        assert(all.take(i + 1).drop_last() =~= all.take(i as int));
        assert(all.take(i + 1).last() == cs@[i as int]@);
        if found.is_none() && same(cs[i].account_id.as_str(), id) {
            found = Some(i);
        }
        i += 1;
    }
    assert(all.take(i as int) =~= all);
    found
}

/// The situation as the contracts speak of it.
pub open spec fn situation(
    current: Option<&str>,
    last_switch: Option<i64>,
    activity: Option<i64>,
    now: i64,
) -> SituationView {
    SituationView {
        current: match current {
            Some(id) => Some(id@),
            None => None,
        },
        last_switch: moment(last_switch),
        activity: moment(activity),
        now: now as int,
    }
}

/// Decides under a policy whether to change the account, and to which.
pub fn decide(
    candidates: &Vec<Candidate>,
    current: Option<&str>,
    last_switch: Option<i64>,
    policy: &Policy,
    activity: Option<i64>,
    now: i64,
) -> (r: Decision)
    ensures
        r@ == decision(
            candidate_views(candidates@),
            situation(current, last_switch, activity, now),
            policy@,
        ),
{
    let ghost cs = candidate_views(candidates@);
    let i: usize = match find_target(candidates) {
        Some(i) => i,
        None => {
            return Decision::Skip(
                "没有可用账号（查询失败/已过期/无剩余积分）".to_owned(),
            );
        },
    };
    let target = &candidates[i];
    assert(cs[i as int] == target@);
    if let Some(ts) = target.soonest_expire_at {
        let left: i128 = ts as i128 - now as i128;
        if left > policy.min_urgency_ms {
            let days: i128 = if left >= 0 {
                left / 86_400_000
            } else {
                -((-left) / 86_400_000)
            };
            let mut s = "所有账号到期都还早（最紧迫的还剩 ".to_owned();
            s.append(decimal(days).as_str());
            s.append(" 天），无需切换");
            return Decision::Skip(s);
        }
    }
    if let Some(id) = current {
        if same(id, target.account_id.as_str()) {
            return Decision::Skip("当前账号已是最紧迫账号".to_owned());
        }
    }
    if let Some(ts) = last_switch {
        if policy.cooldown_ms > now as i128 - ts as i128 {
            return Decision::Skip("处于切换冷却期".to_owned());
        }
    }
    if let Some(ts) = activity {
        if policy.active_guard_ms > now as i128 - ts as i128 {
            return Decision::Skip("CLI 正在使用中，暂不切换".to_owned());
        }
    }
    if policy.min_remaining.is_positive() && target.total_remaining.less_than(
        &policy.min_remaining,
    ) {
        let mut s = "目标账号剩余积分不足（".to_owned();
        s.append(target.total_remaining.text.as_str());
        s.append("，阈值 ");
        s.append(policy.min_remaining.text.as_str());
        s.append("），不值得切换");
        return Decision::Skip(s);
    }
    let id = match current {
        Some(id) => id,
        None => "",
    };
    proof {
        reveal_strlit("");
        assert(""@ =~= Seq::<char>::empty());
    }
    if let Some(k) = find_id(candidates, id) {
        assert(cs[k as int] == candidates@[k as int]@);
        match (candidates[k].soonest_expire_at, target.soonest_expire_at) {
            (Some(cur), Some(ts)) => {
                let gap: i128 = cur as i128 - ts as i128;
                if cur > 0 && ts < cur && gap <= policy.min_gap_ms {
                    let mut s = "目标到期仅早 ".to_owned();
                    s.append(decimal(gap / 3_600_000).as_str());
                    s.append(" 小时，未达切换阈值（");
                    s.append(decimal(policy.min_gap_ms / 3_600_000).as_str());
                    s.append(" 小时）");
                    return Decision::Skip(s);
                }
            },
            _ => {},
        }
    }
    Decision::Switch(target.account_id.clone())
}

/// Decides whether to change the account, and to which, with all thresholds in milliseconds.
pub fn decide_target(
    candidates: &Vec<Candidate>,
    current_account_id: Option<&str>,
    last_switch_at_ms: Option<i64>,
    cooldown_ms: i64,
    min_gap_ms: i64,
    min_urgency_ms: i64,
    cli_recent_activity_ms: Option<i64>,
    active_guard_ms: i64,
    min_remaining: &Real,
    now: i64,
) -> (r: Decision)
    ensures
        r@ == decision(
            candidate_views(candidates@),
            situation(current_account_id, last_switch_at_ms, cli_recent_activity_ms, now),
            PolicyView {
                cooldown: cooldown_ms as int,
                min_gap: min_gap_ms as int,
                min_urgency: min_urgency_ms as int,
                active_guard: active_guard_ms as int,
                min_remaining: min_remaining@,
            },
        ),
{
    let policy = Policy {
        cooldown_ms: cooldown_ms as i128,
        min_gap_ms: min_gap_ms as i128,
        min_urgency_ms: min_urgency_ms as i128,
        active_guard_ms: active_guard_ms as i128,
        min_remaining: min_remaining.copy(),
    };
    decide(
        candidates,
        current_account_id,
        last_switch_at_ms,
        &policy,
        cli_recent_activity_ms,
        now,
    )
}

// ---------------------------------------------------------------------------
// What a decision keeps to
// ---------------------------------------------------------------------------

/// The target can be changed to, no account that can is more urgent, and those before it that can
/// are less urgent; there is none exactly where no account can be changed to.
pub proof fn law_target_is_the_most_urgent(cs: Seq<CandidateView>)
    ensures
        match target_index(cs) {
            Some(i) => {
                &&& 0 <= i < cs.len()
                &&& cs[i].valid
                &&& forall|j: int|
                    0 <= j < cs.len() && (#[trigger] cs[j]).valid ==> !more_urgent(cs[j], cs[i])
                &&& forall|j: int|
                    0 <= j < i && (#[trigger] cs[j]).valid ==> more_urgent(cs[i], cs[j])
            },
            None => forall|j: int| 0 <= j < cs.len() ==> !(#[trigger] cs[j]).valid,
        },
    decreases cs.len(),
{
    if cs.len() > 0 {
        let init = cs.drop_last();
        law_target_is_the_most_urgent(init);
        assert(forall|j: int| 0 <= j < init.len() ==> init[j] == cs[j]);
    }
}

/// An account is changed to exactly where all of this holds: it is the target; its credit expires
/// soon enough; it is not the active one; the last change is long enough ago; the active account
/// is not in use; the target has enough credit; and its credit does not expire only a little
/// earlier than that of the active account.
pub proof fn law_when_there_is_a_change(
    cs: Seq<CandidateView>,
    s: SituationView,
    p: PolicyView,
    id: Seq<char>,
)
    ensures
        decision(cs, s, p) == DecisionView::Switch(id) <==> (target_index(cs) matches Some(i) && {
            &&& id == cs[i].account_id
            &&& !is_early(cs[i], s, p)
            &&& s.current != Some(id)
            &&& !is_cooling(s, p)
            &&& !is_in_use(s, p)
            &&& !is_poor(cs[i], p)
            &&& narrow_gap(cs, cs[i], s, p) is None
        }),
{
}

/// Within the cooldown after a change there is no other change.
pub proof fn law_no_change_within_the_cooldown(
    cs: Seq<CandidateView>,
    s: SituationView,
    p: PolicyView,
)
    requires
        s.last_switch matches Some(ts) && s.now < ts + p.cooldown,
    ensures
        decision(cs, s, p) is Skip,
{
}

/// There is no change to an account whose credit expires earlier than that of the active account,
/// but not by more than the gap that is asked for.
pub proof fn law_no_change_for_a_narrow_gap(
    cs: Seq<CandidateView>,
    s: SituationView,
    p: PolicyView,
    k: int,
)
    requires
        s.current matches Some(id) && index_of_id(cs, id) == Some(k),
        target_index(cs) matches Some(i) && {
            &&& cs[k].soonest matches Some(cur) && cur > 0
            &&& cs[i].soonest matches Some(ts) && ts < cs[k].soonest->0
            &&& cs[k].soonest->0 - cs[i].soonest->0 <= p.min_gap
        },
    ensures
        decision(cs, s, p) is Skip,
{
}

/// After a change to an account, a check with the same candidates changes nothing, however much
/// later it comes: there is no going back and forth.
pub proof fn law_no_back_and_forth(
    cs: Seq<CandidateView>,
    s: SituationView,
    p: PolicyView,
    later: SituationView,
)
    requires
        decision(cs, s, p) matches DecisionView::Switch(id) && later.current == Some(id),
    ensures
        decision(cs, later, p) is Skip,
{
}

/// The first account with an id has that id, and none before it has; there is none exactly where
/// no account has it.
pub proof fn law_first_account_of_an_id(cs: Seq<CandidateView>, id: Seq<char>)
    ensures
        match index_of_id(cs, id) {
            Some(i) => {
                &&& 0 <= i < cs.len()
                &&& cs[i].account_id == id
                &&& forall|j: int| 0 <= j < i ==> (#[trigger] cs[j]).account_id != id
            },
            None => forall|j: int| 0 <= j < cs.len() ==> (#[trigger] cs[j]).account_id != id,
        },
    decreases cs.len(),
{
    if cs.len() > 0 {
        let init = cs.drop_last();
        law_first_account_of_an_id(init, id);
        assert(forall|j: int| 0 <= j < init.len() ==> init[j] == cs[j]);
    }
}

// ---------------------------------------------------------------------------
// The last use
// ---------------------------------------------------------------------------

/// A file of a session: its extension, and when it was written, in milliseconds. Either may be
/// unknown.
pub struct SessionFile {
    pub extension: Option<String>,
    pub modified_ms: Option<i64>,
}

/// When a file was written, where it is one that counts: a session is kept in `jsonl` files.
pub open spec fn written(f: SessionFile) -> Option<int> {
    match f.extension {
        Some(e) => if e@ == "jsonl"@ {
            moment(f.modified_ms)
        } else {
            None
        },
        None => None,
    }
}

/// When the last of the files that count was written.
pub open spec fn newest(files: Seq<SessionFile>) -> Option<int>
    decreases files.len(),
{
    if files.len() == 0 {
        None
    } else {
        match (newest(files.drop_last()), written(files.last())) {
            (Some(a), Some(b)) => Some(
                if a >= b {
                    a
                } else {
                    b
                },
            ),
            (Some(a), None) => Some(a),
            (None, b) => b,
        }
    }
}

/// When a session was last written to; nothing where there is none.
pub fn cli_recent_activity(files: &Vec<SessionFile>) -> (r: Option<i64>)
    ensures
        moment(r) == newest(files@),
{
    let mut last: Option<i64> = None;
    let mut i: usize = 0;
    while i < files.len()
        invariant
            i <= files@.len(),
            moment(last) == newest(files@.take(i as int)),
        decreases files@.len() - i,
    {
        assert(files@.take(i + 1).drop_last() =~= files@.take(i as int));
        let f = &files[i];
        let counts = match &f.extension {
            Some(e) => same(e.as_str(), "jsonl"),
            None => false,
        };
        if counts {
            if let Some(ms) = f.modified_ms {
                last = match last {
                    Some(n) => if n >= ms {
                        Some(n)
                    } else {
                        Some(ms)
                    },
                    None => Some(ms),
                };
            }
        }
        i += 1;
    }
    assert(files@.take(i as int) =~= files@);
    last
}

/// The last use is that of a file that counts, and none that counts was written later.
pub proof fn law_newest_is_the_greatest(files: Seq<SessionFile>)
    ensures
        match newest(files) {
            Some(ms) => {
                &&& exists|i: int| 0 <= i < files.len() && written(#[trigger] files[i]) == Some(ms)
                &&& forall|i: int|
                    0 <= i < files.len() ==> (written(#[trigger] files[i]) matches Some(t) ==> t
                        <= ms)
            },
            None => forall|i: int| 0 <= i < files.len() ==> written(#[trigger] files[i]) is None,
        },
    decreases files.len(),
{
    if files.len() > 0 {
        let init = files.drop_last();
        law_newest_is_the_greatest(init);
        assert(forall|j: int| 0 <= j < init.len() ==> init[j] == files[j]);
        let n = files.len() - 1;
        assert(files[n] == files.last());
        if newest(files) is Some {
            let ms = newest(files)->0;
            if written(files.last()) != Some(ms) {
                let j = choose|j: int|
                    0 <= j < init.len() && written(#[trigger] init[j]) == newest(init);
                assert(written(files[j]) == Some(ms));
            }
        }
    }
}

// ---------------------------------------------------------------------------
// A check
// ---------------------------------------------------------------------------

/// The greater of two integers.
pub open spec fn at_least(n: int, least: int) -> int {
    if n >= least {
        n
    } else {
        least
    }
}

/// A setting, or its default, and not below the least.
pub open spec fn setting(config: JsonView, key: Seq<char>, default: int, least: int) -> int {
    match config.int_at(key) {
        Some(n) => at_least(n, least),
        None => at_least(default, least),
    }
}

/// The policy that a configuration asks for.
pub open spec fn policy_of(config: JsonView) -> PolicyView {
    PolicyView {
        cooldown: setting(config, "cooldown_minutes"@, 120, 1) * 60_000,
        min_gap: setting(config, "min_gap_hours"@, 24, 0) * 3_600_000,
        min_urgency: setting(config, "min_urgency_hours"@, 72, 0) * 3_600_000,
        active_guard: setting(config, "active_guard_minutes"@, 30, 0) * 60_000,
        min_remaining: match config.at("min_remaining_credits"@).as_f64() {
            Some(x) if positive(x.bits) => x,
            _ => zero_view(),
        },
    }
}

fn read_setting(config: &Json, key: &str, default: i64, least: i64) -> (r: i64)
    ensures
        r == setting(config@, key@, default as int, least as int),
{
    let n: i64 = match config.int_at(key) {
        Some(n) => n,
        None => default,
    };
    if n >= least {
        n
    } else {
        least
    }
}

/// The policy that a configuration asks for.
pub fn read_policy(config: &Json) -> (r: Policy)
    ensures
        r@ == policy_of(config@),
{
    let min_remaining = match config.at("min_remaining_credits").as_f64() {
        Some(x) => if x.is_positive() {
            x
        } else {
            Real::zero()
        },
        None => Real::zero(),
    };
    Policy {
        cooldown_ms: read_setting(config, "cooldown_minutes", 120, 1) as i128 * 60_000,
        min_gap_ms: read_setting(config, "min_gap_hours", 24, 0) as i128 * 3_600_000,
        min_urgency_ms: read_setting(config, "min_urgency_hours", 72, 0) as i128 * 3_600_000,
        active_guard_ms: read_setting(config, "active_guard_minutes", 30, 0) as i128 * 60_000,
        min_remaining,
    }
}

/// A moment, or nothing where it is zero or before.
pub open spec fn past(ms: i64) -> Option<int> {
    if ms > 0 {
        Some(ms as int)
    } else {
        None
    }
}

/// When the last check and the last change were, in milliseconds; zero where there was none yet.
pub struct RotateState {
    pub last_check: i64,
    pub last_switch: i64,
}

/// The report where there is no check: one is running already, or checks are not switched on.
pub open spec fn not_checked(running: bool, config: JsonView) -> Option<JsonView> {
    if running {
        Some(
            JsonView::object().with("status"@, JsonView::Str("skipped"@)).with(
                "reason"@,
                JsonView::Str("already_running"@),
            ),
        )
    } else if config.bool_at("enabled"@) != Some(true) {
        Some(JsonView::object().with("status"@, JsonView::Str("disabled"@)))
    } else {
        None
    }
}

/// Whether there is no check, and the report then.
pub fn rotate_gate(running: bool, config: &Json) -> (r: Option<Json>)
    ensures
        match r {
            Some(report) => not_checked(running, config@) == Some(report@),
            None => not_checked(running, config@) is None,
        },
{
    if running {
        return Some(
            Json::object().with("status", Json::text("skipped")).with(
                "reason",
                Json::text("already_running"),
            ),
        );
    }
    let enabled = match config.bool_at("enabled") {
        Some(b) => b,
        None => false,
    };
    if enabled {
        None
    } else {
        Some(Json::object().with("status", Json::text("disabled")))
    }
}

/// The id of the active account.
pub open spec fn active_id(cli_status: JsonView) -> Option<Seq<char>> {
    cli_status.at("activeAccountId"@).as_str()
}

/// What a check looks at besides the candidates and the policy.
pub open spec fn situation_of(
    state: RotateState,
    cli_status: JsonView,
    activity: Option<int>,
    now: int,
) -> SituationView {
    SituationView {
        current: active_id(cli_status),
        last_switch: past(state.last_switch),
        activity,
        now,
    }
}

/// What a check under a configuration comes to.
pub fn run_rotate_cycle(
    state: &RotateState,
    config: &Json,
    candidates: &Vec<Candidate>,
    cli_status: &Json,
    activity: Option<i64>,
    now: i64,
) -> (r: Decision)
    ensures
        r@ == decision(
            candidate_views(candidates@),
            situation_of(*state, cli_status@, moment(activity), now as int),
            policy_of(config@),
        ),
{
    let policy = read_policy(config);
    let since = if state.last_switch > 0 {
        Some(state.last_switch)
    } else {
        None
    };
    match cli_status.get("activeAccountId") {
        Some(Json::Str(id)) => decide(
            candidates,
            Some(id.as_str()),
            since,
            &policy,
            activity,
            now,
        ),
        _ => decide(candidates, None, since, &policy, activity, now),
    }
}

/// A double as a JSON value; JSON has none that is not finite.
pub open spec fn real_value(x: RealView) -> JsonView {
    if is_finite(x.bits) {
        JsonView::Float(x)
    } else {
        JsonView::Null
    }
}

/// A moment as a JSON value.
pub open spec fn moment_value(t: Option<int>) -> JsonView {
    match t {
        Some(ms) => JsonView::Int(ms),
        None => JsonView::Null,
    }
}

/// What the log keeps of the credit of an account.
pub open spec fn snapshot(c: CandidateView) -> JsonView {
    JsonView::object().with("name"@, JsonView::Str(c.display_name)).with(
        "remaining"@,
        real_value(c.remaining),
    ).with("soonestExpireAt"@, moment_value(c.soonest)).with("valid"@, JsonView::Bool(c.valid))
}

fn make_snapshot(c: &Candidate) -> (r: Json)
    ensures
        r@ == snapshot(c@),
{
    let remaining = if c.total_remaining.is_finite() {
        Json::Float(c.total_remaining.copy())
    } else {
        Json::Null
    };
    Json::object().with("name", Json::Str(c.display_name.clone())).with(
        "remaining",
        remaining,
    ).with(
        "soonestExpireAt",
        match c.soonest_expire_at {
            Some(ms) => Json::Int(ms as i128),
            None => Json::Null,
        },
    ).with("valid", Json::Bool(c.valid))
}

/// An account by its id and its name.
pub open spec fn named(id: Seq<char>, name: JsonView) -> JsonView {
    JsonView::object().with("id"@, JsonView::Str(id)).with("name"@, name)
}

/// The display name of the account with that id.
pub open spec fn name_of_id(cs: Seq<CandidateView>, id: Seq<char>) -> Seq<char> {
    match index_of_id(cs, id) {
        Some(i) => cs[i].display_name,
        None => seq![],
    }
}

/// The log entry of a check.
pub open spec fn check_entry(
    now: int,
    cs: Seq<CandidateView>,
    cli_status: JsonView,
    action: Seq<char>,
    reason: JsonView,
    to: JsonView,
) -> JsonView {
    JsonView::object().with("ts"@, JsonView::Int(now)).with("action"@, JsonView::Str(action)).with(
        "reason"@,
        reason,
    ).with(
        "from"@,
        match active_id(cli_status) {
            Some(id) => named(id, cli_status.at("activeAccountName"@)),
            None => JsonView::Null,
        },
    ).with("to"@, to).with("detail"@, JsonView::Array(cs.map_values(|c: CandidateView| snapshot(c))))
}

fn make_check_entry(
    now: i64,
    candidates: &Vec<Candidate>,
    cli_status: &Json,
    action: &str,
    reason: Json,
    to: Json,
) -> (r: Json)
    ensures
        r@ == check_entry(
            now as int,
            candidate_views(candidates@),
            cli_status@,
            action@,
            reason@,
            to@,
        ),
{
    let ghost cs = candidate_views(candidates@);
    let mut detail: Vec<Json> = Vec::new();
    let mut i: usize = 0;
    while i < candidates.len()
        invariant
            i <= candidates@.len(),
            cs == candidate_views(candidates@),
            detail@.len() == i,
            forall|j: int| 0 <= j < i ==> (#[trigger] detail@[j])@ == snapshot(cs[j]),
        decreases candidates@.len() - i,
    {
        detail.push(make_snapshot(&candidates[i]));
        i += 1;
    }
    assert(views(detail@) =~= cs.map_values(|c: CandidateView| snapshot(c)));
    let from = match cli_status.get("activeAccountId") {
        Some(Json::Str(id)) => Json::object().with("id", Json::Str(id.clone())).with(
            "name",
            cli_status.at("activeAccountName"),
        ),
        _ => Json::Null,
    };
    Json::object().with("ts", Json::Int(now as i128)).with("action", Json::text(action)).with(
        "reason",
        reason,
    ).with("from", from).with("to", to).with("detail", Json::Array(detail))
}

/// How a check ended: the report, the log entry, and whether the account was changed.
pub struct CycleEnd {
    pub report: Json,
    pub log: Json,
    pub switched: bool,
}

/// What a [`CycleEnd`] holds.
pub struct CycleEndView {
    pub report: JsonView,
    pub log: JsonView,
    pub switched: bool,
}

impl View for CycleEnd {
    type V = CycleEndView;

    open spec fn view(&self) -> CycleEndView {
        CycleEndView { report: self.report@, log: self.log@, switched: self.switched }
    }
}

/// How a check ends: with the reason for staying, or with the answer to the change of the account.
pub open spec fn cycle_end(
    now: int,
    cs: Seq<CandidateView>,
    cli_status: JsonView,
    d: DecisionView,
    answer: Result<JsonView, Seq<char>>,
) -> CycleEndView {
    match d {
        DecisionView::Skip(reason) => CycleEndView {
            report: JsonView::object().with("status"@, JsonView::Str("skipped"@)).with(
                "reason"@,
                JsonView::Str(reason),
            ),
            log: check_entry(
                now,
                cs,
                cli_status,
                "skipped"@,
                JsonView::Str(reason),
                JsonView::Null,
            ),
            switched: false,
        },
        DecisionView::Switch(id) => {
            let to = named(id, JsonView::Str(name_of_id(cs, id)));
            match answer {
                Ok(res) => CycleEndView {
                    report: JsonView::object().with("status"@, JsonView::Str("switched"@)).with(
                        "to"@,
                        JsonView::Str(id),
                    ).with("detail"@, res),
                    log: check_entry(now, cs, cli_status, "switched"@, JsonView::Null, to),
                    switched: true,
                },
                Err(e) => CycleEndView {
                    report: JsonView::object().with("status"@, JsonView::Str("error"@)).with(
                        "error"@,
                        JsonView::Str(e),
                    ),
                    log: check_entry(now, cs, cli_status, "error"@, JsonView::Str(e), to),
                    switched: false,
                },
            }
        },
    }
}

/// The state after a check that ended at that moment.
pub open spec fn state_after(state: RotateState, end: CycleEndView, now: i64) -> RotateState {
    RotateState {
        last_check: now,
        last_switch: if end.switched {
            now
        } else {
            state.last_switch
        },
    }
}

/// Ends a check. Where the decision was to change the account, `answer` is what became of that;
/// otherwise it is not looked at.
pub fn finish_cycle(
    state: &mut RotateState,
    now: i64,
    candidates: &Vec<Candidate>,
    cli_status: &Json,
    decision: Decision,
    answer: Result<Json, String>,
) -> (r: CycleEnd)
    ensures
        r@ == cycle_end(
            now as int,
            candidate_views(candidates@),
            cli_status@,
            decision@,
            reply_view(answer),
        ),
        *final(state) == state_after(*old(state), r@, now),
{
    let end = end_of_cycle(now, candidates, cli_status, decision, answer);
    state.last_check = now;
    if end.switched {
        state.last_switch = now;
    }
    end
}

fn end_of_cycle(
    now: i64,
    candidates: &Vec<Candidate>,
    cli_status: &Json,
    decision: Decision,
    answer: Result<Json, String>,
) -> (r: CycleEnd)
    ensures
        r@ == cycle_end(
            now as int,
            candidate_views(candidates@),
            cli_status@,
            decision@,
            reply_view(answer),
        ),
{
    match decision {
        Decision::Skip(reason) => CycleEnd {
            log: make_check_entry(
                now,
                candidates,
                cli_status,
                "skipped",
                Json::Str(reason.clone()),
                Json::Null,
            ),
            report: Json::object().with("status", Json::text("skipped")).with(
                "reason",
                Json::Str(reason),
            ),
            switched: false,
        },
        Decision::Switch(id) => {
            let name = match find_id(candidates, id.as_str()) {
                Some(i) => candidates[i].display_name.clone(),
                None => String::new(),
            };
            let to = Json::object().with("id", Json::Str(id.clone())).with("name", Json::Str(name));
            match answer {
                Ok(res) => CycleEnd {
                    log: make_check_entry(now, candidates, cli_status, "switched", Json::Null, to),
                    report: Json::object().with("status", Json::text("switched")).with(
                        "to",
                        Json::Str(id),
                    ).with("detail", res),
                    switched: true,
                },
                Err(e) => CycleEnd {
                    log: make_check_entry(
                        now,
                        candidates,
                        cli_status,
                        "error",
                        Json::Str(e.clone()),
                        to,
                    ),
                    report: Json::object().with("status", Json::text("error")).with(
                        "error",
                        Json::Str(e),
                    ),
                    switched: false,
                },
            }
        },
    }
}

/// The account counts as changed exactly where that was decided and done.
pub proof fn law_changed_only_where_decided_and_done(
    now: int,
    cs: Seq<CandidateView>,
    cli_status: JsonView,
    d: DecisionView,
    answer: Result<JsonView, Seq<char>>,
)
    ensures
        cycle_end(now, cs, cli_status, d, answer).switched <==> d is Switch && answer is Ok,
{
}

/// After a change there is no other one until the cooldown of the configuration is over, whatever
/// the candidates are; and the cooldown is never shorter than a minute.
pub proof fn law_cooldown_after_a_change(
    state: RotateState,
    end: CycleEndView,
    changed_at: i64,
    cs: Seq<CandidateView>,
    config: JsonView,
    cli_status: JsonView,
    activity: Option<int>,
    now: int,
)
    requires
        end.switched,
        changed_at > 0,
        now < changed_at + policy_of(config).cooldown,
    ensures
        decision(
            cs,
            situation_of(state_after(state, end, changed_at), cli_status, activity, now),
            policy_of(config),
        ) is Skip,
        policy_of(config).cooldown >= 60_000,
{
}

// ---------------------------------------------------------------------------
// The standing of the rotation
// ---------------------------------------------------------------------------

/// A member, or a default where there is none of that name.
pub open spec fn at_or(v: JsonView, key: Seq<char>, default: JsonView) -> JsonView {
    match v.get(key) {
        Some(x) => x,
        None => default,
    }
}

/// The standing of the rotation: the configuration, the active account, and the last check and
/// change.
pub fn rotate_status(state: &RotateState, config: Json, cli_status: &Json) -> (r: Json)
    ensures
        r@ == JsonView::object().with("config"@, config@).with(
            "cliConfigured"@,
            at_or(cli_status@, "configured"@, JsonView::Bool(false)),
        ).with("activeAccountId"@, cli_status@.at("activeAccountId"@)).with(
            "activeAccountName"@,
            cli_status@.at("activeAccountName"@),
        ).with("lastCheckAt"@, moment_value(past(state.last_check))).with(
            "lastSwitchAt"@,
            moment_value(past(state.last_switch)),
        ),
{
    let configured = match cli_status.get("configured") {
        Some(v) => v.copy(),
        None => Json::Bool(false),
    };
    let check = if state.last_check > 0 {
        Json::Int(state.last_check as i128)
    } else {
        Json::Null
    };
    let switch = if state.last_switch > 0 {
        Json::Int(state.last_switch as i128)
    } else {
        Json::Null
    };
    Json::object().with("config", config).with("cliConfigured", configured).with(
        "activeAccountId",
        cli_status.at("activeAccountId"),
    ).with("activeAccountName", cli_status.at("activeAccountName")).with(
        "lastCheckAt",
        check,
    ).with("lastSwitchAt", switch)
}

/// The log entries, the latest first.
pub fn rotate_logs(logs: &Vec<Json>) -> (r: Vec<Json>)
    ensures
        views(r@) == views(logs@).reverse(),
{
    let ghost all = views(logs@);
    let mut out: Vec<Json> = Vec::new();
    let mut i: usize = logs.len();
    while i > 0
        invariant
            i <= logs@.len(),
            all == views(logs@),
            out@.len() == logs@.len() - i,
            forall|j: int|
                0 <= j < out@.len() ==> (#[trigger] out@[j])@ == all[logs@.len() - 1 - j],
        decreases i,
    {
        i -= 1;
        out.push(logs[i].copy());
    }
    assert(views(out@) =~= all.reverse());
    out
}

} // verus!
