//! The rotation between accounts.
use crate::json::{less, positive, zero_view, JsonView, RealView};
use crate::rotate::{
    active_id, at_or, candidate_of, candidate_views, cycle_end, decision, index_of_id, law_first_account_of_an_id,
    law_target_is_the_most_urgent, moment, moment_value, more_urgent, newest, not_checked, past,
    policy_of, situation, situation_of, snapshot, state_after, target_index, urgency, Candidate,
    CandidateView, CycleEnd, CycleEndView, Decision, DecisionView, Policy, PolicyView, RotateState,
    SessionFile, SituationView,
};
use crate::text::{int_numeral, numeral};
use vstd::arithmetic::div_mod::lemma_fundamental_div_mod_converse;
use vstd::prelude::*;

verus! {

// ---------------------------------------------------------------------------
// The target
// ---------------------------------------------------------------------------

/// Whether the credit that expires at `a` goes before that which expires at `b`: the earlier before
/// the later, and any time before none.
pub open spec fn sooner(a: Option<int>, b: Option<int>) -> bool {
    match (a, b) {
        (Some(x), Some(y)) => x < y,
        (Some(_), None) => true,
        (None, _) => false,
    }
}

/// Whether the account at that place is the one to change to: it can be changed to, no other one
/// that can goes before it, and those that stand before it in the list do not even go along with it.
pub open spec fn is_target(cs: Seq<CandidateView>, i: int) -> bool {
    &&& 0 <= i < cs.len()
    &&& cs[i].valid
    &&& forall|j: int|
        0 <= j < cs.len() && (#[trigger] cs[j]).valid ==> !sooner(cs[j].soonest, cs[i].soonest)
    &&& forall|j: int|
        0 <= j < i && (#[trigger] cs[j]).valid ==> sooner(cs[i].soonest, cs[j].soonest)
}

/// The target is the account whose credit expires first, among those that can be changed to.
pub proof fn law_the_target_expires_first(cs: Seq<CandidateView>, i: int)
    ensures
        is_target(cs, i) <==> target_index(cs) == Some(i),
        (forall|j: int| 0 <= j < cs.len() ==> !(#[trigger] cs[j]).valid) <==> target_index(cs)
            is None,
{
    law_target_is_the_most_urgent(cs);
    lemma_urgency(cs);
    if let Some(k) = target_index(cs) {
        assert(cs[k].valid);
        if is_target(cs, i) {
            if i < k {
                assert(more_urgent(cs[k], cs[i]));
            } else if k < i {
                assert(sooner(cs[i].soonest, cs[k].soonest));
                assert(more_urgent(cs[i], cs[k]));
            }
        }
        if k == i {
            assert forall|j: int| 0 <= j < cs.len() && (#[trigger] cs[j]).valid implies !sooner(
                cs[j].soonest,
                cs[i].soonest,
            ) by {
                assert(!more_urgent(cs[j], cs[i]));
            }
            assert forall|j: int| 0 <= j < i && (#[trigger] cs[j]).valid implies sooner(
                cs[i].soonest,
                cs[j].soonest,
            ) by {
                assert(more_urgent(cs[i], cs[j]));
            }
        }
    }
}

proof fn lemma_urgency(cs: Seq<CandidateView>)
    ensures
        forall|i: int, j: int|
            #![trigger cs[i], cs[j]]
            more_urgent(cs[i], cs[j]) == sooner(cs[i].soonest, cs[j].soonest),
{
}

/// How urgent an account is goes by the time of expiry, and those without one come last.
pub proof fn law_the_order_of_urgency(a: CandidateView, b: CandidateView)
    ensures
        more_urgent(a, b) <==> sooner(a.soonest, b.soonest),
        a.soonest matches Some(ts) ==> urgency(a) == (0int, ts),
        a.soonest is None ==> urgency(a) == (1int, 0int),
{
}

/// An account is found by its id at its first place.
pub proof fn law_an_account_is_found_by_its_id(
    cs: Seq<CandidateView>,
    id: Seq<char>,
    k: int,
)
    requires
        0 <= k <= cs.len(),
        forall|j: int| 0 <= j < k ==> (#[trigger] cs[j]).account_id != id,
        k < cs.len() ==> cs[k].account_id == id,
    ensures
        index_of_id(cs, id) == (if k < cs.len() {
            Some(k)
        } else {
            None::<int>
        }),
{
    law_first_account_of_an_id(cs, id);
    if let Some(i) = index_of_id(cs, id) {
        if i < k {
            assert(cs[i].account_id != id);
        } else if k < i {
            assert(cs[k].account_id != id);
        }
    } else if k < cs.len() {
        assert(cs[k].account_id != id);
    }
}

// ---------------------------------------------------------------------------
// When there is no change
// ---------------------------------------------------------------------------

/// While the active account is in use there is no change, whatever else holds.
pub proof fn law_no_change_while_in_use(
    cs: Seq<CandidateView>,
    s: SituationView,
    p: PolicyView,
    t: int,
)
    requires
        s.activity == Some(t),
        s.now < t + p.active_guard,
    ensures
        decision(cs, s, p) is Skip,
{
}

/// A use that is long enough ago, or none, makes no difference.
pub proof fn law_a_use_long_ago_does_not_matter(
    cs: Seq<CandidateView>,
    s: SituationView,
    p: PolicyView,
    t: int,
)
    requires
        s.activity == Some(t),
        s.now >= t + p.active_guard,
    ensures
        decision(cs, s, p) == decision(cs, SituationView { activity: None, ..s }, p),
{
}

/// Shortly after a change there is no other one, whatever else holds.
pub proof fn law_no_change_soon_after_another(
    cs: Seq<CandidateView>,
    s: SituationView,
    p: PolicyView,
    t: int,
)
    requires
        s.last_switch == Some(t),
        s.now < t + p.cooldown,
    ensures
        decision(cs, s, p) is Skip,
{
}

/// A change that is long enough ago, or none, makes no difference.
pub proof fn law_a_change_long_ago_does_not_matter(
    cs: Seq<CandidateView>,
    s: SituationView,
    p: PolicyView,
    t: int,
)
    requires
        s.last_switch == Some(t),
        s.now >= t + p.cooldown,
    ensures
        decision(cs, s, p) == decision(cs, SituationView { last_switch: None, ..s }, p),
{
}

/// While no credit expires soon there is no change, whatever else holds.
pub proof fn law_no_change_without_urgency(
    cs: Seq<CandidateView>,
    s: SituationView,
    p: PolicyView,
    k: int,
)
    requires
        0 <= k < cs.len(),
        cs[k].valid,
        cs[k].soonest is Some,
        forall|j: int|
            0 <= j < cs.len() && (#[trigger] cs[j]).valid && cs[j].soonest is Some
                ==> cs[j].soonest->0 > s.now + p.min_urgency,
    ensures
        decision(cs, s, p) is Skip,
{
    law_target_is_the_most_urgent(cs);
    if let Some(i) = target_index(cs) {
        assert(cs[i].valid);
        assert(!more_urgent(cs[k], cs[i]));
        assert(cs[i].soonest is Some);
        assert(cs[i].soonest->0 > s.now + p.min_urgency);
    }
}

/// There is never a change to an account that cannot be changed to, to the active one, to one whose
/// credit expires too late, or to one with too little credit.
pub proof fn law_what_is_changed_to(
    cs: Seq<CandidateView>,
    s: SituationView,
    p: PolicyView,
    id: Seq<char>,
)
    requires
        decision(cs, s, p) == DecisionView::Switch(id),
    ensures
        s.current != Some(id),
        exists|i: int|
            {
                &&& #[trigger] is_target(cs, i)
                &&& cs[i].account_id == id
                &&& cs[i].soonest matches Some(ts) ==> ts <= s.now + p.min_urgency
                &&& !(positive(p.min_remaining.bits) && less(
                    cs[i].remaining.bits,
                    p.min_remaining.bits,
                ))
            },
{
    let i = target_index(cs)->0;
    law_the_target_expires_first(cs, i);
    assert(is_target(cs, i));
}

// ---------------------------------------------------------------------------
// When there is one, and why there is none
// ---------------------------------------------------------------------------

/// Whether the account that stands first under the id of the active account has credit that expires
/// later than that of the target, but not by more than the gap.
pub open spec fn hardly_earlier(
    cs: Seq<CandidateView>,
    i: int,
    k: int,
    current: Option<Seq<char>>,
    gap: int,
) -> bool {
    &&& 0 <= k < cs.len()
    &&& cs[k].account_id == (match current {
        Some(id) => id,
        None => seq![],
    })
    &&& forall|j: int| 0 <= j < k ==> (#[trigger] cs[j]).account_id != cs[k].account_id
    &&& cs[k].soonest is Some
    &&& cs[i].soonest is Some
    &&& cs[k].soonest->0 > 0
    &&& 0 < cs[k].soonest->0 - cs[i].soonest->0 <= gap
}

/// The target is changed to where its credit expires soon, it is not the active account, no change was
/// made and no use seen lately, it has enough credit, and its credit does not expire hardly earlier
/// than that of the active account.
pub proof fn law_a_change_is_made(
    cs: Seq<CandidateView>,
    i: int,
    s: SituationView,
    p: PolicyView,
)
    requires
        is_target(cs, i),
        cs[i].soonest is Some ==> cs[i].soonest->0 <= s.now + p.min_urgency,
        s.current != Some(cs[i].account_id),
        s.last_switch is Some ==> s.now >= s.last_switch->0 + p.cooldown,
        s.activity is Some ==> s.now >= s.activity->0 + p.active_guard,
        !(positive(p.min_remaining.bits) && less(cs[i].remaining.bits, p.min_remaining.bits)),
        forall|k: int| !#[trigger] hardly_earlier(cs, i, k, s.current, p.min_gap),
    ensures
        decision(cs, s, p) == DecisionView::Switch(cs[i].account_id),
{
    law_the_target_expires_first(cs, i);
    let id = match s.current {
        Some(id) => id,
        None => seq![],
    };
    law_first_account_of_an_id(cs, id);
    if let Some(k) = index_of_id(cs, id) {
        assert(!hardly_earlier(cs, i, k, s.current, p.min_gap));
    }
}

/// Without an account that can be changed to, that is the reason.
pub proof fn law_the_reason_is_no_account(
    cs: Seq<CandidateView>,
    s: SituationView,
    p: PolicyView,
)
    requires
        forall|j: int| 0 <= j < cs.len() ==> !(#[trigger] cs[j]).valid,
    ensures
        decision(cs, s, p) == DecisionView::Skip("没有可用账号（查询失败/已过期/无剩余积分）"@),
{
    law_the_target_expires_first(cs, 0);
}

/// Where the credit of the target expires too late, that is the reason, with the whole days that are
/// left.
pub proof fn law_the_reason_is_time(
    cs: Seq<CandidateView>,
    i: int,
    s: SituationView,
    p: PolicyView,
    days: nat,
)
    requires
        is_target(cs, i),
        cs[i].soonest is Some,
        cs[i].soonest->0 - s.now > p.min_urgency,
        days * 86_400_000 <= cs[i].soonest->0 - s.now < (days + 1) * 86_400_000,
    ensures
        decision(cs, s, p) == DecisionView::Skip(
            "所有账号到期都还早（最紧迫的还剩 "@ + numeral(days) + " 天），无需切换"@,
        ),
{
    law_the_target_expires_first(cs, i);
    let left = cs[i].soonest->0 - s.now;
    lemma_fundamental_div_mod_converse(left, 86_400_000, days as int, left - days * 86_400_000);
}

/// Where the target is the active account, that is the reason.
pub proof fn law_the_reason_is_the_active_account(
    cs: Seq<CandidateView>,
    i: int,
    s: SituationView,
    p: PolicyView,
)
    requires
        is_target(cs, i),
        cs[i].soonest is Some ==> cs[i].soonest->0 - s.now <= p.min_urgency,
        s.current == Some(cs[i].account_id),
    ensures
        decision(cs, s, p) == DecisionView::Skip("当前账号已是最紧迫账号"@),
{
    law_the_target_expires_first(cs, i);
}

/// Shortly after a change, that is the reason, and while the active account is in use, that is.
pub proof fn law_the_reason_is_a_change_or_a_use(
    cs: Seq<CandidateView>,
    i: int,
    s: SituationView,
    p: PolicyView,
    t: int,
)
    requires
        is_target(cs, i),
        cs[i].soonest is Some ==> cs[i].soonest->0 - s.now <= p.min_urgency,
        s.current != Some(cs[i].account_id),
    ensures
        s.last_switch == Some(t) && s.now < t + p.cooldown ==> decision(cs, s, p)
            == DecisionView::Skip("处于切换冷却期"@),
        s.last_switch is None && s.activity == Some(t) && s.now < t + p.active_guard ==> decision(
            cs,
            s,
            p,
        ) == DecisionView::Skip("CLI 正在使用中，暂不切换"@),
{
    law_the_target_expires_first(cs, i);
}

/// Where the target has too little credit, that is the reason, with how much it has and how much it
/// would need.
pub proof fn law_the_reason_is_credit(
    cs: Seq<CandidateView>,
    i: int,
    s: SituationView,
    p: PolicyView,
)
    requires
        is_target(cs, i),
        cs[i].soonest is Some ==> cs[i].soonest->0 - s.now <= p.min_urgency,
        s.current != Some(cs[i].account_id),
        s.last_switch is None,
        s.activity is None,
        positive(p.min_remaining.bits),
        less(cs[i].remaining.bits, p.min_remaining.bits),
    ensures
        decision(cs, s, p) == DecisionView::Skip(
            "目标账号剩余积分不足（"@ + cs[i].remaining.text + "，阈值 "@ + p.min_remaining.text
                + "），不值得切换"@,
        ),
{
    law_the_target_expires_first(cs, i);
}

/// Where the credit of the target expires hardly earlier than that of the active account, that is the
/// reason, with the whole hours of both.
pub proof fn law_the_reason_is_the_gap(
    cs: Seq<CandidateView>,
    i: int,
    k: int,
    s: SituationView,
    p: PolicyView,
    hours: nat,
    asked: nat,
)
    requires
        is_target(cs, i),
        cs[i].soonest is Some ==> cs[i].soonest->0 - s.now <= p.min_urgency,
        s.current != Some(cs[i].account_id),
        s.last_switch is None,
        s.activity is None,
        !(positive(p.min_remaining.bits) && less(cs[i].remaining.bits, p.min_remaining.bits)),
        hardly_earlier(cs, i, k, s.current, p.min_gap),
        hours * 3_600_000 <= cs[k].soonest->0 - cs[i].soonest->0 < (hours + 1) * 3_600_000,
        asked * 3_600_000 <= p.min_gap < (asked + 1) * 3_600_000,
    ensures
        decision(cs, s, p) == DecisionView::Skip(
            "目标到期仅早 "@ + numeral(hours) + " 小时，未达切换阈值（"@ + numeral(asked)
                + " 小时）"@,
        ),
{
    law_the_target_expires_first(cs, i);
    let gap = cs[k].soonest->0 - cs[i].soonest->0;
    law_an_account_is_found_by_its_id(cs, cs[k].account_id, k);
    lemma_fundamental_div_mod_converse(gap, 3_600_000, hours as int, gap - hours * 3_600_000);
    lemma_fundamental_div_mod_converse(
        p.min_gap,
        3_600_000,
        asked as int,
        p.min_gap - asked * 3_600_000,
    );
}

/// Days that are over are counted with a minus sign, whole days again.
pub proof fn law_days_that_are_over(
    cs: Seq<CandidateView>,
    i: int,
    s: SituationView,
    p: PolicyView,
    days: nat,
)
    requires
        is_target(cs, i),
        cs[i].soonest is Some,
        cs[i].soonest->0 - s.now > p.min_urgency,
        cs[i].soonest->0 < s.now,
        days * 86_400_000 <= s.now - cs[i].soonest->0 < (days + 1) * 86_400_000,
    ensures
        decision(cs, s, p) == DecisionView::Skip(
            "所有账号到期都还早（最紧迫的还剩 "@ + int_numeral(-days) + " 天），无需切换"@,
        ),
{
    law_the_target_expires_first(cs, i);
    let over = s.now - cs[i].soonest->0;
    lemma_fundamental_div_mod_converse(over, 86_400_000, days as int, over - days * 86_400_000);
}

// ---------------------------------------------------------------------------
// Candidates and settings
// ---------------------------------------------------------------------------

/// The credit of an account is what the service says of it. It can be changed to where the service
/// answered well, the credit is not expired, and there is some.
pub proof fn law_the_credit_of_an_account(
    account: JsonView,
    name: Seq<char>,
    credit: JsonView,
    remaining: RealView,
)
    requires
        remaining == (match credit.at("totalRemaining"@).as_f64() {
            Some(x) => x,
            None => zero_view(),
        }),
    ensures
        candidate_of(account, name, credit) == (CandidateView {
            account_id: account.text_at("id"@),
            display_name: name,
            soonest: credit.int_at("soonestExpireAt"@),
            remaining,
            valid: credit.get("ok"@) == Some(JsonView::Bool(true)) && credit.get("expired"@) != Some(
                JsonView::Bool(true),
            ) && positive(remaining.bits),
            error: credit.at("error"@).as_str(),
        }),
{
}

/// A setting is what the configuration says, not below its least, or its default.
pub proof fn law_the_settings(config: JsonView, n: int)
    ensures
        config.int_at("cooldown_minutes"@) == Some(n) ==> policy_of(config).cooldown == (
        if n >= 1 {
            n * 60_000
        } else {
            60_000
        }),
        config.int_at("cooldown_minutes"@) is None ==> policy_of(
            config,
        ).cooldown == 7_200_000,
        config.int_at("min_gap_hours"@) == Some(n) ==> policy_of(config).min_gap == (
        if n >= 0 {
            n * 3_600_000
        } else {
            0
        }),
        config.int_at("min_gap_hours"@) is None ==> policy_of(config).min_gap
            == 86_400_000,
        config.int_at("min_urgency_hours"@) == Some(n) ==> policy_of(config).min_urgency
            == (if n >= 0 {
            n * 3_600_000
        } else {
            0
        }),
        config.int_at("min_urgency_hours"@) is None ==> policy_of(
            config,
        ).min_urgency == 259_200_000,
        config.int_at("active_guard_minutes"@) == Some(n) ==> policy_of(
            config,
        ).active_guard == (if n >= 0 {
            n * 60_000
        } else {
            0
        }),
        config.int_at("active_guard_minutes"@) is None ==> policy_of(
            config,
        ).active_guard == 1_800_000,
        config.at("min_remaining_credits"@).as_f64() matches Some(x) && positive(x.bits)
            ==> policy_of(config).min_remaining == config.at("min_remaining_credits"@).as_f64()->0,
        !(config.at("min_remaining_credits"@).as_f64() matches Some(x) && positive(x.bits))
            ==> policy_of(config).min_remaining == zero_view(),
{
}

// ---------------------------------------------------------------------------
// The last use
// ---------------------------------------------------------------------------

/// The last use is the latest writing of a file that is kept for a session; other files do not count,
/// nor does one of which it is not known when it was written.
pub proof fn law_the_last_use(files: Seq<SessionFile>, f: SessionFile, ms: i64)
    ensures
        newest(seq![]) is None,
        f.extension is Some && f.extension->0@ == "jsonl"@ && f.modified_ms == Some(ms) ==> newest(
            files.push(f),
        ) == Some(
            if newest(files) is Some && newest(files)->0 >= ms {
                newest(files)->0
            } else {
                ms as int
            },
        ),
        f.extension is None || f.extension->0@ != "jsonl"@ || f.modified_ms is None ==> newest(
            files.push(f),
        ) == newest(files),
{
    assert(files.push(f).drop_last() =~= files);
}

// ---------------------------------------------------------------------------
// A check
// ---------------------------------------------------------------------------

/// A check looks at the active account, the last change where there was one, the last use and the
/// moment.
pub proof fn law_what_a_check_looks_at(
    state: RotateState,
    cli: JsonView,
    activity: Option<int>,
    now: int,
    id: Seq<char>,
)
    ensures
        situation_of(state, cli, activity, now).last_switch == (if state.last_switch > 0 {
            Some(state.last_switch as int)
        } else {
            None::<int>
        }),
        situation_of(state, cli, activity, now).activity == activity,
        situation_of(state, cli, activity, now).now == now,
        cli.get("activeAccountId"@) == Some(JsonView::Str(id)) ==> situation_of(
            state,
            cli,
            activity,
            now,
        ).current == Some(id),
        !(cli.get("activeAccountId"@) matches Some(JsonView::Str(_))) ==> situation_of(
            state,
            cli,
            activity,
            now,
        ).current is None,
{
}

/// What is told of a moment, of a situation and of a candidate is what they hold.
pub proof fn law_what_candidates_and_moments_hold(
    c: Candidate,
    d: Decision,
    p: Policy,
    end: CycleEnd,
    t: i64,
    id: &str,
    last: Option<i64>,
    activity: Option<i64>,
    cs: Seq<Candidate>,
)
    ensures
        candidate_views(cs) == Seq::new(cs.len(), |i: int| cs[i]@),
        moment(Some(t)) == Some(t as int),
        moment(None) is None,
        past(t) == (if t > 0 {
            Some(t as int)
        } else {
            None::<int>
        }),
        moment_value(Some(t as int)) == JsonView::Int(t as int),
        moment_value(None) == JsonView::Null,
        situation(Some(id), last, activity, t) == (SituationView {
            current: Some(id@),
            last_switch: moment(last),
            activity: moment(activity),
            now: t as int,
        }),
        situation(None, last, activity, t).current is None,
        c@.account_id == c.account_id@,
        c@.display_name == c.display_name@,
        c@.soonest == moment(c.soonest_expire_at),
        c@.remaining == (RealView { bits: c.total_remaining.bits, text: c.total_remaining.text@ }),
        c@.valid == c.valid,
        c.error matches Some(e) ==> c@.error == Some(e@),
        c.error is None ==> c@.error is None,
        d matches Decision::Skip(reason) ==> d@ == DecisionView::Skip(reason@),
        d matches Decision::Switch(target) ==> d@ == DecisionView::Switch(target@),
        p@ == (PolicyView {
            cooldown: p.cooldown_ms as int,
            min_gap: p.min_gap_ms as int,
            min_urgency: p.min_urgency_ms as int,
            active_guard: p.active_guard_ms as int,
            min_remaining: RealView {
                bits: p.min_remaining.bits,
                text: p.min_remaining.text@,
            },
        }),
        end@ == (CycleEndView {
            report: end.report@,
            log: end.log@,
            switched: end.switched,
        }),
{
    assert(candidate_views(cs) =~= Seq::new(cs.len(), |i: int| cs[i]@));
}

/// There is a check where checks are switched on and none is running; else it is said why not.
pub proof fn law_when_there_is_a_check(running: bool, config: JsonView)
    ensures
        running ==> not_checked(running, config) == Some(
            JsonView::Object(
                map!["status"@ => JsonView::Str("skipped"@), "reason"@ => JsonView::Str(
                    "already_running"@,
                )],
            ),
        ),
        !running && config.get("enabled"@) != Some(JsonView::Bool(true)) ==> not_checked(
            running,
            config,
        ) == Some(JsonView::Object(map!["status"@ => JsonView::Str("disabled"@)])),
        !running && config.get("enabled"@) == Some(JsonView::Bool(true)) ==> not_checked(
            running,
            config,
        ) is None,
{
}

/// What the log keeps of an account.
pub proof fn law_what_is_kept_of_an_account(c: CandidateView)
    ensures
        snapshot(c) == JsonView::Object(
            map!["name"@ => JsonView::Str(c.display_name), "remaining"@ => if c.remaining.bits
                < 0x7ff0_0000_0000_0000 || 0x8000_0000_0000_0000 <= c.remaining.bits
                < 0xfff0_0000_0000_0000 {
                JsonView::Float(c.remaining)
            } else {
                JsonView::Null
            }, "soonestExpireAt"@ => match c.soonest {
                Some(ts) => JsonView::Int(ts),
                None => JsonView::Null,
            }, "valid"@ => JsonView::Bool(c.valid)],
        ),
{
}

/// How a check ends: the report says what was done or why nothing was, and the log keeps that with the
/// accounts as they stood.
pub proof fn law_how_a_check_ends(
    now: int,
    cs: Seq<CandidateView>,
    cli: JsonView,
    text: Seq<char>,
    name: Seq<char>,
    res: JsonView,
    answer: Result<JsonView, Seq<char>>,
    from: JsonView,
    detail: JsonView,
)
    requires
        from == (match cli.get("activeAccountId"@) {
            Some(JsonView::Str(id)) => JsonView::Object(
                map!["id"@ => JsonView::Str(id), "name"@ => cli.at("activeAccountName"@)],
            ),
            _ => JsonView::Null,
        }),
        detail == JsonView::Array(Seq::new(cs.len(), |i: int| snapshot(cs[i]))),
        name == (match index_of_id(cs, text) {
            Some(i) => cs[i].display_name,
            None => seq![],
        }),
    ensures
        cycle_end(now, cs, cli, DecisionView::Skip(text), answer) == (CycleEndView {
            report: JsonView::Object(
                map!["status"@ => JsonView::Str("skipped"@), "reason"@ => JsonView::Str(text)],
            ),
            log: JsonView::Object(
                map!["ts"@ => JsonView::Int(now), "action"@ => JsonView::Str("skipped"@),
                    "reason"@ => JsonView::Str(text), "from"@ => from, "to"@ => JsonView::Null,
                    "detail"@ => detail],
            ),
            switched: false,
        }),
        cycle_end(now, cs, cli, DecisionView::Switch(text), Ok(res)) == (CycleEndView {
            report: JsonView::Object(
                map!["status"@ => JsonView::Str("switched"@), "to"@ => JsonView::Str(text),
                    "detail"@ => res],
            ),
            log: JsonView::Object(
                map!["ts"@ => JsonView::Int(now), "action"@ => JsonView::Str("switched"@),
                    "reason"@ => JsonView::Null, "from"@ => from, "to"@ => JsonView::Object(
                    map!["id"@ => JsonView::Str(text), "name"@ => JsonView::Str(name)],
                ), "detail"@ => detail],
            ),
            switched: true,
        }),
        answer matches Err(e) ==> cycle_end(now, cs, cli, DecisionView::Switch(text), answer) == (
        CycleEndView {
            report: JsonView::Object(
                map!["status"@ => JsonView::Str("error"@), "error"@ => JsonView::Str(e)],
            ),
            log: JsonView::Object(
                map!["ts"@ => JsonView::Int(now), "action"@ => JsonView::Str("error"@),
                    "reason"@ => JsonView::Str(e), "from"@ => from, "to"@ => JsonView::Object(
                    map!["id"@ => JsonView::Str(text), "name"@ => JsonView::Str(name)],
                ), "detail"@ => detail],
            ),
            switched: false,
        }),
{
    assert(cs.map_values(|c: CandidateView| snapshot(c)) =~= Seq::new(
        cs.len(),
        |i: int| snapshot(cs[i]),
    ));
    match cli.get("activeAccountId"@) {
        Some(JsonView::Str(id)) => {
            assert(active_id(cli) == Some(id));
        },
        _ => {
            assert(active_id(cli) is None);
        },
    }
}

/// A check is remembered, and a change where one was made.
pub proof fn law_what_is_remembered(state: RotateState, end: CycleEndView, now: i64)
    ensures
        state_after(state, end, now).last_check == now,
        end.switched ==> state_after(state, end, now).last_switch == now,
        !end.switched ==> state_after(state, end, now).last_switch == state.last_switch,
{
}

/// A member that is missing is told as its default.
pub proof fn law_a_member_or_its_default(v: JsonView, key: Seq<char>, default: JsonView)
    ensures
        v.get(key) matches Some(x) ==> at_or(v, key, default) == x,
        v.get(key) is None ==> at_or(v, key, default) == default,
{
}

} // verus!
