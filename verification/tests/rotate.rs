use wb_switch_core::json::{Json, Member, Real};
use wb_switch_core::rotate::{
    cli_recent_activity, decide_target, finish_cycle, read_policy, rotate_gate, rotate_logs,
    rotate_status, run_rotate_cycle, to_candidate, Candidate, Decision, RotateState, SessionFile,
};

const GAP: i64 = 24 * 3600_000;
const URG: i64 = 72 * 3600_000;
const GUARD: i64 = 30 * 60_000;

fn now_ms() -> i64 {
    std::time::SystemTime::now()
        .duration_since(std::time::UNIX_EPOCH)
        .unwrap()
        .as_millis() as i64
}

fn double(x: f64) -> Real {
    Real { bits: x.to_bits(), text: format!("{}", x) }
}

fn cand(id: &str, expire_at: Option<i64>, remaining: f64, valid: bool) -> Candidate {
    Candidate {
        account_id: id.to_string(),
        display_name: id.to_string(),
        soonest_expire_at: expire_at,
        total_remaining: double(remaining),
        valid,
        error: None,
    }
}

fn dt(candidates: &Vec<Candidate>, current: Option<&str>, now: i64) -> Decision {
    decide_target(candidates, current, None, 0, GAP, URG, None, GUARD, &double(0.0), now)
}

fn object(members: Vec<(&str, Json)>) -> Json {
    Json::Object(
        members
            .into_iter()
            .map(|(k, v)| Member { key: k.to_string(), value: v })
            .collect(),
    )
}

#[test]
fn switches_to_most_urgent_account() {
    let now = now_ms();
    let candidates = vec![
        cand("a", Some(now + 30 * 24 * 3600_000), 100.0, true),
        cand("b", Some(now + 1 * 24 * 3600_000), 50.0, true),
    ];
    assert_eq!(dt(&candidates, Some("a"), now), Decision::Switch("b".to_string()));
}

#[test]
fn noop_when_current_is_most_urgent() {
    let now = now_ms();
    let candidates = vec![
        cand("a", Some(now + 1 * 24 * 3600_000), 50.0, true),
        cand("b", Some(now + 30 * 24 * 3600_000), 100.0, true),
    ];
    assert_eq!(
        dt(&candidates, Some("a"), now),
        Decision::Skip("当前账号已是最紧迫账号".to_string())
    );
}

#[test]
fn skips_when_gap_below_threshold() {
    let now = now_ms();
    let candidates = vec![
        cand("a", Some(now + 24 * 3600_000), 50.0, true),
        cand("b", Some(now + 22 * 3600_000), 60.0, true),
        cand("c", Some(now + 21 * 3600_000), 70.0, true),
    ];
    assert_eq!(
        dt(&candidates, Some("a"), now),
        Decision::Skip("目标到期仅早 3 小时，未达切换阈值（24 小时）".to_string())
    );
}

#[test]
fn switches_when_gap_above_threshold() {
    let now = now_ms();
    let candidates = vec![
        cand("a", Some(now + 30 * 24 * 3600_000), 100.0, true),
        cand("b", Some(now + 1 * 24 * 3600_000), 50.0, true),
    ];
    assert_eq!(dt(&candidates, Some("a"), now), Decision::Switch("b".to_string()));
}

#[test]
fn respects_cooldown() {
    let now = now_ms();
    let candidates = vec![
        cand("a", Some(now + 30 * 24 * 3600_000), 100.0, true),
        cand("b", Some(now + 1 * 24 * 3600_000), 50.0, true),
    ];
    assert_eq!(
        decide_target(
            &candidates,
            Some("a"),
            Some(now - 10 * 60_000),
            30 * 60_000,
            GAP,
            URG,
            None,
            GUARD,
            &double(0.0),
            now
        ),
        Decision::Skip("处于切换冷却期".to_string())
    );
    assert_eq!(
        decide_target(
            &candidates,
            Some("a"),
            Some(now - 40 * 60_000),
            30 * 60_000,
            GAP,
            URG,
            None,
            GUARD,
            &double(0.0),
            now
        ),
        Decision::Switch("b".to_string())
    );
}

#[test]
fn expired_and_failed_accounts_excluded() {
    let now = now_ms();
    let candidates = vec![
        cand("a", Some(now + 2 * 24 * 3600_000), 100.0, true),
        cand("expired", Some(now - 1 * 3600_000), 0.0, false),
        cand("failed", None, 0.0, false),
    ];
    assert_eq!(dt(&candidates, Some("expired"), now), Decision::Switch("a".to_string()));
}

#[test]
fn no_valid_candidates_skips() {
    let candidates = vec![
        cand("a", Some(now_ms()), 0.0, false),
        cand("b", None, 0.0, false),
    ];
    assert_eq!(
        dt(&candidates, Some("a"), now_ms()),
        Decision::Skip("没有可用账号（查询失败/已过期/无剩余积分）".to_string())
    );
}

#[test]
fn skips_when_nothing_urgent() {
    let now = now_ms();
    let candidates = vec![
        cand("a", Some(now + 6 * 24 * 3600_000), 100.0, true),
        cand("b", Some(now + 5 * 24 * 3600_000), 50.0, true),
    ];
    assert_eq!(
        dt(&candidates, Some("a"), now),
        Decision::Skip("所有账号到期都还早（最紧迫的还剩 5 天），无需切换".to_string())
    );
}

#[test]
fn skips_when_cli_active() {
    let now = now_ms();
    let candidates = vec![
        cand("a", Some(now + 30 * 24 * 3600_000), 100.0, true),
        cand("b", Some(now + 1 * 24 * 3600_000), 50.0, true),
    ];
    assert_eq!(
        decide_target(
            &candidates,
            Some("a"),
            None,
            0,
            GAP,
            URG,
            Some(now - 10 * 60_000),
            GUARD,
            &double(0.0),
            now
        ),
        Decision::Skip("CLI 正在使用中，暂不切换".to_string())
    );
    assert_eq!(
        decide_target(
            &candidates,
            Some("a"),
            None,
            0,
            GAP,
            URG,
            Some(now - 60 * 60_000),
            GUARD,
            &double(0.0),
            now
        ),
        Decision::Switch("b".to_string())
    );
    assert_eq!(
        decide_target(&candidates, Some("a"), None, 0, GAP, URG, None, GUARD, &double(0.0), now),
        Decision::Switch("b".to_string())
    );
}

#[test]
fn skips_when_target_low_remaining() {
    let now = now_ms();
    let candidates = vec![
        cand("a", Some(now + 30 * 24 * 3600_000), 100.0, true),
        cand("b", Some(now + 1 * 24 * 3600_000), 10.0, true),
    ];
    assert_eq!(
        decide_target(&candidates, Some("a"), None, 0, GAP, URG, None, GUARD, &double(30.0), now),
        Decision::Skip("目标账号剩余积分不足（10，阈值 30），不值得切换".to_string())
    );
    assert_eq!(
        decide_target(&candidates, Some("a"), None, 0, GAP, URG, None, GUARD, &double(5.0), now),
        Decision::Switch("b".to_string())
    );
}

#[test]
fn the_first_of_equally_urgent_accounts_is_the_target() {
    let now = 1_700_000_000_000;
    let candidates = vec![
        cand("never", None, 5.0, true),
        cand("first", Some(now + 1000), 5.0, true),
        cand("second", Some(now + 1000), 5.0, true),
    ];
    assert_eq!(dt(&candidates, None, now), Decision::Switch("first".to_string()));
}

#[test]
fn an_account_without_expiry_comes_last_but_can_be_the_target() {
    let now = 1_700_000_000_000;
    let candidates = vec![cand("never", None, 5.0, true), cand("gone", Some(now), 0.0, false)];
    assert_eq!(dt(&candidates, None, now), Decision::Switch("never".to_string()));
    assert_eq!(candidates[0].urgency_key(), (1, 0));
    assert_eq!(candidates[1].urgency_key(), (0, now));
}

#[test]
fn a_gap_of_exactly_the_threshold_is_not_enough() {
    let now = 1_700_000_000_000;
    let candidates = |gap: i64| {
        vec![
            cand("a", Some(now + 1000 + gap), 5.0, true),
            cand("b", Some(now + 1000), 5.0, true),
        ]
    };
    assert_eq!(
        dt(&candidates(GAP), Some("a"), now),
        Decision::Skip("目标到期仅早 24 小时，未达切换阈值（24 小时）".to_string())
    );
    assert_eq!(dt(&candidates(GAP + 1), Some("a"), now), Decision::Switch("b".to_string()));
}

#[test]
fn days_are_cut_off_toward_zero() {
    let now = 1_700_000_000_000;
    let candidates = vec![cand("a", Some(now - 36 * 3600_000), 5.0, true)];
    let d = decide_target(
        &candidates,
        None,
        None,
        0,
        GAP,
        -100 * 3600_000,
        None,
        GUARD,
        &double(0.0),
        now,
    );
    assert_eq!(
        d,
        Decision::Skip("所有账号到期都还早（最紧迫的还剩 -1 天），无需切换".to_string())
    );
}

#[test]
fn after_a_change_the_same_candidates_change_nothing() {
    let now = 1_700_000_000_000;
    let candidates = vec![
        cand("a", Some(now + 60 * 3600_000), 100.0, true),
        cand("b", Some(now + 1 * 3600_000), 50.0, true),
    ];
    assert_eq!(dt(&candidates, Some("a"), now), Decision::Switch("b".to_string()));
    assert_eq!(
        dt(&candidates, Some("b"), now + 1),
        Decision::Skip("当前账号已是最紧迫账号".to_string())
    );
}

#[test]
fn candidates_from_the_credit_service() {
    let account = object(vec![("id", Json::text("acc"))]);
    let credit = object(vec![
        ("ok", Json::Bool(true)),
        ("totalRemaining", Json::Int(12)),
        ("soonestExpireAt", Json::Int(77)),
    ]);
    let c = to_candidate(&account, "Name", &credit);
    assert_eq!(c.account_id, "acc");
    assert_eq!(c.display_name, "Name");
    assert_eq!(c.soonest_expire_at, Some(77));
    assert_eq!(c.total_remaining, double(12.0));
    assert!(c.valid);
    assert_eq!(c.error, None);

    let expired = object(vec![
        ("ok", Json::Bool(true)),
        ("expired", Json::Bool(true)),
        ("totalRemaining", Json::Float(double(1.5))),
    ]);
    let c = to_candidate(&account, "Name", &expired);
    assert!(!c.valid);
    assert_eq!(c.total_remaining, double(1.5));

    let failed = object(vec![("ok", Json::Bool(false)), ("error", Json::text("boom"))]);
    let c = to_candidate(&account, "Name", &failed);
    assert!(!c.valid);
    assert_eq!(c.error, Some("boom".to_string()));
    assert_eq!(c.total_remaining, double(0.0));

    let nothing_left = object(vec![("ok", Json::Bool(true)), ("totalRemaining", Json::Int(0))]);
    assert!(!to_candidate(&account, "Name", &nothing_left).valid);
    let debt = object(vec![("ok", Json::Bool(true)), ("totalRemaining", Json::Int(-3))]);
    assert!(!to_candidate(&account, "Name", &debt).valid);
}

#[test]
fn settings_have_defaults_and_lower_limits() {
    let p = read_policy(&Json::object());
    assert_eq!(p.cooldown_ms, 120 * 60_000);
    assert_eq!(p.min_gap_ms, 24 * 3_600_000);
    assert_eq!(p.min_urgency_ms, 72 * 3_600_000);
    assert_eq!(p.active_guard_ms, 30 * 60_000);
    assert_eq!(p.min_remaining, double(0.0));

    let p = read_policy(&object(vec![
        ("cooldown_minutes", Json::Int(0)),
        ("min_gap_hours", Json::Int(-5)),
        ("min_urgency_hours", Json::Int(2)),
        ("active_guard_minutes", Json::Int(-1)),
        ("min_remaining_credits", Json::Int(-7)),
    ]));
    assert_eq!(p.cooldown_ms, 60_000);
    assert_eq!(p.min_gap_ms, 0);
    assert_eq!(p.min_urgency_ms, 7_200_000);
    assert_eq!(p.active_guard_ms, 0);
    assert_eq!(p.min_remaining, double(0.0));

    let p = read_policy(&object(vec![("min_remaining_credits", Json::Float(double(2.5)))]));
    assert_eq!(p.min_remaining, double(2.5));
}

#[test]
fn a_check_needs_to_be_switched_on_and_alone() {
    let on = object(vec![("enabled", Json::Bool(true))]);
    assert_eq!(rotate_gate(false, &on), None);
    assert_eq!(
        rotate_gate(true, &on),
        Some(object(vec![
            ("status", Json::text("skipped")),
            ("reason", Json::text("already_running")),
        ]))
    );
    assert_eq!(
        rotate_gate(false, &Json::object()),
        Some(object(vec![("status", Json::text("disabled"))]))
    );
}

#[test]
fn a_change_is_logged_and_begins_the_cooldown() {
    let now = 1_700_000_000_000;
    let config = object(vec![("enabled", Json::Bool(true))]);
    let candidates = vec![
        cand("a", Some(now + 70 * 3600_000), 100.0, true),
        cand("b", Some(now + 1 * 3600_000), 50.0, true),
    ];
    let cli = object(vec![
        ("activeAccountId", Json::text("a")),
        ("activeAccountName", Json::text("Anna")),
    ]);
    let mut state = RotateState { last_check: 0, last_switch: 0 };
    let d = run_rotate_cycle(&state, &config, &candidates, &cli, None, now);
    assert_eq!(d, Decision::Switch("b".to_string()));
    let end = finish_cycle(&mut state, now, &candidates, &cli, d, Ok(Json::Bool(true)));
    assert!(end.switched);
    assert_eq!(
        end.report,
        object(vec![
            ("status", Json::text("switched")),
            ("to", Json::text("b")),
            ("detail", Json::Bool(true)),
        ])
    );
    assert_eq!(end.log.get("action"), Some(&Json::text("switched")));
    assert_eq!(end.log.get("reason"), Some(&Json::Null));
    assert_eq!(
        end.log.get("from"),
        Some(&object(vec![("id", Json::text("a")), ("name", Json::text("Anna"))]))
    );
    assert_eq!(
        end.log.get("to"),
        Some(&object(vec![("id", Json::text("b")), ("name", Json::text("b"))]))
    );
    assert_eq!(
        end.log.get("detail"),
        Some(&Json::Array(vec![
            object(vec![
                ("name", Json::text("a")),
                ("remaining", Json::Float(double(100.0))),
                ("soonestExpireAt", Json::Int((now + 70 * 3600_000) as i128)),
                ("valid", Json::Bool(true)),
            ]),
            object(vec![
                ("name", Json::text("b")),
                ("remaining", Json::Float(double(50.0))),
                ("soonestExpireAt", Json::Int((now + 3600_000) as i128)),
                ("valid", Json::Bool(true)),
            ]),
        ]))
    );
    assert_eq!((state.last_check, state.last_switch), (now, now));

    let later = now + 119 * 60_000;
    assert_eq!(
        run_rotate_cycle(&state, &config, &candidates, &cli, None, later),
        Decision::Skip("处于切换冷却期".to_string())
    );
    let over = now + 120 * 60_000;
    assert_eq!(
        run_rotate_cycle(&state, &config, &candidates, &cli, None, over),
        Decision::Switch("b".to_string())
    );
}

#[test]
fn a_check_that_stays_or_fails_leaves_the_last_change() {
    let now = 1_700_000_000_000;
    let candidates = vec![cand("b", None, f64::INFINITY, true)];
    let cli = Json::object();
    let mut state = RotateState { last_check: 1, last_switch: 2 };
    let end = finish_cycle(
        &mut state,
        now,
        &candidates,
        &cli,
        Decision::Skip("why".to_string()),
        Ok(Json::Null),
    );
    assert!(!end.switched);
    assert_eq!(
        end.report,
        object(vec![("status", Json::text("skipped")), ("reason", Json::text("why"))])
    );
    assert_eq!(end.log.get("from"), Some(&Json::Null));
    assert_eq!(end.log.get("to"), Some(&Json::Null));
    assert_eq!(end.log.get("reason"), Some(&Json::text("why")));
    assert_eq!(
        end.log.get("detail"),
        Some(&Json::Array(vec![object(vec![
            ("name", Json::text("b")),
            ("remaining", Json::Null),
            ("soonestExpireAt", Json::Null),
            ("valid", Json::Bool(true)),
        ])]))
    );
    assert_eq!((state.last_check, state.last_switch), (now, 2));

    let end = finish_cycle(
        &mut state,
        now + 1,
        &candidates,
        &cli,
        Decision::Switch("b".to_string()),
        Err("disk full".to_string()),
    );
    assert!(!end.switched);
    assert_eq!(
        end.report,
        object(vec![("status", Json::text("error")), ("error", Json::text("disk full"))])
    );
    assert_eq!(end.log.get("action"), Some(&Json::text("error")));
    assert_eq!(end.log.get("reason"), Some(&Json::text("disk full")));
    assert_eq!((state.last_check, state.last_switch), (now + 1, 2));
}

#[test]
fn the_standing_of_the_rotation() {
    let cli = object(vec![("activeAccountId", Json::text("a"))]);
    let state = RotateState { last_check: 5, last_switch: 0 };
    assert_eq!(
        rotate_status(&state, Json::Null, &cli),
        object(vec![
            ("config", Json::Null),
            ("cliConfigured", Json::Bool(false)),
            ("activeAccountId", Json::text("a")),
            ("activeAccountName", Json::Null),
            ("lastCheckAt", Json::Int(5)),
            ("lastSwitchAt", Json::Null),
        ])
    );
}

#[test]
fn the_latest_log_entry_comes_first() {
    let logs = vec![Json::Int(1), Json::Int(2), Json::Int(3)];
    assert_eq!(rotate_logs(&logs), vec![Json::Int(3), Json::Int(2), Json::Int(1)]);
}

#[test]
fn only_session_files_count_as_use() {
    let file = |ext: Option<&str>, ms: Option<i64>| SessionFile {
        extension: ext.map(|e| e.to_string()),
        modified_ms: ms,
    };
    assert_eq!(cli_recent_activity(&Vec::new()), None);
    assert_eq!(
        cli_recent_activity(&vec![
            file(Some("jsonl"), Some(10)),
            file(Some("json"), Some(99)),
            file(None, Some(99)),
            file(Some("jsonl"), None),
            file(Some("jsonl"), Some(30)),
            file(Some("jsonl"), Some(20)),
        ]),
        Some(30)
    );
}
