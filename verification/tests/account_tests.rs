use account_bridge::account::{
    apply_current_user_at, apply_current_user_to_account, has_usable_quota, is_401_result,
    is_quota_exhausted, is_switch_candidate, Account, AccountStatus,
};
use account_bridge::clock::Timestamp;
use account_bridge::json::Json;
use account_bridge::refresh::{fetch_step, FetchStep, Refresh, RefreshEvent, Session};
use account_bridge::switch::{
    clamp_percentage, find_active_email, find_email, AutoSwitch, AutoSwitchEvent, CurrentInfo,
    OperationStatus, OperationType, Settings,
};
use account_bridge::value::Decimal;

const NOW: Timestamp = Timestamp { seconds: 1_700_000_000, nanos: 5 };

fn account(id: u128, email: &str, daily: Option<i32>, weekly: Option<i32>) -> Account {
    Account {
        id,
        email: email.to_string(),
        status: AccountStatus::Sound,
        devin_account: false,
        token: None,
        refresh_token: Some("r".to_string()),
        windsurf_api_key: None,
        plan_name: None,
        is_disabled: None,
        is_team_owner: None,
        subscription_active: None,
        subscription_expires_at: None,
        billing_strategy: None,
        used_quota: None,
        total_quota: None,
        daily_quota_remaining_percent: daily,
        weekly_quota_remaining_percent: weekly,
        last_quota_update: None,
    }
}

fn text(s: &str) -> Json {
    Json::Text(s.to_string())
}

fn object(members: Vec<(&str, Json)>) -> Json {
    Json::Object(members.into_iter().map(|(name, value)| (name.to_string(), value)).collect())
}

fn code(n: i64) -> Json {
    object(vec![("status_code", Json::Signed(n))])
}

#[test]
fn json_members_are_read() {
    let value = object(vec![
        ("flag", Json::Bool(true)),
        ("text", text("t")),
        ("small", Json::Signed(-1)),
        ("large", Json::Unsigned(u64::MAX)),
        ("decimal", Json::Decimal(Decimal::new(serde_json::Value::from(1.5)).unwrap())),
        ("flag", Json::Bool(false)),
        ("null", Json::Null),
    ]);
    assert_eq!(value.bool_at("flag"), Some(true));
    assert_eq!(value.bool_at("text"), None);
    assert_eq!(value.str_at("text"), Some("t"));
    assert_eq!(value.str_at("missing"), None);
    assert_eq!(value.i64_at("small"), Some(-1));
    assert_eq!(value.u64_at("small"), None);
    assert_eq!(value.i64_at("large"), None);
    assert_eq!(value.u64_at("large"), Some(u64::MAX));
    assert_eq!(value.i64_at("decimal"), None);
    assert!(value.get("null").is_some());
    assert!(text("x").get("x").is_none());
    assert!(Json::Array(vec![Json::Null]).get("0").is_none());
    assert!(matches!(value.into_member("text"), Some(Json::Text(s)) if s == "t"));
    assert!(object(vec![]).into_member("text").is_none());
}

#[test]
fn quotas_at_the_threshold_are_exhausted() {
    assert!(is_quota_exhausted(&account(1, "a", Some(10), Some(90)), 10));
    assert!(is_quota_exhausted(&account(1, "a", Some(90), Some(9)), 10));
    assert!(is_quota_exhausted(&account(1, "a", None, Some(0)), 0));
    assert!(!is_quota_exhausted(&account(1, "a", Some(11), Some(11)), 10));
    assert!(!is_quota_exhausted(&account(1, "a", None, None), 100));
}

#[test]
fn a_usable_quota_has_to_be_known() {
    assert!(!has_usable_quota(&account(1, "a", None, None), 0));
    assert!(has_usable_quota(&account(1, "a", Some(11), None), 10));
    assert!(has_usable_quota(&account(1, "a", None, Some(11)), 10));
    assert!(!has_usable_quota(&account(1, "a", Some(11), Some(10)), 10));
    assert!(!has_usable_quota(&account(1, "a", Some(11), None), 11));
}

#[test]
fn accounts_that_can_be_switched_to() {
    assert!(is_switch_candidate(&account(1, "a", None, None)));
    let mut a = account(1, "a", None, None);
    a.status = AccountStatus::Error("e".to_string());
    assert!(!is_switch_candidate(&a));
    let mut a = account(1, "a", None, None);
    a.is_disabled = Some(true);
    assert!(!is_switch_candidate(&a));
    a.is_disabled = Some(false);
    assert!(is_switch_candidate(&a));
    a.subscription_active = Some(false);
    assert!(!is_switch_candidate(&a));
    a.subscription_active = Some(true);
    assert!(is_switch_candidate(&a));
    a.refresh_token = Some(String::new());
    assert!(!is_switch_candidate(&a));
    a.refresh_token = None;
    a.token = Some("t".to_string());
    assert!(!is_switch_candidate(&a));
    a.devin_account = true;
    assert!(is_switch_candidate(&a));
    a.token = Some(String::new());
    assert!(!is_switch_candidate(&a));
}

#[test]
fn unauthorized_replies() {
    assert!(is_401_result(&code(401)));
    assert!(!is_401_result(&code(200)));
    assert!(!is_401_result(&code(-401)));
    assert!(!is_401_result(&object(vec![("status_code", text("401"))])));
    assert!(!is_401_result(&Json::Null));
}

#[test]
fn a_report_is_taken_over() {
    let info = object(vec![
        (
            "user",
            object(vec![("api_key", text("key")), ("disable_codeium", Json::Bool(true))]),
        ),
        (
            "plan",
            object(vec![
                ("plan_name", text("Pro")),
                ("billing_strategy", Json::Signed(0x1_0000_0002)),
            ]),
        ),
        (
            "subscription",
            object(vec![
                ("used_quota", Json::Signed(3_000_000_000)),
                ("quota", Json::Signed(-5)),
                ("expires_at", Json::Signed(1_800_000_000)),
                ("subscription_active", Json::Bool(true)),
            ]),
        ),
        ("is_root_admin", Json::Bool(true)),
    ]);
    let mut a = account(7, "a@b.c", Some(1), None);
    apply_current_user_at(&info, &mut a, NOW);
    assert_eq!(a.windsurf_api_key.as_deref(), Some("key"));
    assert_eq!(a.is_disabled, Some(true));
    assert_eq!(a.plan_name.as_deref(), Some("Pro"));
    assert_eq!(a.billing_strategy, Some(2));
    assert_eq!(a.used_quota, Some(3_000_000_000i64 as i32));
    assert_eq!(a.total_quota, Some(-5));
    assert_eq!(
        a.subscription_expires_at,
        Some(Timestamp { seconds: 1_800_000_000, nanos: 0 })
    );
    assert_eq!(a.subscription_active, Some(true));
    assert_eq!(a.is_team_owner, Some(true));
    assert_eq!(a.last_quota_update, Some(NOW));
    assert_eq!(a.id, 7);
    assert_eq!(a.email, "a@b.c");
    assert_eq!(a.daily_quota_remaining_percent, Some(1));
}

#[test]
fn an_empty_report_takes_team_ownership_away() {
    let mut a = account(7, "a@b.c", Some(1), None);
    a.plan_name = Some("Pro".to_string());
    a.is_team_owner = Some(true);
    a.subscription_expires_at = Some(NOW);
    apply_current_user_at(&Json::Null, &mut a, NOW);
    assert_eq!(a.plan_name.as_deref(), Some("Pro"));
    assert_eq!(a.is_team_owner, Some(false));
    assert_eq!(a.subscription_expires_at, Some(NOW));
    assert_eq!(a.last_quota_update, Some(NOW));
}

fn expiry(seconds: i64) -> Option<Timestamp> {
    let mut a = account(7, "a@b.c", None, None);
    a.subscription_expires_at = Some(NOW);
    let info = object(vec![(
        "subscription",
        object(vec![("expires_at", Json::Signed(seconds))]),
    )]);
    apply_current_user_at(&info, &mut a, NOW);
    a.subscription_expires_at
}

#[test]
fn an_expiry_outside_the_calendar_is_dropped() {
    let first = -8_334_601_228_800i64;
    let last = 8_210_266_876_799i64;
    assert_eq!(expiry(first), Some(Timestamp { seconds: first, nanos: 0 }));
    assert_eq!(expiry(first - 1), None);
    assert_eq!(expiry(last), Some(Timestamp { seconds: last, nanos: 0 }));
    assert_eq!(expiry(last + 1), None);
    assert_eq!(expiry(i64::MIN), None);
    assert_eq!(expiry(i64::MAX), None);
    assert_eq!(expiry(-1), Some(Timestamp { seconds: -1, nanos: 0 }));
    assert_eq!(chrono::DateTime::<chrono::Utc>::MIN_UTC.timestamp(), first);
    assert_eq!(chrono::DateTime::<chrono::Utc>::MAX_UTC.timestamp(), last);
}

#[test]
fn the_clock_dates_a_report() {
    let before = chrono::Utc::now().timestamp();
    let mut a = account(7, "a@b.c", None, None);
    apply_current_user_to_account(&Json::Null, &mut a);
    let after = chrono::Utc::now().timestamp();
    let at = a.last_quota_update.unwrap();
    assert!(before <= at.seconds && at.seconds <= after);
    assert!(at.nanos < 2_000_000_000);
}

#[test]
fn a_copy_of_an_account_is_equal() {
    let mut a = account(7, "a@b.c", Some(1), Some(2));
    a.status = AccountStatus::Error("e".to_string());
    a.token = Some("t".to_string());
    let b = a.clone();
    assert_eq!(b.id, 7);
    assert_eq!(b.email, "a@b.c");
    assert!(matches!(b.status, AccountStatus::Error(s) if s == "e"));
    assert_eq!(b.token.as_deref(), Some("t"));
    assert_eq!(b.weekly_quota_remaining_percent, Some(2));
}

#[test]
fn a_question_is_asked_again_once() {
    assert!(matches!(fetch_step(Ok(code(401)), false), FetchStep::RenewToken));
    assert!(matches!(fetch_step(Ok(code(401)), true), FetchStep::Done(Ok(_))));
    assert!(matches!(fetch_step(Ok(code(200)), false), FetchStep::Done(Ok(_))));
    assert!(matches!(fetch_step(Err("e".to_string()), false), FetchStep::Done(Err(e)) if e == "e"));
}

fn loaded() -> RefreshEvent {
    RefreshEvent::Loaded(Ok(account(1, "a@b.c", Some(50), Some(50))))
}

fn ensured(token: &str) -> RefreshEvent {
    let mut account = account(1, "a@b.c", Some(50), Some(50));
    account.token = Some(token.to_string());
    RefreshEvent::TokenEnsured { account, result: Ok(()) }
}

fn not_ensured(error: &str) -> RefreshEvent {
    let account = account(1, "a@b.c", Some(50), Some(50));
    RefreshEvent::TokenEnsured { account, result: Err(error.to_string()) }
}

fn session() -> Session {
    Session { id: 9, account: account(1, "a@b.c", None, None) }
}

fn asked_with(state: &Refresh) -> Option<String> {
    match state {
        Refresh::EnsureToken { session, .. }
        | Refresh::GetCurrentUser { session, .. }
        | Refresh::RenewTokenForUser { session }
        | Refresh::GetPlanStatus { session, .. }
        | Refresh::RenewTokenForPlan { session, .. } => {
            assert_eq!(session.id, 9);
            session.account.token.clone()
        }
        _ => panic!("no session"),
    }
}

fn plan(success: bool) -> Json {
    object(vec![("success", Json::Bool(success)), ("plan_status", object(vec![]))])
}

#[test]
fn tokens_are_asked_for() {
    let ensure = Refresh::EnsureToken { session: session(), lightweight: true };
    assert_eq!(ensure.token_request(), Some((9, false)));
    let renew = Refresh::RenewTokenForUser { session: session() };
    assert_eq!(renew.token_request(), Some((1, true)));
    let renew = Refresh::RenewTokenForPlan { session: session(), user: None };
    assert_eq!(renew.token_request(), Some((1, true)));
    assert_eq!(Refresh::start(9, true).token_request(), None);
    let ask = Refresh::GetCurrentUser { session: session(), renewed: false };
    assert_eq!(ask.token_request(), None);
}

#[test]
fn a_full_refresh() {
    let state = Refresh::start(9, false).step_at(loaded(), NOW);
    assert!(matches!(state, Refresh::EnsureToken { lightweight: false, .. }));
    assert_eq!(asked_with(&state), None);
    let state = state.step_at(ensured("t1"), NOW);
    assert!(matches!(state, Refresh::GetCurrentUser { renewed: false, .. }));
    assert_eq!(asked_with(&state).as_deref(), Some("t1"));
    let state = state.step_at(RefreshEvent::Replied(Ok(code(401))), NOW);
    assert!(matches!(state, Refresh::RenewTokenForUser { .. }));
    let state = state.step_at(ensured("t2"), NOW);
    assert!(matches!(state, Refresh::GetCurrentUser { renewed: true, .. }));
    assert_eq!(asked_with(&state).as_deref(), Some("t2"));
    let user = object(vec![("user_info", object(vec![("is_root_admin", Json::Bool(true))]))]);
    let state = state.step_at(RefreshEvent::Replied(Ok(user)), NOW);
    assert!(matches!(state, Refresh::GetPlanStatus { user: Some(_), renewed: false, .. }));
    assert_eq!(asked_with(&state).as_deref(), Some("t2"));
    let state = state.step_at(RefreshEvent::Replied(Ok(code(401))), NOW);
    assert!(matches!(state, Refresh::RenewTokenForPlan { user: Some(_), .. }));
    let state = state.step_at(ensured("t3"), NOW);
    assert!(matches!(state, Refresh::GetPlanStatus { user: Some(_), renewed: true, .. }));
    assert_eq!(asked_with(&state).as_deref(), Some("t3"));
    let state = state.step_at(RefreshEvent::Replied(Ok(plan(true))), NOW);
    assert!(matches!(state, Refresh::ReloadAccount { id: 9, .. }));
    let state = state.step_at(loaded(), NOW);
    let reported = match &state {
        Refresh::ApplyPlanStatus { account, .. } => account.clone(),
        _ => panic!("nothing to apply"),
    };
    assert_eq!(reported.is_team_owner, Some(true));
    assert_eq!(reported.last_quota_update, Some(NOW));
    assert_eq!(reported.token, None);
    let state = state.step_at(RefreshEvent::PlanApplied(reported), NOW);
    assert!(matches!(state, Refresh::SaveAccount { .. }));
    match state.step_at(RefreshEvent::Saved(Ok(())), NOW) {
        Refresh::Finished(Ok(saved)) => assert_eq!(saved.is_team_owner, Some(true)),
        _ => panic!("not finished"),
    }
}

#[test]
fn a_lightweight_refresh_skips_the_user() {
    let state = Refresh::start(9, true).step(loaded()).step(ensured("t"));
    assert!(matches!(state, Refresh::GetPlanStatus { user: None, renewed: false, .. }));
    let state = state.step(RefreshEvent::Replied(Ok(object(vec![("success", Json::Bool(true))]))));
    match state.step(loaded()) {
        Refresh::SaveAccount { account } => {
            assert_eq!(account.is_team_owner, None);
            assert_eq!(account.last_quota_update, None);
        }
        _ => panic!("nothing to save"),
    }
}

#[test]
fn a_missing_user_is_no_failure() {
    let failures = [
        Refresh::GetCurrentUser { session: session(), renewed: false }
            .step(RefreshEvent::Replied(Err("e".to_string()))),
        Refresh::RenewTokenForUser { session: session() }.step(not_ensured("e")),
    ];
    for state in failures {
        assert!(matches!(state, Refresh::GetPlanStatus { user: None, renewed: false, .. }));
    }
    let state = Refresh::GetCurrentUser { session: session(), renewed: true };
    let state = state.step(RefreshEvent::Replied(Ok(code(401))));
    assert!(matches!(state, Refresh::GetPlanStatus { user: Some(_), renewed: false, .. }));
}

#[test]
fn a_refresh_without_a_report_is_as_a_lightweight_one() {
    let bare = || RefreshEvent::Replied(Ok(object(vec![("other", Json::Null)])));
    let starts = [
        Refresh::EnsureToken { session: session(), lightweight: true }.step_at(ensured("t"), NOW),
        Refresh::GetCurrentUser { session: session(), renewed: false }
            .step_at(RefreshEvent::Replied(Err("e".to_string())), NOW),
        Refresh::GetCurrentUser { session: session(), renewed: true }.step_at(bare(), NOW),
        Refresh::RenewTokenForUser { session: session() }.step_at(not_ensured("e"), NOW),
    ];
    for state in starts {
        let success = object(vec![("success", Json::Bool(true))]);
        let state = state.step_at(RefreshEvent::Replied(Ok(success)), NOW).step_at(loaded(), NOW);
        match state.step_at(RefreshEvent::Saved(Ok(())), NOW) {
            Refresh::Finished(Ok(saved)) => {
                assert_eq!(saved.id, 1);
                assert_eq!(saved.is_team_owner, None);
                assert_eq!(saved.last_quota_update, None);
                assert_eq!(saved.token, None);
            }
            _ => panic!("not finished"),
        }
    }
}

fn refresh_error(state: Refresh) -> String {
    match state {
        Refresh::Finished(Err(error)) => error,
        _ => panic!("no error"),
    }
}

#[test]
fn failures_of_a_refresh() {
    let bad = || "bad".to_string();
    let state = Refresh::start(9, true);
    assert_eq!(refresh_error(state.step(RefreshEvent::Loaded(Err(bad())))), "bad");
    let state = Refresh::EnsureToken { session: session(), lightweight: true };
    assert_eq!(refresh_error(state.step(not_ensured("bad"))), "bad");
    let state = Refresh::GetPlanStatus { session: session(), user: None, renewed: false };
    assert_eq!(refresh_error(state.step(RefreshEvent::Replied(Err(bad())))), "bad");
    let state = Refresh::RenewTokenForPlan { session: session(), user: None };
    assert_eq!(refresh_error(state.step(not_ensured("bad"))), "bad");
    let state = Refresh::ReloadAccount { id: 9, user: None, plan: plan(true) };
    assert_eq!(refresh_error(state.step(RefreshEvent::Loaded(Err(bad())))), "bad");
    let state = Refresh::ReloadAccount { id: 9, user: None, plan: plan(false) };
    assert_eq!(refresh_error(state.step(loaded())), "Failed to refresh quota");
    let refused = object(vec![("error", text("quota service down"))]);
    let state = Refresh::ReloadAccount { id: 9, user: None, plan: refused };
    assert_eq!(refresh_error(state.step(loaded())), "quota service down");
    let state = Refresh::SaveAccount { account: account(1, "a", None, None) };
    assert_eq!(refresh_error(state.step(RefreshEvent::Saved(Err(bad())))), "bad");
}

#[test]
fn a_refresh_heeds_only_what_it_expects() {
    let state = Refresh::start(9, true).step(RefreshEvent::Saved(Ok(())));
    assert!(matches!(state, Refresh::LoadAccount { id: 9, lightweight: true }));
}

#[test]
fn thresholds_are_percentages() {
    assert_eq!(clamp_percentage(-1), 0);
    assert_eq!(clamp_percentage(0), 0);
    assert_eq!(clamp_percentage(55), 55);
    assert_eq!(clamp_percentage(100), 100);
    assert_eq!(clamp_percentage(i32::MAX), 100);
}

#[test]
fn the_address_in_use() {
    assert_eq!(find_active_email(&None), None);
    assert_eq!(find_active_email(&Some(" \t".to_string())), None);
    assert_eq!(find_active_email(&Some(" a@b.c\n".to_string())).as_deref(), Some("a@b.c"));
    let accounts = vec![
        account(1, "x@b.c", None, None),
        account(2, "A@B.C", None, None),
        account(3, "a@b.c", None, None),
    ];
    assert_eq!(find_email(&accounts, "a@b.c"), Some(1));
    assert_eq!(find_email(&accounts, "none"), None);
}

fn settings(enabled: bool, threshold: i32) -> AutoSwitchEvent {
    AutoSwitchEvent::SettingsLoaded(Ok(Settings {
        auto_switch_account_enabled: enabled,
        auto_switch_quota_threshold: threshold,
        use_lightweight_api: true,
    }))
}

fn info(email: Option<&str>) -> AutoSwitchEvent {
    AutoSwitchEvent::CurrentInfoRead(Ok(CurrentInfo {
        email: email.map(|e| e.to_string()),
        client_type: "windsurf".to_string(),
    }))
}

fn finished(state: AutoSwitch) -> Json {
    match state {
        AutoSwitch::Finished(Ok(report)) => report,
        _ => panic!("not finished"),
    }
}

fn switch_error(state: AutoSwitch) -> String {
    match state {
        AutoSwitch::Finished(Err(error)) => error,
        _ => panic!("no error"),
    }
}

fn names(report: &Json) -> Vec<String> {
    match report {
        Json::Object(members) => members.iter().map(|m| m.0.clone()).collect(),
        _ => panic!("no object"),
    }
}

fn at_current(accounts: Vec<Account>) -> AutoSwitch {
    AutoSwitch::start()
        .step(settings(true, 10))
        .step(info(Some(" B@x.y ")))
        .step(AutoSwitchEvent::AccountsLoaded(Ok(accounts)))
}

fn four() -> Vec<Account> {
    vec![
        account(1, "a@x.y", None, None),
        account(2, "b@x.y", None, None),
        account(3, "c@x.y", None, None),
        account(4, "d@x.y", None, None),
    ]
}

fn standing_at(state: &AutoSwitch) -> u128 {
    match state {
        AutoSwitch::RefreshCurrent(search) => search.account_id(),
        AutoSwitch::RefreshCandidate { search, .. } => search.account_id(),
        _ => panic!("no search"),
    }
}

fn refreshed(id: u128, email: &str, daily: i32) -> AutoSwitchEvent {
    AutoSwitchEvent::Refreshed(Ok(account(id, email, Some(daily), None)))
}

#[test]
fn switching_that_is_turned_off() {
    let report = finished(AutoSwitch::start().step(settings(false, 10)));
    assert_eq!(names(&report), ["success", "enabled", "switched", "reason"]);
    assert_eq!(report.bool_at("success"), Some(true));
    assert_eq!(report.bool_at("enabled"), Some(false));
    assert_eq!(report.bool_at("switched"), Some(false));
    assert_eq!(report.str_at("reason"), Some("Auto-switch is disabled"));
}

#[test]
fn no_account_in_use() {
    for email in [None, Some("  ")] {
        let report = finished(AutoSwitch::start().step(settings(true, 10)).step(info(email)));
        assert_eq!(names(&report), ["success", "switched", "reason"]);
        assert_eq!(report.str_at("reason"), Some("No active Windsurf account detected"));
    }
}

#[test]
fn an_account_that_is_not_managed() {
    let report = finished(at_current(vec![account(1, "z@x.y", None, None)]));
    assert_eq!(names(&report), ["success", "switched", "current_email", "reason"]);
    assert_eq!(report.str_at("current_email"), Some("B@x.y"));
    assert_eq!(
        report.str_at("reason"),
        Some("The active Windsurf account is not managed by this app")
    );
}

#[test]
fn an_account_that_stays_in_use() {
    let state = at_current(four());
    assert_eq!(standing_at(&state), 2);
    assert_eq!(state.refresh_request(), Some((2, true)));
    assert!(state.switch_request().is_none());
    let report = finished(state.step(refreshed(2, "b@x.y", 11)));
    assert_eq!(
        names(&report),
        [
            "success", "switched", "current_account_id", "current_email",
            "daily_quota_remaining_percent", "weekly_quota_remaining_percent", "threshold",
            "reason"
        ]
    );
    assert_eq!(report.bool_at("switched"), Some(false));
    assert_eq!(
        report.str_at("current_account_id"),
        Some("00000000-0000-0000-0000-000000000002")
    );
    assert_eq!(report.i64_at("daily_quota_remaining_percent"), Some(11));
    assert!(matches!(report.get("weekly_quota_remaining_percent"), Some(Json::Null)));
    assert_eq!(report.i64_at("threshold"), Some(10));
    assert_eq!(
        report.str_at("reason"),
        Some("Current account quota is still above the threshold")
    );
}

#[test]
fn candidates_are_tried_in_a_ring() {
    let state = at_current(four()).step(refreshed(2, "b@x.y", 10));
    assert_eq!(standing_at(&state), 3);
    let state = state.step(AutoSwitchEvent::Refreshed(Err("down".to_string())));
    assert_eq!(standing_at(&state), 4);
    let state = state.step(refreshed(4, "d@x.y", 10));
    assert_eq!(standing_at(&state), 1);
    let report = finished(state.step(AutoSwitchEvent::Refreshed(Ok(account(1, "a", None, None)))));
    assert_eq!(report.bool_at("switched"), Some(false));
    assert_eq!(
        report.str_at("reason"),
        Some("No available account with enough daily and weekly quota was found")
    );
}

#[test]
fn accounts_that_cannot_take_over_are_passed_over() {
    let mut accounts = four();
    accounts[2].is_disabled = Some(true);
    accounts[3].id = 2;
    let state = at_current(accounts).step(refreshed(2, "b@x.y", 0));
    assert_eq!(standing_at(&state), 1);
    let state = at_current(vec![account(2, "b@x.y", None, None)]).step(refreshed(2, "b@x.y", 0));
    assert_eq!(finished(state).bool_at("switched"), Some(false));
}

#[test]
fn a_switch_is_made_and_recorded() {
    let id = 0xa1a2a3a4_b1b2_c1c2_d1d2_d3d4d5d6d7d8u128;
    let state = at_current(four()).step(refreshed(2, "b@x.y", 5));
    let state = state.step(refreshed(id, "c@x.y", 80));
    match &state {
        AutoSwitch::SwitchAccount { search, current, target } => {
            assert!(search.lightweight());
            assert_eq!(search.account_email(), "c@x.y");
            assert_eq!(current.id, 2);
            assert_eq!(target.id, id);
        }
        _ => panic!("no switch"),
    }
    let (target, client_type) = state.switch_request().unwrap();
    assert_eq!(target, "a1a2a3a4-b1b2-c1c2-d1d2-d3d4d5d6d7d8");
    assert_eq!(client_type.as_deref(), Some("windsurf"));
    assert_eq!(state.refresh_request(), None);
    let state = state.step(AutoSwitchEvent::Switched(Ok(object(vec![(
        "success",
        Json::Bool(true),
    )]))));
    match &state {
        AutoSwitch::RecordSwitch { entry, .. } => {
            assert_eq!(entry.operation_type, OperationType::SwitchAccount);
            assert_eq!(entry.status, OperationStatus::Success);
            assert_eq!(entry.message, "Auto-switch account: b@x.y -> c@x.y");
            assert_eq!(entry.account_id, id);
            assert_eq!(entry.account_email, "c@x.y");
        }
        _ => panic!("nothing to record"),
    }
    let report = finished(state.step(AutoSwitchEvent::Recorded));
    assert_eq!(
        names(&report),
        [
            "success", "switched", "current_account_id", "current_email", "target_account_id",
            "target_email", "daily_quota_remaining_percent", "weekly_quota_remaining_percent",
            "target_daily_quota_remaining_percent", "target_weekly_quota_remaining_percent",
            "threshold", "client_type", "message", "switch_result"
        ]
    );
    assert_eq!(report.bool_at("success"), Some(true));
    assert_eq!(report.bool_at("switched"), Some(true));
    assert_eq!(
        report.str_at("target_account_id"),
        Some("a1a2a3a4-b1b2-c1c2-d1d2-d3d4d5d6d7d8")
    );
    assert_eq!(report.str_at("target_email"), Some("c@x.y"));
    assert_eq!(report.i64_at("target_daily_quota_remaining_percent"), Some(80));
    assert_eq!(report.str_at("client_type"), Some("windsurf"));
    assert_eq!(report.str_at("message"), Some("Auto-switch completed"));
    assert_eq!(report.get("switch_result").unwrap().bool_at("success"), Some(true));
}

#[test]
fn a_switch_that_is_refused_is_not_recorded() {
    let state = at_current(four()).step(refreshed(2, "b@x.y", 5)).step(refreshed(3, "c@x.y", 80));
    let report = finished(state.step(AutoSwitchEvent::Switched(Ok(object(vec![])))));
    assert_eq!(report.bool_at("success"), Some(false));
    assert_eq!(report.bool_at("switched"), Some(false));
    assert_eq!(report.str_at("message"), Some("Auto-switch failed"));
}

#[test]
fn failures_of_an_attempt() {
    let bad = || "bad".to_string();
    let start = AutoSwitch::start;
    assert_eq!(switch_error(start().step(AutoSwitchEvent::SettingsLoaded(Err(bad())))), "bad");
    let state = start().step(settings(true, 10));
    assert_eq!(switch_error(state.step(AutoSwitchEvent::CurrentInfoRead(Err(bad())))), "bad");
    let state = start().step(settings(true, 10)).step(info(Some("b@x.y")));
    assert_eq!(switch_error(state.step(AutoSwitchEvent::AccountsLoaded(Err(bad())))), "bad");
    let state = at_current(four());
    assert_eq!(switch_error(state.step(AutoSwitchEvent::Refreshed(Err(bad())))), "bad");
    let state = at_current(four()).step(refreshed(2, "b@x.y", 5)).step(refreshed(3, "c@x.y", 80));
    assert_eq!(switch_error(state.step(AutoSwitchEvent::Switched(Err(bad())))), "bad");
}

#[test]
fn an_attempt_heeds_only_what_it_expects() {
    let state = AutoSwitch::start().step(AutoSwitchEvent::Recorded);
    assert!(matches!(state, AutoSwitch::LoadSettings));
}
