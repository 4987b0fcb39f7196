//! What the application is told: that the bridge is ready, and how an attempt
//! to switch accounts ended.

use crate::account::{Account, AccountView};
use crate::bridge::BRIDGE_PORTS;
use crate::ids::{hyphenated, id_text};
use crate::json::{member, members_view, object, put, text, Json, JsonView};
use vstd::prelude::*;

verus! {

/// A number that may be missing, as JSON.
pub open spec fn number_or_null(n: Option<i32>) -> JsonView {
    match n {
        Some(n) => JsonView::Integer(n as int),
        None => JsonView::Null,
    }
}

/// Makes JSON of a number that may be missing.
fn number(n: Option<i32>) -> (r: Json)
    ensures
        r@ == number_or_null(n),
{
    match n {
        Some(n) => Json::Signed(n as i64),
        None => Json::Null,
    }
}

/// The report that switching is turned off.
pub open spec fn disabled_report() -> JsonView {
    JsonView::Object(
        seq![
            ("success"@, JsonView::Bool(true)),
            ("enabled"@, JsonView::Bool(false)),
            ("switched"@, JsonView::Bool(false)),
            ("reason"@, JsonView::Text("Auto-switch is disabled"@)),
        ],
    )
}

/// The report that no account is in use.
pub open spec fn no_account_report() -> JsonView {
    JsonView::Object(
        seq![
            ("success"@, JsonView::Bool(true)),
            ("switched"@, JsonView::Bool(false)),
            ("reason"@, JsonView::Text("No active Windsurf account detected"@)),
        ],
    )
}

/// The report that the account in use, with that address, is not a managed
/// one.
pub open spec fn unmanaged_report(email: Seq<char>) -> JsonView {
    JsonView::Object(
        seq![
            ("success"@, JsonView::Bool(true)),
            ("switched"@, JsonView::Bool(false)),
            ("current_email"@, JsonView::Text(email)),
            (
                "reason"@,
                JsonView::Text("The active Windsurf account is not managed by this app"@),
            ),
        ],
    )
}

/// The report that the account in use stays in use, for that reason.
pub open spec fn unchanged_report(
    current: AccountView,
    threshold: i32,
    reason: Seq<char>,
) -> JsonView {
    JsonView::Object(
        seq![
            ("success"@, JsonView::Bool(true)),
            ("switched"@, JsonView::Bool(false)),
            ("current_account_id"@, JsonView::Text(hyphenated(current.id))),
            ("current_email"@, JsonView::Text(current.email)),
            (
                "daily_quota_remaining_percent"@,
                number_or_null(current.daily_quota_remaining_percent),
            ),
            (
                "weekly_quota_remaining_percent"@,
                number_or_null(current.weekly_quota_remaining_percent),
            ),
            ("threshold"@, JsonView::Integer(threshold as int)),
            ("reason"@, JsonView::Text(reason)),
        ],
    )
}

/// Whether the result of a switch tells of success.
pub open spec fn switch_succeeded(switch_result: JsonView) -> bool {
    switch_result.bool_at("success"@) == Some(true)
}

/// The report on a switch from one account to another.
pub open spec fn switch_report(
    current: AccountView,
    target: AccountView,
    threshold: i32,
    client_type: Seq<char>,
    switch_result: JsonView,
) -> JsonView {
    let switched = switch_succeeded(switch_result);
    JsonView::Object(
        seq![
            ("success"@, JsonView::Bool(switched)),
            ("switched"@, JsonView::Bool(switched)),
            ("current_account_id"@, JsonView::Text(hyphenated(current.id))),
            ("current_email"@, JsonView::Text(current.email)),
            ("target_account_id"@, JsonView::Text(hyphenated(target.id))),
            ("target_email"@, JsonView::Text(target.email)),
            (
                "daily_quota_remaining_percent"@,
                number_or_null(current.daily_quota_remaining_percent),
            ),
            (
                "weekly_quota_remaining_percent"@,
                number_or_null(current.weekly_quota_remaining_percent),
            ),
            (
                "target_daily_quota_remaining_percent"@,
                number_or_null(target.daily_quota_remaining_percent),
            ),
            (
                "target_weekly_quota_remaining_percent"@,
                number_or_null(target.weekly_quota_remaining_percent),
            ),
            ("threshold"@, JsonView::Integer(threshold as int)),
            ("client_type"@, JsonView::Text(client_type)),
            (
                "message"@,
                JsonView::Text(
                    if switched {
                        "Auto-switch completed"@
                    } else {
                        "Auto-switch failed"@
                    },
                ),
            ),
            ("switch_result"@, switch_result),
        ],
    )
}

/// Reports that switching is turned off.
pub fn report_disabled() -> (r: Json)
    ensures
        r@ == disabled_report(),
{
    let mut members: Vec<(String, Json)> = Vec::new();
    put(&mut members, "success", Json::Bool(true));
    put(&mut members, "enabled", Json::Bool(false));
    put(&mut members, "switched", Json::Bool(false));
    put(&mut members, "reason", text("Auto-switch is disabled"));
    assert(members_view(members@) =~= disabled_report()->Object_0);
    object(members)
}

/// Reports that no account is in use.
pub fn report_no_account() -> (r: Json)
    ensures
        r@ == no_account_report(),
{
    let mut members: Vec<(String, Json)> = Vec::new();
    put(&mut members, "success", Json::Bool(true));
    put(&mut members, "switched", Json::Bool(false));
    put(&mut members, "reason", text("No active Windsurf account detected"));
    assert(members_view(members@) =~= no_account_report()->Object_0);
    object(members)
}

/// Reports that the account in use is not a managed one.
pub fn report_unmanaged(email: &str) -> (r: Json)
    ensures
        r@ == unmanaged_report(email@),
{
    let mut members: Vec<(String, Json)> = Vec::new();
    put(&mut members, "success", Json::Bool(true));
    put(&mut members, "switched", Json::Bool(false));
    put(&mut members, "current_email", text(email));
    put(
        &mut members,
        "reason",
        text("The active Windsurf account is not managed by this app"),
    );
    assert(members_view(members@) =~= unmanaged_report(email@)->Object_0);
    object(members)
}

/// Reports that the account in use stays in use.
pub fn report_unchanged(current: &Account, threshold: i32, reason: &str) -> (r: Json)
    ensures
        r@ == unchanged_report(current@, threshold, reason@),
{
    let mut members: Vec<(String, Json)> = Vec::new();
    put(&mut members, "success", Json::Bool(true));
    put(&mut members, "switched", Json::Bool(false));
    put(&mut members, "current_account_id", Json::Text(id_text(current.id)));
    put(&mut members, "current_email", text(current.email.as_str()));
    put(
        &mut members,
        "daily_quota_remaining_percent",
        number(current.daily_quota_remaining_percent),
    );
    put(
        &mut members,
        "weekly_quota_remaining_percent",
        number(current.weekly_quota_remaining_percent),
    );
    put(&mut members, "threshold", Json::Signed(threshold as i64));
    put(&mut members, "reason", text(reason));
    assert(members_view(members@) =~= unchanged_report(current@, threshold, reason@)->Object_0);
    object(members)
}

/// Reports on a switch from one account to another.
pub fn report_switch(
    current: &Account,
    target: &Account,
    threshold: i32,
    client_type: &str,
    switch_result: Json,
) -> (r: Json)
    ensures
        r@ == switch_report(current@, target@, threshold, client_type@, switch_result@),
{
    let switched = match switch_result.bool_at("success") {
        Some(b) => b,
        None => false,
    };
    let message = if switched {
        "Auto-switch completed"
    } else {
        "Auto-switch failed"
    };
    let ghost expected = switch_report(
        current@,
        target@,
        threshold,
        client_type@,
        switch_result@,
    )->Object_0;
    let mut members: Vec<(String, Json)> = Vec::new();
    put(&mut members, "success", Json::Bool(switched));
    put(&mut members, "switched", Json::Bool(switched));
    put(&mut members, "current_account_id", Json::Text(id_text(current.id)));
    put(&mut members, "current_email", text(current.email.as_str()));
    put(&mut members, "target_account_id", Json::Text(id_text(target.id)));
    put(&mut members, "target_email", text(target.email.as_str()));
    put(
        &mut members,
        "daily_quota_remaining_percent",
        number(current.daily_quota_remaining_percent),
    );
    put(
        &mut members,
        "weekly_quota_remaining_percent",
        number(current.weekly_quota_remaining_percent),
    );
    put(
        &mut members,
        "target_daily_quota_remaining_percent",
        number(target.daily_quota_remaining_percent),
    );
    put(
        &mut members,
        "target_weekly_quota_remaining_percent",
        number(target.weekly_quota_remaining_percent),
    );
    put(&mut members, "threshold", Json::Signed(threshold as i64));
    put(&mut members, "client_type", text(client_type));
    put(&mut members, "message", text(message));
    put(&mut members, "switch_result", switch_result);
    assert(members_view(members@) =~= expected);
    object(members)
}

/// The numbers as JSON.
pub open spec fn numbers(ns: Seq<u16>) -> Seq<JsonView> {
    ns.map_values(|n: u16| JsonView::Integer(n as int))
}

/// The report that the bridge listens on that port, one of those it tries.
pub open spec fn ready_report(port: u16) -> JsonView {
    JsonView::Object(
        seq![
            ("port"@, JsonView::Integer(port as int)),
            ("ports"@, JsonView::Array(numbers(BRIDGE_PORTS@))),
        ],
    )
}

/// Reports that the bridge listens on that port.
pub fn report_ready(port: u16) -> (r: Json)
    ensures
        r@ == ready_report(port),
{
    let mut ports: Vec<Json> = Vec::new();
    let mut i: usize = 0;
    while i < 5
        invariant
            i <= 5,
            BRIDGE_PORTS@.len() == 5,
            ports@.len() == i,
            forall|j: int|
                0 <= j < i ==> #[trigger] ports@[j]@ == JsonView::Integer(BRIDGE_PORTS@[j] as int),
        decreases 5 - i,
    {
        ports.push(Json::Unsigned(BRIDGE_PORTS[i] as u64));
        i += 1;
    }
    let ghost items = ports@;
    let ports = Json::Array(ports);
    assert(ports@->Array_0 =~= numbers(BRIDGE_PORTS@)) by {
        assert forall|j: int| 0 <= j < 5 implies ports@->Array_0[j] == numbers(BRIDGE_PORTS@)[j] by {
            assert(items[j]@ == JsonView::Integer(BRIDGE_PORTS@[j] as int));
        }
    }
    let mut members: Vec<(String, Json)> = Vec::new();
    put(&mut members, "port", Json::Unsigned(port as u64));
    put(&mut members, "ports", ports);
    assert(members_view(members@) =~= ready_report(port)->Object_0);
    object(members)
}

/// The names of the members that tell of the outcome are all different.
proof fn lemma_outcome_members_differ()
    ensures
        "success"@ != "switched"@,
        "success"@ != "enabled"@,
        "switched"@ != "enabled"@,
{
    reveal_strlit("success");
    reveal_strlit("switched");
    reveal_strlit("enabled");
    assert("success"@.len() == 7 && "success"@[0] == 's');
    assert("switched"@.len() == 8);
    assert("enabled"@.len() == 7 && "enabled"@[0] == 'e');
}

/// Whether a report tells of a success, and whether it tells of a switch.
pub open spec fn outcome_of(report: JsonView) -> (Option<bool>, Option<bool>) {
    (report.bool_at("success"@), report.bool_at("switched"@))
}

/// The report on a switch tells whether it succeeded; any other report tells
/// that nothing went wrong and that no switch was made.
pub proof fn law_reports_tell_the_outcome(
    current: AccountView,
    target: AccountView,
    threshold: i32,
    text: Seq<char>,
    switch_result: JsonView,
)
    ensures
        ({
            let switched = switch_succeeded(switch_result);
            let report = switch_report(current, target, threshold, text, switch_result);
            outcome_of(report) == (Some(switched), Some(switched))
        }),
        outcome_of(unchanged_report(current, threshold, text)) == (Some(true), Some(false)),
        outcome_of(unmanaged_report(text)) == (Some(true), Some(false)),
        outcome_of(no_account_report()) == (Some(true), Some(false)),
        outcome_of(disabled_report()) == (Some(true), Some(false)),
{
    lemma_outcome_members_differ();
    reveal_with_fuel(member, 4);
    let switch = switch_report(current, target, threshold, text, switch_result)->Object_0;
    let unchanged = unchanged_report(current, threshold, text)->Object_0;
    let unmanaged = unmanaged_report(text)->Object_0;
    let no_account = no_account_report()->Object_0;
    let disabled = disabled_report()->Object_0;
    assert(switch.drop_first().first() == switch[1]);
    assert(unchanged.drop_first().first() == unchanged[1]);
    assert(unmanaged.drop_first().first() == unmanaged[1]);
    assert(no_account.drop_first().first() == no_account[1]);
    assert(disabled.drop_first().first() == disabled[1]);
    assert(disabled.drop_first().drop_first().first() == disabled[2]);
}

/// The report that the bridge listens has the port, and all ports that are
/// tried.
pub proof fn law_what_readiness_says(port: u16)
    ensures
        ready_report(port) is Object,
        ready_report(port)->Object_0.len() == 2,
        ready_report(port)->Object_0.contains(("port"@, JsonView::Integer(port as int))),
        ready_report(port)->Object_0.contains(
            (
                "ports"@,
                JsonView::Array(
                    seq![
                        JsonView::Integer(19876),
                        JsonView::Integer(19877),
                        JsonView::Integer(19878),
                        JsonView::Integer(19879),
                        JsonView::Integer(19880),
                    ],
                ),
            ),
        ),
{
    let told = ready_report(port)->Object_0;
    assert(told[0].0 == "port"@);
    assert(numbers(BRIDGE_PORTS@) =~= seq![
        JsonView::Integer(19876),
        JsonView::Integer(19877),
        JsonView::Integer(19878),
        JsonView::Integer(19879),
        JsonView::Integer(19880),
    ]);
    assert(told[1].0 == "ports"@);
}

/// The reports on an attempt that tried no account say why: switching is turned
/// off, no account is in use, or the one in use, by its address, is not a
/// managed one.
pub proof fn law_what_plain_reports_say(email: Seq<char>)
    ensures
        ({
            let off = disabled_report()->Object_0;
            let none = no_account_report()->Object_0;
            let foreign = unmanaged_report(email)->Object_0;
            &&& disabled_report() is Object && no_account_report() is Object && unmanaged_report(
                email,
            ) is Object
            &&& off.len() == 4 && none.len() == 3 && foreign.len() == 4
            &&& off.contains(("success"@, JsonView::Bool(true)))
            &&& off.contains(("enabled"@, JsonView::Bool(false)))
            &&& off.contains(("switched"@, JsonView::Bool(false)))
            &&& off.contains(("reason"@, JsonView::Text("Auto-switch is disabled"@)))
            &&& none.contains(("success"@, JsonView::Bool(true)))
            &&& none.contains(("switched"@, JsonView::Bool(false)))
            &&& none.contains(("reason"@, JsonView::Text("No active Windsurf account detected"@)))
            &&& foreign.contains(("success"@, JsonView::Bool(true)))
            &&& foreign.contains(("switched"@, JsonView::Bool(false)))
            &&& foreign.contains(("current_email"@, JsonView::Text(email)))
            &&& foreign.contains(
                (
                    "reason"@,
                    JsonView::Text("The active Windsurf account is not managed by this app"@),
                ),
            )
        }),
{
    let off = disabled_report()->Object_0;
    let none = no_account_report()->Object_0;
    let foreign = unmanaged_report(email)->Object_0;
    assert(off[0].0 == "success"@ && off[1].0 == "enabled"@ && off[2].0 == "switched"@ && off[3].0
        == "reason"@);
    assert(none[0].0 == "success"@ && none[1].0 == "switched"@ && none[2].0 == "reason"@);
    assert(foreign[0].0 == "success"@ && foreign[1].0 == "switched"@ && foreign[2].0
        == "current_email"@ && foreign[3].0 == "reason"@);
}

/// The report that the account in use stays in use names it, what is left of
/// its quotas as far as that is known, the threshold and the reason.
pub proof fn law_what_an_unchanged_report_says(
    current: AccountView,
    threshold: i32,
    reason: Seq<char>,
)
    ensures
        ({
            let told = unchanged_report(current, threshold, reason)->Object_0;
            let daily = current.daily_quota_remaining_percent;
            let weekly = current.weekly_quota_remaining_percent;
            &&& unchanged_report(current, threshold, reason) is Object
            &&& told.len() == 8
            &&& told.contains(("success"@, JsonView::Bool(true)))
            &&& told.contains(("switched"@, JsonView::Bool(false)))
            &&& told.contains(("current_account_id"@, JsonView::Text(hyphenated(current.id))))
            &&& told.contains(("current_email"@, JsonView::Text(current.email)))
            &&& told.contains(
                (
                    "daily_quota_remaining_percent"@,
                    if daily is Some {
                        JsonView::Integer(daily->0 as int)
                    } else {
                        JsonView::Null
                    },
                ),
            )
            &&& told.contains(
                (
                    "weekly_quota_remaining_percent"@,
                    if weekly is Some {
                        JsonView::Integer(weekly->0 as int)
                    } else {
                        JsonView::Null
                    },
                ),
            )
            &&& told.contains(("threshold"@, JsonView::Integer(threshold as int)))
            &&& told.contains(("reason"@, JsonView::Text(reason)))
        }),
{
    let told = unchanged_report(current, threshold, reason)->Object_0;
    assert(told[0].0 == "success"@ && told[1].0 == "switched"@ && told[2].0
        == "current_account_id"@ && told[3].0 == "current_email"@ && told[4].0
        == "daily_quota_remaining_percent"@ && told[5].0 == "weekly_quota_remaining_percent"@
        && told[6].0 == "threshold"@ && told[7].0 == "reason"@);
}

/// The report on a switch names both accounts, what is left of the quotas of
/// both as far as that is known, the threshold, the kind of client, whether the
/// switch succeeded, and what came of it.
pub proof fn law_what_a_switch_report_says(
    current: AccountView,
    target: AccountView,
    threshold: i32,
    client_type: Seq<char>,
    result: JsonView,
)
    ensures
        ({
            let report = switch_report(current, target, threshold, client_type, result);
            let told = report->Object_0;
            let done = result.get("success"@) == Some(JsonView::Bool(true));
            let daily = current.daily_quota_remaining_percent;
            let weekly = current.weekly_quota_remaining_percent;
            let target_daily = target.daily_quota_remaining_percent;
            let target_weekly = target.weekly_quota_remaining_percent;
            &&& report is Object
            &&& told.len() == 14
            &&& told.contains(("success"@, JsonView::Bool(done)))
            &&& told.contains(("switched"@, JsonView::Bool(done)))
            &&& told.contains(("current_account_id"@, JsonView::Text(hyphenated(current.id))))
            &&& told.contains(("current_email"@, JsonView::Text(current.email)))
            &&& told.contains(("target_account_id"@, JsonView::Text(hyphenated(target.id))))
            &&& told.contains(("target_email"@, JsonView::Text(target.email)))
            &&& told.contains(
                (
                    "daily_quota_remaining_percent"@,
                    if daily is Some {
                        JsonView::Integer(daily->0 as int)
                    } else {
                        JsonView::Null
                    },
                ),
            )
            &&& told.contains(
                (
                    "weekly_quota_remaining_percent"@,
                    if weekly is Some {
                        JsonView::Integer(weekly->0 as int)
                    } else {
                        JsonView::Null
                    },
                ),
            )
            &&& told.contains(
                (
                    "target_daily_quota_remaining_percent"@,
                    if target_daily is Some {
                        JsonView::Integer(target_daily->0 as int)
                    } else {
                        JsonView::Null
                    },
                ),
            )
            &&& told.contains(
                (
                    "target_weekly_quota_remaining_percent"@,
                    if target_weekly is Some {
                        JsonView::Integer(target_weekly->0 as int)
                    } else {
                        JsonView::Null
                    },
                ),
            )
            &&& told.contains(("threshold"@, JsonView::Integer(threshold as int)))
            &&& told.contains(("client_type"@, JsonView::Text(client_type)))
            &&& done ==> told.contains(("message"@, JsonView::Text("Auto-switch completed"@)))
            &&& !done ==> told.contains(("message"@, JsonView::Text("Auto-switch failed"@)))
            &&& told.contains(("switch_result"@, result))
        }),
{
    let told = switch_report(current, target, threshold, client_type, result)->Object_0;
    assert(told[0].0 == "success"@ && told[1].0 == "switched"@ && told[2].0
        == "current_account_id"@ && told[3].0 == "current_email"@ && told[4].0
        == "target_account_id"@ && told[5].0 == "target_email"@ && told[6].0
        == "daily_quota_remaining_percent"@ && told[7].0 == "weekly_quota_remaining_percent"@);
    assert(told[8].0 == "target_daily_quota_remaining_percent"@ && told[9].0
        == "target_weekly_quota_remaining_percent"@ && told[10].0 == "threshold"@ && told[11].0
        == "client_type"@ && told[12].0 == "message"@ && told[13].0 == "switch_result"@);
}

} // verus!
