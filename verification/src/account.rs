//! Managed accounts: what their quotas allow and what the services report of
//! them.

use crate::clock::{current_time, in_calendar, on_a_clock, time_from_timestamp, Timestamp};
use crate::json::{Json, JsonView};
use crate::views::{copy_string, string_view};
use vstd::prelude::*;

verus! {

/// What is known of the state of an account.
pub enum AccountStatus {
    /// The last operation on the account failed, with this message.
    Error(String),
    /// Any other state.
    Sound,
}

/// An account, as far as quotas and switching are concerned.
pub struct Account {
    pub id: u128,
    pub email: String,
    pub status: AccountStatus,
    pub devin_account: bool,
    pub token: Option<String>,
    pub refresh_token: Option<String>,
    pub windsurf_api_key: Option<String>,
    pub plan_name: Option<String>,
    pub is_disabled: Option<bool>,
    pub is_team_owner: Option<bool>,
    pub subscription_active: Option<bool>,
    pub subscription_expires_at: Option<Timestamp>,
    pub billing_strategy: Option<i32>,
    pub used_quota: Option<i32>,
    pub total_quota: Option<i32>,
    pub daily_quota_remaining_percent: Option<i32>,
    pub weekly_quota_remaining_percent: Option<i32>,
    pub last_quota_update: Option<Timestamp>,
}

/// The view of an account's state.
pub enum StatusView {
    Error(Seq<char>),
    Sound,
}

/// The view of an account.
pub struct AccountView {
    pub id: u128,
    pub email: Seq<char>,
    pub status: StatusView,
    pub devin_account: bool,
    pub token: Option<Seq<char>>,
    pub refresh_token: Option<Seq<char>>,
    pub windsurf_api_key: Option<Seq<char>>,
    pub plan_name: Option<Seq<char>>,
    pub is_disabled: Option<bool>,
    pub is_team_owner: Option<bool>,
    pub subscription_active: Option<bool>,
    pub subscription_expires_at: Option<Timestamp>,
    pub billing_strategy: Option<i32>,
    pub used_quota: Option<i32>,
    pub total_quota: Option<i32>,
    pub daily_quota_remaining_percent: Option<i32>,
    pub weekly_quota_remaining_percent: Option<i32>,
    pub last_quota_update: Option<Timestamp>,
}

impl View for AccountStatus {
    type V = StatusView;

    open spec fn view(&self) -> StatusView {
        match self {
            AccountStatus::Error(s) => StatusView::Error(s@),
            AccountStatus::Sound => StatusView::Sound,
        }
    }
}

impl View for Account {
    type V = AccountView;

    open spec fn view(&self) -> AccountView {
        AccountView {
            id: self.id,
            email: self.email@,
            status: self.status@,
            devin_account: self.devin_account,
            token: string_view(self.token),
            refresh_token: string_view(self.refresh_token),
            windsurf_api_key: string_view(self.windsurf_api_key),
            plan_name: string_view(self.plan_name),
            is_disabled: self.is_disabled,
            is_team_owner: self.is_team_owner,
            subscription_active: self.subscription_active,
            subscription_expires_at: self.subscription_expires_at,
            billing_strategy: self.billing_strategy,
            used_quota: self.used_quota,
            total_quota: self.total_quota,
            daily_quota_remaining_percent: self.daily_quota_remaining_percent,
            weekly_quota_remaining_percent: self.weekly_quota_remaining_percent,
            last_quota_update: self.last_quota_update,
        }
    }
}

impl Clone for Account {
    fn clone(&self) -> (r: Self)
        ensures
            r@ == self@,
    {
        Account {
            id: self.id,
            email: self.email.clone(),
            status: match &self.status {
                AccountStatus::Error(s) => AccountStatus::Error(s.clone()),
                AccountStatus::Sound => AccountStatus::Sound,
            },
            devin_account: self.devin_account,
            token: copy_string(&self.token),
            refresh_token: copy_string(&self.refresh_token),
            windsurf_api_key: copy_string(&self.windsurf_api_key),
            plan_name: copy_string(&self.plan_name),
            is_disabled: self.is_disabled,
            is_team_owner: self.is_team_owner,
            subscription_active: self.subscription_active,
            subscription_expires_at: self.subscription_expires_at,
            billing_strategy: self.billing_strategy,
            used_quota: self.used_quota,
            total_quota: self.total_quota,
            daily_quota_remaining_percent: self.daily_quota_remaining_percent,
            weekly_quota_remaining_percent: self.weekly_quota_remaining_percent,
            last_quota_update: self.last_quota_update,
        }
    }
}

/// Whether a reported quota is at or below the threshold. One that was not
/// reported is not.
pub open spec fn spent(remaining: Option<i32>, threshold: i32) -> bool {
    remaining matches Some(value) && value <= threshold
}

impl AccountView {
    /// Whether the daily or the weekly quota is at or below the threshold.
    pub open spec fn quota_exhausted(self, threshold: i32) -> bool {
        spent(self.daily_quota_remaining_percent, threshold) || spent(
            self.weekly_quota_remaining_percent,
            threshold,
        )
    }

    /// Whether a quota was reported and none that was is exhausted.
    pub open spec fn usable_quota(self, threshold: i32) -> bool {
        &&& self.daily_quota_remaining_percent is Some || self.weekly_quota_remaining_percent is Some
        &&& !self.quota_exhausted(threshold)
    }

    /// The credential that switching to the account needs.
    pub open spec fn credential(self) -> Option<Seq<char>> {
        if self.devin_account {
            self.token
        } else {
            self.refresh_token
        }
    }

    /// Whether the account can be switched to: it is in no error, not disabled,
    /// not known to be without a subscription, and has a credential that is not
    /// empty.
    pub open spec fn switch_candidate(self) -> bool {
        &&& !(self.status is Error)
        &&& self.is_disabled != Some(true)
        &&& self.subscription_active != Some(false)
        &&& self.credential() matches Some(c) && c.len() > 0
    }
}

/// Whether a quota of the account is at or below the threshold.
pub fn is_quota_exhausted(account: &Account, threshold: i32) -> (r: bool)
    ensures
        r == account@.quota_exhausted(threshold),
{
    let daily = match account.daily_quota_remaining_percent {
        Some(value) => value <= threshold,
        None => false,
    };
    let weekly = match account.weekly_quota_remaining_percent {
        Some(value) => value <= threshold,
        None => false,
    };
    daily || weekly
}

/// Whether the account's quotas are known to allow its use.
pub fn has_usable_quota(account: &Account, threshold: i32) -> (r: bool)
    ensures
        r == account@.usable_quota(threshold),
{
    let has_quota_data = account.daily_quota_remaining_percent.is_some()
        || account.weekly_quota_remaining_percent.is_some();
    has_quota_data && !is_quota_exhausted(account, threshold)
}

/// Whether a credential is there and not empty.
fn is_filled(credential: &Option<String>) -> (r: bool)
    ensures
        r == (string_view(*credential) matches Some(c) && c.len() > 0),
{
    match credential {
        Some(value) => !value.as_str().is_empty(),
        None => false,
    }
}

/// Whether the account can be switched to.
pub fn is_switch_candidate(account: &Account) -> (r: bool)
    ensures
        r == account@.switch_candidate(),
{
    if let AccountStatus::Error(_) = &account.status {
        return false;
    }
    if let Some(true) = account.is_disabled {
        return false;
    }
    if let Some(false) = account.subscription_active {
        return false;
    }
    if account.devin_account {
        return is_filled(&account.token);
    }
    is_filled(&account.refresh_token)
}

/// Whether a reply says that the request was not authorized.
pub open spec fn unauthorized(result: JsonView) -> bool {
    result.u64_at("status_code"@) == Some(401u64)
}

/// Whether a reply says that the request was not authorized.
pub fn is_401_result(result: &Json) -> (r: bool)
    ensures
        r == unauthorized(result@),
{
    match result.u64_at("status_code") {
        Some(code) => code == 401,
        None => false,
    }
}

/// The number that the last 32 bits of `n` stand for.
pub open spec fn low_32_bits(n: i64) -> int {
    (n + 0x8000_0000) % 0x1_0000_0000 - 0x8000_0000
}

/// Cuts a number down to its last 32 bits.
fn to_i32(n: i64) -> (r: i32)
    ensures
        r == low_32_bits(n),
{
    assert((n as i32) as i64 == (n + 0x8000_0000) % 0x1_0000_0000 - 0x8000_0000) by (bit_vector);
    #[verifier::truncate]
    (n as i32)
}

/// The new value where there is one, else the old one.
pub open spec fn updated<T>(old_value: Option<T>, new_value: Option<T>) -> Option<T> {
    match new_value {
        Some(v) => Some(v),
        None => old_value,
    }
}

/// The last 32 bits of a number that may be missing.
pub open spec fn low_bits(n: Option<i64>) -> Option<i32> {
    match n {
        Some(n) => Some(low_32_bits(n) as i32),
        None => None,
    }
}

/// The member of `v` of that name, or a value without members.
pub open spec fn part(v: JsonView, name: Seq<char>) -> JsonView {
    match v.get(name) {
        Some(m) => m,
        None => JsonView::Null,
    }
}

impl AccountView {
    /// The account after a report on its user has been taken over at `now`.
    /// What the report leaves out stays as it was, but for the team ownership,
    /// which only the report can grant.
    pub open spec fn with_current_user(self, info: JsonView, now: Timestamp) -> AccountView {
        let user = part(info, "user"@);
        let plan = part(info, "plan"@);
        let subscription = part(info, "subscription"@);
        AccountView {
            windsurf_api_key: updated(self.windsurf_api_key, user.str_at("api_key"@)),
            is_disabled: updated(self.is_disabled, user.bool_at("disable_codeium"@)),
            plan_name: updated(self.plan_name, plan.str_at("plan_name"@)),
            billing_strategy: updated(
                self.billing_strategy,
                low_bits(plan.i64_at("billing_strategy"@)),
            ),
            used_quota: updated(self.used_quota, low_bits(subscription.i64_at("used_quota"@))),
            total_quota: updated(self.total_quota, low_bits(subscription.i64_at("quota"@))),
            subscription_expires_at: match subscription.i64_at("expires_at"@) {
                Some(seconds) => if in_calendar(seconds) {
                    Some(Timestamp { seconds, nanos: 0 })
                } else {
                    None
                },
                None => self.subscription_expires_at,
            },
            subscription_active: updated(
                self.subscription_active,
                subscription.bool_at("subscription_active"@),
            ),
            is_team_owner: Some(info.bool_at("is_root_admin"@) == Some(true)),
            last_quota_update: Some(now),
            ..self
        }
    }
}

/// Takes a report on the account's user over into the account, at the time
/// `now`.
pub fn apply_current_user_at(user_info: &Json, account: &mut Account, now: Timestamp)
    ensures
        final(account)@ == old(account)@.with_current_user(user_info@, now),
{
    if let Some(user) = user_info.get("user") {
        if let Some(api_key) = user.str_at("api_key") {
            account.windsurf_api_key = Some(api_key.to_owned());
        }
        if let Some(disable_codeium) = user.bool_at("disable_codeium") {
            account.is_disabled = Some(disable_codeium);
        }
    }
    if let Some(plan) = user_info.get("plan") {
        if let Some(plan_name) = plan.str_at("plan_name") {
            account.plan_name = Some(plan_name.to_owned());
        }
        if let Some(billing_strategy) = plan.i64_at("billing_strategy") {
            account.billing_strategy = Some(to_i32(billing_strategy));
        }
    }
    if let Some(subscription) = user_info.get("subscription") {
        if let Some(used_quota) = subscription.i64_at("used_quota") {
            account.used_quota = Some(to_i32(used_quota));
        }
        if let Some(total_quota) = subscription.i64_at("quota") {
            account.total_quota = Some(to_i32(total_quota));
        }
        if let Some(expires_at) = subscription.i64_at("expires_at") {
            account.subscription_expires_at = time_from_timestamp(expires_at, 0);
        }
        if let Some(subscription_active) = subscription.bool_at("subscription_active") {
            account.subscription_active = Some(subscription_active);
        }
    }
    let is_root_admin = match user_info.bool_at("is_root_admin") {
        Some(value) => value,
        None => false,
    };
    account.is_team_owner = Some(is_root_admin);
    account.last_quota_update = Some(now);
}

/// Takes a report on the account's user over into the account, at the time
/// that the clock shows.
pub fn apply_current_user_to_account(user_info: &Json, account: &mut Account)
    ensures
        exists|now: Timestamp|
            on_a_clock(now) && final(account)@ == #[trigger] old(account)@.with_current_user(
                user_info@,
                now,
            ),
{
    let now = current_time();
    apply_current_user_at(user_info, account, now);
}

/// An account with a usable quota is not exhausted, and one of which no quota
/// is known is neither.
pub proof fn law_usable_is_not_exhausted(account: AccountView, threshold: i32)
    ensures
        account.usable_quota(threshold) ==> !account.quota_exhausted(threshold),
        account.daily_quota_remaining_percent is None && account.weekly_quota_remaining_percent
            is None ==> !account.usable_quota(threshold) && !account.quota_exhausted(threshold),
{
}

/// A higher threshold exhausts more accounts and leaves fewer usable.
pub proof fn law_higher_threshold_is_stricter(account: AccountView, low: i32, high: i32)
    requires
        low <= high,
    ensures
        account.quota_exhausted(low) ==> account.quota_exhausted(high),
        account.usable_quota(high) ==> account.usable_quota(low),
{
}

/// A report on the user leaves alone who the account is, its state, its
/// credentials and its remaining quotas.
pub proof fn law_report_keeps_identity(account: AccountView, info: JsonView, now: Timestamp)
    ensures
        ({
            let next = account.with_current_user(info, now);
            &&& next.id == account.id
            &&& next.email == account.email
            &&& next.status == account.status
            &&& next.devin_account == account.devin_account
            &&& next.token == account.token
            &&& next.refresh_token == account.refresh_token
            &&& next.daily_quota_remaining_percent == account.daily_quota_remaining_percent
            &&& next.weekly_quota_remaining_percent == account.weekly_quota_remaining_percent
        }),
{
}

/// To take the same report over twice is to take it over once, at the later
/// time.
pub proof fn law_report_twice(
    account: AccountView,
    info: JsonView,
    first: Timestamp,
    second: Timestamp,
)
    ensures
        account.with_current_user(info, first).with_current_user(info, second)
            == account.with_current_user(info, second),
{
}

/// A report in which nothing is found changes only the team ownership and the
/// time of the last update.
pub proof fn law_empty_report(account: AccountView, info: JsonView, now: Timestamp)
    requires
        info.get("user"@) is None,
        info.get("plan"@) is None,
        info.get("subscription"@) is None,
        info.get("is_root_admin"@) is None,
    ensures
        account.with_current_user(info, now) == (AccountView {
            is_team_owner: Some(false),
            last_quota_update: Some(now),
            ..account
        }),
{
}

/// A number that an `i32` can hold is not changed by cutting it down.
pub proof fn law_small_numbers_are_kept(n: i64)
    requires
        i32::MIN <= n <= i32::MAX,
    ensures
        low_32_bits(n) == n,
{
}

/// Either quota exhausts an account, whatever the other one is: one that is
/// reported and at or below the threshold is enough, and where neither is so
/// the account is not exhausted.
pub proof fn law_either_quota_exhausts(account: AccountView, threshold: i32)
    ensures
        account.daily_quota_remaining_percent is Some
            && account.daily_quota_remaining_percent->0 <= threshold ==> account.quota_exhausted(
            threshold,
        ),
        account.weekly_quota_remaining_percent is Some
            && account.weekly_quota_remaining_percent->0 <= threshold ==> account.quota_exhausted(
            threshold,
        ),
        account.quota_exhausted(threshold) ==> {
            ||| account.daily_quota_remaining_percent is Some
                && account.daily_quota_remaining_percent->0 <= threshold
            ||| account.weekly_quota_remaining_percent is Some
                && account.weekly_quota_remaining_percent->0 <= threshold
        },
{
}

/// A quota is usable exactly where one is reported and each that is reported is
/// above the threshold.
pub proof fn law_every_reported_quota_counts(account: AccountView, threshold: i32)
    ensures
        account.usable_quota(threshold) <==> {
            &&& account.daily_quota_remaining_percent is Some
                || account.weekly_quota_remaining_percent is Some
            &&& account.daily_quota_remaining_percent is Some
                ==> account.daily_quota_remaining_percent->0 > threshold
            &&& account.weekly_quota_remaining_percent is Some
                ==> account.weekly_quota_remaining_percent->0 > threshold
        },
{
}

/// An account can be switched to exactly where it is in no error, is not
/// disabled, is not known to be without a subscription, and has the token that
/// its kind needs: a Devin account its token, any other its refresh token.
pub proof fn law_who_can_be_switched_to(account: AccountView)
    ensures
        account.status is Error ==> !account.switch_candidate(),
        account.is_disabled == Some(true) ==> !account.switch_candidate(),
        account.subscription_active == Some(false) ==> !account.switch_candidate(),
        account.devin_account && (account.token is None || account.token->0.len() == 0)
            ==> !account.switch_candidate(),
        !account.devin_account && (account.refresh_token is None || account.refresh_token->0.len()
            == 0) ==> !account.switch_candidate(),
        account.status is Sound && account.is_disabled != Some(true) && account.subscription_active
            != Some(false) && (if account.devin_account {
            account.token is Some && account.token->0.len() > 0
        } else {
            account.refresh_token is Some && account.refresh_token->0.len() > 0
        }) ==> account.switch_candidate(),
{
}

/// A reply says that a question was not authorized exactly where its status
/// code is the number 401.
pub proof fn law_unauthorized_is_401(result: JsonView)
    ensures
        unauthorized(result) <==> result.get("status_code"@) == Some(JsonView::Integer(401)),
{
}

/// The last 32 bits of a number stand for one that an `i32` can hold and that
/// differs from it by a multiple of 2 to the 32nd.
pub proof fn law_low_bits(n: i64)
    ensures
        i32::MIN <= low_32_bits(n) <= i32::MAX,
        (n - low_32_bits(n)) % 0x1_0000_0000 == 0,
{
}

/// What a report says of the user is what the account has afterwards: the key
/// and whether it is disabled, each as given, or as before where not given.
pub proof fn law_reported_user(
    account: AccountView,
    info: JsonView,
    now: Timestamp,
    key: Seq<char>,
    flag: bool,
)
    ensures
        ({
            let next = account.with_current_user(info, now);
            &&& info.get("user"@) is Some && info.get("user"@)->0.get("api_key"@) == Some(
                JsonView::Text(key),
            ) ==> next.windsurf_api_key == Some(key)
            &&& info.get("user"@) is Some && info.get("user"@)->0.get("disable_codeium"@) == Some(
                JsonView::Bool(flag),
            ) ==> next.is_disabled == Some(flag)
            &&& info.get("user"@) is None || !(info.get("user"@)->0.get("api_key"@) matches Some(
                JsonView::Text(_),
            )) ==> next.windsurf_api_key == account.windsurf_api_key
            &&& info.get("user"@) is None || !(info.get("user"@)->0.get("disable_codeium"@) matches
                Some(JsonView::Bool(_))) ==> next.is_disabled == account.is_disabled
        }),
{
}

/// What a report says of the plan is what the account has afterwards: its name,
/// and the last 32 bits of the number of its billing strategy, each as given,
/// or as before where not given.
pub proof fn law_reported_plan(
    account: AccountView,
    info: JsonView,
    now: Timestamp,
    name: Seq<char>,
    n: i64,
)
    ensures
        ({
            let next = account.with_current_user(info, now);
            &&& info.get("plan"@) is Some && info.get("plan"@)->0.get("plan_name"@) == Some(
                JsonView::Text(name),
            ) ==> next.plan_name == Some(name)
            &&& info.get("plan"@) is Some && info.get("plan"@)->0.get("billing_strategy"@) == Some(
                JsonView::Integer(n as int),
            ) ==> next.billing_strategy is Some && (n - next.billing_strategy->0) % 0x1_0000_0000
                == 0
            &&& info.get("plan"@) is None || !(info.get("plan"@)->0.get("plan_name"@) matches Some(
                JsonView::Text(_),
            )) ==> next.plan_name == account.plan_name
            &&& info.get("plan"@) is None || !(info.get("plan"@)->0.get("billing_strategy"@) matches
                Some(JsonView::Integer(_))) ==> next.billing_strategy == account.billing_strategy
        }),
{
}

/// What a report says of the quotas is what the account has afterwards: the
/// last 32 bits of what is used and of the whole, each as given, or as before
/// where not given.
pub proof fn law_reported_quotas(account: AccountView, info: JsonView, now: Timestamp, n: i64)
    ensures
        ({
            let next = account.with_current_user(info, now);
            let given = info.get("subscription"@);
            &&& given is Some && given->0.get("used_quota"@) == Some(JsonView::Integer(n as int))
                ==> next.used_quota is Some && (n - next.used_quota->0) % 0x1_0000_0000 == 0
            &&& given is Some && given->0.get("quota"@) == Some(JsonView::Integer(n as int))
                ==> next.total_quota is Some && (n - next.total_quota->0) % 0x1_0000_0000 == 0
            &&& given is None || !(given->0.get("used_quota"@) matches Some(JsonView::Integer(_)))
                ==> next.used_quota == account.used_quota
            &&& given is None || !(given->0.get("quota"@) matches Some(JsonView::Integer(_)))
                ==> next.total_quota == account.total_quota
        }),
{
}

/// What a report says of the subscription is what the account has afterwards:
/// whether it is active, true or false, and when it expires, where the calendar
/// reaches that second; each as before where not given.
pub proof fn law_reported_subscription(
    account: AccountView,
    info: JsonView,
    now: Timestamp,
    active: bool,
    n: i64,
)
    ensures
        ({
            let next = account.with_current_user(info, now);
            let given = info.get("subscription"@);
            &&& given is Some && given->0.get("subscription_active"@) == Some(
                JsonView::Bool(active),
            ) ==> next.subscription_active == Some(active)
            &&& given is None || !(given->0.get("subscription_active"@) matches Some(
                JsonView::Bool(_),
            )) ==> next.subscription_active == account.subscription_active
            &&& given is Some && given->0.get("expires_at"@) == Some(JsonView::Integer(n as int))
                && -8_334_601_228_800 <= n <= 8_210_266_876_799 ==> next.subscription_expires_at
                == Some(Timestamp { seconds: n, nanos: 0 })
            &&& given is Some && given->0.get("expires_at"@) == Some(JsonView::Integer(n as int))
                && !(-8_334_601_228_800 <= n <= 8_210_266_876_799)
                ==> next.subscription_expires_at is None
            &&& given is None || !(given->0.get("expires_at"@) matches Some(JsonView::Integer(_)))
                ==> next.subscription_expires_at == account.subscription_expires_at
        }),
{
}

/// A number that an `i64` cannot hold is no number to a report: the account is
/// left as it was.
pub proof fn law_numbers_that_do_not_fit(
    account: AccountView,
    info: JsonView,
    now: Timestamp,
    n: int,
)
    requires
        n < i64::MIN || n > i64::MAX,
    ensures
        ({
            let next = account.with_current_user(info, now);
            let plan = info.get("plan"@);
            let given = info.get("subscription"@);
            &&& plan is Some && plan->0.get("billing_strategy"@) == Some(JsonView::Integer(n))
                ==> next.billing_strategy == account.billing_strategy
            &&& given is Some && given->0.get("used_quota"@) == Some(JsonView::Integer(n))
                ==> next.used_quota == account.used_quota
            &&& given is Some && given->0.get("quota"@) == Some(JsonView::Integer(n))
                ==> next.total_quota == account.total_quota
            &&& given is Some && given->0.get("expires_at"@) == Some(JsonView::Integer(n))
                ==> next.subscription_expires_at == account.subscription_expires_at
        }),
{
}

/// After a report the account is a team owner exactly where the report says so,
/// and its last update is the time of the report.
pub proof fn law_reported_ownership(account: AccountView, info: JsonView, now: Timestamp)
    ensures
        info.get("is_root_admin"@) == Some(JsonView::Bool(true)) ==> account.with_current_user(
            info,
            now,
        ).is_team_owner == Some(true),
        info.get("is_root_admin"@) != Some(JsonView::Bool(true)) ==> account.with_current_user(
            info,
            now,
        ).is_team_owner == Some(false),
        account.with_current_user(info, now).last_quota_update == Some(now),
{
}

/// A lapsed subscription or a disabled user takes an account out of those that
/// can be switched to, as soon as it is reported.
pub proof fn law_report_takes_candidates_out(
    account: AccountView,
    info: JsonView,
    now: Timestamp,
)
    ensures
        info.get("subscription"@) is Some && info.get("subscription"@)->0.get(
            "subscription_active"@,
        ) == Some(JsonView::Bool(false)) ==> !account.with_current_user(
            info,
            now,
        ).switch_candidate(),
        info.get("user"@) is Some && info.get("user"@)->0.get("disable_codeium"@) == Some(
            JsonView::Bool(true),
        ) ==> !account.with_current_user(info, now).switch_candidate(),
{
}

/// The view of an account is the account, field by field.
pub proof fn law_view_is_the_account(account: Account)
    ensures
        account@.id == account.id,
        account@.email == account.email@,
        account.status matches AccountStatus::Error(s) ==> account@.status == StatusView::Error(s@),
        account.status is Sound ==> account@.status is Sound,
        account@.devin_account == account.devin_account,
        account.token matches Some(s) ==> account@.token == Some(s@),
        account.token is None ==> account@.token is None,
        account.refresh_token matches Some(s) ==> account@.refresh_token == Some(s@),
        account.refresh_token is None ==> account@.refresh_token is None,
        account.windsurf_api_key matches Some(s) ==> account@.windsurf_api_key == Some(s@),
        account.windsurf_api_key is None ==> account@.windsurf_api_key is None,
        account.plan_name matches Some(s) ==> account@.plan_name == Some(s@),
        account.plan_name is None ==> account@.plan_name is None,
        account@.is_disabled == account.is_disabled,
        account@.is_team_owner == account.is_team_owner,
        account@.subscription_active == account.subscription_active,
        account@.subscription_expires_at == account.subscription_expires_at,
        account@.billing_strategy == account.billing_strategy,
        account@.used_quota == account.used_quota,
        account@.total_quota == account.total_quota,
        account@.daily_quota_remaining_percent == account.daily_quota_remaining_percent,
        account@.weekly_quota_remaining_percent == account.weekly_quota_remaining_percent,
        account@.last_quota_update == account.last_quota_update,
{
}

} // verus!
