//! Refreshing what is known of an account's quota: what is asked of the
//! services, in which order, and what becomes of their replies.

use crate::account::{apply_current_user_at, is_401_result, unauthorized, Account, AccountView};
use crate::clock::{current_time, on_a_clock, Timestamp};
use crate::json::{Json, JsonView};
use crate::views::{done_view, reply_view, text_or, value_view};
use vstd::prelude::*;

verus! {

/// What follows a reply to a question that is asked again, once, when the
/// first reply says that it was not authorized.
pub enum FetchStep {
    /// Renew the token and ask again.
    RenewToken,
    /// That is the reply, or the failure.
    Done(Result<Json, String>),
}

/// The view of what follows a reply: nothing where the question is to be asked
/// again.
pub open spec fn fetch_view(step: FetchStep) -> Option<Result<JsonView, Seq<char>>> {
    match step {
        FetchStep::RenewToken => None,
        FetchStep::Done(reply) => Some(reply_view(reply)),
    }
}

/// Whether a reply calls for asking again, where that has not been done.
pub open spec fn asks_again(reply: Result<JsonView, Seq<char>>, renewed: bool) -> bool {
    !renewed && (reply matches Ok(value) && unauthorized(value))
}

/// Decides what follows a reply; `renewed` tells that the token has been
/// renewed since the question was first asked.
pub fn fetch_step(reply: Result<Json, String>, renewed: bool) -> (r: FetchStep)
    ensures
        fetch_view(r) == (if asks_again(reply_view(reply), renewed) {
            None
        } else {
            Some(reply_view(reply))
        }),
{
    match reply {
        Ok(value) => if !renewed && is_401_result(&value) {
            FetchStep::RenewToken
        } else {
            FetchStep::Done(Ok(value))
        },
        Err(error) => FetchStep::Done(Err(error)),
    }
}

/// The account of which the services are asked: the identifier under which it
/// was loaded, and the account, with its token as it was last renewed.
pub struct Session {
    pub id: u128,
    pub account: Account,
}

/// The view of the account of which the services are asked.
pub struct SessionView {
    pub id: u128,
    pub account: AccountView,
}

impl View for Session {
    type V = SessionView;

    open spec fn view(&self) -> SessionView {
        SessionView { id: self.id, account: self.account@ }
    }
}

/// How far a refresh has come: the work that is to be done next, with what it
/// needs and what is kept for later.
pub enum Refresh {
    /// Load the account with that identifier from the store.
    LoadAccount { id: u128, lightweight: bool },
    /// Make sure that the account's token is valid, and renew it only if it is
    /// not.
    EnsureToken { session: Session, lightweight: bool },
    /// Ask for the account's user.
    GetCurrentUser { session: Session, renewed: bool },
    /// Renew the token, valid or not, to ask for the user again.
    RenewTokenForUser { session: Session },
    /// Ask for the status of the account's plan.
    GetPlanStatus { session: Session, user: Option<Json>, renewed: bool },
    /// Renew the token, valid or not, to ask for the plan again.
    RenewTokenForPlan { session: Session, user: Option<Json> },
    /// Load the account with that identifier from the store once more.
    ReloadAccount { id: u128, user: Option<Json>, plan: Json },
    /// Take the status of the plan over into the account.
    ApplyPlanStatus { plan_status: Json, account: Account },
    /// Save the account in the store.
    SaveAccount { account: Account },
    /// The account as it was saved, or the failure.
    Finished(Result<Account, String>),
}

/// What the work has led to.
pub enum RefreshEvent {
    /// The account was loaded, or was not.
    Loaded(Result<Account, String>),
    /// The token was made valid, or was not; and the account as that left it.
    TokenEnsured { account: Account, result: Result<(), String> },
    /// The service replied, or failed.
    Replied(Result<Json, String>),
    /// The account with the status of its plan.
    PlanApplied(Account),
    /// The account was saved, or was not.
    Saved(Result<(), String>),
}

/// The view of how far a refresh has come.
pub enum RefreshView {
    LoadAccount { id: u128, lightweight: bool },
    EnsureToken { session: SessionView, lightweight: bool },
    GetCurrentUser { session: SessionView, renewed: bool },
    RenewTokenForUser { session: SessionView },
    GetPlanStatus { session: SessionView, user: Option<JsonView>, renewed: bool },
    RenewTokenForPlan { session: SessionView, user: Option<JsonView> },
    ReloadAccount { id: u128, user: Option<JsonView>, plan: JsonView },
    ApplyPlanStatus { plan_status: JsonView, account: AccountView },
    SaveAccount { account: AccountView },
    Finished(Result<AccountView, Seq<char>>),
}

/// The view of what the work has led to.
pub enum RefreshEventView {
    Loaded(Result<AccountView, Seq<char>>),
    TokenEnsured { account: AccountView, result: Result<(), Seq<char>> },
    Replied(Result<JsonView, Seq<char>>),
    PlanApplied(AccountView),
    Saved(Result<(), Seq<char>>),
}

/// The view of an account or of a failure.
pub open spec fn account_view(r: Result<Account, String>) -> Result<AccountView, Seq<char>> {
    match r {
        Ok(account) => Ok(account@),
        Err(error) => Err(error@),
    }
}

impl View for Refresh {
    type V = RefreshView;

    open spec fn view(&self) -> RefreshView {
        match *self {
            Refresh::LoadAccount { id, lightweight } => RefreshView::LoadAccount {
                id,
                lightweight,
            },
            Refresh::EnsureToken { session, lightweight } => RefreshView::EnsureToken {
                session: session@,
                lightweight,
            },
            Refresh::GetCurrentUser { session, renewed } => RefreshView::GetCurrentUser {
                session: session@,
                renewed,
            },
            Refresh::RenewTokenForUser { session } => RefreshView::RenewTokenForUser {
                session: session@,
            },
            Refresh::GetPlanStatus { session, user, renewed } => RefreshView::GetPlanStatus {
                session: session@,
                user: value_view(user),
                renewed,
            },
            Refresh::RenewTokenForPlan { session, user } => RefreshView::RenewTokenForPlan {
                session: session@,
                user: value_view(user),
            },
            Refresh::ReloadAccount { id, user, plan } => RefreshView::ReloadAccount {
                id,
                user: value_view(user),
                plan: plan@,
            },
            Refresh::ApplyPlanStatus { plan_status, account } => RefreshView::ApplyPlanStatus {
                plan_status: plan_status@,
                account: account@,
            },
            Refresh::SaveAccount { account } => RefreshView::SaveAccount { account: account@ },
            Refresh::Finished(r) => RefreshView::Finished(account_view(r)),
        }
    }
}

impl View for RefreshEvent {
    type V = RefreshEventView;

    open spec fn view(&self) -> RefreshEventView {
        match *self {
            RefreshEvent::Loaded(r) => RefreshEventView::Loaded(account_view(r)),
            RefreshEvent::TokenEnsured { account, result } => RefreshEventView::TokenEnsured {
                account: account@,
                result: done_view(result),
            },
            RefreshEvent::Replied(r) => RefreshEventView::Replied(reply_view(r)),
            RefreshEvent::PlanApplied(account) => RefreshEventView::PlanApplied(account@),
            RefreshEvent::Saved(r) => RefreshEventView::Saved(done_view(r)),
        }
    }
}

impl RefreshView {
    /// What is asked for where a token is to be made valid: the identifier of
    /// the account, and whether the token is renewed even if it is valid.
    pub open spec fn token_request(self) -> Option<(u128, bool)> {
        match self {
            RefreshView::EnsureToken { session, lightweight: _ } => Some((session.id, false)),
            RefreshView::RenewTokenForUser { session } => Some((session.account.id, true)),
            RefreshView::RenewTokenForPlan { session, user: _ } => Some((session.account.id, true)),
            _ => None,
        }
    }

    /// Whether the work that is to be done next can lead to that event.
    pub open spec fn expects(self, event: RefreshEventView) -> bool {
        match self {
            RefreshView::LoadAccount { .. } => event is Loaded,
            RefreshView::EnsureToken { .. } => event is TokenEnsured,
            RefreshView::GetCurrentUser { .. } => event is Replied,
            RefreshView::RenewTokenForUser { .. } => event is TokenEnsured,
            RefreshView::GetPlanStatus { .. } => event is Replied,
            RefreshView::RenewTokenForPlan { .. } => event is TokenEnsured,
            RefreshView::ReloadAccount { .. } => event is Loaded,
            RefreshView::ApplyPlanStatus { .. } => event is PlanApplied,
            RefreshView::SaveAccount { .. } => event is Saved,
            RefreshView::Finished(_) => false,
        }
    }
}

/// The account with what a reply about its user reports, where it reports
/// anything.
pub open spec fn with_user(
    account: AccountView,
    user: Option<JsonView>,
    now: Timestamp,
) -> AccountView {
    match user {
        Some(reply) => match reply.get("user_info"@) {
            Some(info) => account.with_current_user(info, now),
            None => account,
        },
        None => account,
    }
}

/// What is done with a reloaded account, given the replies about its user and
/// its plan.
pub open spec fn after_reload(
    account: AccountView,
    user: Option<JsonView>,
    plan: JsonView,
    now: Timestamp,
) -> RefreshView {
    let account = with_user(account, user, now);
    if plan.bool_at("success"@) == Some(true) {
        match plan.get("plan_status"@) {
            Some(plan_status) => RefreshView::ApplyPlanStatus { plan_status, account },
            None => RefreshView::SaveAccount { account },
        }
    } else {
        RefreshView::Finished(Err(text_or(plan.str_at("error"@), "Failed to refresh quota"@)))
    }
}

/// How far a refresh has come after an event that its work has led to. The
/// time `now` is that of the event. An event that the work cannot lead to
/// changes nothing.
pub open spec fn refresh_next(
    state: RefreshView,
    event: RefreshEventView,
    now: Timestamp,
) -> RefreshView {
    match (state, event) {
        (RefreshView::LoadAccount { id, lightweight }, RefreshEventView::Loaded(r)) => match r {
            Ok(account) => RefreshView::EnsureToken {
                session: SessionView { id, account },
                lightweight,
            },
            Err(error) => RefreshView::Finished(Err(error)),
        },
        (
            RefreshView::EnsureToken { session, lightweight },
            RefreshEventView::TokenEnsured { account, result },
        ) => {
            let session = SessionView { account, ..session };
            match result {
                Ok(_) => if lightweight {
                    RefreshView::GetPlanStatus { session, user: None, renewed: false }
                } else {
                    RefreshView::GetCurrentUser { session, renewed: false }
                },
                Err(error) => RefreshView::Finished(Err(error)),
            }
        },
        (RefreshView::GetCurrentUser { session, renewed }, RefreshEventView::Replied(r)) =>
            if asks_again(r, renewed) {
                RefreshView::RenewTokenForUser { session }
            } else {
                RefreshView::GetPlanStatus { session, user: r.ok(), renewed: false }
            },
        (
            RefreshView::RenewTokenForUser { session },
            RefreshEventView::TokenEnsured { account, result },
        ) => {
            let session = SessionView { account, ..session };
            match result {
                Ok(_) => RefreshView::GetCurrentUser { session, renewed: true },
                Err(_) => RefreshView::GetPlanStatus { session, user: None, renewed: false },
            }
        },
        (RefreshView::GetPlanStatus { session, user, renewed }, RefreshEventView::Replied(r)) =>
            if asks_again(r, renewed) {
                RefreshView::RenewTokenForPlan { session, user }
            } else {
                match r {
                    Ok(plan) => RefreshView::ReloadAccount { id: session.id, user, plan },
                    Err(error) => RefreshView::Finished(Err(error)),
                }
            },
        (
            RefreshView::RenewTokenForPlan { session, user },
            RefreshEventView::TokenEnsured { account, result },
        ) => {
            let session = SessionView { account, ..session };
            match result {
                Ok(_) => RefreshView::GetPlanStatus { session, user, renewed: true },
                Err(error) => RefreshView::Finished(Err(error)),
            }
        },
        (RefreshView::ReloadAccount { id: _, user, plan }, RefreshEventView::Loaded(r)) => match r {
            Ok(account) => after_reload(account, user, plan, now),
            Err(error) => RefreshView::Finished(Err(error)),
        },
        (RefreshView::ApplyPlanStatus { .. }, RefreshEventView::PlanApplied(account)) =>
            RefreshView::SaveAccount { account },
        (RefreshView::SaveAccount { account }, RefreshEventView::Saved(r)) => match r {
            Ok(_) => RefreshView::Finished(Ok(account)),
            Err(error) => RefreshView::Finished(Err(error)),
        },
        _ => state,
    }
}

impl Refresh {
    /// The start of a refresh of the account with that identifier. A
    /// lightweight one does not ask for the user.
    pub fn start(id: u128, lightweight: bool) -> (r: Refresh)
        ensures
            r@ == (RefreshView::LoadAccount { id, lightweight }),
    {
        Refresh::LoadAccount { id, lightweight }
    }

    /// What is asked for where a token is to be made valid: the identifier of
    /// the account, and whether the token is renewed even if it is valid. It is
    /// first made valid under the identifier that the refresh is for, and
    /// renewed under that of the account as it was loaded.
    pub fn token_request(&self) -> (r: Option<(u128, bool)>)
        ensures
            r == self@.token_request(),
    {
        match self {
            Refresh::EnsureToken { session, .. } => Some((session.id, false)),
            Refresh::RenewTokenForUser { session } => Some((session.account.id, true)),
            Refresh::RenewTokenForPlan { session, .. } => Some((session.account.id, true)),
            _ => None,
        }
    }

    /// What is done with a reloaded account.
    fn reloaded(account: Account, user: Option<Json>, plan: Json, now: Timestamp) -> (r: Refresh)
        ensures
            r@ == after_reload(account@, value_view(user), plan@, now),
    {
        let mut account = account;
        if let Some(reply) = user {
            if let Some(info) = reply.get("user_info") {
                apply_current_user_at(info, &mut account, now);
            }
        }
        let success = match plan.bool_at("success") {
            Some(b) => b,
            None => false,
        };
        if !success {
            let error = match plan.str_at("error") {
                Some(error) => error,
                None => "Failed to refresh quota",
            };
            return Refresh::Finished(Err(error.to_owned()));
        }
        match plan.into_member("plan_status") {
            Some(plan_status) => Refresh::ApplyPlanStatus { plan_status, account },
            None => Refresh::SaveAccount { account },
        }
    }

    /// Goes on with an event that the work has led to, at the time `now`.
    pub fn step_at(self, event: RefreshEvent, now: Timestamp) -> (r: Refresh)
        ensures
            r@ == refresh_next(self@, event@, now),
    {
        match (self, event) {
            (Refresh::LoadAccount { id, lightweight }, RefreshEvent::Loaded(r)) => match r {
                Ok(account) => Refresh::EnsureToken {
                    session: Session { id, account },
                    lightweight,
                },
                Err(error) => Refresh::Finished(Err(error)),
            },
            (
                Refresh::EnsureToken { session, lightweight },
                RefreshEvent::TokenEnsured { account, result },
            ) => {
                let session = Session { id: session.id, account };
                match result {
                    Ok(_) => if lightweight {
                        Refresh::GetPlanStatus { session, user: None, renewed: false }
                    } else {
                        Refresh::GetCurrentUser { session, renewed: false }
                    },
                    Err(error) => Refresh::Finished(Err(error)),
                }
            },
            (Refresh::GetCurrentUser { session, renewed }, RefreshEvent::Replied(r)) =>
                match fetch_step(r, renewed) {
                    FetchStep::RenewToken => Refresh::RenewTokenForUser { session },
                    FetchStep::Done(Ok(reply)) => Refresh::GetPlanStatus {
                        session,
                        user: Some(reply),
                        renewed: false,
                    },
                    FetchStep::Done(Err(_)) => Refresh::GetPlanStatus {
                        session,
                        user: None,
                        renewed: false,
                    },
                },
            (
                Refresh::RenewTokenForUser { session },
                RefreshEvent::TokenEnsured { account, result },
            ) => {
                let session = Session { id: session.id, account };
                match result {
                    Ok(_) => Refresh::GetCurrentUser { session, renewed: true },
                    Err(_) => Refresh::GetPlanStatus { session, user: None, renewed: false },
                }
            },
            (Refresh::GetPlanStatus { session, user, renewed }, RefreshEvent::Replied(r)) =>
                match fetch_step(r, renewed) {
                    FetchStep::RenewToken => Refresh::RenewTokenForPlan { session, user },
                    FetchStep::Done(Ok(plan)) => Refresh::ReloadAccount {
                        id: session.id,
                        user,
                        plan,
                    },
                    FetchStep::Done(Err(error)) => Refresh::Finished(Err(error)),
                },
            (
                Refresh::RenewTokenForPlan { session, user },
                RefreshEvent::TokenEnsured { account, result },
            ) => {
                let session = Session { id: session.id, account };
                match result {
                    Ok(_) => Refresh::GetPlanStatus { session, user, renewed: true },
                    Err(error) => Refresh::Finished(Err(error)),
                }
            },
            (Refresh::ReloadAccount { id: _, user, plan }, RefreshEvent::Loaded(r)) => match r {
                Ok(account) => Self::reloaded(account, user, plan, now),
                Err(error) => Refresh::Finished(Err(error)),
            },
            (Refresh::ApplyPlanStatus { .. }, RefreshEvent::PlanApplied(account)) =>
                Refresh::SaveAccount { account },
            (Refresh::SaveAccount { account }, RefreshEvent::Saved(r)) => match r {
                Ok(_) => Refresh::Finished(Ok(account)),
                Err(error) => Refresh::Finished(Err(error)),
            },
            (state, _) => state,
        }
    }

    /// Goes on with an event that the work has led to. Where a report is taken
    /// over, that is done at the time that the clock shows; the clock is read
    /// nowhere else.
    pub fn step(self, event: RefreshEvent) -> (r: Refresh)
        ensures
            exists|now: Timestamp|
                on_a_clock(now) && r@ == #[trigger] refresh_next(self@, event@, now),
    {
        let reported = match (&self, &event) {
            (Refresh::ReloadAccount { user: Some(reply), .. }, RefreshEvent::Loaded(Ok(_))) =>
                reply.get("user_info").is_some(),
            _ => false,
        };
        let now = if reported {
            current_time()
        } else {
            Timestamp { seconds: 0, nanos: 0 }
        };
        self.step_at(event, now)
    }
}

impl RefreshView {
    /// The number of steps that are left at most.
    pub open spec fn steps_left(self) -> nat {
        match self {
            RefreshView::LoadAccount { .. } => 11,
            RefreshView::EnsureToken { .. } => 10,
            RefreshView::GetCurrentUser { session: _, renewed } => if renewed {
                7
            } else {
                9
            },
            RefreshView::RenewTokenForUser { .. } => 8,
            RefreshView::GetPlanStatus { session: _, user: _, renewed } => if renewed {
                4
            } else {
                6
            },
            RefreshView::RenewTokenForPlan { .. } => 5,
            RefreshView::ReloadAccount { .. } => 3,
            RefreshView::ApplyPlanStatus { .. } => 2,
            RefreshView::SaveAccount { .. } => 1,
            RefreshView::Finished(_) => 0,
        }
    }
}

/// Every refresh comes to an end: each event that the work leads to brings it
/// nearer, and only a finished refresh expects none.
pub proof fn law_refresh_ends(state: RefreshView, event: RefreshEventView, now: Timestamp)
    ensures
        state.expects(event) ==> refresh_next(state, event, now).steps_left() < state.steps_left(),
        !state.expects(event) ==> refresh_next(state, event, now) == state,
        state.steps_left() == 0 <==> state is Finished,
{
}

/// The token is renewed only after a reply that says that the question was not
/// authorized, and each question is asked at most twice: after the second time
/// the refresh goes on, whatever the reply.
pub proof fn law_one_renewal_for_each_question(
    state: RefreshView,
    event: RefreshEventView,
    now: Timestamp,
)
    requires
        state.expects(event),
    ensures
        refresh_next(state, event, now) is RenewTokenForUser ==> {
            &&& state matches RefreshView::GetCurrentUser { session: _, renewed } && !renewed
            &&& event matches RefreshEventView::Replied(Ok(reply)) && unauthorized(reply)
        },
        refresh_next(state, event, now) is RenewTokenForPlan ==> {
            &&& state matches RefreshView::GetPlanStatus { session: _, user: _, renewed }
                && !renewed
            &&& event matches RefreshEventView::Replied(Ok(reply)) && unauthorized(reply)
        },
{
}

/// A token is renewed by force only after a reply that says that a question was
/// not authorized; else it is only made valid.
pub proof fn law_force_follows_refusal(
    state: RefreshView,
    event: RefreshEventView,
    now: Timestamp,
)
    requires
        state.expects(event),
    ensures
        state.token_request() is Some <==> event is TokenEnsured,
        refresh_next(state, event, now).token_request() matches Some((_, force)) ==> (force <==> {
            event matches RefreshEventView::Replied(Ok(reply)) && unauthorized(reply)
        }),
{
}

/// A refresh never fails for want of a report on the user: whatever becomes of
/// asking for it, the plan is asked for next, or the user once more.
pub proof fn law_missing_user_is_no_failure(
    state: RefreshView,
    event: RefreshEventView,
    now: Timestamp,
)
    requires
        state is GetCurrentUser || state is RenewTokenForUser,
    ensures
        !(refresh_next(state, event, now) is Finished),
{
}

/// An account is saved only after a reply about its plan that tells of
/// success; any other reply ends the refresh with its error, and nothing is
/// saved.
pub proof fn law_saved_only_after_success(
    id: u128,
    account: AccountView,
    user: Option<JsonView>,
    plan: JsonView,
    now: Timestamp,
)
    ensures
        ({
            let next = refresh_next(
                RefreshView::ReloadAccount { id, user, plan },
                RefreshEventView::Loaded(Ok(account)),
                now,
            );
            &&& (next is ApplyPlanStatus || next is SaveAccount) <==> plan.bool_at("success"@)
                == Some(true)
            &&& next is Finished ==> next == RefreshView::Finished(
                Err(text_or(plan.str_at("error"@), "Failed to refresh quota"@)),
            )
        }),
{
}

/// The refresh ends well only with the account that was saved.
pub proof fn law_ends_with_the_saved_account(
    state: RefreshView,
    event: RefreshEventView,
    now: Timestamp,
    account: AccountView,
)
    requires
        state.expects(event),
        refresh_next(state, event, now) == RefreshView::Finished(Ok(account)),
    ensures
        state == (RefreshView::SaveAccount { account }),
        event matches RefreshEventView::Saved(r) && r is Ok,
{
}

impl RefreshView {
    /// Whether the refresh is a lightweight one: it neither asks for the user
    /// nor has a report on one.
    pub open spec fn lightweight(self) -> bool {
        match self {
            RefreshView::LoadAccount { id: _, lightweight } => lightweight,
            RefreshView::EnsureToken { session: _, lightweight } => lightweight,
            RefreshView::GetCurrentUser { .. } => false,
            RefreshView::RenewTokenForUser { .. } => false,
            RefreshView::GetPlanStatus { session: _, user, renewed: _ } => user is None,
            RefreshView::RenewTokenForPlan { session: _, user } => user is None,
            RefreshView::ReloadAccount { id: _, user, plan: _ } => user is None,
            _ => true,
        }
    }
}

/// A refresh that starts as a lightweight one stays one: it never asks for the
/// user.
pub proof fn law_lightweight_stays(state: RefreshView, event: RefreshEventView, now: Timestamp)
    requires
        state.lightweight(),
    ensures
        refresh_next(state, event, now).lightweight(),
{
}

impl RefreshView {
    /// The identifier of the account that is refreshed, until the account has
    /// been loaded for the last time.
    pub open spec fn account_id(self) -> Option<u128> {
        match self {
            RefreshView::LoadAccount { id, lightweight: _ } => Some(id),
            RefreshView::EnsureToken { session, lightweight: _ } => Some(session.id),
            RefreshView::GetCurrentUser { session, renewed: _ } => Some(session.id),
            RefreshView::RenewTokenForUser { session } => Some(session.id),
            RefreshView::GetPlanStatus { session, user: _, renewed: _ } => Some(session.id),
            RefreshView::RenewTokenForPlan { session, user: _ } => Some(session.id),
            RefreshView::ReloadAccount { id, user: _, plan: _ } => Some(id),
            _ => None,
        }
    }

    /// The account of which the services are asked.
    pub open spec fn session_account(self) -> Option<AccountView> {
        match self {
            RefreshView::EnsureToken { session, lightweight: _ } => Some(session.account),
            RefreshView::GetCurrentUser { session, renewed: _ } => Some(session.account),
            RefreshView::RenewTokenForUser { session } => Some(session.account),
            RefreshView::GetPlanStatus { session, user: _, renewed: _ } => Some(session.account),
            RefreshView::RenewTokenForPlan { session, user: _ } => Some(session.account),
            _ => None,
        }
    }
}

/// A refresh is one of the same account throughout: what it loads at the end is
/// the account with the identifier that it started with.
pub proof fn law_same_account_throughout(
    state: RefreshView,
    event: RefreshEventView,
    now: Timestamp,
)
    ensures
        refresh_next(state, event, now).account_id() matches Some(id) ==> state.account_id()
            == Some(id),
{
}

/// The services are asked of the account as it was loaded, or as the last
/// renewal of its token left it.
pub proof fn law_asks_with_the_latest_token(
    state: RefreshView,
    event: RefreshEventView,
    now: Timestamp,
)
    requires
        state.expects(event),
    ensures
        refresh_next(state, event, now).session_account() matches Some(account) ==> match event {
            RefreshEventView::Loaded(r) => r == Ok::<AccountView, Seq<char>>(account),
            RefreshEventView::TokenEnsured { account: left, .. } => account == left,
            _ => state.session_account() == Some(account),
        },
{
}

/// The account that is saved is the one that was loaded last, with what the
/// reports on its user and its plan say: nothing of the session goes into it.
pub proof fn law_saves_the_account_loaded_last(
    state: RefreshView,
    event: RefreshEventView,
    now: Timestamp,
)
    requires
        state.expects(event),
    ensures
        match refresh_next(state, event, now) {
            RefreshView::ApplyPlanStatus { plan_status, account } => {
                &&& state matches RefreshView::ReloadAccount { id: _, user, plan }
                    && plan.get("plan_status"@) == Some(plan_status)
                    && (event matches RefreshEventView::Loaded(Ok(loaded))
                    && account == with_user(loaded, user, now))
            },
            RefreshView::SaveAccount { account } => match state {
                RefreshView::ReloadAccount { id: _, user, plan } => {
                    &&& plan.get("plan_status"@) is None
                    &&& event matches RefreshEventView::Loaded(Ok(loaded)) && account == with_user(
                        loaded,
                        user,
                        now,
                    )
                },
                RefreshView::ApplyPlanStatus { .. } => event
                    == RefreshEventView::PlanApplied(account),
                _ => false,
            },
            _ => true,
        },
{
}

/// What a reply about the user reports, where there is a reply and it reports
/// anything.
pub open spec fn user_info(user: Option<JsonView>) -> Option<JsonView> {
    match user {
        Some(reply) => reply.get("user_info"@),
        None => None,
    }
}

/// Whether two refreshes differ only in the session, and in replies about the
/// user that report the same.
pub open spec fn alike(a: RefreshView, b: RefreshView) -> bool {
    match (a, b) {
        (
            RefreshView::EnsureToken { session: s, lightweight: l },
            RefreshView::EnsureToken { session: t, lightweight: m },
        ) => s.id == t.id && l == m,
        (
            RefreshView::GetCurrentUser { session: s, renewed: x },
            RefreshView::GetCurrentUser { session: t, renewed: y },
        ) => s.id == t.id && x == y,
        (
            RefreshView::RenewTokenForUser { session: s },
            RefreshView::RenewTokenForUser { session: t },
        ) => s.id == t.id,
        (
            RefreshView::GetPlanStatus { session: s, user: u, renewed: x },
            RefreshView::GetPlanStatus { session: t, user: v, renewed: y },
        ) => s.id == t.id && user_info(u) == user_info(v) && x == y,
        (
            RefreshView::RenewTokenForPlan { session: s, user: u },
            RefreshView::RenewTokenForPlan { session: t, user: v },
        ) => s.id == t.id && user_info(u) == user_info(v),
        (
            RefreshView::ReloadAccount { id: i, user: u, plan: p },
            RefreshView::ReloadAccount { id: j, user: v, plan: q },
        ) => i == j && user_info(u) == user_info(v) && p == q,
        _ => a == b,
    }
}

/// How far a refresh has come after events, each at its time.
pub open spec fn refresh_over(
    state: RefreshView,
    events: Seq<(RefreshEventView, Timestamp)>,
) -> RefreshView
    decreases events.len(),
{
    if events.len() == 0 {
        state
    } else {
        refresh_over(
            refresh_next(state, events.first().0, events.first().1),
            events.drop_first(),
        )
    }
}

/// The same events lead refreshes that are alike to refreshes that are alike,
/// so that they end with the same account, or with the same failure.
pub proof fn law_alike_stays(
    a: RefreshView,
    b: RefreshView,
    events: Seq<(RefreshEventView, Timestamp)>,
)
    requires
        alike(a, b),
    ensures
        alike(refresh_over(a, events), refresh_over(b, events)),
        refresh_over(a, events) is Finished ==> refresh_over(b, events) == refresh_over(a, events),
    decreases events.len(),
{
    if events.len() > 0 {
        law_alike_stays(
            refresh_next(a, events.first().0, events.first().1),
            refresh_next(b, events.first().0, events.first().1),
            events.drop_first(),
        );
    }
}

/// A refresh that goes on without a report on the user is one with a
/// lightweight refresh of the same account: whatever brought it there, the same
/// later events lead both to the same account, or to the same failure.
pub proof fn law_without_a_report_as_lightweight(
    state: RefreshView,
    event: RefreshEventView,
    now: Timestamp,
    light: SessionView,
    ensured: AccountView,
    events: Seq<(RefreshEventView, Timestamp)>,
)
    requires
        state is GetCurrentUser || state is RenewTokenForUser,
        state.account_id() == Some(light.id),
        refresh_next(state, event, now) matches RefreshView::GetPlanStatus { user, .. }
            && user_info(user) is None,
    ensures
        ({
            let lightweight = refresh_next(
                RefreshView::EnsureToken { session: light, lightweight: true },
                RefreshEventView::TokenEnsured { account: ensured, result: Ok(()) },
                now,
            );
            let a = refresh_over(refresh_next(state, event, now), events);
            let b = refresh_over(lightweight, events);
            &&& alike(a, b)
            &&& a is Finished || b is Finished ==> a == b
        }),
{
    let lightweight = refresh_next(
        RefreshView::EnsureToken { session: light, lightweight: true },
        RefreshEventView::TokenEnsured { account: ensured, result: Ok(()) },
        now,
    );
    law_alike_stays(refresh_next(state, event, now), lightweight, events);
    law_alike_stays(lightweight, refresh_next(state, event, now), events);
}

/// A question is asked again exactly where it was asked for the first time and
/// its reply has the status code 401.
pub proof fn law_when_a_question_is_asked_again(
    reply: JsonView,
    error: Seq<char>,
    renewed: bool,
)
    ensures
        asks_again(Ok(reply), renewed) <==> !renewed && reply.get("status_code"@) == Some(
            JsonView::Integer(401),
        ),
        !asks_again(Err(error), renewed),
{
}

/// The identifier under which a token is asked for, and whether by force: the
/// one that the refresh is for, without force, at first; and that of the
/// account as it was loaded, by force, where a question is to be asked again.
pub proof fn law_what_a_token_is_asked_for(
    session: SessionView,
    user: Option<JsonView>,
    flag: bool,
    id: u128,
    plan: JsonView,
    account: AccountView,
    end: Result<AccountView, Seq<char>>,
)
    ensures
        (RefreshView::EnsureToken { session, lightweight: flag }).token_request() == Some(
            (session.id, false),
        ),
        (RefreshView::RenewTokenForUser { session }).token_request() == Some(
            (session.account.id, true),
        ),
        (RefreshView::RenewTokenForPlan { session, user }).token_request() == Some(
            (session.account.id, true),
        ),
        (RefreshView::LoadAccount { id, lightweight: flag }).token_request() is None,
        (RefreshView::GetCurrentUser { session, renewed: flag }).token_request() is None,
        (RefreshView::GetPlanStatus { session, user, renewed: flag }).token_request() is None,
        (RefreshView::ReloadAccount { id, user, plan }).token_request() is None,
        (RefreshView::ApplyPlanStatus { plan_status: plan, account }).token_request() is None,
        (RefreshView::SaveAccount { account }).token_request() is None,
        RefreshView::Finished(end).token_request() is None,
{
}

/// A refresh starts with the account that was loaded and a valid token for it;
/// a lightweight one then asks for the plan, any other for the user first.
pub proof fn law_how_a_refresh_starts(
    id: u128,
    loaded: AccountView,
    ensured: AccountView,
    now: Timestamp,
)
    ensures
        ({
            let events = seq![
                (RefreshEventView::Loaded(Ok(loaded)), now),
                (RefreshEventView::TokenEnsured { account: ensured, result: Ok(()) }, now),
            ];
            let session = SessionView { id, account: ensured };
            &&& refresh_over(RefreshView::LoadAccount { id, lightweight: true }, events) == (
            RefreshView::GetPlanStatus { session, user: None, renewed: false })
            &&& refresh_over(RefreshView::LoadAccount { id, lightweight: false }, events) == (
            RefreshView::GetCurrentUser { session, renewed: false })
        }),
        refresh_next(
            RefreshView::LoadAccount { id, lightweight: true },
            RefreshEventView::Loaded(Ok(loaded)),
            now,
        ) == (RefreshView::EnsureToken {
            session: SessionView { id, account: loaded },
            lightweight: true,
        }),
        refresh_next(
            RefreshView::LoadAccount { id, lightweight: false },
            RefreshEventView::Loaded(Ok(loaded)),
            now,
        ) == (RefreshView::EnsureToken {
            session: SessionView { id, account: loaded },
            lightweight: false,
        }),
{
    let events = seq![
        (RefreshEventView::Loaded(Ok(loaded)), now),
        (RefreshEventView::TokenEnsured { account: ensured, result: Ok(()) }, now),
    ];
    reveal_with_fuel(refresh_over, 3);
    assert(events.drop_first().first() == events[1]);
    assert(events.drop_first().drop_first().len() == 0);
}

/// What follows the reply about the user: the token is renewed and the user
/// asked for again where the first reply has the status code 401; else the plan
/// is asked for, with the reply, or with none where there was a failure.
pub proof fn law_after_asking_for_the_user(
    session: SessionView,
    renewed: bool,
    reply: JsonView,
    error: Seq<char>,
    account: AccountView,
    now: Timestamp,
)
    ensures
        ({
            let asked = RefreshView::GetCurrentUser { session, renewed };
            let next = refresh_next(asked, RefreshEventView::Replied(Ok(reply)), now);
            let refused = reply.get("status_code"@) == Some(JsonView::Integer(401));
            &&& refused && !renewed ==> next == (RefreshView::RenewTokenForUser { session })
            &&& !refused || renewed ==> next == (RefreshView::GetPlanStatus {
                session,
                user: Some(reply),
                renewed: false,
            })
            &&& refresh_next(asked, RefreshEventView::Replied(Err(error)), now) == (
            RefreshView::GetPlanStatus { session, user: None, renewed: false })
        }),
        refresh_next(
            RefreshView::RenewTokenForUser { session },
            RefreshEventView::TokenEnsured { account, result: Ok(()) },
            now,
        ) == (RefreshView::GetCurrentUser {
            session: SessionView { id: session.id, account },
            renewed: true,
        }),
        refresh_next(
            RefreshView::RenewTokenForUser { session },
            RefreshEventView::TokenEnsured { account, result: Err(error) },
            now,
        ) == (RefreshView::GetPlanStatus {
            session: SessionView { id: session.id, account },
            user: None,
            renewed: false,
        }),
{
}

/// What follows the reply about the plan: the token is renewed and the plan
/// asked for again where the first reply has the status code 401; else the
/// account is loaded once more, under the identifier that the refresh is for.
pub proof fn law_after_asking_for_the_plan(
    session: SessionView,
    user: Option<JsonView>,
    renewed: bool,
    reply: JsonView,
    account: AccountView,
    now: Timestamp,
)
    ensures
        ({
            let asked = RefreshView::GetPlanStatus { session, user, renewed };
            let next = refresh_next(asked, RefreshEventView::Replied(Ok(reply)), now);
            let refused = reply.get("status_code"@) == Some(JsonView::Integer(401));
            &&& refused && !renewed ==> next == (RefreshView::RenewTokenForPlan { session, user })
            &&& !refused || renewed ==> next == (RefreshView::ReloadAccount {
                id: session.id,
                user,
                plan: reply,
            })
        }),
        refresh_next(
            RefreshView::RenewTokenForPlan { session, user },
            RefreshEventView::TokenEnsured { account, result: Ok(()) },
            now,
        ) == (RefreshView::GetPlanStatus {
            session: SessionView { id: session.id, account },
            user,
            renewed: true,
        }),
{
}

/// The account that is refreshed, once it has been loaded again: the report on
/// the user is taken over where there is one; and where the reply about the
/// plan tells of success, its status is taken over where it has one, else the
/// account is saved as it is; and where it does not, the refresh fails, with
/// the error that the reply has.
pub proof fn law_after_loading_again(
    id: u128,
    account: AccountView,
    user: Option<JsonView>,
    plan: JsonView,
    error: Seq<char>,
    now: Timestamp,
)
    ensures
        ({
            let next = refresh_next(
                RefreshView::ReloadAccount { id, user, plan },
                RefreshEventView::Loaded(Ok(account)),
                now,
            );
            let reported = if user is Some && user->0.get("user_info"@) is Some {
                account.with_current_user(user->0.get("user_info"@)->0, now)
            } else {
                account
            };
            let success = plan.get("success"@) == Some(JsonView::Bool(true));
            &&& success && plan.get("plan_status"@) is Some ==> next == (
            RefreshView::ApplyPlanStatus {
                plan_status: plan.get("plan_status"@)->0,
                account: reported,
            })
            &&& success && plan.get("plan_status"@) is None ==> next == (RefreshView::SaveAccount {
                account: reported,
            })
            &&& !success && plan.get("error"@) == Some(JsonView::Text(error)) ==> next
                == RefreshView::Finished(Err(error))
            &&& !success && !(plan.get("error"@) matches Some(JsonView::Text(_))) ==> next
                == RefreshView::Finished(Err("Failed to refresh quota"@))
        }),
{
}

/// The end of a refresh: the account with the status of its plan is saved, and
/// the account that was saved is what the refresh gives.
pub proof fn law_how_a_refresh_ends(
    plan_status: JsonView,
    before: AccountView,
    account: AccountView,
    now: Timestamp,
)
    ensures
        refresh_next(
            RefreshView::ApplyPlanStatus { plan_status, account: before },
            RefreshEventView::PlanApplied(account),
            now,
        ) == (RefreshView::SaveAccount { account }),
        refresh_next(RefreshView::SaveAccount { account }, RefreshEventView::Saved(Ok(())), now)
            == RefreshView::Finished(Ok(account)),
{
}

/// A failure of the store, of the first token, or of the question for the plan
/// ends the refresh with that failure.
pub proof fn law_failures_end_a_refresh(
    id: u128,
    lightweight: bool,
    session: SessionView,
    user: Option<JsonView>,
    renewed: bool,
    plan: JsonView,
    account: AccountView,
    error: Seq<char>,
    now: Timestamp,
)
    ensures
        ({
            let failed = RefreshView::Finished(Err(error));
            let not_loaded = RefreshEventView::Loaded(Err(error));
            let no_token = RefreshEventView::TokenEnsured { account, result: Err(error) };
            &&& refresh_next(RefreshView::LoadAccount { id, lightweight }, not_loaded, now)
                == failed
            &&& refresh_next(RefreshView::EnsureToken { session, lightweight }, no_token, now)
                == failed
            &&& refresh_next(
                RefreshView::GetPlanStatus { session, user, renewed },
                RefreshEventView::Replied(Err(error)),
                now,
            ) == failed
            &&& refresh_next(RefreshView::RenewTokenForPlan { session, user }, no_token, now)
                == failed
            &&& refresh_next(RefreshView::ReloadAccount { id, user, plan }, not_loaded, now)
                == failed
            &&& refresh_next(
                RefreshView::SaveAccount { account },
                RefreshEventView::Saved(Err(error)),
                now,
            ) == failed
        }),
{
}

/// A whole refresh without a report on the user: where the services and the
/// store do their part, it ends with the account as it was loaded last, with
/// the status of its plan, whatever came before.
pub proof fn law_a_lightweight_refresh(
    id: u128,
    first: AccountView,
    ensured: AccountView,
    plan: JsonView,
    last: AccountView,
    applied: AccountView,
    now: Timestamp,
)
    requires
        plan.get("status_code"@) != Some(JsonView::Integer(401)),
        plan.get("success"@) == Some(JsonView::Bool(true)),
    ensures
        ({
            let begun = seq![
                (RefreshEventView::Loaded(Ok(first)), now),
                (RefreshEventView::TokenEnsured { account: ensured, result: Ok(()) }, now),
                (RefreshEventView::Replied(Ok(plan)), now),
                (RefreshEventView::Loaded(Ok(last)), now),
            ];
            let start = RefreshView::LoadAccount { id, lightweight: true };
            let saved = (RefreshEventView::Saved(Ok(())), now);
            &&& plan.get("plan_status"@) is None ==> refresh_over(start, begun + seq![saved])
                == RefreshView::Finished(Ok(last))
            &&& plan.get("plan_status"@) is Some ==> refresh_over(
                start,
                begun + seq![(RefreshEventView::PlanApplied(applied), now), saved],
            ) == RefreshView::Finished(Ok(applied))
        }),
{
    let begun = seq![
        (RefreshEventView::Loaded(Ok(first)), now),
        (RefreshEventView::TokenEnsured { account: ensured, result: Ok(()) }, now),
        (RefreshEventView::Replied(Ok(plan)), now),
        (RefreshEventView::Loaded(Ok(last)), now),
    ];
    let saved = (RefreshEventView::Saved(Ok(())), now);
    let a = begun + seq![saved];
    let b = begun + seq![(RefreshEventView::PlanApplied(applied), now), saved];
    let start = RefreshView::LoadAccount { id, lightweight: true };
    lemma_over_five(start, a);
    lemma_over_five(start, b);
    reveal_with_fuel(refresh_over, 2);
    assert(a.skip(5).len() == 0);
    assert(b.skip(5).first() == b[5]);
    assert(b.skip(5).drop_first().len() == 0);
}

/// Five events, one after the other.
proof fn lemma_over_five(state: RefreshView, events: Seq<(RefreshEventView, Timestamp)>)
    requires
        events.len() >= 5,
    ensures
        ({
            let s1 = refresh_next(state, events[0].0, events[0].1);
            let s2 = refresh_next(s1, events[1].0, events[1].1);
            let s3 = refresh_next(s2, events[2].0, events[2].1);
            let s4 = refresh_next(s3, events[3].0, events[3].1);
            let s5 = refresh_next(s4, events[4].0, events[4].1);
            refresh_over(state, events) == refresh_over(s5, events.skip(5))
        }),
{
    let e1 = events.drop_first();
    let e2 = e1.drop_first();
    let e3 = e2.drop_first();
    let e4 = e3.drop_first();
    let s1 = refresh_next(state, events[0].0, events[0].1);
    let s2 = refresh_next(s1, events[1].0, events[1].1);
    let s3 = refresh_next(s2, events[2].0, events[2].1);
    let s4 = refresh_next(s3, events[3].0, events[3].1);
    assert(e1.first() == events[1] && e2.first() == events[2] && e3.first() == events[3]
        && e4.first() == events[4]);
    assert(e4.drop_first() == events.skip(5));
    assert(refresh_over(state, events) == refresh_over(s1, e1));
    assert(refresh_over(s1, e1) == refresh_over(s2, e2));
    assert(refresh_over(s2, e2) == refresh_over(s3, e3));
    assert(refresh_over(s3, e3) == refresh_over(s4, e4));
}

/// The views of a refresh and of what its work has led to are these, field by
/// field.
pub proof fn law_view_is_the_refresh(
    id: u128,
    flag: bool,
    session: Session,
    user: Option<Json>,
    value: Json,
    account: Account,
    s: String,
)
    ensures
        session@.id == session.id,
        session@.account == session.account@,
        (Refresh::LoadAccount { id, lightweight: flag })@ == (RefreshView::LoadAccount {
            id,
            lightweight: flag,
        }),
        (Refresh::EnsureToken { session, lightweight: flag })@ == (RefreshView::EnsureToken {
            session: session@,
            lightweight: flag,
        }),
        (Refresh::GetCurrentUser { session, renewed: flag })@ == (RefreshView::GetCurrentUser {
            session: session@,
            renewed: flag,
        }),
        (Refresh::RenewTokenForUser { session })@ == (RefreshView::RenewTokenForUser {
            session: session@,
        }),
        (Refresh::GetPlanStatus { session, user, renewed: flag })@ == (RefreshView::GetPlanStatus {
            session: session@,
            user: value_view(user),
            renewed: flag,
        }),
        (Refresh::RenewTokenForPlan { session, user })@ == (RefreshView::RenewTokenForPlan {
            session: session@,
            user: value_view(user),
        }),
        (Refresh::ReloadAccount { id, user, plan: value })@ == (RefreshView::ReloadAccount {
            id,
            user: value_view(user),
            plan: value@,
        }),
        (Refresh::ApplyPlanStatus { plan_status: value, account })@ == (
        RefreshView::ApplyPlanStatus { plan_status: value@, account: account@ }),
        (Refresh::SaveAccount { account })@ == (RefreshView::SaveAccount { account: account@ }),
        Refresh::Finished(Ok(account))@ == RefreshView::Finished(Ok(account@)),
        Refresh::Finished(Err(s))@ == RefreshView::Finished(Err(s@)),
        RefreshEvent::Loaded(Ok(account))@ == RefreshEventView::Loaded(Ok(account@)),
        RefreshEvent::Loaded(Err(s))@ == RefreshEventView::Loaded(Err(s@)),
        (RefreshEvent::TokenEnsured { account, result: Ok(()) })@ == (
        RefreshEventView::TokenEnsured { account: account@, result: Ok(()) }),
        (RefreshEvent::TokenEnsured { account, result: Err(s) })@ == (
        RefreshEventView::TokenEnsured { account: account@, result: Err(s@) }),
        RefreshEvent::Replied(Ok(value))@ == RefreshEventView::Replied(Ok(value@)),
        RefreshEvent::Replied(Err(s))@ == RefreshEventView::Replied(Err(s@)),
        RefreshEvent::PlanApplied(account)@ == RefreshEventView::PlanApplied(account@),
        RefreshEvent::Saved(Ok(()))@ == RefreshEventView::Saved(Ok(())),
        RefreshEvent::Saved(Err(s))@ == RefreshEventView::Saved(Err(s@)),
        fetch_view(FetchStep::RenewToken) is None,
        fetch_view(FetchStep::Done(Ok(value))) == Some(Ok::<JsonView, Seq<char>>(value@)),
        fetch_view(FetchStep::Done(Err(s))) == Some(Err::<JsonView, Seq<char>>(s@)),
{
}

/// What a work cannot lead to changes nothing: each work leads to its own kind
/// of event.
pub proof fn law_other_events_do_not_count(
    state: RefreshView,
    event: RefreshEventView,
    now: Timestamp,
)
    ensures
        (state is LoadAccount || state is ReloadAccount) && !(event is Loaded) ==> refresh_next(
            state,
            event,
            now,
        ) == state,
        (state is EnsureToken || state is RenewTokenForUser || state is RenewTokenForPlan) && !(
        event is TokenEnsured) ==> refresh_next(state, event, now) == state,
        (state is GetCurrentUser || state is GetPlanStatus) && !(event is Replied) ==> refresh_next(
            state,
            event,
            now,
        ) == state,
        state is ApplyPlanStatus && !(event is PlanApplied) ==> refresh_next(state, event, now)
            == state,
        state is SaveAccount && !(event is Saved) ==> refresh_next(state, event, now) == state,
        state is Finished ==> refresh_next(state, event, now) == state,
{
}

} // verus!
