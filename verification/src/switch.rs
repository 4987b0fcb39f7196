//! Switching to another account when the quota of the one in use is exhausted.

use crate::account::{
    has_usable_quota, is_quota_exhausted, is_switch_candidate, Account, AccountView,
};
use crate::ids::{hyphenated, id_text};
use crate::json::{Json, JsonView};
use crate::refresh::account_view;
use crate::report::{
    disabled_report, law_reports_tell_the_outcome, no_account_report, outcome_of, report_disabled,
    report_no_account, report_switch, report_unchanged, report_unmanaged, switch_report,
    switch_succeeded, unchanged_report, unmanaged_report,
};
use crate::text::{
    ascii_lower, eq_ignore_ascii_case, from_chars, is_white_space, law_trims_white_space_only,
    to_chars, trim, trimmed,
};
use crate::views::{reply_view, string_view};
use vstd::prelude::*;

verus! {

/// The settings that switching depends on.
#[derive(Debug, Clone, Copy)]
pub struct Settings {
    pub auto_switch_account_enabled: bool,
    /// The percentage at which a quota counts as exhausted.
    pub auto_switch_quota_threshold: i32,
    pub use_lightweight_api: bool,
}

/// What the client in use tells of itself.
pub struct CurrentInfo {
    pub email: Option<String>,
    pub client_type: String,
}

/// The view of what the client in use tells of itself.
pub struct InfoView {
    pub email: Option<Seq<char>>,
    pub client_type: Seq<char>,
}

impl View for CurrentInfo {
    type V = InfoView;

    open spec fn view(&self) -> InfoView {
        InfoView { email: string_view(self.email), client_type: self.client_type@ }
    }
}

/// A percentage: the number given, or the end of the range from 0 to 100 that
/// is nearest to it.
pub open spec fn percentage(n: i32) -> i32 {
    if n < 0 {
        0
    } else if n > 100 {
        100
    } else {
        n
    }
}

/// Brings a number into the range of percentages.
pub fn clamp_percentage(n: i32) -> (r: i32)
    ensures
        r == percentage(n),
{
    if n < 0 {
        0
    } else if n > 100 {
        100
    } else {
        n
    }
}

/// The address of the account in use, without white space around it; none
/// where there is nothing left of it.
pub open spec fn active_email(email: Option<Seq<char>>) -> Option<Seq<char>> {
    match email {
        Some(e) => if trimmed(e).len() > 0 {
            Some(trimmed(e))
        } else {
            None
        },
        None => None,
    }
}

/// Reads the address of the account in use.
pub fn find_active_email(email: &Option<String>) -> (r: Option<String>)
    ensures
        string_view(r) == active_email(string_view(*email)),
{
    match email {
        Some(e) => {
            let chars = to_chars(e.as_str());
            let t = trim(chars.as_slice());
            if t.len() > 0 {
                Some(from_chars(t))
            } else {
                None
            }
        },
        None => None,
    }
}

/// The views of accounts.
pub open spec fn accounts_view(accounts: Seq<Account>) -> Seq<AccountView> {
    Seq::new(accounts.len(), |i: int| accounts[i]@)
}

/// The place of the first account from `from` on that has that address, but
/// for the case of ASCII letters.
pub open spec fn email_index(accounts: Seq<AccountView>, email: Seq<char>, from: int) -> Option<int>
    decreases accounts.len() - from,
{
    if from < 0 || from >= accounts.len() {
        None
    } else if ascii_lower(accounts[from].email) == ascii_lower(email) {
        Some(from)
    } else {
        email_index(accounts, email, from + 1)
    }
}

/// Finds the account with that address.
pub fn find_email(accounts: &Vec<Account>, email: &str) -> (r: Option<usize>)
    ensures
        match r {
            Some(i) => i < accounts@.len() && email_index(accounts_view(accounts@), email@, 0)
                == Some(i as int),
            None => email_index(accounts_view(accounts@), email@, 0) is None,
        },
{
    let mut i: usize = 0;
    while i < accounts.len()
        invariant
            i <= accounts@.len(),
            email_index(accounts_view(accounts@), email@, i as int) == email_index(
                accounts_view(accounts@),
                email@,
                0,
            ),
        decreases accounts@.len() - i,
    {
        if eq_ignore_ascii_case(accounts[i].email.as_str(), email) {
            return Some(i);
        }
        i += 1;
    }
    None
}

/// The place that is `offset` places behind `start` on a ring of `len` places.
pub open spec fn ring_index(start: int, offset: int, len: int) -> int {
    (start + offset) % len
}

/// Finds a place on a ring.
fn around(start: usize, offset: usize, len: usize) -> (r: usize)
    requires
        start < len,
        offset < len,
    ensures
        r == ring_index(start as int, offset as int, len as int),
        r < len,
{
    if offset < len - start {
        assert((start + offset) % len as int == start + offset) by (nonlinear_arith)
            requires
                0 <= start + offset < len,
        ;
        start + offset
    } else {
        let r = offset - (len - start);
        assert((start + offset) % len as int == r) by (nonlinear_arith)
            requires
                start + offset == r + len,
                0 <= r < len,
        ;
        r
    }
}

/// The search for an account to switch to, among the managed accounts.
pub struct Search {
    threshold: i32,
    lightweight: bool,
    client_type: String,
    accounts: Vec<Account>,
    current_index: usize,
    offset: usize,
}

/// The view of a search: how far behind the account in use it has come.
pub struct SearchView {
    pub threshold: i32,
    pub lightweight: bool,
    pub client_type: Seq<char>,
    pub accounts: Seq<AccountView>,
    pub current_index: int,
    pub offset: int,
}

impl View for Search {
    type V = SearchView;

    closed spec fn view(&self) -> SearchView {
        SearchView {
            threshold: self.threshold,
            lightweight: self.lightweight,
            client_type: self.client_type@,
            accounts: accounts_view(self.accounts@),
            current_index: self.current_index as int,
            offset: self.offset as int,
        }
    }
}

impl SearchView {
    /// Whether the search stands at an account.
    pub open spec fn valid(self) -> bool {
        &&& 0 <= self.current_index < self.accounts.len()
        &&& 0 <= self.offset < self.accounts.len()
    }

    /// The account at which the search would stand at that offset.
    pub open spec fn account_at(self, offset: int) -> AccountView {
        self.accounts[ring_index(self.current_index, offset, self.accounts.len() as int)]
    }

    /// Whether the account at that offset may be tried: it is another one than
    /// the account in use, and can be switched to.
    pub open spec fn eligible(self, current_id: u128, offset: int) -> bool {
        &&& 1 <= offset < self.accounts.len()
        &&& self.account_at(offset).id != current_id
        &&& self.account_at(offset).switch_candidate()
    }

    /// The first offset from `from` on at which the account may be tried.
    pub open spec fn next_offset(self, current_id: u128, from: int) -> Option<int>
        decreases self.accounts.len() - from,
    {
        if from >= self.accounts.len() {
            None
        } else if self.eligible(current_id, from) {
            Some(from)
        } else {
            self.next_offset(current_id, from + 1)
        }
    }
}

impl Search {
    #[verifier::type_invariant]
    spec fn inv(self) -> bool {
        &&& self.current_index < self.accounts@.len()
        &&& self.offset < self.accounts@.len()
    }

    /// The identifier of the account at which the search stands.
    pub fn account_id(&self) -> (r: u128)
        ensures
            self@.valid(),
            r == self@.account_at(self@.offset).id,
    {
        proof {
            use_type_invariant(self);
        }
        let i = around(self.current_index, self.offset, self.accounts.len());
        self.accounts[i].id
    }

    /// The address of the account at which the search stands.
    pub fn account_email(&self) -> (r: &str)
        ensures
            r@ == self@.account_at(self@.offset).email,
    {
        proof {
            use_type_invariant(self);
        }
        let i = around(self.current_index, self.offset, self.accounts.len());
        self.accounts[i].email.as_str()
    }

    /// Whether accounts are refreshed without asking for their users.
    pub fn lightweight(&self) -> (r: bool)
        ensures
            r == self@.lightweight,
    {
        self.lightweight
    }

    /// Moves on to the next account that may be tried, from `from` on.
    fn seek(self, current_id: u128, from: usize) -> (r: Result<Search, Search>)
        requires
            1 <= from,
        ensures
            match r {
                Ok(search) => self@.next_offset(current_id, from as int) matches Some(offset)
                    && search@ == (SearchView { offset, ..self@ }),
                Err(search) => self@.next_offset(current_id, from as int) is None && search@
                    == self@,
            },
    {
        proof {
            use_type_invariant(&self);
        }
        let mut offset: usize = from;
        while offset < self.accounts.len()
            invariant
                1 <= from <= offset,
                self.current_index < self.accounts@.len(),
                self@.next_offset(current_id, offset as int) == self@.next_offset(
                    current_id,
                    from as int,
                ),
            decreases self.accounts@.len() - offset,
        {
            let i = around(self.current_index, offset, self.accounts.len());
            let candidate = &self.accounts[i];
            assert(candidate@ == self@.account_at(offset as int));
            if candidate.id != current_id && is_switch_candidate(candidate) {
                let Search { threshold, lightweight, client_type, accounts, current_index, .. } =
                    self;
                return Ok(
                    Search { threshold, lightweight, client_type, accounts, current_index, offset },
                );
            }
            offset += 1;
        }
        Err(self)
    }
}

/// The kind of an operation in the log.
#[derive(Debug, Clone, Copy, PartialEq, Eq, Structural)]
pub enum OperationType {
    SwitchAccount,
}

/// How an operation in the log ended.
#[derive(Debug, Clone, Copy, PartialEq, Eq, Structural)]
pub enum OperationStatus {
    Success,
}

/// An entry in the log of operations.
pub struct LogEntry {
    pub operation_type: OperationType,
    pub status: OperationStatus,
    pub message: String,
    pub account_id: u128,
    pub account_email: String,
}

/// The view of an entry in the log.
pub struct LogView {
    pub operation_type: OperationType,
    pub status: OperationStatus,
    pub message: Seq<char>,
    pub account_id: u128,
    pub account_email: Seq<char>,
}

impl View for LogEntry {
    type V = LogView;

    open spec fn view(&self) -> LogView {
        LogView {
            operation_type: self.operation_type,
            status: self.status,
            message: self.message@,
            account_id: self.account_id,
            account_email: self.account_email@,
        }
    }
}

/// The entry for a switch from one account to another that succeeded.
pub open spec fn log_of(current: AccountView, target: AccountView) -> LogView {
    LogView {
        operation_type: OperationType::SwitchAccount,
        status: OperationStatus::Success,
        message: "Auto-switch account: "@ + current.email + " -> "@ + target.email,
        account_id: target.id,
        account_email: target.email,
    }
}

/// How far an attempt to switch has come: the work that is to be done next,
/// with what it needs and what is kept for later.
pub enum AutoSwitch {
    /// Load the settings.
    LoadSettings,
    /// Read what the client in use tells of itself.
    ReadCurrentInfo(Settings),
    /// Load the managed accounts.
    LoadAccounts { settings: Settings, email: String, client_type: String },
    /// Refresh the account in use.
    RefreshCurrent(Search),
    /// Refresh the account at which the search stands.
    RefreshCandidate { search: Search, current: Account },
    /// Switch to the target.
    SwitchAccount { search: Search, current: Account, target: Account },
    /// Record the switch in the log.
    RecordSwitch { entry: LogEntry, report: Json },
    /// The report, or the failure.
    Finished(Result<Json, String>),
}

/// What the work has led to.
pub enum AutoSwitchEvent {
    SettingsLoaded(Result<Settings, String>),
    CurrentInfoRead(Result<CurrentInfo, String>),
    AccountsLoaded(Result<Vec<Account>, String>),
    Refreshed(Result<Account, String>),
    Switched(Result<Json, String>),
    Recorded,
}

/// The view of how far an attempt to switch has come.
pub enum AutoView {
    LoadSettings,
    ReadCurrentInfo(Settings),
    LoadAccounts { settings: Settings, email: Seq<char>, client_type: Seq<char> },
    RefreshCurrent(SearchView),
    RefreshCandidate { search: SearchView, current: AccountView },
    SwitchAccount { search: SearchView, current: AccountView, target: AccountView },
    RecordSwitch { entry: LogView, report: JsonView },
    Finished(Result<JsonView, Seq<char>>),
}

/// The view of what the work has led to.
pub enum AutoEventView {
    SettingsLoaded(Result<Settings, Seq<char>>),
    CurrentInfoRead(Result<InfoView, Seq<char>>),
    AccountsLoaded(Result<Seq<AccountView>, Seq<char>>),
    Refreshed(Result<AccountView, Seq<char>>),
    Switched(Result<JsonView, Seq<char>>),
    Recorded,
}

impl View for AutoSwitch {
    type V = AutoView;

    open spec fn view(&self) -> AutoView {
        match *self {
            AutoSwitch::LoadSettings => AutoView::LoadSettings,
            AutoSwitch::ReadCurrentInfo(settings) => AutoView::ReadCurrentInfo(settings),
            AutoSwitch::LoadAccounts { settings, email, client_type } => AutoView::LoadAccounts {
                settings,
                email: email@,
                client_type: client_type@,
            },
            AutoSwitch::RefreshCurrent(search) => AutoView::RefreshCurrent(search@),
            AutoSwitch::RefreshCandidate { search, current } => AutoView::RefreshCandidate {
                search: search@,
                current: current@,
            },
            AutoSwitch::SwitchAccount { search, current, target } => AutoView::SwitchAccount {
                search: search@,
                current: current@,
                target: target@,
            },
            AutoSwitch::RecordSwitch { entry, report } => AutoView::RecordSwitch {
                entry: entry@,
                report: report@,
            },
            AutoSwitch::Finished(r) => AutoView::Finished(reply_view(r)),
        }
    }
}

impl View for AutoSwitchEvent {
    type V = AutoEventView;

    open spec fn view(&self) -> AutoEventView {
        match *self {
            AutoSwitchEvent::SettingsLoaded(r) => AutoEventView::SettingsLoaded(
                match r {
                    Ok(settings) => Ok(settings),
                    Err(error) => Err(error@),
                },
            ),
            AutoSwitchEvent::CurrentInfoRead(r) => AutoEventView::CurrentInfoRead(
                match r {
                    Ok(info) => Ok(info@),
                    Err(error) => Err(error@),
                },
            ),
            AutoSwitchEvent::AccountsLoaded(r) => AutoEventView::AccountsLoaded(
                match r {
                    Ok(accounts) => Ok(accounts_view(accounts@)),
                    Err(error) => Err(error@),
                },
            ),
            AutoSwitchEvent::Refreshed(r) => AutoEventView::Refreshed(account_view(r)),
            AutoSwitchEvent::Switched(r) => AutoEventView::Switched(reply_view(r)),
            AutoSwitchEvent::Recorded => AutoEventView::Recorded,
        }
    }
}

/// Why the account in use stays in use when its quota allows it.
pub open spec fn above_threshold() -> Seq<char> {
    "Current account quota is still above the threshold"@
}

/// Why the account in use stays in use when there is no other.
pub open spec fn none_available() -> Seq<char> {
    "No available account with enough daily and weekly quota was found"@
}

/// How the search goes on from the offset `from` on: with the first account
/// that may be tried, or with the report that there is none.
pub open spec fn search_on(search: SearchView, current: AccountView, from: int) -> AutoView {
    match search.next_offset(current.id, from) {
        Some(offset) => AutoView::RefreshCandidate {
            search: SearchView { offset, ..search },
            current,
        },
        None => AutoView::Finished(
            Ok(unchanged_report(current, search.threshold, none_available())),
        ),
    }
}

/// What follows when the accounts have been loaded.
pub open spec fn after_accounts(
    settings: Settings,
    email: Seq<char>,
    client_type: Seq<char>,
    accounts: Seq<AccountView>,
) -> AutoView {
    match email_index(accounts, email, 0) {
        Some(i) => AutoView::RefreshCurrent(
            SearchView {
                threshold: percentage(settings.auto_switch_quota_threshold),
                lightweight: settings.use_lightweight_api,
                client_type,
                accounts,
                current_index: i,
                offset: 0,
            },
        ),
        None => AutoView::Finished(Ok(unmanaged_report(email))),
    }
}

/// What follows when the switch has been made or has been refused.
pub open spec fn after_switch(
    search: SearchView,
    current: AccountView,
    target: AccountView,
    result: JsonView,
) -> AutoView {
    let report = switch_report(current, target, search.threshold, search.client_type, result);
    if switch_succeeded(result) {
        AutoView::RecordSwitch { entry: log_of(current, target), report }
    } else {
        AutoView::Finished(Ok(report))
    }
}

/// How far an attempt to switch has come after an event that its work has led
/// to. An event that the work cannot lead to changes nothing.
pub open spec fn auto_next(state: AutoView, event: AutoEventView) -> AutoView {
    match (state, event) {
        (AutoView::LoadSettings, AutoEventView::SettingsLoaded(r)) => match r {
            Ok(settings) => if settings.auto_switch_account_enabled {
                AutoView::ReadCurrentInfo(settings)
            } else {
                AutoView::Finished(Ok(disabled_report()))
            },
            Err(error) => AutoView::Finished(Err(error)),
        },
        (AutoView::ReadCurrentInfo(settings), AutoEventView::CurrentInfoRead(r)) => match r {
            Ok(info) => match active_email(info.email) {
                Some(email) => AutoView::LoadAccounts {
                    settings,
                    email,
                    client_type: info.client_type,
                },
                None => AutoView::Finished(Ok(no_account_report())),
            },
            Err(error) => AutoView::Finished(Err(error)),
        },
        (
            AutoView::LoadAccounts { settings, email, client_type },
            AutoEventView::AccountsLoaded(r),
        ) => match r {
            Ok(accounts) => after_accounts(settings, email, client_type, accounts),
            Err(error) => AutoView::Finished(Err(error)),
        },
        (AutoView::RefreshCurrent(search), AutoEventView::Refreshed(r)) => match r {
            Ok(current) => if current.quota_exhausted(search.threshold) {
                search_on(search, current, 1)
            } else {
                AutoView::Finished(
                    Ok(unchanged_report(current, search.threshold, above_threshold())),
                )
            },
            Err(error) => AutoView::Finished(Err(error)),
        },
        (AutoView::RefreshCandidate { search, current }, AutoEventView::Refreshed(r)) => match r {
            Ok(target) => if target.usable_quota(search.threshold) {
                AutoView::SwitchAccount { search, current, target }
            } else {
                search_on(search, current, search.offset + 1)
            },
            Err(_) => search_on(search, current, search.offset + 1),
        },
        (AutoView::SwitchAccount { search, current, target }, AutoEventView::Switched(r)) => match r {
            Ok(result) => after_switch(search, current, target, result),
            Err(error) => AutoView::Finished(Err(error)),
        },
        (AutoView::RecordSwitch { entry: _, report }, AutoEventView::Recorded) =>
            AutoView::Finished(Ok(report)),
        _ => state,
    }
}

impl AutoView {
    /// The account that is to be refreshed, by its identifier, and whether that
    /// is done without asking for its user.
    pub open spec fn refresh_request(self) -> Option<(u128, bool)> {
        match self {
            AutoView::RefreshCurrent(search) => Some(
                (search.account_at(search.offset).id, search.lightweight),
            ),
            AutoView::RefreshCandidate { search, current: _ } => Some(
                (search.account_at(search.offset).id, search.lightweight),
            ),
            _ => None,
        }
    }

    /// The account that is to be switched to, by its identifier as it is
    /// written, and the kind of client that is given for the switch.
    pub open spec fn switch_request(self) -> Option<(Seq<char>, Option<Seq<char>>)> {
        match self {
            AutoView::SwitchAccount { search, current: _, target } => Some(
                (hyphenated(target.id), Some(search.client_type)),
            ),
            _ => None,
        }
    }
}

impl AutoSwitch {
    /// The start of an attempt to switch.
    pub fn start() -> (r: AutoSwitch)
        ensures
            r@ == AutoView::LoadSettings,
    {
        AutoSwitch::LoadSettings
    }

    /// The account that is to be refreshed, by its identifier, and whether that
    /// is done without asking for its user; none where another work is to be
    /// done next.
    pub fn refresh_request(&self) -> (r: Option<(u128, bool)>)
        ensures
            r == self@.refresh_request(),
    {
        match self {
            AutoSwitch::RefreshCurrent(search) => Some((search.account_id(), search.lightweight())),
            AutoSwitch::RefreshCandidate { search, .. } => Some(
                (search.account_id(), search.lightweight()),
            ),
            _ => None,
        }
    }

    /// The account that is to be switched to, by its identifier as it is
    /// written, and the kind of client that is given for the switch; none where
    /// another work is to be done next.
    pub fn switch_request(&self) -> (r: Option<(String, Option<String>)>)
        ensures
            match r {
                Some((id, client_type)) => self@.switch_request() == Some(
                    (id@, string_view(client_type)),
                ),
                None => self@.switch_request() is None,
            },
    {
        match self {
            AutoSwitch::SwitchAccount { search, target, .. } => Some(
                (id_text(target.id), Some(search.client_type.clone())),
            ),
            _ => None,
        }
    }

    /// Goes on with the search.
    fn search_on(search: Search, current: Account, from: usize) -> (r: AutoSwitch)
        requires
            1 <= from,
        ensures
            r@ == search_on(search@, current@, from as int),
    {
        match search.seek(current.id, from) {
            Ok(search) => AutoSwitch::RefreshCandidate { search, current },
            Err(search) => AutoSwitch::Finished(
                Ok(
                    report_unchanged(
                        &current,
                        search.threshold,
                        "No available account with enough daily and weekly quota was found",
                    ),
                ),
            ),
        }
    }

    /// Goes on behind the account at which the search stands.
    fn next_candidate(search: Search, current: Account) -> (r: AutoSwitch)
        ensures
            r@ == search_on(search@, current@, search@.offset + 1),
    {
        proof {
            use_type_invariant(&search);
        }
        assert(search.offset < search.accounts.len());
        let from = search.offset + 1;
        Self::search_on(search, current, from)
    }

    /// Starts the search at the account in use.
    fn accounts_loaded(
        settings: Settings,
        email: String,
        client_type: String,
        accounts: Vec<Account>,
    ) -> (r: AutoSwitch)
        ensures
            r@ == after_accounts(settings, email@, client_type@, accounts_view(accounts@)),
    {
        match find_email(&accounts, email.as_str()) {
            Some(current_index) => AutoSwitch::RefreshCurrent(
                Search {
                    threshold: clamp_percentage(settings.auto_switch_quota_threshold),
                    lightweight: settings.use_lightweight_api,
                    client_type,
                    accounts,
                    current_index,
                    offset: 0,
                },
            ),
            None => AutoSwitch::Finished(Ok(report_unmanaged(email.as_str()))),
        }
    }

    /// Reports on the switch.
    fn switched(search: Search, current: Account, target: Account, result: Json) -> (r: AutoSwitch)
        ensures
            r@ == after_switch(search@, current@, target@, result@),
    {
        let succeeded = match result.bool_at("success") {
            Some(b) => b,
            None => false,
        };
        let report = report_switch(
            &current,
            &target,
            search.threshold,
            search.client_type.as_str(),
            result,
        );
        if !succeeded {
            return AutoSwitch::Finished(Ok(report));
        }
        let mut message = "Auto-switch account: ".to_owned();
        message.append(current.email.as_str());
        message.append(" -> ");
        message.append(target.email.as_str());
        let entry = LogEntry {
            operation_type: OperationType::SwitchAccount,
            status: OperationStatus::Success,
            message,
            account_id: target.id,
            account_email: target.email,
        };
        AutoSwitch::RecordSwitch { entry, report }
    }

    /// Goes on with an event that the work has led to.
    pub fn step(self, event: AutoSwitchEvent) -> (r: AutoSwitch)
        ensures
            r@ == auto_next(self@, event@),
    {
        match (self, event) {
            (AutoSwitch::LoadSettings, AutoSwitchEvent::SettingsLoaded(r)) => match r {
                Ok(settings) => if settings.auto_switch_account_enabled {
                    AutoSwitch::ReadCurrentInfo(settings)
                } else {
                    AutoSwitch::Finished(Ok(report_disabled()))
                },
                Err(error) => AutoSwitch::Finished(Err(error)),
            },
            (AutoSwitch::ReadCurrentInfo(settings), AutoSwitchEvent::CurrentInfoRead(r)) => match r {
                Ok(info) => match find_active_email(&info.email) {
                    Some(email) => AutoSwitch::LoadAccounts {
                        settings,
                        email,
                        client_type: info.client_type,
                    },
                    None => AutoSwitch::Finished(Ok(report_no_account())),
                },
                Err(error) => AutoSwitch::Finished(Err(error)),
            },
            (
                AutoSwitch::LoadAccounts { settings, email, client_type },
                AutoSwitchEvent::AccountsLoaded(r),
            ) => match r {
                Ok(accounts) => Self::accounts_loaded(settings, email, client_type, accounts),
                Err(error) => AutoSwitch::Finished(Err(error)),
            },
            (AutoSwitch::RefreshCurrent(search), AutoSwitchEvent::Refreshed(r)) => match r {
                Ok(current) => if is_quota_exhausted(&current, search.threshold) {
                    Self::search_on(search, current, 1)
                } else {
                    AutoSwitch::Finished(
                        Ok(
                            report_unchanged(
                                &current,
                                search.threshold,
                                "Current account quota is still above the threshold",
                            ),
                        ),
                    )
                },
                Err(error) => AutoSwitch::Finished(Err(error)),
            },
            (
                AutoSwitch::RefreshCandidate { search, current },
                AutoSwitchEvent::Refreshed(r),
            ) => match r {
                Ok(target) => if has_usable_quota(&target, search.threshold) {
                    AutoSwitch::SwitchAccount { search, current, target }
                } else {
                    Self::next_candidate(search, current)
                },
                Err(_) => Self::next_candidate(search, current),
            },
            (
                AutoSwitch::SwitchAccount { search, current, target },
                AutoSwitchEvent::Switched(r),
            ) => match r {
                Ok(result) => Self::switched(search, current, target, result),
                Err(error) => AutoSwitch::Finished(Err(error)),
            },
            (AutoSwitch::RecordSwitch { entry: _, report }, AutoSwitchEvent::Recorded) =>
                AutoSwitch::Finished(Ok(report)),
            (state, _) => state,
        }
    }
}

/// The account in use is found among the managed accounts: it is the first one
/// with its address, but for the case of ASCII letters.
pub proof fn law_first_account_with_the_address(
    accounts: Seq<AccountView>,
    email: Seq<char>,
    from: int,
)
    requires
        0 <= from,
    ensures
        match email_index(accounts, email, from) {
            Some(i) => {
                &&& from <= i < accounts.len()
                &&& ascii_lower(accounts[i].email) == ascii_lower(email)
                &&& forall|j: int|
                    from <= j < i ==> ascii_lower(#[trigger] accounts[j].email) != ascii_lower(email)
            },
            None => forall|j: int|
                from <= j < accounts.len() ==> ascii_lower(#[trigger] accounts[j].email)
                    != ascii_lower(email),
        },
    decreases accounts.len() - from,
{
    if from < accounts.len() && ascii_lower(accounts[from].email) != ascii_lower(email) {
        law_first_account_with_the_address(accounts, email, from + 1);
    }
}

/// The search moves on to the next account that may be tried, and passes over
/// none.
pub proof fn law_search_passes_over_none(search: SearchView, current_id: u128, from: int)
    ensures
        match search.next_offset(current_id, from) {
            Some(offset) => {
                &&& from <= offset < search.accounts.len()
                &&& search.eligible(current_id, offset)
                &&& forall|k: int| from <= k < offset ==> !#[trigger] search.eligible(current_id, k)
            },
            None => forall|k: int| from <= k ==> !#[trigger] search.eligible(current_id, k),
        },
    decreases search.accounts.len() - from,
{
    if from < search.accounts.len() && !search.eligible(current_id, from) {
        law_search_passes_over_none(search, current_id, from + 1);
    }
}

/// On a ring, different offsets lead to different places: no account is tried
/// twice, and the one in use, at offset zero, is not tried at all.
pub proof fn law_no_account_twice(start: int, a: int, b: int, len: int)
    requires
        0 <= start < len,
        0 <= a < b < len,
    ensures
        ring_index(start, a, len) != ring_index(start, b, len),
{
    lemma_ring_index(start, a, len);
    lemma_ring_index(start, b, len);
}

/// A place on a ring is found by going round once at most.
proof fn lemma_ring_index(start: int, offset: int, len: int)
    requires
        0 <= start < len,
        0 <= offset < len,
    ensures
        ring_index(start, offset, len) == (if start + offset < len {
            start + offset
        } else {
            start + offset - len
        }),
{
    if start + offset < len {
        assert((start + offset) % len == start + offset) by (nonlinear_arith)
            requires
                0 <= start + offset < len,
        ;
    } else {
        assert((start + offset) % len == start + offset - len) by (nonlinear_arith)
            requires
                len <= start + offset < len + len,
        ;
    }
}

impl AutoView {
    /// What holds at every point of an attempt to switch.
    pub open spec fn sound(self) -> bool {
        match self {
            AutoView::ReadCurrentInfo(settings) => settings.auto_switch_account_enabled,
            AutoView::LoadAccounts { settings, email, .. } => {
                &&& settings.auto_switch_account_enabled
                &&& email.len() > 0
            },
            AutoView::RefreshCurrent(search) => {
                &&& search.valid()
                &&& search.offset == 0
                &&& 0 <= search.threshold <= 100
            },
            AutoView::RefreshCandidate { search, current } => {
                &&& search.valid()
                &&& 0 <= search.threshold <= 100
                &&& current.quota_exhausted(search.threshold)
                &&& search.eligible(current.id, search.offset)
            },
            AutoView::SwitchAccount { search, current, target } => {
                &&& search.valid()
                &&& 0 <= search.threshold <= 100
                &&& current.quota_exhausted(search.threshold)
                &&& search.eligible(current.id, search.offset)
                &&& target.usable_quota(search.threshold)
            },
            AutoView::RecordSwitch { report, .. } => outcome_of(report) == (Some(true), Some(true)),
            _ => true,
        }
    }

    /// Whether the work that is to be done next can lead to that event.
    pub open spec fn expects(self, event: AutoEventView) -> bool {
        match self {
            AutoView::LoadSettings => event is SettingsLoaded,
            AutoView::ReadCurrentInfo(_) => event is CurrentInfoRead,
            AutoView::LoadAccounts { .. } => event is AccountsLoaded,
            AutoView::RefreshCurrent(_) => event is Refreshed,
            AutoView::RefreshCandidate { .. } => event is Refreshed,
            AutoView::SwitchAccount { .. } => event is Switched,
            AutoView::RecordSwitch { .. } => event is Recorded,
            AutoView::Finished(_) => false,
        }
    }

    /// The number of stages that are left at most.
    pub open spec fn stages_left(self) -> nat {
        match self {
            AutoView::LoadSettings => 7,
            AutoView::ReadCurrentInfo(_) => 6,
            AutoView::LoadAccounts { .. } => 5,
            AutoView::RefreshCurrent(_) => 4,
            AutoView::RefreshCandidate { .. } => 3,
            AutoView::SwitchAccount { .. } => 2,
            AutoView::RecordSwitch { .. } => 1,
            AutoView::Finished(_) => 0,
        }
    }

    /// The number of accounts behind the one at which the search stands.
    pub open spec fn accounts_left(self) -> int {
        match self {
            AutoView::RefreshCandidate { search, .. } => search.accounts.len() - search.offset,
            _ => 0,
        }
    }
}

/// What holds at every point of an attempt to switch holds at its start and
/// after each event: an account is tried only when switching is turned on, the
/// quota of the account in use is exhausted at a threshold between 0 and 100,
/// and the account tried is another one that can be switched to; and a switch
/// is made only to an account whose quota is usable.
pub proof fn law_attempt_stays_sound(state: AutoView, event: AutoEventView)
    requires
        state.sound(),
    ensures
        AutoView::LoadSettings.sound(),
        auto_next(state, event).sound(),
{
    match (state, event) {
        (AutoView::LoadAccounts { email, .. }, AutoEventView::AccountsLoaded(Ok(accounts))) => {
            law_first_account_with_the_address(accounts, email, 0);
        },
        (AutoView::RefreshCurrent(search), AutoEventView::Refreshed(Ok(current))) => {
            law_search_passes_over_none(search, current.id, 1);
            lemma_eligible_after_move(search, current.id, 1);
        },
        (AutoView::RefreshCandidate { search, current }, AutoEventView::Refreshed(_)) => {
            law_search_passes_over_none(search, current.id, search.offset + 1);
            lemma_eligible_after_move(search, current.id, search.offset + 1);
        },
        (
            AutoView::SwitchAccount { search, current, target },
            AutoEventView::Switched(Ok(result)),
        ) => {
            law_reports_tell_the_outcome(
                current,
                target,
                search.threshold,
                search.client_type,
                result,
            );
        },
        _ => {},
    }
}

/// An attempt ends with the report of a switch exactly where the switch was
/// made and recorded.
pub proof fn law_reported_switch_was_made(state: AutoView, event: AutoEventView, report: JsonView)
    requires
        state.sound(),
        state.expects(event),
        auto_next(state, event) == AutoView::Finished(Ok(report)),
    ensures
        report.bool_at("switched"@) == Some(true) <==> state is RecordSwitch,
{
    match (state, event) {
        (AutoView::RefreshCurrent(search), AutoEventView::Refreshed(Ok(current))) => {
            law_reports_tell_the_outcome(
                current,
                current,
                search.threshold,
                above_threshold(),
                report,
            );
            law_reports_tell_the_outcome(
                current,
                current,
                search.threshold,
                none_available(),
                report,
            );
        },
        (AutoView::RefreshCandidate { search, current }, _) => {
            law_reports_tell_the_outcome(
                current,
                current,
                search.threshold,
                none_available(),
                report,
            );
        },
        (
            AutoView::SwitchAccount { search, current, target },
            AutoEventView::Switched(Ok(result)),
        ) => {
            law_reports_tell_the_outcome(
                current,
                target,
                search.threshold,
                search.client_type,
                result,
            );
        },
        (AutoView::LoadAccounts { email, .. }, _) => {
            lemma_plain_reports(email);
        },
        _ => {
            lemma_plain_reports(Seq::empty());
        },
    }
}

/// The reports that name no account tell of no switch.
proof fn lemma_plain_reports(email: Seq<char>)
    ensures
        outcome_of(unmanaged_report(email)).1 == Some(false),
        outcome_of(no_account_report()).1 == Some(false),
        outcome_of(disabled_report()).1 == Some(false),
{
    law_reports_tell_the_outcome(arbitrary(), arbitrary(), 0, email, JsonView::Null);
}

/// Moving the search does not change which accounts may be tried.
proof fn lemma_eligible_after_move(search: SearchView, current_id: u128, from: int)
    ensures
        search.next_offset(current_id, from) matches Some(offset) ==> (SearchView {
            offset,
            ..search
        }).eligible(current_id, offset),
{
    law_search_passes_over_none(search, current_id, from);
}

/// Every attempt to switch comes to an end: each event that the work leads to
/// brings it to a later stage, or the search to an account further behind; and
/// only a finished attempt expects none.
pub proof fn law_attempt_ends(state: AutoView, event: AutoEventView)
    requires
        state.sound(),
    ensures
        state.expects(event) ==> {
            let next = auto_next(state, event);
            ||| next.stages_left() < state.stages_left()
            ||| next.stages_left() == state.stages_left() && 0 <= next.accounts_left()
                < state.accounts_left()
        },
        !state.expects(event) ==> auto_next(state, event) == state,
        state.stages_left() == 0 <==> state is Finished,
{
    if let AutoView::RefreshCandidate { search, current } = state {
        law_search_passes_over_none(search, current.id, search.offset + 1);
    }
}

/// The end of a search, where `refreshed` tells for each offset what
/// refreshing the account there leads to.
pub open spec fn search_outcome(
    state: AutoView,
    refreshed: spec_fn(int) -> Result<AccountView, Seq<char>>,
) -> AutoView
    decreases state.accounts_left(),
    via search_outcome_decreases
{
    match state {
        AutoView::RefreshCandidate { search, current } => if 0 <= search.offset
            < search.accounts.len() {
            search_outcome(
                auto_next(state, AutoEventView::Refreshed(refreshed(search.offset))),
                refreshed,
            )
        } else {
            state
        },
        _ => state,
    }
}

#[via_fn]
proof fn search_outcome_decreases(
    state: AutoView,
    refreshed: spec_fn(int) -> Result<AccountView, Seq<char>>,
) {
    if let AutoView::RefreshCandidate { search, current } = state {
        law_search_passes_over_none(search, current.id, search.offset + 1);
    }
}

/// Whether the account at that offset can take over: it may be tried, and its
/// quota is usable once it is refreshed.
pub open spec fn takes_over(
    search: SearchView,
    current_id: u128,
    refreshed: spec_fn(int) -> Result<AccountView, Seq<char>>,
    offset: int,
) -> bool {
    &&& search.eligible(current_id, offset)
    &&& refreshed(offset) matches Ok(account) && account.usable_quota(search.threshold)
}

/// The search ends at the first account behind the one in use that can take
/// over; where there is none, it ends with the report that tells so.
pub proof fn law_first_account_takes_over(
    search: SearchView,
    current: AccountView,
    refreshed: spec_fn(int) -> Result<AccountView, Seq<char>>,
    from: int,
)
    requires
        1 <= from,
    ensures
        match search_outcome(search_on(search, current, from), refreshed) {
            AutoView::SwitchAccount { search: found, current: c, target } => {
                &&& c == current
                &&& found == (SearchView { offset: found.offset, ..search })
                &&& from <= found.offset
                &&& takes_over(search, current.id, refreshed, found.offset)
                &&& refreshed(found.offset) == Ok::<AccountView, Seq<char>>(target)
                &&& forall|k: int|
                    from <= k < found.offset ==> !#[trigger] takes_over(
                        search,
                        current.id,
                        refreshed,
                        k,
                    )
            },
            AutoView::Finished(r) => {
                &&& r == Ok::<JsonView, Seq<char>>(
                    unchanged_report(current, search.threshold, none_available()),
                )
                &&& forall|k: int|
                    from <= k ==> !#[trigger] takes_over(search, current.id, refreshed, k)
            },
            _ => false,
        },
    decreases search.accounts.len() - from,
{
    law_search_passes_over_none(search, current.id, from);
    if let Some(offset) = search.next_offset(current.id, from) {
        let moved = SearchView { offset, ..search };
        let state = AutoView::RefreshCandidate { search: moved, current };
        assert(search_on(search, current, from) == state);
        let next = auto_next(state, AutoEventView::Refreshed(refreshed(offset)));
        assert(search_outcome(state, refreshed) == search_outcome(next, refreshed));
        if takes_over(search, current.id, refreshed, offset) {
            assert(next is SwitchAccount);
        } else {
            lemma_move(search, current.id, offset, offset + 1);
            assert(next == search_on(moved, current, offset + 1));
            assert(search_on(moved, current, offset + 1) == search_on(search, current, offset + 1));
            law_first_account_takes_over(search, current, refreshed, offset + 1);
            assert forall|k: int| from <= k < offset implies !#[trigger] takes_over(
                search,
                current.id,
                refreshed,
                k,
            ) by {
                assert(!search.eligible(current.id, k));
            }
        }
    }
}

/// Where the search stands makes no difference to which offset comes next.
proof fn lemma_move(search: SearchView, current_id: u128, offset: int, from: int)
    ensures
        (SearchView { offset, ..search }).next_offset(current_id, from) == search.next_offset(
            current_id,
            from,
        ),
    decreases search.accounts.len() - from,
{
    let moved = SearchView { offset, ..search };
    assert(moved.eligible(current_id, from) == search.eligible(current_id, from));
    if from < search.accounts.len() && !search.eligible(current_id, from) {
        lemma_move(search, current_id, offset, from + 1);
    }
}

/// On the ring of accounts, the one at offset zero is the account in use, and
/// the ones behind it follow in their order, from the first one on again behind
/// the last.
pub proof fn law_accounts_follow_in_a_ring(search: SearchView, k: int)
    requires
        0 <= search.current_index < search.accounts.len(),
        0 <= k < search.accounts.len(),
    ensures
        search.account_at(0) == search.accounts[search.current_index],
        search.current_index + k < search.accounts.len() ==> search.account_at(k)
            == search.accounts[search.current_index + k],
        search.current_index + k >= search.accounts.len() ==> search.account_at(k)
            == search.accounts[search.current_index + k - search.accounts.len()],
{
    lemma_ring_index(search.current_index, 0, search.accounts.len() as int);
    lemma_ring_index(search.current_index, k, search.accounts.len() as int);
}

/// The account that is refreshed first is the account in use: the first one
/// whose address is the one in use but for the case of ASCII letters. The
/// search starts there, over all accounts, with what the settings and the
/// client say.
pub proof fn law_account_in_use_is_refreshed(
    settings: Settings,
    email: Seq<char>,
    client_type: Seq<char>,
    accounts: Seq<AccountView>,
    i: int,
)
    requires
        0 <= i < accounts.len(),
        ascii_lower(accounts[i].email) == ascii_lower(email),
        forall|j: int|
            0 <= j < i ==> ascii_lower((#[trigger] accounts[j]).email) != ascii_lower(email),
    ensures
        ({
            let next = auto_next(
                AutoView::LoadAccounts { settings, email, client_type },
                AutoEventView::AccountsLoaded(Ok(accounts)),
            );
            &&& next.refresh_request() == Some((accounts[i].id, settings.use_lightweight_api))
            &&& next matches AutoView::RefreshCurrent(search) && {
                &&& search.accounts == accounts
                &&& search.current_index == i
                &&& search.offset == 0
                &&& search.lightweight == settings.use_lightweight_api
                &&& search.client_type == client_type
                &&& 0 <= settings.auto_switch_quota_threshold <= 100 ==> search.threshold
                    == settings.auto_switch_quota_threshold
                &&& settings.auto_switch_quota_threshold < 0 ==> search.threshold == 0
                &&& settings.auto_switch_quota_threshold > 100 ==> search.threshold == 100
            }
        }),
{
    law_first_account_with_the_address(accounts, email, 0);
    let found = email_index(accounts, email, 0);
    if found is Some {
        let k = found->0;
        if k < i {
            assert(ascii_lower(accounts[k].email) == ascii_lower(email));
        }
        if k > i {
            assert(ascii_lower(accounts[i].email) != ascii_lower(email));
        }
    } else {
        assert(ascii_lower(accounts[i].email) != ascii_lower(email));
    }
    lemma_ring_index(i, 0, accounts.len() as int);
}

/// Where no account has the address in use, the attempt ends with the report
/// that tells so.
pub proof fn law_foreign_account_is_reported(
    settings: Settings,
    email: Seq<char>,
    client_type: Seq<char>,
    accounts: Seq<AccountView>,
)
    requires
        forall|j: int|
            0 <= j < accounts.len() ==> ascii_lower((#[trigger] accounts[j]).email) != ascii_lower(
                email,
            ),
    ensures
        auto_next(
            AutoView::LoadAccounts { settings, email, client_type },
            AutoEventView::AccountsLoaded(Ok(accounts)),
        ) == AutoView::Finished(Ok(unmanaged_report(email))),
{
    law_first_account_with_the_address(accounts, email, 0);
    if let Some(i) = email_index(accounts, email, 0) {
        assert(ascii_lower(accounts[i].email) == ascii_lower(email));
    }
}

/// A threshold is a percentage: one outside of that range counts as the end of
/// the range that is nearer.
pub proof fn law_threshold_is_a_percentage(n: i32)
    ensures
        0 <= n <= 100 ==> percentage(n) == n,
        n < 0 ==> percentage(n) == 0,
        n > 100 ==> percentage(n) == 100,
{
}

/// The address in use is what the client tells, without the white space around
/// it; and there is none where it tells none, or nothing else.
pub proof fn law_address_in_use(front: Seq<char>, email: Seq<char>, behind: Seq<char>)
    requires
        forall|j: int| 0 <= j < front.len() ==> is_white_space(#[trigger] front[j]),
        forall|j: int| 0 <= j < behind.len() ==> is_white_space(#[trigger] behind[j]),
        email.len() > 0 ==> !is_white_space(email.first()) && !is_white_space(email.last()),
    ensures
        email.len() > 0 ==> active_email(Some(front + email + behind)) == Some(email),
        email.len() == 0 ==> active_email(Some(front + email + behind)) is None,
        active_email(None) is None,
{
    law_trims_white_space_only(front, email, behind);
}

/// How an attempt starts: it ends at once where switching is turned off, or
/// where no account is in use; else the accounts are loaded.
pub proof fn law_how_an_attempt_starts(settings: Settings, info: InfoView)
    ensures
        settings.auto_switch_account_enabled ==> auto_next(
            AutoView::LoadSettings,
            AutoEventView::SettingsLoaded(Ok(settings)),
        ) == AutoView::ReadCurrentInfo(settings),
        !settings.auto_switch_account_enabled ==> auto_next(
            AutoView::LoadSettings,
            AutoEventView::SettingsLoaded(Ok(settings)),
        ) == AutoView::Finished(Ok(disabled_report())),
        ({
            let next = auto_next(
                AutoView::ReadCurrentInfo(settings),
                AutoEventView::CurrentInfoRead(Ok(info)),
            );
            &&& active_email(info.email) is None ==> next == AutoView::Finished(
                Ok(no_account_report()),
            )
            &&& active_email(info.email) matches Some(email) ==> next == (AutoView::LoadAccounts {
                settings,
                email,
                client_type: info.client_type,
            })
        }),
{
}

/// An account may be tried exactly where it is behind the account in use on the
/// ring, is another one than that, by its identifier, and can be switched to.
pub proof fn law_who_may_be_tried(search: SearchView, current_id: u128, k: int)
    requires
        0 <= search.current_index < search.accounts.len(),
    ensures
        k < 1 || k >= search.accounts.len() ==> !search.eligible(current_id, k),
        1 <= k < search.accounts.len() ==> {
            let at = if search.current_index + k < search.accounts.len() {
                search.current_index + k
            } else {
                search.current_index + k - search.accounts.len()
            };
            search.eligible(current_id, k) <==> search.accounts[at].id != current_id
                && search.accounts[at].switch_candidate()
        },
{
    if 1 <= k < search.accounts.len() {
        law_accounts_follow_in_a_ring(search, k);
    }
}

/// What the quota of the account in use decides, once it has been refreshed:
/// where it is not exhausted the account stays in use; else the first account
/// behind it that may be tried is refreshed next; and where there is none, the
/// account stays in use.
pub proof fn law_quota_in_use_decides(search: SearchView, current: AccountView, k: int)
    requires
        1 <= k,
        forall|j: int| 1 <= j < k ==> !#[trigger] search.eligible(current.id, j),
    ensures
        ({
            let next = auto_next(
                AutoView::RefreshCurrent(search),
                AutoEventView::Refreshed(Ok(current)),
            );
            &&& !current.quota_exhausted(search.threshold) ==> next == AutoView::Finished(
                Ok(
                    unchanged_report(
                        current,
                        search.threshold,
                        "Current account quota is still above the threshold"@,
                    ),
                ),
            )
            &&& current.quota_exhausted(search.threshold) && search.eligible(current.id, k) ==> next
                == (AutoView::RefreshCandidate {
                search: SearchView { offset: k, ..search },
                current,
            })
            &&& current.quota_exhausted(search.threshold) && k >= search.accounts.len() ==> next
                == AutoView::Finished(
                Ok(
                    unchanged_report(
                        current,
                        search.threshold,
                        "No available account with enough daily and weekly quota was found"@,
                    ),
                ),
            )
        }),
{
    lemma_next_offset_is(search, current.id, 1, k);
}

/// What the quota of an account that is tried decides, once it has been
/// refreshed: where it is usable the account is switched to; else, or where the
/// refresh failed, the next account behind it that may be tried is refreshed;
/// and where there is none, the account in use stays in use.
pub proof fn law_quota_of_a_candidate_decides(
    search: SearchView,
    current: AccountView,
    target: AccountView,
    error: Seq<char>,
    k: int,
)
    requires
        0 <= search.offset < k,
        forall|j: int| search.offset < j < k ==> !#[trigger] search.eligible(current.id, j),
    ensures
        ({
            let tried = AutoView::RefreshCandidate { search, current };
            let refreshed = auto_next(tried, AutoEventView::Refreshed(Ok(target)));
            let failed = auto_next(tried, AutoEventView::Refreshed(Err(error)));
            let usable = target.usable_quota(search.threshold);
            let found = AutoView::RefreshCandidate {
                search: SearchView { offset: k, ..search },
                current,
            };
            let none = AutoView::Finished(
                Ok(
                    unchanged_report(
                        current,
                        search.threshold,
                        "No available account with enough daily and weekly quota was found"@,
                    ),
                ),
            );
            &&& usable ==> refreshed == (AutoView::SwitchAccount { search, current, target })
            &&& !usable && search.eligible(current.id, k) ==> refreshed == found
            &&& !usable && k >= search.accounts.len() ==> refreshed == none
            &&& search.eligible(current.id, k) ==> failed == found
            &&& k >= search.accounts.len() ==> failed == none
        }),
{
    lemma_next_offset_is(search, current.id, search.offset + 1, k);
}

/// The next offset is the first one at which the account may be tried.
proof fn lemma_next_offset_is(search: SearchView, current_id: u128, from: int, k: int)
    requires
        1 <= from <= k,
        forall|j: int| from <= j < k ==> !#[trigger] search.eligible(current_id, j),
    ensures
        search.eligible(current_id, k) ==> search.next_offset(current_id, from) == Some(k),
        k >= search.accounts.len() ==> search.next_offset(current_id, from) is None,
{
    law_search_passes_over_none(search, current_id, from);
    if let Some(offset) = search.next_offset(current_id, from) {
        if offset < k {
            assert(!search.eligible(current_id, offset));
        }
    }
}

/// A switch is asked for with the identifier of the target, as it is written,
/// and the kind of client in use; and a refresh with the identifier of the
/// account at which the search stands.
pub proof fn law_what_is_asked_for(
    search: SearchView,
    current: AccountView,
    target: AccountView,
    settings: Settings,
    email: Seq<char>,
    entry: LogView,
    report: JsonView,
    end: Result<JsonView, Seq<char>>,
)
    requires
        0 <= search.current_index < search.accounts.len(),
        0 <= search.offset < search.accounts.len(),
    ensures
        ({
            let at = if search.current_index + search.offset < search.accounts.len() {
                search.current_index + search.offset
            } else {
                search.current_index + search.offset - search.accounts.len()
            };
            let request = Some((search.accounts[at].id, search.lightweight));
            &&& AutoView::RefreshCurrent(search).refresh_request() == request
            &&& (AutoView::RefreshCandidate { search, current }).refresh_request() == request
        }),
        (AutoView::SwitchAccount { search, current, target }).refresh_request() is None,
        (AutoView::SwitchAccount { search, current, target }).switch_request() == Some(
            (hyphenated(target.id), Some(search.client_type)),
        ),
        AutoView::RefreshCurrent(search).switch_request() is None,
        (AutoView::RefreshCandidate { search, current }).switch_request() is None,
        ({
            let loading = AutoView::LoadAccounts { settings, email, client_type: email };
            let recording = AutoView::RecordSwitch { entry, report };
            &&& AutoView::LoadSettings.refresh_request() is None
            &&& AutoView::LoadSettings.switch_request() is None
            &&& AutoView::ReadCurrentInfo(settings).refresh_request() is None
            &&& AutoView::ReadCurrentInfo(settings).switch_request() is None
            &&& loading.refresh_request() is None && loading.switch_request() is None
            &&& recording.refresh_request() is None && recording.switch_request() is None
            &&& AutoView::Finished(end).refresh_request() is None
            &&& AutoView::Finished(end).switch_request() is None
        }),
{
    law_accounts_follow_in_a_ring(search, search.offset);
}

/// What follows a switch: one that succeeded is recorded, on the target, and
/// then reported; one that did not is reported at once.
pub proof fn law_after_the_switch(
    search: SearchView,
    current: AccountView,
    target: AccountView,
    result: JsonView,
    entry: LogView,
    report: JsonView,
)
    ensures
        ({
            let next = auto_next(
                AutoView::SwitchAccount { search, current, target },
                AutoEventView::Switched(Ok(result)),
            );
            let told = switch_report(
                current,
                target,
                search.threshold,
                search.client_type,
                result,
            );
            let done = result.get("success"@) == Some(JsonView::Bool(true));
            &&& !done ==> next == AutoView::Finished(Ok(told))
            &&& done ==> next == (AutoView::RecordSwitch {
                entry: LogView {
                    operation_type: OperationType::SwitchAccount,
                    status: OperationStatus::Success,
                    message: "Auto-switch account: "@ + current.email + " -> "@ + target.email,
                    account_id: target.id,
                    account_email: target.email,
                },
                report: told,
            })
        }),
        auto_next(AutoView::RecordSwitch { entry, report }, AutoEventView::Recorded)
            == AutoView::Finished(Ok(report)),
{
}

/// A failure ends the attempt with that failure, but for that of an account
/// that is only tried.
pub proof fn law_failures_end_an_attempt(
    settings: Settings,
    email: Seq<char>,
    client_type: Seq<char>,
    search: SearchView,
    current: AccountView,
    target: AccountView,
    error: Seq<char>,
)
    ensures
        ({
            let failed = AutoView::Finished(Err(error));
            &&& auto_next(AutoView::LoadSettings, AutoEventView::SettingsLoaded(Err(error)))
                == failed
            &&& auto_next(
                AutoView::ReadCurrentInfo(settings),
                AutoEventView::CurrentInfoRead(Err(error)),
            ) == failed
            &&& auto_next(
                AutoView::LoadAccounts { settings, email, client_type },
                AutoEventView::AccountsLoaded(Err(error)),
            ) == failed
            &&& auto_next(
                AutoView::RefreshCurrent(search),
                AutoEventView::Refreshed(Err(error)),
            ) == failed
            &&& auto_next(
                AutoView::SwitchAccount { search, current, target },
                AutoEventView::Switched(Err(error)),
            ) == failed
        }),
{
}

/// The views of an attempt, of what its work has led to, and of what it is made
/// of are these, field by field.
pub proof fn law_view_is_the_attempt(
    settings: Settings,
    info: CurrentInfo,
    accounts: Vec<Account>,
    search: Search,
    current: Account,
    target: Account,
    entry: LogEntry,
    value: Json,
    s: String,
    t: String,
)
    ensures
        info.email matches Some(e) ==> info@.email == Some(e@),
        info.email is None ==> info@.email is None,
        info@.client_type == info.client_type@,
        entry@.operation_type == entry.operation_type,
        entry@.status == entry.status,
        entry@.message == entry.message@,
        entry@.account_id == entry.account_id,
        entry@.account_email == entry.account_email@,
        accounts_view(accounts@).len() == accounts@.len(),
        forall|i: int|
            0 <= i < accounts@.len() ==> #[trigger] accounts_view(accounts@)[i] == accounts@[i]@,
        AutoSwitch::LoadSettings@ == AutoView::LoadSettings,
        AutoSwitch::ReadCurrentInfo(settings)@ == AutoView::ReadCurrentInfo(settings),
        (AutoSwitch::LoadAccounts { settings, email: s, client_type: t })@ == (
        AutoView::LoadAccounts { settings, email: s@, client_type: t@ }),
        AutoSwitch::RefreshCurrent(search)@ == AutoView::RefreshCurrent(search@),
        (AutoSwitch::RefreshCandidate { search, current })@ == (AutoView::RefreshCandidate {
            search: search@,
            current: current@,
        }),
        (AutoSwitch::SwitchAccount { search, current, target })@ == (AutoView::SwitchAccount {
            search: search@,
            current: current@,
            target: target@,
        }),
        (AutoSwitch::RecordSwitch { entry, report: value })@ == (AutoView::RecordSwitch {
            entry: entry@,
            report: value@,
        }),
        AutoSwitch::Finished(Ok(value))@ == AutoView::Finished(Ok(value@)),
        AutoSwitch::Finished(Err(s))@ == AutoView::Finished(Err(s@)),
        AutoSwitchEvent::SettingsLoaded(Ok(settings))@ == AutoEventView::SettingsLoaded(
            Ok(settings),
        ),
        AutoSwitchEvent::SettingsLoaded(Err(s))@ == AutoEventView::SettingsLoaded(Err(s@)),
        AutoSwitchEvent::CurrentInfoRead(Ok(info))@ == AutoEventView::CurrentInfoRead(Ok(info@)),
        AutoSwitchEvent::CurrentInfoRead(Err(s))@ == AutoEventView::CurrentInfoRead(Err(s@)),
        AutoSwitchEvent::AccountsLoaded(Ok(accounts))@ == AutoEventView::AccountsLoaded(
            Ok(accounts_view(accounts@)),
        ),
        AutoSwitchEvent::AccountsLoaded(Err(s))@ == AutoEventView::AccountsLoaded(Err(s@)),
        AutoSwitchEvent::Refreshed(Ok(current))@ == AutoEventView::Refreshed(Ok(current@)),
        AutoSwitchEvent::Refreshed(Err(s))@ == AutoEventView::Refreshed(Err(s@)),
        AutoSwitchEvent::Switched(Ok(value))@ == AutoEventView::Switched(Ok(value@)),
        AutoSwitchEvent::Switched(Err(s))@ == AutoEventView::Switched(Err(s@)),
        AutoSwitchEvent::Recorded@ == AutoEventView::Recorded,
{
}

/// What a work cannot lead to changes nothing: each work leads to its own kind
/// of event.
pub proof fn law_other_events_do_not_count(state: AutoView, event: AutoEventView)
    ensures
        state is LoadSettings && !(event is SettingsLoaded) ==> auto_next(state, event) == state,
        state is ReadCurrentInfo && !(event is CurrentInfoRead) ==> auto_next(state, event)
            == state,
        state is LoadAccounts && !(event is AccountsLoaded) ==> auto_next(state, event) == state,
        state is RefreshCurrent && !(event is Refreshed) ==> auto_next(state, event) == state,
        state is RefreshCandidate && !(event is Refreshed) ==> auto_next(state, event) == state,
        state is SwitchAccount && !(event is Switched) ==> auto_next(state, event) == state,
        state is RecordSwitch && !(event is Recorded) ==> auto_next(state, event) == state,
        state is Finished ==> auto_next(state, event) == state,
{
}

} // verus!
