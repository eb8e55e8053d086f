//! What the replies of the server change.

use vstd::prelude::*;

use crate::api::dto::{
    AccountDto, AccountState, AccountView, BackupAction, EnableBackupResponse, EventDto, FlowDto,
    FlowStage, FlowView, RoomDto,
};
use crate::app::accounts::{
    account_position, accounts_kept, copy_account, find_account, inactive_of, kept_selection,
};
use crate::app::choice::{event_position, room_key, AccountSelection, RoomKey, RoomKeyView};
use crate::app::lifecycle::{
    backup_enable_success_status, backup_text, lifecycle_login_status, lifecycle_success_status,
    line_set, login_text, offers_recovery, prompted, recovered_text, recovery_prompt,
    recovery_success_status, said, should_offer_post_login_recovery, success_text, with_warning,
    AccountPurpose, LifecycleTask, TaskView,
};
use crate::app::refresh::rooms_refreshed;
use crate::app::room_list::selection_in_list;
use crate::app::state::{
    AccountsState, App, Busy, LiveState, MessagePane, Mode, ModeView, RecoveryOrigin, Session,
};
use crate::app::status::{status_text, Status, StatusView};
use crate::app::targets::{
    resolve_account_target, resolved, AccountResolution, AccountResolutionView, Eligible,
};
use crate::app::verification::{
    flow_matches, terminal, with_flow, StageView, VerificationFlow, VerificationFlowView,
    VerificationStage,
};
use crate::app::verify::{flow_of, flow_open, window_frame};
use crate::keyed::Key;
use crate::text::{
    cat2, cat3, cat4, join, joined, option_str, option_view, same_option, same_text, views,
};

verus! {

/// Why a flow could not be read again.
#[derive(Debug)]
pub enum VerifyResyncError {
    NotFound,
    Other(String),
}

/// What came of a task.
#[derive(Debug)]
#[allow(inconsistent_fields)]
pub enum LifecycleOutcome {
    Login {
        username: String,
        prior_account_ids: Vec<u128>,
        result: Result<AccountDto, String>,
    },
    /// The accounts among which the one to log out is looked for.
    LogoutReady { target: Option<String>, result: Result<Vec<AccountDto>, String> },
    RecoverReady { target: Option<String>, result: Result<Vec<AccountDto>, String> },
    BackupEnableReady { target: Option<String>, result: Result<Vec<AccountDto>, String> },
    DeleteReady { target: Option<String>, result: Result<Vec<AccountDto>, String> },
    Logout { user_id: String, result: Result<AccountDto, String> },
    Recover { user_id: String, result: Result<AccountDto, String> },
    BackupEnable { user_id: String, result: Result<EnableBackupResponse, String> },
    Delete { user_id: String, result: Result<(), String> },
    MessageSent { key: RoomKey, temp_id: String, result: Result<String, String> },
    MediaSent { key: RoomKey, result: Result<String, String> },
    VerifyStarted { account_id: u128, result: Result<String, String> },
    VerifyConfirmed { account_id: u128, flow_id: String, result: Result<(), String> },
    VerifyCancelled { result: Result<(), String> },
    VerifyResynced {
        account_id: u128,
        flow_id: String,
        result: Result<FlowDto, VerifyResyncError>,
    },
    VerifyDiscovered { account_id: u128, result: Result<Vec<FlowDto>, String> },
    /// A better answer to `/whoami`, shown while the first one still is.
    WhoamiDevice { provisional: String, enriched: String },
}

/// What is left to do after accounts and rooms were read again.
#[derive(Debug)]
pub enum LifecycleFinish {
    Login { account: AccountDto, already_active: bool },
    Logout { user_id: String },
    Recover { user_id: String, verified: Option<bool> },
    BackupEnable { user_id: String, action: BackupAction },
    Delete { user_id: String },
}

#[allow(inconsistent_fields)]
pub enum FinishView {
    Login { account: AccountView, already_active: bool },
    Logout { user_id: Seq<char> },
    Recover { user_id: Seq<char>, verified: Option<bool> },
    BackupEnable { user_id: Seq<char>, action: BackupAction },
    Delete { user_id: Seq<char> },
}

impl View for LifecycleFinish {
    type V = FinishView;

    open spec fn view(&self) -> FinishView {
        match self {
            LifecycleFinish::Login { account, already_active } => FinishView::Login {
                account: account@,
                already_active: *already_active,
            },
            LifecycleFinish::Logout { user_id } => FinishView::Logout { user_id: user_id@ },
            LifecycleFinish::Recover { user_id, verified } => FinishView::Recover {
                user_id: user_id@,
                verified: *verified,
            },
            LifecycleFinish::BackupEnable { user_id, action } => FinishView::BackupEnable {
                user_id: user_id@,
                action: *action,
            },
            LifecycleFinish::Delete { user_id } => FinishView::Delete { user_id: user_id@ },
        }
    }
}

/// What comes next: tasks, or reading accounts and rooms again and then finishing.
#[derive(Debug)]
pub enum LifecycleStep {
    Done(Vec<LifecycleTask>),
    Refresh(LifecycleFinish),
}

pub enum StepView {
    Done(Seq<TaskView>),
    Refresh(FinishView),
}

impl View for LifecycleStep {
    type V = StepView;

    open spec fn view(&self) -> StepView {
        match self {
            LifecycleStep::Done(tasks) => StepView::Done(views(tasks@)),
            LifecycleStep::Refresh(finish) => StepView::Refresh(finish@),
        }
    }
}

// ---------------------------------------------------------------------------
// Responses to commands
// ---------------------------------------------------------------------------

/// Whether the answer to a command was kept, to be shown where it fits.
pub open spec fn response_queued(before: App, after: App) -> bool {
    let text = status_text(before.status@, before.display.debug);
    &&& after == (App { session: after.session, ..before })
    &&& after.session == (Session {
        pending_command_response: after.session.pending_command_response,
        ..before.session
    })
    &&& if before.mode@ is Compose && !before.mid_command() && text.len() > 0 {
        option_view(after.session.pending_command_response) == Some(text)
    } else {
        after.session == before.session
    }
}

impl App {
    pub fn queue_completed_command_response(&mut self)
        ensures
            response_queued(*old(self), *final(self)),
    {
        if !self.mode.is_compose() || self.is_mid_command() {
            return ;
        }
        let response = self.status.text(self.display.debug);
        if !response.as_str().is_empty() {
            self.session.pending_command_response = Some(response);
        }
    }

    /// The client after an operation on an account ended: it is no longer busy, and
    /// an answer that no window shows is dropped.
    pub open spec fn settled(self) -> App {
        App {
            busy: Busy { lifecycle: false, ..self.busy },
            session: if self.mode@ is Popup {
                self.session
            } else {
                Session { pending_command_response: None, ..self.session }
            },
            ..self
        }
    }
}

// ---------------------------------------------------------------------------
// Messages
// ---------------------------------------------------------------------------

/// The ids of events.
pub open spec fn stored_ids(events: Seq<EventDto>) -> Seq<Seq<char>> {
    Seq::new(events.len(), |i: int| events[i].event_id@)
}

/// The first position of an event in a list, or the length of the list.
pub open spec fn stored_at(events: Seq<EventDto>, id: Seq<char>) -> int {
    event_position(stored_ids(events), id)
}

pub proof fn lemma_stored_at(events: Seq<EventDto>, id: Seq<char>, at: int)
    requires
        0 <= at <= events.len(),
        forall|k: int| 0 <= k < at ==> (#[trigger] events[k]).event_id@ != id,
        at < events.len() ==> events[at].event_id@ == id,
    ensures
        stored_at(events, id) == at,
{
    lemma_position(stored_ids(events), id, at);
}

proof fn lemma_position(ids: Seq<Seq<char>>, id: Seq<char>, at: int)
    requires
        0 <= at <= ids.len(),
        forall|k: int| 0 <= k < at ==> #[trigger] ids[k] != id,
        at < ids.len() ==> ids[at] == id,
    ensures
        event_position(ids, id) == at,
    decreases at,
{
    if at > 0 {
        assert(ids[0] != id);
        assert forall|k: int| 0 <= k < at - 1 implies #[trigger] ids.drop_first()[k] != id by {
            assert(ids.drop_first()[k] == ids[k + 1]);
        }
        lemma_position(ids.drop_first(), id, at - 1);
    }
}

pub fn find_stored(events: &Vec<EventDto>, id: &str) -> (at: usize)
    ensures
        at == stored_at(events@, id@),
        at <= events.len(),
        at < events.len() ==> events@[at as int].event_id@ == id@,
{
    let mut i: usize = 0;
    while i < events.len()
        invariant
            i <= events.len(),
            forall|k: int| 0 <= k < i ==> (#[trigger] events@[k]).event_id@ != id@,
        decreases events.len() - i,
    {
        if same_text(events[i].event_id.as_str(), id) {
            proof {
                lemma_stored_at(events@, id@, i as int);
            }
            return i;
        }
        i = i + 1;
    }
    proof {
        lemma_stored_at(events@, id@, i as int);
    }
    i
}

/// Where an event of a room is kept, if it is.
pub open spec fn kept_at(
    events: Map<RoomKeyView, Vec<EventDto>>,
    key: RoomKeyView,
    id: Seq<char>,
) -> Option<int> {
    if events.dom().contains(key) && stored_at(events[key]@, id) < events[key]@.len() {
        Some(stored_at(events[key]@, id))
    } else {
        None
    }
}

/// Whether one event of a room became another.
pub open spec fn event_replaced(
    before: Map<RoomKeyView, Vec<EventDto>>,
    after: Map<RoomKeyView, Vec<EventDto>>,
    key: RoomKeyView,
    at: int,
    event: EventDto,
) -> bool {
    &&& after.dom() == before.dom()
    &&& forall|k: RoomKeyView| k != key && before.dom().contains(k) ==> #[trigger] after[k] == before[k]
    &&& after[key]@ == before[key]@.update(at, event)
}

/// What became of a message that was shown before the server confirmed it: it has
/// its id, or says that it was not sent.
pub open spec fn echo_settled(event: EventDto, after: EventDto, result: Result<String, String>) -> bool {
    match result {
        Ok(id) => after == (EventDto { event_id: after.event_id, ..event }) && after.event_id@ == id@,
        Err(e) => after == (EventDto { body: after.body, ..event }) && option_view(after.body) == Some(
            "[send failed: "@ + e@ + "]"@,
        ),
    }
}

/// Whether the reply to a message was taken over.
pub open spec fn message_sent(
    before: App,
    after: App,
    key: RoomKeyView,
    temp_id: Seq<char>,
    result: Result<String, String>,
) -> bool {
    &&& after == (App {
        messages: after.messages,
        live: after.live,
        status: after.status,
        ..before
    })
    &&& after.messages == (MessagePane { events: after.messages.events, ..before.messages })
    &&& after.live == (LiveState {
        pending_own_event_id: after.live.pending_own_event_id,
        ..before.live
    })
    &&& match kept_at(before.messages.events@, key, temp_id) {
        Some(at) => {
            let event = before.messages.events@[key]@[at];
            let changed = after.messages.events@[key]@[at];
            &&& event_replaced(
                before.messages.events@,
                after.messages.events@,
                key,
                at,
                changed,
            )
            &&& echo_settled(event, changed, result)
        },
        None => after.messages == before.messages,
    }
    &&& match result {
        Ok(id) => {
            &&& option_view(after.live.pending_own_event_id) == Some(id@)
            &&& after.status@ == (StatusView::EventAction {
                debug: "sent: "@ + id@,
                redacted: "sent"@,
            })
        },
        Err(e) => {
            &&& after.live == before.live
            &&& after.status@ == StatusView::Info("send failed: "@ + e@)
        },
    }
}

impl MessagePane {
    /// Takes an event of a room out of its list, to be put back changed.
    pub fn take_event(&mut self, key: &RoomKey, id: &str) -> (out: Option<(Vec<EventDto>, usize, EventDto)>)
        ensures
            match out {
                Some((rest, at, event)) => {
                    &&& kept_at(old(self).events@, key@, id@) == Some(at as int)
                    &&& at <= rest@.len()
                    &&& rest@.insert(at as int, event) == old(self).events@[key@]@
                    &&& event == old(self).events@[key@]@[at as int]
                    &&& *final(self) == (MessagePane { events: final(self).events, ..*old(self) })
                    &&& final(self).events@ == old(self).events@.remove(key@)
                },
                None => kept_at(old(self).events@, key@, id@) is None && *final(self) == *old(self),
            },
    {
        let at: usize = match self.events.get(key) {
            Some(list) => {
                let at: usize = find_stored(list, id);
                if at == list.len() {
                    return None;
                }
                at
            },
            None => return None,
        };
        let ghost all = self.events@[key@]@;
        match self.events.remove(key) {
            Some(list) => {
                let mut rest = list;
                let event = rest.remove(at);
                assert(rest@.insert(at as int, event) =~= all);
                Some((rest, at, event))
            },
            None => None,
        }
    }

    /// Puts an event back into the list of a room.
    pub fn put_event(&mut self, key: &RoomKey, rest: Vec<EventDto>, at: usize, event: EventDto)
        requires
            at <= rest@.len(),
        ensures
            *final(self) == (MessagePane { events: final(self).events, ..*old(self) }),
            final(self).events@.dom() == old(self).events@.dom().insert(key@),
            forall|k: RoomKeyView|
                k != key@ && old(self).events@.dom().contains(k) ==> #[trigger] final(self).events@[k]
                    == old(self).events@[k],
            final(self).events@[key@]@ == rest@.insert(at as int, event),
    {
        let mut list = rest;
        list.insert(at, event);
        self.events.insert(key.duplicate(), list);
    }
}

impl App {
    fn apply_message_sent(&mut self, key: RoomKey, temp_id: String, result: Result<String, String>)
        ensures
            message_sent(*old(self), *final(self), key@, temp_id@, result),
    {
        let ghost before = self.messages.events@;
        if let Some((rest, at, event)) = self.messages.take_event(&key, temp_id.as_str()) {
            let ghost original = event;
            let mut changed = event;
            match &result {
                Ok(id) => {
                    changed.event_id = id.clone();
                },
                Err(e) => {
                    changed.body = Some(cat3("[send failed: ", e.as_str(), "]"));
                },
            }
            let ghost now = changed;
            let ghost list = rest@;
            self.messages.put_event(&key, rest, at, changed);
            proof {
                assert(before[key@]@ == list.insert(at as int, original));
                assert(list.insert(at as int, now) =~= list.insert(at as int, original).update(
                    at as int,
                    now,
                ));
                assert(self.messages.events@.dom() =~= before.dom());
                assert(self.messages.events@[key@]@[at as int] == now);
            }
        }
        match result {
            Ok(id) => {
                let text = cat2("sent: ", id.as_str());
                self.live.pending_own_event_id = Some(id);
                self.status = Status::EventAction { debug: text, redacted: "sent" };
            },
            Err(e) => {
                self.status = Status::Info(cat2("send failed: ", e.as_str()));
            },
        }
    }
}

/// Whether the reply to an upload was taken over. The status says the room where it
/// is not the one on the screen.
pub open spec fn media_sent(
    before: App,
    after: App,
    key: RoomKeyView,
    result: Result<String, String>,
) -> bool {
    let here = before.room() is Some && room_key(before.room()->0@) == key;
    &&& after == (App { live: after.live, status: after.status, busy: after.busy, ..before })
    &&& after.busy == (Busy { media_send: false, ..before.busy })
    &&& after.live == (LiveState {
        pending_own_event_id: after.live.pending_own_event_id,
        ..before.live
    })
    &&& match result {
        Ok(id) => {
            &&& option_view(after.live.pending_own_event_id) == Some(id@)
            &&& after.status@ == (if here {
                StatusView::EventAction { debug: "sent: "@ + id@, redacted: "sent"@ }
            } else {
                StatusView::Info("sent to "@ + key.room_id + ": "@ + id@)
            })
        },
        Err(e) => {
            &&& after.live == before.live
            &&& after.status@ == StatusView::Info(
                if here {
                    "send failed: "@ + e@
                } else {
                    "send failed in "@ + key.room_id + ": "@ + e@
                },
            )
        },
    }
}

/// Whether a better answer to `/whoami` replaced the first one. It does while that
/// is still shown.
pub open spec fn whoami_enriched(
    before: App,
    after: App,
    provisional: Seq<char>,
    enriched: Seq<char>,
) -> bool {
    if status_text(before.status@, false) == provisional {
        &&& after == (App { status: after.status, session: after.session, ..before })
        &&& after.status@ == StatusView::Info(enriched)
        &&& after.session == (Session {
            pending_command_response: after.session.pending_command_response,
            ..before.session
        })
        &&& if option_view(before.session.pending_command_response) == Some(provisional) {
            option_view(after.session.pending_command_response) == Some(enriched)
        } else {
            after.session == before.session
        }
    } else {
        after == before
    }
}

impl App {
    fn is_selected(&self, key: &RoomKey) -> (r: bool)
        ensures
            r == (self.room() is Some && room_key(self.room()->0@) == key@),
    {
        match self.selected_room() {
            Some(room) => {
                let here = RoomKey::of(room);
                here.same(key)
            },
            None => false,
        }
    }

    fn apply_media_sent(&mut self, key: RoomKey, result: Result<String, String>)
        ensures
            media_sent(*old(self), *final(self), key@, result),
    {
        let here = self.is_selected(&key);
        self.busy.media_send = false;
        match result {
            Ok(id) => {
                self.status = if here {
                    Status::EventAction { debug: cat2("sent: ", id.as_str()), redacted: "sent" }
                } else {
                    Status::Info(cat4("sent to ", key.room_id.as_str(), ": ", id.as_str()))
                };
                self.live.pending_own_event_id = Some(id);
            },
            Err(e) => {
                let text = if here {
                    cat2("send failed: ", e.as_str())
                } else {
                    cat4("send failed in ", key.room_id.as_str(), ": ", e.as_str())
                };
                self.status = Status::Info(text);
            },
        }
    }

    fn apply_whoami(&mut self, provisional: String, enriched: String)
        ensures
            whoami_enriched(*old(self), *final(self), provisional@, enriched@),
    {
        let shown = self.status.text(false);
        if same_text(shown.as_str(), provisional.as_str()) {
            let kept = same_option(
                option_str(&self.session.pending_command_response),
                Some(provisional.as_str()),
            );
            self.status = Status::info(enriched.as_str());
            if kept {
                self.session.pending_command_response = Some(enriched);
            }
        }
    }
}

// ---------------------------------------------------------------------------
// Accounts that are ready
// ---------------------------------------------------------------------------

/// The command that a purpose belongs to.
pub open spec fn purpose_command(purpose: AccountPurpose) -> Seq<char> {
    match purpose {
        AccountPurpose::Logout => "/logout"@,
        AccountPurpose::Recover => "/recover"@,
        AccountPurpose::BackupEnable => "/backup enable"@,
        AccountPurpose::Delete => "/delete"@,
    }
}

fn command_of(purpose: AccountPurpose) -> (out: &'static str)
    ensures
        out@ == purpose_command(purpose),
{
    match purpose {
        AccountPurpose::Logout => "/logout",
        AccountPurpose::Recover => "/recover",
        AccountPurpose::BackupEnable => "/backup enable",
        AccountPurpose::Delete => "/delete",
    }
}

pub open spec fn purpose_name(purpose: AccountPurpose) -> Seq<char> {
    match purpose {
        AccountPurpose::Logout => "logout"@,
        AccountPurpose::Recover => "recovery"@,
        AccountPurpose::BackupEnable => "backup enable"@,
        AccountPurpose::Delete => "delete"@,
    }
}

fn name_of(purpose: AccountPurpose) -> (out: &'static str)
    ensures
        out@ == purpose_name(purpose),
{
    match purpose {
        AccountPurpose::Logout => "logout",
        AccountPurpose::Recover => "recovery",
        AccountPurpose::BackupEnable => "backup enable",
        AccountPurpose::Delete => "delete",
    }
}

pub open spec fn purpose_accounts(purpose: AccountPurpose) -> Eligible {
    match purpose {
        AccountPurpose::Delete => Eligible::NotDeleting,
        _ => Eligible::Active,
    }
}

/// The command with its target, as it was typed.
pub open spec fn typed_command(purpose: AccountPurpose, target: Option<Seq<char>>) -> Seq<char> {
    match target {
        Some(t) => if t.len() > 0 {
            purpose_command(purpose) + " "@ + t
        } else {
            purpose_command(purpose)
        },
        None => purpose_command(purpose),
    }
}

/// Whether the command stands in the line again, to be corrected.
pub open spec fn restored(
    before: App,
    after: App,
    purpose: AccountPurpose,
    target: Option<Seq<char>>,
    text: Seq<char>,
) -> bool {
    &&& after == (App { input: after.input, mode: after.mode, status: after.status, ..before })
    &&& after.mode@ == ModeView::Compose
    &&& line_set(before.input, after.input, typed_command(purpose, target))
    &&& after.status@ == StatusView::Info(text)
}

pub open spec fn ambiguous_text(purpose: AccountPurpose, options: Seq<Seq<char>>) -> Seq<char> {
    purpose_name(purpose) + " target is ambiguous: "@ + joined(options, ", "@)
        + " - press Tab to choose"@
}

pub open spec fn missing_text(purpose: AccountPurpose, target: Option<Seq<char>>) -> Seq<char> {
    let given = target is Some && target->0.len() > 0;
    match purpose {
        AccountPurpose::Delete => if given {
            "no account matches: "@ + target->0
        } else {
            "no accounts"@
        },
        _ => if given {
            "no active account matches: "@ + target->0
        } else {
            "no active accounts"@
        },
    }
}

fn describe_missing(purpose: AccountPurpose, target: &Option<String>) -> (out: String)
    ensures
        out@ == missing_text(purpose, option_view(*target)),
{
    let given = match target {
        Some(t) => if t.as_str().is_empty() {
            None
        } else {
            Some(t.as_str())
        },
        None => None,
    };
    match purpose {
        AccountPurpose::Delete => match given {
            Some(t) => cat2("no account matches: ", t),
            None => "no accounts".to_owned(),
        },
        _ => match given {
            Some(t) => cat2("no active account matches: ", t),
            None => "no active accounts".to_owned(),
        },
    }
}

/// Whether the listed accounts were taken over. All of them can be deleted; for
/// anything else only the active ones are shown.
pub open spec fn accounts_taken(
    before: App,
    after: App,
    purpose: AccountPurpose,
    listed: Seq<AccountView>,
) -> bool {
    &&& after == (App { accounts: after.accounts, ..before })
    &&& views(after.accounts.client_visible@) == listed
    &&& after.accounts.inactive_ids@ == inactive_of(listed)
    &&& after.accounts.scroll == before.accounts.scroll
    &&& after.accounts.page_size == before.accounts.page_size
    &&& if purpose == AccountPurpose::Delete {
        &&& views(after.accounts.accounts@) == listed
        &&& after.accounts.selected == before.accounts.selected
    } else {
        &&& views(after.accounts.accounts@) == accounts_kept(listed, before.account_filter)
        &&& after.accounts.selected == kept_selection(
            before.account_shown(),
            views(after.accounts.accounts@),
        )
    }
}

/// Whether a purpose was followed for the account that is meant.
pub open spec fn purpose_followed(
    before: App,
    after: App,
    task: TaskView,
    purpose: AccountPurpose,
    target: Option<Seq<char>>,
    account: AccountView,
) -> bool {
    match purpose {
        AccountPurpose::Logout => before.logout_requested(after, task, account),
        AccountPurpose::Recover => task == TaskView::Nothing && prompted(
            before,
            after,
            ModeView::RecoveryKey { account, origin: RecoveryOrigin::Command },
            recovery_prompt(account.user_id, RecoveryOrigin::Command),
        ),
        AccountPurpose::BackupEnable => task == TaskView::Nothing && if account.verified == Some(
            true,
        ) {
            prompted(
                before,
                after,
                ModeView::RecoveryKey { account, origin: RecoveryOrigin::BackupEnable },
                recovery_prompt(account.user_id, RecoveryOrigin::BackupEnable),
            )
        } else {
            restored(
                before,
                after,
                purpose,
                target,
                "account is not verified; recover or verify first: "@ + account.user_id,
            )
        },
        AccountPurpose::Delete => task == TaskView::Nothing && prompted(
            before,
            after,
            ModeView::ConfirmDelete { account },
            "Permanently delete "@ + account.user_id + "? Type YES to confirm, or Esc to cancel"@,
        ),
    }
}

/// Whether the account that a target means was found and its purpose followed, or
/// the command put back.
pub open spec fn target_settled(
    before: App,
    after: App,
    task: TaskView,
    purpose: AccountPurpose,
    target: Option<Seq<char>>,
) -> bool {
    match resolved(views(before.accounts.accounts@), purpose_accounts(purpose), target) {
        AccountResolutionView::Match(account) => purpose_followed(
            before,
            after,
            task,
            purpose,
            target,
            account,
        ),
        AccountResolutionView::Ambiguous(options) => task == TaskView::Nothing && restored(
            before,
            after,
            purpose,
            target,
            ambiguous_text(purpose, options),
        ),
        AccountResolutionView::Missing => task == TaskView::Nothing && restored(
            before,
            after,
            purpose,
            target,
            missing_text(purpose, target),
        ),
    }
}

/// Whether the list of accounts was taken over and its purpose followed.
pub open spec fn accounts_ready(
    before: App,
    after: App,
    task: TaskView,
    purpose: AccountPurpose,
    target: Option<Seq<char>>,
    result: Result<Vec<AccountDto>, String>,
) -> bool {
    match result {
        Err(e) => task == TaskView::Nothing && restored(
            before,
            after,
            purpose,
            target,
            purpose_name(purpose) + " failed: "@ + e@,
        ),
        Ok(accounts) => exists|middle: App|
            #![trigger accounts_taken(before, middle, purpose, views(accounts@))]
            accounts_taken(before, middle, purpose, views(accounts@)) && target_settled(
                middle,
                after,
                task,
                purpose,
                target,
            ),
    }
}

fn copy_accounts(accounts: &Vec<AccountDto>) -> (out: Vec<AccountDto>)
    ensures
        views(out@) == views(accounts@),
{
    let mut out: Vec<AccountDto> = Vec::new();
    let mut i: usize = 0;
    while i < accounts.len()
        invariant
            i <= accounts.len(),
            out.len() == i,
            forall|k: int| 0 <= k < i ==> (#[trigger] out@[k])@ == accounts@[k]@,
        decreases accounts.len() - i,
    {
        out.push(copy_account(&accounts[i]));
        i = i + 1;
    }
    assert(views(out@) =~= views(accounts@));
    out
}

fn list_inactive(accounts: &Vec<AccountDto>) -> (out: Vec<u128>)
    ensures
        out@ == inactive_of(views(accounts@)),
{
    let ghost all = views(accounts@);
    let mut out: Vec<u128> = Vec::new();
    let mut i: usize = 0;
    while i < accounts.len()
        invariant
            i <= accounts.len(),
            all == views(accounts@),
            out@ == inactive_of(all.take(i as int)),
        decreases accounts.len() - i,
    {
        assert(all.take(i + 1).drop_last() =~= all.take(i as int));
        assert(all.take(i + 1).last() == accounts@[i as int]@);
        if accounts[i].state != AccountState::Active {
            out.push(accounts[i].account_id);
        }
        i = i + 1;
    }
    assert(all.take(i as int) =~= all);
    out
}

impl App {
    fn restore_input(&mut self, purpose: AccountPurpose, target: &Option<String>, text: String)
        ensures
            restored(*old(self), *final(self), purpose, option_view(*target), text@),
    {
        let command = command_of(purpose);
        let line = match target {
            Some(t) => if t.as_str().is_empty() {
                command.to_owned()
            } else {
                cat3(command, " ", t.as_str())
            },
            None => command.to_owned(),
        };
        self.mode = Mode::Compose;
        self.input.set(line);
        self.status = Status::Info(text);
    }

    fn take_accounts(&mut self, purpose: AccountPurpose, accounts: Vec<AccountDto>)
        ensures
            accounts_taken(*old(self), *final(self), purpose, views(accounts@)),
    {
        if purpose == AccountPurpose::Delete {
            self.accounts.client_visible = copy_accounts(&accounts);
            self.accounts.inactive_ids = list_inactive(&accounts);
            self.accounts.accounts = accounts;
        } else {
            self.set_accounts(accounts);
        }
    }

    fn follow_purpose(&mut self, purpose: AccountPurpose, target: &Option<String>, account: AccountDto) -> (task:
        LifecycleTask)
        ensures
            purpose_followed(
                *old(self),
                *final(self),
                task@,
                purpose,
                option_view(*target),
                account@,
            ),
    {
        match purpose {
            AccountPurpose::Logout => self.request_logout(account),
            AccountPurpose::Recover => {
                self.request_recovery(account, RecoveryOrigin::Command);
                LifecycleTask::Nothing
            },
            AccountPurpose::BackupEnable => {
                let verified = match account.verified {
                    Some(v) => v,
                    None => false,
                };
                if verified {
                    self.request_recovery(account, RecoveryOrigin::BackupEnable);
                } else {
                    let text = cat2(
                        "account is not verified; recover or verify first: ",
                        account.user_id.as_str(),
                    );
                    self.restore_input(purpose, target, text);
                }
                LifecycleTask::Nothing
            },
            AccountPurpose::Delete => {
                self.request_delete(account);
                LifecycleTask::Nothing
            },
        }
    }

    fn settle_target(&mut self, purpose: AccountPurpose, target: &Option<String>) -> (task:
        LifecycleTask)
        ensures
            target_settled(*old(self), *final(self), task@, purpose, option_view(*target)),
    {
        let which = match purpose {
            AccountPurpose::Delete => Eligible::NotDeleting,
            _ => Eligible::Active,
        };
        match resolve_account_target(&self.accounts.accounts, which, option_str(target)) {
            AccountResolution::Match(account) => self.follow_purpose(purpose, target, account),
            AccountResolution::Ambiguous(options) => {
                let list = join(options.as_slice(), ", ");
                let text = cat4(
                    name_of(purpose),
                    " target is ambiguous: ",
                    list.as_str(),
                    " - press Tab to choose",
                );
                self.restore_input(purpose, target, text);
                LifecycleTask::Nothing
            },
            AccountResolution::Missing => {
                let text = describe_missing(purpose, target);
                self.restore_input(purpose, target, text);
                LifecycleTask::Nothing
            },
        }
    }

    fn apply_accounts_ready(
        &mut self,
        purpose: AccountPurpose,
        target: Option<String>,
        result: Result<Vec<AccountDto>, String>,
    ) -> (task: LifecycleTask)
        ensures
            accounts_ready(
                *old(self),
                *final(self),
                task@,
                purpose,
                option_view(target),
                result,
            ),
    {
        match result {
            Err(e) => {
                let text = cat3(name_of(purpose), " failed: ", e.as_str());
                self.restore_input(purpose, &target, text);
                LifecycleTask::Nothing
            },
            Ok(accounts) => {
                let ghost listed = views(accounts@);
                let ghost before = *self;
                self.take_accounts(purpose, accounts);
                assert(accounts_taken(before, *self, purpose, listed));
                self.settle_target(purpose, &target)
            },
        }
    }
}

// ---------------------------------------------------------------------------
// Verification
// ---------------------------------------------------------------------------

/// Whether the server took up a request to verify. The reply is for the flow that
/// still waits for it.
pub open spec fn verify_started(before: App, after: App, account_id: u128, flow_id: Seq<char>) -> bool {
    match flow_of(before) {
        Some(flow) => if flow.account_id == account_id && flow.flow_id is None {
            &&& window_frame(before, after)
            &&& after.mode == before.mode
            &&& flow_of(after) == Some(
                VerificationFlowView {
                    flow_id: Some(flow_id),
                    stage: if flow.stage == StageView::Starting {
                        StageView::Waiting
                    } else {
                        flow.stage
                    },
                    ..flow
                },
            )
            &&& after.status@ == StatusView::Info(
                "verification started — waiting for emoji…"@,
            )
        } else {
            after == before
        },
        None => after == before,
    }
}

pub open spec fn stage_label(stage: FlowStage) -> Seq<char> {
    match stage {
        FlowStage::Requested => "requested"@,
        FlowStage::Ready => "ready"@,
        FlowStage::KeysExchanged => "keysexchanged"@,
        FlowStage::Confirmed => "confirmed"@,
        FlowStage::Done => "done"@,
        FlowStage::Cancelled => "cancelled"@,
    }
}

fn label_of_stage(stage: FlowStage) -> (out: &'static str)
    ensures
        out@ == stage_label(stage),
{
    match stage {
        FlowStage::Requested => "requested",
        FlowStage::Ready => "ready",
        FlowStage::KeysExchanged => "keysexchanged",
        FlowStage::Confirmed => "confirmed",
        FlowStage::Done => "done",
        FlowStage::Cancelled => "cancelled",
    }
}

/// Whether a flow that was read again was taken over, where it is still the one on
/// the screen.
pub open spec fn verify_resynced(
    before: App,
    after: App,
    account_id: u128,
    flow_id: Seq<char>,
    told: FlowView,
) -> bool {
    match flow_of(before) {
        Some(flow) => if flow_matches(flow, account_id, flow_id) && !terminal(flow.stage) {
            &&& window_frame(before, after)
            &&& after.mode == before.mode
            &&& flow_of(after) == Some(with_flow(flow, told))
            &&& after.status@ == StatusView::Info(
                "verification resync: server stage is "@ + stage_label(told.stage),
            )
        } else {
            after == before
        },
        None => after == before,
    }
}

pub open spec fn live_stage(stage: FlowStage) -> bool {
    stage != FlowStage::Done && stage != FlowStage::Cancelled
}

/// The flows of a list that are declined before the first one to be shown, and
/// that one.
pub open spec fn discovered(
    app: App,
    account_id: u128,
    flows: Seq<FlowView>,
) -> (Seq<TaskView>, Option<FlowView>)
    decreases flows.len(),
{
    if flows.len() == 0 {
        (Seq::empty(), None)
    } else if !live_stage(flows[0].stage) {
        discovered(app, account_id, flows.drop_first())
    } else if app.suppresses(account_id, flows[0].user_id) {
        let (declined, shown) = discovered(app, account_id, flows.drop_first());
        (
            seq![TaskView::DeclineVerification { account_id, flow_id: flows[0].flow_id }]
                + declined,
            shown,
        )
    } else {
        (Seq::empty(), Some(flows[0]))
    }
}

pub open spec fn device_or_empty(device_id: Option<Seq<char>>) -> Seq<char> {
    match device_id {
        Some(d) => d,
        None => Seq::empty(),
    }
}

/// Whether the first request that was found opened the window.
pub open spec fn verify_discovered(
    before: App,
    after: App,
    tasks: Seq<TaskView>,
    account_id: u128,
    result: Result<Vec<FlowDto>, String>,
) -> bool {
    if flow_open(flow_of(before)) {
        tasks.len() == 0 && after == before
    } else {
        match result {
            Err(_) => tasks.len() == 0 && after == before,
            Ok(flows) => {
                let (declined, shown) = discovered(before, account_id, views(flows@));
                tasks == declined && match shown {
                    None => after == before,
                    Some(flow) => {
                        &&& window_frame(before, after)
                        &&& after.mode@ == ModeView::Verification
                        &&& after.status@ == StatusView::Info(
                            "verification requested — compare the emoji"@,
                        )
                        &&& flow_of(after) == Some(
                            with_flow(
                                crate::app::verify::incoming_flow(
                                    account_id,
                                    flow.flow_id,
                                    flow.user_id,
                                    device_or_empty(flow.device_id),
                                ),
                                flow,
                            ),
                        )
                    },
                }
            },
        }
    }
}

impl App {
    fn apply_verify_started(&mut self, account_id: u128, flow_id: String)
        ensures
            verify_started(*old(self), *final(self), account_id, flow_id@),
    {
        let ours = match &self.verification {
            Some(f) => f.account_id == account_id && f.flow_id.is_none(),
            None => false,
        };
        if !ours {
            return ;
        }
        let mut flow: Option<VerificationFlow> = None;
        core::mem::swap(&mut flow, &mut self.verification);
        if let Some(f) = flow {
            let mut changed = f;
            changed.flow_id = Some(flow_id);
            let starting = match changed.stage {
                VerificationStage::Starting => true,
                _ => false,
            };
            if starting {
                changed.stage = VerificationStage::Waiting;
            }
            self.verification = Some(changed);
        }
        self.say("verification started — waiting for emoji…");
    }

    fn apply_verify_resynced(&mut self, account_id: u128, flow_id: String, told: FlowDto)
        ensures
            verify_resynced(*old(self), *final(self), account_id, flow_id@, told@),
    {
        let ours = match &self.verification {
            Some(f) => f.matches(account_id, flow_id.as_str()) && !f.stage.is_terminal(),
            None => false,
        };
        if !ours {
            return ;
        }
        let mut flow: Option<VerificationFlow> = None;
        core::mem::swap(&mut flow, &mut self.verification);
        if let Some(f) = flow {
            let mut changed = f;
            changed.apply_flow(&told);
            self.verification = Some(changed);
        }
        let text = cat2("verification resync: server stage is ", label_of_stage(told.stage));
        self.status = Status::Info(text);
    }

    fn discover(&self, account_id: u128, flows: &Vec<FlowDto>) -> (out: (Vec<LifecycleTask>, usize))
        ensures
            views(out.0@) == discovered(*self, account_id, views(flows@)).0,
            out.1 <= flows.len(),
            discovered(*self, account_id, views(flows@)).1 == (if out.1 < flows.len() {
                Some(flows@[out.1 as int]@)
            } else {
                None
            }),
    {
        let ghost all = views(flows@);
        let ghost whole = discovered(*self, account_id, all);
        let mut tasks: Vec<LifecycleTask> = Vec::new();
        let mut i: usize = 0;
        assert(all.skip(0) =~= all);
        assert(views(tasks@) + whole.0 =~= whole.0);
        while i < flows.len()
            invariant
                i <= flows.len(),
                all == views(flows@),
                whole == discovered(*self, account_id, all),
                whole.0 == views(tasks@) + discovered(*self, account_id, all.skip(i as int)).0,
                whole.1 == discovered(*self, account_id, all.skip(i as int)).1,
            decreases flows.len() - i,
        {
            let ghost rest = all.skip(i as int);
            let ghost before = views(tasks@);
            assert(rest[0] == flows@[i as int]@);
            assert(rest.drop_first() =~= all.skip(i + 1));
            let flow = &flows[i];
            if flow.stage != FlowStage::Done && flow.stage != FlowStage::Cancelled {
                if self.should_open_incoming_verification_target(
                    account_id,
                    flow.user_id.as_str(),
                ) {
                    assert(whole.0 =~= views(tasks@));
                    return (tasks, i);
                }
                let ghost task = TaskView::DeclineVerification {
                    account_id,
                    flow_id: flow@.flow_id,
                };
                tasks.push(
                    LifecycleTask::DeclineVerification {
                        account_id,
                        flow_id: flow.flow_id.clone(),
                    },
                );
                assert(views(tasks@) =~= before.push(task));
                assert(before + (seq![task] + discovered(*self, account_id, all.skip(i + 1)).0)
                    =~= views(tasks@) + discovered(*self, account_id, all.skip(i + 1)).0);
            }
            i = i + 1;
        }
        assert(all.skip(i as int).len() == 0);
        assert(whole.0 =~= views(tasks@));
        (tasks, i)
    }

    fn apply_verify_discovered(&mut self, account_id: u128, result: Result<Vec<FlowDto>, String>) -> (tasks:
        Vec<LifecycleTask>)
        ensures
            verify_discovered(*old(self), *final(self), views(tasks@), account_id, result),
    {
        let open = match &self.verification {
            Some(f) => !f.stage.is_terminal(),
            None => false,
        };
        if open {
            return Vec::new();
        }
        let flows = match result {
            Ok(flows) => flows,
            Err(_) => return Vec::new(),
        };
        let (tasks, at) = self.discover(account_id, &flows);
        if at < flows.len() {
            let flow = &flows[at];
            let device = match &flow.device_id {
                Some(d) => d.clone(),
                None => String::new(),
            };
            assert(device@ =~= device_or_empty(flow@.device_id));
            self.open_incoming_verification(
                account_id,
                flow.flow_id.clone(),
                flow.user_id.clone(),
                device,
            );
            let mut open: Option<VerificationFlow> = None;
            core::mem::swap(&mut open, &mut self.verification);
            if let Some(f) = open {
                let mut changed = f;
                changed.apply_flow(flow);
                self.verification = Some(changed);
            }
        }
        tasks
    }
}

// ---------------------------------------------------------------------------
// All outcomes
// ---------------------------------------------------------------------------

pub open spec fn no_tasks() -> StepView {
    StepView::Done(Seq::empty())
}

/// A task as a list.
pub open spec fn one_task(task: TaskView) -> StepView {
    StepView::Done(seq![task])
}

/// Whether a list of accounts was taken over, and its purpose followed.
pub open spec fn listing_applied(
    before: App,
    after: App,
    purpose: AccountPurpose,
    target: Option<String>,
    result: Result<Vec<AccountDto>, String>,
    step: StepView,
) -> bool {
    exists|task: TaskView|
        #![trigger one_task(task)]
        step == one_task(task) && accounts_ready(
            before,
            after,
            task,
            purpose,
            option_view(target),
            result,
        )
}

/// What an outcome does to a client that is no longer busy. Where accounts and
/// rooms are to be read again, nothing yet.
pub open spec fn outcome_applied(
    before: App,
    after: App,
    outcome: LifecycleOutcome,
    step: StepView,
) -> bool {
    match outcome {
        LifecycleOutcome::Login { username, prior_account_ids, result } => match result {
            Ok(account) => after == before && step == StepView::Refresh(
                FinishView::Login {
                    account: account@,
                    already_active: prior_account_ids@.contains(account.account_id),
                },
            ),
            Err(e) => step == no_tasks() && said(
                before,
                after,
                "login failed for "@ + username@ + ": "@ + e@,
            ),
        },
        LifecycleOutcome::LogoutReady { target, result } => listing_applied(
            before,
            after,
            AccountPurpose::Logout,
            target,
            result,
            step,
        ),
        LifecycleOutcome::RecoverReady { target, result } => listing_applied(
            before,
            after,
            AccountPurpose::Recover,
            target,
            result,
            step,
        ),
        LifecycleOutcome::BackupEnableReady { target, result } => listing_applied(
            before,
            after,
            AccountPurpose::BackupEnable,
            target,
            result,
            step,
        ),
        LifecycleOutcome::DeleteReady { target, result } => listing_applied(
            before,
            after,
            AccountPurpose::Delete,
            target,
            result,
            step,
        ),
        LifecycleOutcome::Logout { user_id, result } => match result {
            Ok(account) => after == before && step == StepView::Refresh(
                FinishView::Logout { user_id: account@.user_id },
            ),
            Err(e) => step == no_tasks() && said(
                before,
                after,
                "logout failed for "@ + user_id@ + ": "@ + e@,
            ),
        },
        LifecycleOutcome::Recover { user_id, result } => match result {
            Ok(account) => after == before && step == StepView::Refresh(
                FinishView::Recover { user_id: account@.user_id, verified: account@.verified },
            ),
            Err(e) => step == no_tasks() && said(
                before,
                after,
                "recovery failed for "@ + user_id@ + ": "@ + e@,
            ),
        },
        LifecycleOutcome::BackupEnable { user_id, result } => match result {
            Ok(reply) => after == before && step == StepView::Refresh(
                FinishView::BackupEnable { user_id: user_id@, action: reply.backup_action },
            ),
            Err(e) => step == no_tasks() && said(
                before,
                after,
                "backup enable failed for "@ + user_id@ + ": "@ + e@,
            ),
        },
        LifecycleOutcome::Delete { user_id, result } => match result {
            Ok(_) => after == before && step == StepView::Refresh(
                FinishView::Delete { user_id: user_id@ },
            ),
            Err(e) => step == no_tasks() && said(
                before,
                after,
                "delete failed for "@ + user_id@ + ": "@ + e@,
            ),
        },
        LifecycleOutcome::VerifyStarted { account_id, result } => step == no_tasks()
            && match result {
            Ok(flow_id) => verify_started(before, after, account_id, flow_id@),
            Err(e) => before.flow_failed(
                after,
                account_id,
                None,
                "verification failed: "@ + e@,
            ),
        },
        LifecycleOutcome::VerifyConfirmed { account_id, flow_id, result } => step == no_tasks()
            && match result {
            Ok(_) => said(before, after, "verification confirmed — awaiting peer…"@),
            Err(e) => before.flow_failed(
                after,
                account_id,
                Some(flow_id@),
                "verification failed: "@ + e@,
            ),
        },
        LifecycleOutcome::VerifyCancelled { result } => step == no_tasks() && match result {
            Ok(_) => after == before,
            Err(e) => said(before, after, "verification cancel failed: "@ + e@),
        },
        LifecycleOutcome::VerifyResynced { account_id, flow_id, result } => step == no_tasks()
            && match result {
            Ok(told) => verify_resynced(before, after, account_id, flow_id@, told@),
            Err(VerifyResyncError::NotFound) => before.flow_failed(
                after,
                account_id,
                Some(flow_id@),
                "Verification ended — the flow was cancelled by the server"@,
            ),
            Err(VerifyResyncError::Other(e)) => said(
                before,
                after,
                "verification resync failed: "@ + e@,
            ),
        },
        LifecycleOutcome::VerifyDiscovered { account_id, result } => step is Done
            && verify_discovered(before, after, step->Done_0, account_id, result),
        _ => true,
    }
}

/// Whether an outcome was taken over. Messages, uploads and answers to `/whoami`
/// are no operations on accounts: the client stays as busy as it is.
pub open spec fn outcome_handled(
    before: App,
    after: App,
    outcome: LifecycleOutcome,
    step: StepView,
) -> bool {
    match outcome {
        LifecycleOutcome::MessageSent { key, temp_id, result } => step == no_tasks()
            && message_sent(before, after, key@, temp_id@, result),
        LifecycleOutcome::MediaSent { key, result } => step == no_tasks() && media_sent(
            before,
            after,
            key@,
            result,
        ),
        LifecycleOutcome::WhoamiDevice { provisional, enriched } => step == no_tasks()
            && whoami_enriched(before, after, provisional@, enriched@),
        _ => exists|middle: App|
            #![trigger outcome_applied(before.settled(), middle, outcome, step)]
            outcome_applied(before.settled(), middle, outcome, step) && if step is Refresh {
                after == middle
            } else {
                response_queued(middle, after)
            },
    }
}

fn no_step() -> (out: LifecycleStep)
    ensures
        out@ == no_tasks(),
{
    let tasks: Vec<LifecycleTask> = Vec::new();
    assert(views(tasks@) =~= Seq::<TaskView>::empty());
    LifecycleStep::Done(tasks)
}

fn one_step(task: LifecycleTask) -> (out: LifecycleStep)
    ensures
        out@ == one_task(task@),
{
    let ghost t = task@;
    let mut tasks: Vec<LifecycleTask> = Vec::new();
    tasks.push(task);
    assert(views(tasks@) =~= seq![t]);
    LifecycleStep::Done(tasks)
}

pub fn holds_id(ids: &Vec<u128>, id: u128) -> (r: bool)
    ensures
        r == ids@.contains(id),
{
    let mut i: usize = 0;
    while i < ids.len()
        invariant
            i <= ids.len(),
            forall|k: int| 0 <= k < i ==> ids@[k] != id,
        decreases ids.len() - i,
    {
        if ids[i] == id {
            return true;
        }
        i = i + 1;
    }
    false
}

impl App {
    fn say_failed(&mut self, what: &str, who: &str, why: &str)
        ensures
            said(*old(self), *final(self), what@ + who@ + ": "@ + why@),
    {
        let text = cat4(what, who, ": ", why);
        self.status = Status::Info(text);
    }

    fn apply_verification(&mut self, outcome: LifecycleOutcome) -> (step: LifecycleStep)
        requires
            outcome is VerifyStarted || outcome is VerifyConfirmed || outcome is VerifyCancelled
                || outcome is VerifyResynced || outcome is VerifyDiscovered,
        ensures
            outcome_applied(*old(self), *final(self), outcome, step@),
            step@ is Done,
    {
        match outcome {
            LifecycleOutcome::VerifyStarted { account_id, result } => {
                match result {
                    Ok(flow_id) => self.apply_verify_started(account_id, flow_id),
                    Err(e) => self.end_active_verification(
                        account_id,
                        None,
                        cat2("verification failed: ", e.as_str()),
                    ),
                }
                no_step()
            },
            LifecycleOutcome::VerifyConfirmed { account_id, flow_id, result } => {
                match result {
                    Ok(_) => self.say("verification confirmed — awaiting peer…"),
                    Err(e) => self.end_active_verification(
                        account_id,
                        Some(flow_id.as_str()),
                        cat2("verification failed: ", e.as_str()),
                    ),
                }
                no_step()
            },
            LifecycleOutcome::VerifyCancelled { result } => {
                match result {
                    Ok(_) => {},
                    Err(e) => {
                        let text = cat2("verification cancel failed: ", e.as_str());
                        self.status = Status::Info(text);
                    },
                }
                no_step()
            },
            LifecycleOutcome::VerifyResynced { account_id, flow_id, result } => {
                match result {
                    Ok(told) => self.apply_verify_resynced(account_id, flow_id, told),
                    Err(VerifyResyncError::NotFound) => self.end_active_verification(
                        account_id,
                        Some(flow_id.as_str()),
                        "Verification ended — the flow was cancelled by the server".to_owned(),
                    ),
                    Err(VerifyResyncError::Other(e)) => {
                        let text = cat2("verification resync failed: ", e.as_str());
                        self.status = Status::Info(text);
                    },
                }
                no_step()
            },
            LifecycleOutcome::VerifyDiscovered { account_id, result } => {
                let tasks = self.apply_verify_discovered(account_id, result);
                LifecycleStep::Done(tasks)
            },
            _ => no_step(),
        }
    }

    fn apply_listing(
        &mut self,
        purpose: AccountPurpose,
        target: Option<String>,
        result: Result<Vec<AccountDto>, String>,
    ) -> (step: LifecycleStep)
        ensures
            listing_applied(*old(self), *final(self), purpose, target, result, step@),
    {
        let task = self.apply_accounts_ready(purpose, target, result);
        let ghost t = task@;
        let step = one_step(task);
        assert(step@ == one_task(t));
        step
    }

    fn apply_operation(&mut self, outcome: LifecycleOutcome) -> (step: LifecycleStep)
        requires
            !(outcome is MessageSent || outcome is MediaSent || outcome is WhoamiDevice),
        ensures
            outcome_applied(*old(self), *final(self), outcome, step@),
    {
        match outcome {
            LifecycleOutcome::Login { username, prior_account_ids, result } => match result {
                Ok(account) => {
                    let already_active = holds_id(&prior_account_ids, account.account_id);
                    LifecycleStep::Refresh(LifecycleFinish::Login { account, already_active })
                },
                Err(e) => {
                    self.say_failed("login failed for ", username.as_str(), e.as_str());
                    no_step()
                },
            },
            LifecycleOutcome::LogoutReady { target, result } => self.apply_listing(
                AccountPurpose::Logout,
                target,
                result,
            ),
            LifecycleOutcome::RecoverReady { target, result } => self.apply_listing(
                AccountPurpose::Recover,
                target,
                result,
            ),
            LifecycleOutcome::BackupEnableReady { target, result } => self.apply_listing(
                AccountPurpose::BackupEnable,
                target,
                result,
            ),
            LifecycleOutcome::DeleteReady { target, result } => self.apply_listing(
                AccountPurpose::Delete,
                target,
                result,
            ),
            LifecycleOutcome::Logout { user_id, result } => match result {
                Ok(account) => LifecycleStep::Refresh(
                    LifecycleFinish::Logout { user_id: account.user_id },
                ),
                Err(e) => {
                    self.say_failed("logout failed for ", user_id.as_str(), e.as_str());
                    no_step()
                },
            },
            LifecycleOutcome::Recover { user_id, result } => match result {
                Ok(account) => LifecycleStep::Refresh(
                    LifecycleFinish::Recover {
                        user_id: account.user_id,
                        verified: account.verified,
                    },
                ),
                Err(e) => {
                    self.say_failed("recovery failed for ", user_id.as_str(), e.as_str());
                    no_step()
                },
            },
            LifecycleOutcome::BackupEnable { user_id, result } => match result {
                Ok(reply) => LifecycleStep::Refresh(
                    LifecycleFinish::BackupEnable { user_id, action: reply.backup_action },
                ),
                Err(e) => {
                    self.say_failed("backup enable failed for ", user_id.as_str(), e.as_str());
                    no_step()
                },
            },
            LifecycleOutcome::Delete { user_id, result } => match result {
                Ok(_) => LifecycleStep::Refresh(LifecycleFinish::Delete { user_id }),
                Err(e) => {
                    self.say_failed("delete failed for ", user_id.as_str(), e.as_str());
                    no_step()
                },
            },
            other => self.apply_verification(other),
        }
    }

    /// Takes over what came of a task. Where the accounts changed, the next steps
    /// are to read accounts and rooms again, to select the account that was logged
    /// in to, and to finish.
    pub fn handle_lifecycle_outcome(&mut self, outcome: LifecycleOutcome) -> (step: LifecycleStep)
        ensures
            outcome_handled(*old(self), *final(self), outcome, step@),
    {
        match outcome {
            LifecycleOutcome::MessageSent { key, temp_id, result } => {
                self.apply_message_sent(key, temp_id, result);
                no_step()
            },
            LifecycleOutcome::MediaSent { key, result } => {
                self.apply_media_sent(key, result);
                no_step()
            },
            LifecycleOutcome::WhoamiDevice { provisional, enriched } => {
                self.apply_whoami(provisional, enriched);
                no_step()
            },
            other => {
                let popup = match &self.mode {
                    Mode::Popup(_) => true,
                    _ => false,
                };
                self.busy.lifecycle = false;
                if !popup {
                    self.session.pending_command_response = None;
                }
                assert(*self == old(self).settled());
                let step = self.apply_operation(other);
                assert(outcome_applied(old(self).settled(), *self, other, step@));
                let ends = match &step {
                    LifecycleStep::Done(_) => true,
                    LifecycleStep::Refresh(_) => false,
                };
                if ends {
                    self.queue_completed_command_response();
                }
                step
            },
        }
    }
}

// ---------------------------------------------------------------------------
// Reading accounts and rooms again
// ---------------------------------------------------------------------------

/// What could not be read again.
pub open spec fn refresh_warning(
    accounts: Option<Seq<char>>,
    rooms: Option<Seq<char>>,
) -> Option<Seq<char>> {
    match (accounts, rooms) {
        (None, None) => None,
        (Some(a), None) => Some("account refresh failed: "@ + a),
        (None, Some(r)) => Some("room refresh failed: "@ + r),
        (Some(a), Some(r)) => Some(
            "account refresh failed: "@ + a + "; "@ + "room refresh failed: "@ + r,
        ),
    }
}

pub open spec fn failure_of<T>(result: Result<T, String>) -> Option<Seq<char>> {
    match result {
        Ok(_) => None,
        Err(e) => Some(e@),
    }
}

/// What reading accounts and rooms again led to.
#[derive(Debug)]
pub struct Refreshed {
    pub warning: Option<String>,
    /// Whether another room is selected, whose timeline is to be loaded.
    pub load_timeline: bool,
    /// The rooms whose members are to be fetched.
    pub fetch_members: Vec<RoomKey>,
}

/// Whether the lists that could be read again were taken over.
pub open spec fn lists_refreshed(
    before: App,
    after: App,
    accounts: Result<Vec<AccountDto>, String>,
    rooms: Result<Vec<RoomDto>, String>,
) -> bool {
    exists|middle: App|
        #![trigger lists_refreshed_by(before, middle, after, accounts, rooms)]
        lists_refreshed_by(before, middle, after, accounts, rooms)
}

pub open spec fn lists_refreshed_by(
    before: App,
    middle: App,
    after: App,
    accounts: Result<Vec<AccountDto>, String>,
    rooms: Result<Vec<RoomDto>, String>,
) -> bool {
    &&& match accounts {
        Ok(listed) => accounts_taken(before, middle, AccountPurpose::Logout, views(listed@)),
        Err(_) => middle == before,
    }
    &&& match rooms {
        Ok(listed) => rooms_refreshed(middle, after, views(listed@)),
        Err(_) => after == middle,
    }
}

pub open spec fn chosen_key(app: App) -> Option<RoomKeyView> {
    match app.room() {
        Some(room) => Some(room_key(room@)),
        None => None,
    }
}

/// Whether the account that was logged in is selected.
pub open spec fn login_selected(before: App, after: App, finish: FinishView, load_timeline: bool) -> bool {
    match finish {
        FinishView::Login { account, already_active } => {
            let accounts = views(before.accounts.accounts@);
            let at = account_position(accounts, account.account_id);
            if at < accounts.len() {
                &&& load_timeline
                &&& after == (App {
                    accounts: AccountsState {
                        selected: AccountSelection::Account(at as usize),
                        ..before.accounts
                    },
                    ..before
                }).synced()
            } else {
                !load_timeline && after == before
            }
        },
        _ => !load_timeline && after == before,
    }
}

impl App {
    fn selected_key(&self) -> (out: Option<RoomKey>)
        ensures
            match out {
                Some(k) => chosen_key(*self) == Some(k@),
                None => chosen_key(*self) is None,
            },
    {
        match self.selected_room() {
            Some(room) => Some(RoomKey::of(room)),
            None => None,
        }
    }

    /// Takes over the lists that were read again after the accounts changed.
    pub fn refresh_after_lifecycle_change(
        &mut self,
        accounts: Result<Vec<AccountDto>, String>,
        rooms: Result<Vec<RoomDto>, String>,
    ) -> (out: Refreshed)
        ensures
            lists_refreshed(*old(self), *final(self), accounts, rooms),
            option_view(out.warning) == refresh_warning(failure_of(accounts), failure_of(rooms)),
            out.load_timeline == (rooms is Ok && chosen_key(*final(self)) is Some && chosen_key(
                *final(self),
            ) != chosen_key(*old(self))),
            rooms is Ok ==> views(out.fetch_members@) == final(self).rooms.titles_to_fetch(
                final(self).account_shown(),
            ),
            rooms is Err ==> out.fetch_members@.len() == 0,
            selection_in_list(old(self).rooms) ==> selection_in_list(final(self).rooms),
    {
        let had = self.selected_key();
        let account_failure = match accounts {
            Ok(listed) => {
                self.set_accounts(listed);
                None
            },
            Err(e) => Some(cat2("account refresh failed: ", e.as_str())),
        };
        let ghost middle = *self;
        let mut load_timeline = false;
        let mut fetch_members: Vec<RoomKey> = Vec::new();
        let room_failure = match rooms {
            Ok(listed) => {
                fetch_members = self.apply_room_refresh(listed);
                let now = self.selected_key();
                load_timeline = match (&now, &had) {
                    (Some(n), Some(h)) => !n.same(h),
                    (Some(_), None) => true,
                    _ => false,
                };
                None
            },
            Err(e) => Some(cat2("room refresh failed: ", e.as_str())),
        };
        assert(lists_refreshed_by(*old(self), middle, *self, accounts, rooms));
        let warning = match (account_failure, room_failure) {
            (None, None) => None,
            (Some(a), None) => Some(a),
            (None, Some(r)) => Some(r),
            (Some(a), Some(r)) => {
                let both = cat3(a.as_str(), "; ", r.as_str());
                proof {
                    let (x, y) = (failure_of(accounts)->0, failure_of(rooms)->0);
                    assert(both@ =~= "account refresh failed: "@ + x + "; "@
                        + "room refresh failed: "@ + y);
                }
                Some(both)
            },
        };
        Refreshed { warning, load_timeline, fetch_members }
    }

    /// Selects the account that was logged in to. Its first room, or the one that
    /// is selected, is then to be loaded.
    pub fn select_logged_in(&mut self, finish: &LifecycleFinish) -> (load_timeline: bool)
        ensures
            login_selected(*old(self), *final(self), finish@, load_timeline),
            selection_in_list(old(self).rooms) ==> selection_in_list(final(self).rooms),
    {
        let id = match finish {
            LifecycleFinish::Login { account, already_active: _ } => account.account_id,
            _ => return false,
        };
        let at: usize = find_account(&self.accounts.accounts, id);
        if at < self.accounts.accounts.len() {
            self.accounts.selected = AccountSelection::Account(at);
            self.sync_room_selection_to_account_filter();
            true
        } else {
            false
        }
    }

    /// What a finished operation is told by, or what it asks.
    pub open spec fn finished(
        self,
        after: App,
        finish: FinishView,
        warning: Option<Seq<char>>,
    ) -> bool {
        match finish {
            FinishView::Login { account, already_active } => if offers_recovery(
                already_active,
                account.verified,
            ) {
                prompted(
                    self,
                    after,
                    ModeView::RecoveryKey { account, origin: RecoveryOrigin::PostLogin },
                    recovery_prompt(account.user_id, RecoveryOrigin::PostLogin),
                )
            } else {
                said(
                    self,
                    after,
                    with_warning(login_text(already_active, account.user_id), warning),
                )
            },
            FinishView::Logout { user_id } => said(
                self,
                after,
                with_warning(success_text("logged out"@, user_id), warning),
            ),
            FinishView::Recover { user_id, verified } => said(
                self,
                after,
                with_warning(recovered_text(user_id, verified), warning),
            ),
            FinishView::BackupEnable { user_id, action } => said(
                self,
                after,
                with_warning(backup_text(user_id, action), warning),
            ),
            FinishView::Delete { user_id } => said(
                self,
                after,
                with_warning(success_text("deleted"@, user_id), warning),
            ),
        }
    }

    fn tell_finish(&mut self, finish: LifecycleFinish, warning: Option<String>)
        ensures
            old(self).finished(*final(self), finish@, option_view(warning)),
    {
        match finish {
            LifecycleFinish::Login { account, already_active } => {
                if should_offer_post_login_recovery(already_active, account.verified) {
                    self.request_recovery(account, RecoveryOrigin::PostLogin);
                } else {
                    self.status = lifecycle_login_status(
                        already_active,
                        account.user_id.as_str(),
                        warning,
                    );
                }
            },
            LifecycleFinish::Logout { user_id } => {
                self.status = lifecycle_success_status("logged out", user_id.as_str(), warning);
            },
            LifecycleFinish::Recover { user_id, verified } => {
                self.status = recovery_success_status(user_id.as_str(), verified, warning);
            },
            LifecycleFinish::BackupEnable { user_id, action } => {
                self.status = backup_enable_success_status(user_id.as_str(), action, warning);
            },
            LifecycleFinish::Delete { user_id } => {
                self.status = lifecycle_success_status("deleted", user_id.as_str(), warning);
            },
        }
    }

    /// Finishes an operation after accounts and rooms were read again.
    pub fn finish_lifecycle(&mut self, finish: LifecycleFinish, warning: Option<String>)
        ensures
            exists|middle: App|
                #![trigger old(self).finished(middle, finish@, option_view(warning))]
                old(self).finished(middle, finish@, option_view(warning)) && response_queued(
                    middle,
                    *final(self),
                ),
    {
        let ghost (f, w) = (finish@, option_view(warning));
        self.tell_finish(finish, warning);
        assert(old(self).finished(*self, f, w));
        self.queue_completed_command_response();
    }
}

/// A reply to a message never changes the id of any other event, in no room.
pub proof fn law_sent_message_changes_one_event(
    before: App,
    after: App,
    key: RoomKeyView,
    temp_id: Seq<char>,
    result: Result<String, String>,
    room: RoomKeyView,
    i: int,
)
    requires
        message_sent(before, after, key, temp_id, result),
        before.messages.events@.dom().contains(room),
        0 <= i < before.messages.events@[room]@.len(),
        before.messages.events@[room]@[i].event_id@ != temp_id,
    ensures
        after.messages.events@.dom().contains(room),
        after.messages.events@[room]@[i] == before.messages.events@[room]@[i],
{
    if room == key && kept_at(before.messages.events@, key, temp_id) is Some {
        let events = before.messages.events@[key]@;
        let at = stored_at(events, temp_id);
        lemma_position_is(stored_ids(events), temp_id);
        assert(stored_ids(events)[at] == temp_id);
    }
}

proof fn lemma_position_is(ids: Seq<Seq<char>>, id: Seq<char>)
    ensures
        0 <= event_position(ids, id) <= ids.len(),
        event_position(ids, id) < ids.len() ==> ids[event_position(ids, id)] == id,
    decreases ids.len(),
{
    if ids.len() > 0 && ids[0] != id {
        lemma_position_is(ids.drop_first(), id);
    }
}

} // verus!
