//! Logging in and out, recovery, key backup and deletion of accounts: what is asked
//! of the user and of the server.

use vstd::prelude::*;

use crate::api::dto::{AccountDto, AccountState, AccountView, BackupAction};
use crate::app::input::InputState;
use crate::app::state::{App, Busy, Mode, ModeView, RecoveryOrigin};
use crate::app::status::{Status, StatusView};
use crate::app::targets::{
    homeserver_url, normal_user_id, normalize_homeserver_url, normalize_matrix_user_id,
    user_id_error,
};
use crate::text::{
    cat2, cat3, cat4, char_is_white, chars_of, is_white, option_view, text_of, trim, trim_text,
    views,
};

verus! {

// ---------------------------------------------------------------------------
// Texts
// ---------------------------------------------------------------------------

/// A text, and a warning after it where there is one.
pub open spec fn with_warning(text: Seq<char>, warning: Option<Seq<char>>) -> Seq<char> {
    match warning {
        Some(w) => text + "; "@ + w,
        None => text,
    }
}

fn add_warning(text: String, warning: Option<String>) -> (out: Status)
    ensures
        out@ == StatusView::Info(with_warning(text@, option_view(warning))),
{
    match warning {
        Some(w) => Status::Info(cat3(text.as_str(), "; ", w.as_str())),
        None => Status::Info(text),
    }
}

pub open spec fn success_text(action: Seq<char>, user_id: Seq<char>) -> Seq<char> {
    action + ": "@ + user_id
}

pub fn lifecycle_success_status(action: &str, user_id: &str, warning: Option<String>) -> (out: Status)
    ensures
        out@ == StatusView::Info(
            with_warning(success_text(action@, user_id@), option_view(warning)),
        ),
{
    add_warning(cat3(action, ": ", user_id), warning)
}

/// What is said of a login. One on an account that was active changed nothing.
pub open spec fn login_text(already_active: bool, user_id: Seq<char>) -> Seq<char> {
    if already_active {
        "already logged in: "@ + user_id + " (no changes)"@
    } else {
        "logged in: "@ + user_id
    }
}

pub fn lifecycle_login_status(already_active: bool, user_id: &str, warning: Option<String>) -> (out:
    Status)
    ensures
        out@ == StatusView::Info(
            with_warning(login_text(already_active, user_id@), option_view(warning)),
        ),
{
    let text = if already_active {
        cat3("already logged in: ", user_id, " (no changes)")
    } else {
        cat2("logged in: ", user_id)
    };
    add_warning(text, warning)
}

pub open spec fn backup_text(user_id: Seq<char>, action: BackupAction) -> Seq<char> {
    match action {
        BackupAction::Joined => "joined existing megolm backup: "@ + user_id,
        BackupAction::Enabled => "enabled megolm backup: "@ + user_id,
        BackupAction::ExportPending => "megolm backup export pending for "@ + user_id
            + "; retry /backup enable"@,
        BackupAction::Failed => "megolm backup enable failed for "@ + user_id
            + "; retry /backup enable"@,
        BackupAction::AlreadyUploading => "already uploading megolm keys to backup: "@ + user_id,
    }
}

pub fn backup_enable_success_status(
    user_id: &str,
    action: BackupAction,
    warning: Option<String>,
) -> (out: Status)
    ensures
        out@ == StatusView::Info(
            with_warning(backup_text(user_id@, action), option_view(warning)),
        ),
{
    let text = match action {
        BackupAction::Joined => cat2("joined existing megolm backup: ", user_id),
        BackupAction::Enabled => cat2("enabled megolm backup: ", user_id),
        BackupAction::ExportPending => cat3(
            "megolm backup export pending for ",
            user_id,
            "; retry /backup enable",
        ),
        BackupAction::Failed => cat3(
            "megolm backup enable failed for ",
            user_id,
            "; retry /backup enable",
        ),
        BackupAction::AlreadyUploading => cat2(
            "already uploading megolm keys to backup: ",
            user_id,
        ),
    };
    add_warning(text, warning)
}

pub open spec fn verified_text(verified: Option<bool>) -> Seq<char> {
    match verified {
        Some(true) => "device verified"@,
        Some(false) => "device remains unverified"@,
        None => "device verification unavailable"@,
    }
}

pub open spec fn recovered_text(user_id: Seq<char>, verified: Option<bool>) -> Seq<char> {
    success_text(
        "recovered encryption keys"@,
        user_id + " ("@ + verified_text(verified) + ")"@,
    )
}

pub fn recovery_success_status(
    user_id: &str,
    verified: Option<bool>,
    warning: Option<String>,
) -> (out: Status)
    ensures
        out@ == StatusView::Info(
            with_warning(recovered_text(user_id@, verified), option_view(warning)),
        ),
{
    let state = match verified {
        Some(true) => "device verified",
        Some(false) => "device remains unverified",
        None => "device verification unavailable",
    };
    let who = cat4(user_id, " (", state, ")");
    lifecycle_success_status("recovered encryption keys", who.as_str(), warning)
}

/// Whether recovery is offered after a login: one that changed something and left
/// the device unverified.
pub open spec fn offers_recovery(already_active: bool, verified: Option<bool>) -> bool {
    !already_active && verified != Some(true)
}

pub fn should_offer_post_login_recovery(already_active: bool, verified: Option<bool>) -> (r: bool)
    ensures
        r == offers_recovery(already_active, verified),
{
    !already_active && match verified {
        Some(v) => !v,
        None => true,
    }
}

pub open spec fn username_prompt() -> Seq<char> {
    "Matrix ID (optionally a homeserver after it): @user:example.com [hs.example.com]"@
}

pub open spec fn password_prompt() -> Seq<char> {
    "Password: input is hidden; Enter submits, Esc cancels"@
}

// ---------------------------------------------------------------------------
// Tasks
// ---------------------------------------------------------------------------

/// What the accounts are listed for.
#[derive(Debug, Clone, Copy, PartialEq, Eq, Structural)]
pub enum AccountPurpose {
    Logout,
    Recover,
    BackupEnable,
    Delete,
}

/// What is asked of the server.
#[derive(Debug)]
#[allow(inconsistent_fields)]
pub enum LifecycleTask {
    Nothing,
    Login {
        username: String,
        password: String,
        homeserver: Option<String>,
        /// The accounts that were active before.
        prior_account_ids: Vec<u128>,
    },
    ListAccounts { purpose: AccountPurpose, target: Option<String> },
    Logout { account_id: u128, user_id: String },
    Recover { account_id: u128, user_id: String, recovery_key: String },
    EnableBackup { account_id: u128, user_id: String, recovery_key: Option<String> },
    Delete { account_id: u128, user_id: String },
    /// Verification of another user or of an own device: one of the two is named.
    StartVerification { account_id: u128, user_id: Option<String>, device_id: Option<String> },
    ConfirmVerification { account_id: u128, flow_id: String },
    CancelVerification { account_id: u128, flow_id: String },
    /// To cancel a request of another user, without a word.
    DeclineVerification { account_id: u128, flow_id: String },
    ListFlows { account_id: u128 },
    GetFlow { account_id: u128, flow_id: String },
}

#[allow(inconsistent_fields)]
pub enum TaskView {
    Nothing,
    Login {
        username: Seq<char>,
        password: Seq<char>,
        homeserver: Option<Seq<char>>,
        prior_account_ids: Seq<u128>,
    },
    ListAccounts { purpose: AccountPurpose, target: Option<Seq<char>> },
    Logout { account_id: u128, user_id: Seq<char> },
    Recover { account_id: u128, user_id: Seq<char>, recovery_key: Seq<char> },
    EnableBackup { account_id: u128, user_id: Seq<char>, recovery_key: Option<Seq<char>> },
    Delete { account_id: u128, user_id: Seq<char> },
    StartVerification {
        account_id: u128,
        user_id: Option<Seq<char>>,
        device_id: Option<Seq<char>>,
    },
    ConfirmVerification { account_id: u128, flow_id: Seq<char> },
    CancelVerification { account_id: u128, flow_id: Seq<char> },
    DeclineVerification { account_id: u128, flow_id: Seq<char> },
    ListFlows { account_id: u128 },
    GetFlow { account_id: u128, flow_id: Seq<char> },
}

impl View for LifecycleTask {
    type V = TaskView;

    open spec fn view(&self) -> TaskView {
        match self {
            LifecycleTask::Nothing => TaskView::Nothing,
            LifecycleTask::Login { username, password, homeserver, prior_account_ids } => {
                TaskView::Login {
                    username: username@,
                    password: password@,
                    homeserver: option_view(*homeserver),
                    prior_account_ids: prior_account_ids@,
                }
            },
            LifecycleTask::ListAccounts { purpose, target } => TaskView::ListAccounts {
                purpose: *purpose,
                target: option_view(*target),
            },
            LifecycleTask::Logout { account_id, user_id } => TaskView::Logout {
                account_id: *account_id,
                user_id: user_id@,
            },
            LifecycleTask::Recover { account_id, user_id, recovery_key } => TaskView::Recover {
                account_id: *account_id,
                user_id: user_id@,
                recovery_key: recovery_key@,
            },
            LifecycleTask::EnableBackup { account_id, user_id, recovery_key } => {
                TaskView::EnableBackup {
                    account_id: *account_id,
                    user_id: user_id@,
                    recovery_key: option_view(*recovery_key),
                }
            },
            LifecycleTask::Delete { account_id, user_id } => TaskView::Delete {
                account_id: *account_id,
                user_id: user_id@,
            },
            LifecycleTask::StartVerification { account_id, user_id, device_id } => {
                TaskView::StartVerification {
                    account_id: *account_id,
                    user_id: option_view(*user_id),
                    device_id: option_view(*device_id),
                }
            },
            LifecycleTask::ConfirmVerification { account_id, flow_id } => {
                TaskView::ConfirmVerification { account_id: *account_id, flow_id: flow_id@ }
            },
            LifecycleTask::CancelVerification { account_id, flow_id } => {
                TaskView::CancelVerification { account_id: *account_id, flow_id: flow_id@ }
            },
            LifecycleTask::DeclineVerification { account_id, flow_id } => {
                TaskView::DeclineVerification { account_id: *account_id, flow_id: flow_id@ }
            },
            LifecycleTask::ListFlows { account_id } => TaskView::ListFlows {
                account_id: *account_id,
            },
            LifecycleTask::GetFlow { account_id, flow_id } => TaskView::GetFlow {
                account_id: *account_id,
                flow_id: flow_id@,
            },
        }
    }
}

// ---------------------------------------------------------------------------
// The line
// ---------------------------------------------------------------------------

/// Whether the line was emptied for a prompt, the completions of accounts with it.
pub open spec fn line_cleared(before: InputState, after: InputState) -> bool {
    &&& after.buffer@.len() == 0
    &&& after.ok()
    &&& after == (InputState {
        buffer: after.buffer,
        cursor: 0,
        logout_command_completion: None,
        recover_command_completion: None,
        backup_command_completion: None,
        delete_command_completion: None,
        ..before
    })
}

/// Whether the line is a new one with the cursor at its end.
pub open spec fn line_set(before: InputState, after: InputState, line: Seq<char>) -> bool {
    &&& after.buffer@ == line
    &&& after.ok()
    &&& after.before() == line
    &&& after == (InputState { buffer: after.buffer, cursor: after.cursor, ..before })
}

/// Whether the line was taken, and nothing else of it changed.
pub open spec fn line_taken(before: InputState, after: InputState) -> bool {
    &&& after.buffer@.len() == 0
    &&& after.ok()
    &&& after == (InputState { buffer: after.buffer, cursor: 0, ..before })
}

impl InputState {
    fn clear_for_prompt(&mut self)
        ensures
            line_cleared(*old(self), *final(self)),
    {
        self.clear();
        self.logout_command_completion = None;
        self.recover_command_completion = None;
        self.backup_command_completion = None;
        self.delete_command_completion = None;
    }

    /// Takes the line to submit it.
    pub fn take_line(&mut self) -> (out: String)
        ensures
            out == old(self).buffer,
            line_taken(*old(self), *final(self)),
    {
        let out = self.buffer.clone();
        self.clear();
        out
    }
}

/// The words of a text, which white space parts.
pub open spec fn words_of(s: Seq<char>) -> Seq<Seq<char>>
    decreases s.len(),
{
    if s.len() == 0 {
        Seq::empty()
    } else if is_white(s.last()) {
        words_of(s.drop_last())
    } else {
        let before = words_of(s.drop_last());
        if s.len() > 1 && !is_white(s[s.len() - 2]) && before.len() > 0 {
            before.update(before.len() - 1, before.last().push(s.last()))
        } else {
            before.push(seq![s.last()])
        }
    }
}

/// The words of a text.
pub fn split_words(s: &str) -> (out: Vec<String>)
    ensures
        views(out@) == words_of(s@),
{
    let x = chars_of(s);
    let mut words: Vec<Vec<char>> = Vec::new();
    let mut i: usize = 0;
    let ghost text = s@;
    assert(views(words@) =~= Seq::<Seq<char>>::empty());
    assert(text.take(0) =~= Seq::<char>::empty());
    while i < x.len()
        invariant
            i <= x.len(),
            x@ == text,
            text == s@,
            views(words@) == words_of(text.take(i as int)),
        decreases x.len() - i,
    {
        let ghost before = views(words@);
        let ghost part = text.take(i + 1);
        assert(part.drop_last() =~= text.take(i as int));
        assert(part.last() == x@[i as int]);
        if !char_is_white(x[i]) {
            assert(words@.len() == before.len());
            if i > 0 && !char_is_white(x[i - 1]) && words.len() > 0 {
                assert(part[part.len() - 2] == x@[i - 1]);
                let last: usize = words.len() - 1;
                let mut word = words.remove(last);
                word.push(x[i]);
                words.push(word);
                assert(views(words@) =~= before.update(
                    before.len() - 1,
                    before.last().push(x@[i as int]),
                ));
            } else {
                let mut word: Vec<char> = Vec::new();
                word.push(x[i]);
                assert(word@ =~= seq![x@[i as int]]);
                words.push(word);
                assert(i > 0 ==> part[part.len() - 2] == x@[i - 1]);
                assert(views(words@) =~= before.push(seq![x@[i as int]]));
            }
        }
        i = i + 1;
    }
    assert(text.take(i as int) =~= text);
    let mut out: Vec<String> = Vec::new();
    let mut k: usize = 0;
    while k < words.len()
        invariant
            k <= words.len(),
            out.len() == k,
            forall|j: int| 0 <= j < k ==> (#[trigger] out@[j])@ == words@[j]@,
        decreases words.len() - k,
    {
        out.push(text_of(words[k].as_slice()));
        k = k + 1;
    }
    assert(views(out@) =~= views(words@));
    out
}

// ---------------------------------------------------------------------------
// Login
// ---------------------------------------------------------------------------

/// The accounts that are active.
pub open spec fn active_ids(accounts: Seq<AccountView>) -> Seq<u128>
    decreases accounts.len(),
{
    if accounts.len() == 0 {
        Seq::empty()
    } else if accounts.last().state == AccountState::Active {
        active_ids(accounts.drop_last()).push(accounts.last().account_id)
    } else {
        active_ids(accounts.drop_last())
    }
}

pub open spec fn homeserver_option(value: Option<Seq<char>>) -> Option<Seq<char>> {
    match value {
        Some(v) => Some(homeserver_url(v)),
        None => None,
    }
}

fn normalize_homeserver(value: Option<String>) -> (out: Option<String>)
    ensures
        option_view(out) == homeserver_option(option_view(value)),
{
    match value {
        Some(v) => Some(normalize_homeserver_url(v.as_str())),
        None => None,
    }
}

pub open spec fn busy_text() -> Seq<char> {
    "an account operation is already in progress"@
}

/// Whether nothing but the status changed.
pub open spec fn said(before: App, after: App, text: Seq<char>) -> bool {
    after == (App { status: after.status, ..before }) && after.status@ == StatusView::Info(text)
}

/// Whether the user is asked for something.
pub open spec fn prompted(before: App, after: App, mode: ModeView, text: Seq<char>) -> bool {
    &&& after == (App { input: after.input, mode: after.mode, status: after.status, ..before })
    &&& line_cleared(before.input, after.input)
    &&& after.mode@ == mode
    &&& after.status@ == StatusView::Info(text)
}

/// Whether a request to the server was begun: the line is empty, the client is busy
/// and says what it does. Where requests cannot be made, only the line is emptied.
pub open spec fn begun(before: App, after: App, text: Seq<char>) -> bool {
    &&& after == (App {
        input: after.input,
        mode: after.mode,
        status: after.status,
        busy: after.busy,
        ..before
    })
    &&& line_cleared(before.input, after.input)
    &&& after.mode@ == ModeView::Compose
    &&& if before.session.wired {
        &&& after.busy == (Busy { lifecycle: true, ..before.busy })
        &&& after.status@ == StatusView::Info(text)
    } else {
        after.busy == before.busy && after.status == before.status
    }
}

/// The task that a request asks for, where requests can be made.
pub open spec fn if_wired(app: App, task: TaskView) -> TaskView {
    if app.session.wired {
        task
    } else {
        TaskView::Nothing
    }
}

/// Whether a login was started, or what it lacks is asked for.
pub open spec fn login_started(before: App, after: App, username: Option<Seq<char>>, password: Option<Seq<char>>, homeserver: Option<Seq<char>>, task: TaskView) -> bool {
    let (before, after) = (before, after);
    let server = homeserver_option(homeserver);
    if before.busy.lifecycle {
        task == TaskView::Nothing && said(before, after, busy_text())
    } else {
        match username {
            None => task == TaskView::Nothing && prompted(
                before,
                after,
                ModeView::LoginUsername,
                username_prompt(),
            ),
            Some(raw) => match normal_user_id(raw) {
                None => {
                    &&& task == TaskView::Nothing
                    &&& after == (App {
                        input: after.input,
                        mode: after.mode,
                        status: after.status,
                        ..before
                    })
                    &&& line_set(before.input, after.input, raw)
                    &&& after.mode@ == ModeView::LoginUsername
                    &&& after.status@ == StatusView::Info(user_id_error())
                },
                Some(id) => match password {
                    None => task == TaskView::Nothing && prompted(
                        before,
                        after,
                        ModeView::LoginPassword { username: id, homeserver: server },
                        password_prompt(),
                    ),
                    Some(secret) => {
                        &&& begun(before, after, "logging in "@ + id + "…"@)
                        &&& task == if_wired(
                            before,
                            TaskView::Login {
                                username: id,
                                password: secret,
                                homeserver: server,
                                prior_account_ids: active_ids(
                                    views(before.accounts.accounts@),
                                ),
                            },
                        )
                    },
                },
            },
        }
    }

}

/// Whether the password is asked for, or it was said what is wrong with the name.
pub open spec fn username_given(before: App, after: App) -> bool {
    let line = before.input.buffer@;
    let words = words_of(line);
    let name = if words.len() > 0 {
        words[0]
    } else {
        Seq::empty()
    };
    let server = if words.len() > 1 {
        Some(homeserver_url(words[1]))
    } else {
        None
    };
    &&& after == (App {
        input: after.input,
        mode: after.mode,
        status: after.status,
        ..before
    })
    &&& if words.len() > 2 || normal_user_id(name) is None {
        &&& line_set(before.input, after.input, line)
        &&& after.mode == before.mode
        &&& after.status@ == StatusView::Info(
            if words.len() > 2 {
                "enter at most a Matrix ID and a homeserver, e.g. @user:example.com hs.example.com"@
            } else {
                user_id_error()
            },
        )
    } else {
        &&& line_taken(before.input, after.input)
        &&& after.mode@ == (ModeView::LoginPassword {
            username: normal_user_id(name)->0,
            homeserver: server,
        })
        &&& after.status@ == StatusView::Info(password_prompt())
    }
}

/// Whether a login was begun, or it was said that the password is missing.
pub open spec fn password_given(before: App, after: App, username: String, homeserver: Option<String>, task: LifecycleTask) -> bool {
    let password = before.input.buffer@;
    if password.len() == 0 {
        &&& task@ == TaskView::Nothing
        &&& after == (App { input: after.input, status: after.status, ..before })
        &&& line_taken(before.input, after.input)
        &&& after.status@ == StatusView::Info("password cannot be empty"@)
    } else {
        &&& begun(before, after, "logging in "@ + username@ + "…"@)
        &&& task@ == if_wired(
            before,
            TaskView::Login {
                username: username@,
                password,
                homeserver: option_view(homeserver),
                prior_account_ids: active_ids(views(before.accounts.accounts@)),
            },
        )
    }
}

impl App {
    pub fn active_account_ids(&self) -> (out: Vec<u128>)
        ensures
            out@ == active_ids(views(self.accounts.accounts@)),
    {
        let ghost all = views(self.accounts.accounts@);
        let mut out: Vec<u128> = Vec::new();
        let mut i: usize = 0;
        while i < self.accounts.accounts.len()
            invariant
                i <= self.accounts.accounts.len(),
                all == views(self.accounts.accounts@),
                out@ == active_ids(all.take(i as int)),
            decreases self.accounts.accounts.len() - i,
        {
            assert(all.take(i + 1).drop_last() =~= all.take(i as int));
            assert(all.take(i + 1).last() == self.accounts.accounts@[i as int]@);
            if self.accounts.accounts[i].state == AccountState::Active {
                out.push(self.accounts.accounts[i].account_id);
            }
            i = i + 1;
        }
        assert(all.take(i as int) =~= all);
        out
    }

    fn reject_if_lifecycle_busy(&mut self) -> (r: bool)
        ensures
            r == old(self).busy.lifecycle,
            if r {
                said(*old(self), *final(self), busy_text())
            } else {
                *final(self) == *old(self)
            },
    {
        if self.busy.lifecycle {
            self.say("an account operation is already in progress");
            return true;
        }
        false
    }

    fn prompt(&mut self, mode: Mode, text: String)
        ensures
            prompted(*old(self), *final(self), mode@, text@),
    {
        self.input.clear_for_prompt();
        self.mode = mode;
        self.status = Status::Info(text);
    }

    fn begin(&mut self, text: String)
        ensures
            begun(*old(self), *final(self), text@),
    {
        self.input.clear_for_prompt();
        self.mode = Mode::Compose;
        if self.session.wired {
            self.status = Status::Info(text);
            self.busy.lifecycle = true;
        }
    }

    fn perform_login(&mut self, username: String, password: String, homeserver: Option<String>) -> (task:
        LifecycleTask)
        ensures
            begun(*old(self), *final(self), "logging in "@ + username@ + "…"@),
            task@ == if_wired(
                *old(self),
                TaskView::Login {
                    username: username@,
                    password: password@,
                    homeserver: option_view(homeserver),
                    prior_account_ids: active_ids(views(old(self).accounts.accounts@)),
                },
            ),
    {
        let prior_account_ids = self.active_account_ids();
        self.begin(cat3("logging in ", username.as_str(), "…"));
        if self.session.wired {
            LifecycleTask::Login { username, password, homeserver, prior_account_ids }
        } else {
            LifecycleTask::Nothing
        }
    }

    /// What `/login` does: it asks for what is missing, and logs in where nothing
    /// is.
    pub fn start_login(
        &mut self,
        username: Option<String>,
        password: Option<String>,
        homeserver: Option<String>,
    ) -> (task: LifecycleTask)
        ensures
            login_started(*old(self), *final(self), option_view(username), option_view(password), option_view(homeserver), task@),
    {
        if self.reject_if_lifecycle_busy() {
            return LifecycleTask::Nothing;
        }
        let raw = match username {
            Some(u) => u,
            None => {
                self.prompt(
                    Mode::LoginUsername,
                    "Matrix ID (optionally a homeserver after it): @user:example.com [hs.example.com]".to_owned(),
                );
                return LifecycleTask::Nothing;
            },
        };
        let id = match normalize_matrix_user_id(raw.as_str()) {
            Ok(id) => id,
            Err(message) => {
                self.input.set(raw);
                self.mode = Mode::LoginUsername;
                self.status = Status::Info(message);
                return LifecycleTask::Nothing;
            },
        };
        let server = normalize_homeserver(homeserver);
        match password {
            None => {
                self.prompt(
                    Mode::LoginPassword { username: id, homeserver: server },
                    "Password: input is hidden; Enter submits, Esc cancels".to_owned(),
                );
                LifecycleTask::Nothing
            },
            Some(secret) => self.perform_login(id, secret, server),
        }
    }

    /// Takes the line as a Matrix id, with a homeserver after it or without.
    pub fn submit_login_username(&mut self)
        ensures
            username_given(*old(self), *final(self)),
    {
        let raw = self.input.take_line();
        let words = split_words(raw.as_str());
        assert(words@.len() == views(words@).len());
        if words.len() > 2 {
            self.input.set(raw);
            self.say(
                "enter at most a Matrix ID and a homeserver, e.g. @user:example.com hs.example.com",
            );
            return ;
        }
        let name = if words.len() > 0 {
            words[0].clone()
        } else {
            String::new()
        };
        assert(words.len() == 0 ==> name@ =~= Seq::<char>::empty());
        assert(words.len() > 0 ==> name@ == views(words@)[0]);
        let id = match normalize_matrix_user_id(name.as_str()) {
            Ok(id) => id,
            Err(message) => {
                self.input.set(raw);
                self.status = Status::Info(message);
                return ;
            },
        };
        let server = if words.len() > 1 {
            assert(words@[1]@ == views(words@)[1]);
            Some(normalize_homeserver_url(words[1].as_str()))
        } else {
            None
        };
        self.mode = Mode::LoginPassword { username: id, homeserver: server };
        self.say("Password: input is hidden; Enter submits, Esc cancels");
    }

    /// Takes the line as the password.
    pub fn submit_login_password(&mut self, username: String, homeserver: Option<String>) -> (task:
        LifecycleTask)
        ensures
            password_given(*old(self), *final(self), username, homeserver, task),
    {
        let password = self.input.take_line();
        if password.as_str().is_empty() {
            self.say("password cannot be empty");
            return LifecycleTask::Nothing;
        }
        self.perform_login(username, password, homeserver)
    }
}

// ---------------------------------------------------------------------------
// Logout, recovery, backup, deletion
// ---------------------------------------------------------------------------

pub open spec fn purpose_verb(purpose: AccountPurpose) -> Seq<char> {
    match purpose {
        AccountPurpose::Logout => "logging out"@,
        AccountPurpose::Recover => "preparing recovery"@,
        AccountPurpose::BackupEnable => "preparing backup enable"@,
        AccountPurpose::Delete => "preparing to delete"@,
    }
}

/// What stands between the verb and the target.
pub open spec fn purpose_join(purpose: AccountPurpose) -> Seq<char> {
    match purpose {
        AccountPurpose::Logout => " "@,
        AccountPurpose::Recover => " for "@,
        AccountPurpose::BackupEnable => " for "@,
        AccountPurpose::Delete => " "@,
    }
}

/// What is said while the accounts are listed.
pub open spec fn listing_text(purpose: AccountPurpose, target: Option<Seq<char>>) -> Seq<char> {
    match target {
        Some(t) => if t.len() > 0 {
            purpose_verb(purpose) + purpose_join(purpose) + t + "…"@
        } else {
            purpose_verb(purpose) + "…"@
        },
        None => purpose_verb(purpose) + "…"@,
    }
}

fn describe_listing(purpose: AccountPurpose, target: &Option<String>) -> (out: String)
    ensures
        out@ == listing_text(purpose, option_view(*target)),
{
    let (verb, joint) = match purpose {
        AccountPurpose::Logout => ("logging out", " "),
        AccountPurpose::Recover => ("preparing recovery", " for "),
        AccountPurpose::BackupEnable => ("preparing backup enable", " for "),
        AccountPurpose::Delete => ("preparing to delete", " "),
    };
    match target {
        Some(t) => if t.as_str().is_empty() {
            cat2(verb, "…")
        } else {
            cat4(verb, joint, t.as_str(), "…")
        },
        None => cat2(verb, "…"),
    }
}

impl App {
    /// Lists the accounts, to find the one that is meant.
    fn start_listing(&mut self, purpose: AccountPurpose, target: Option<String>) -> (task:
        LifecycleTask)
        ensures
            old(self).listing_started(*final(self), task@, purpose, option_view(target)),
    {
        if self.reject_if_lifecycle_busy() {
            return LifecycleTask::Nothing;
        }
        if !self.session.wired {
            return LifecycleTask::Nothing;
        }
        let text = describe_listing(purpose, &target);
        self.status = Status::Info(text);
        self.busy.lifecycle = true;
        LifecycleTask::ListAccounts { purpose, target }
    }

    pub open spec fn listing_started(
        self,
        after: App,
        task: TaskView,
        purpose: AccountPurpose,
        target: Option<Seq<char>>,
    ) -> bool {
        if self.busy.lifecycle {
            task == TaskView::Nothing && said(self, after, busy_text())
        } else if !self.session.wired {
            task == TaskView::Nothing && after == self
        } else {
            &&& task == TaskView::ListAccounts { purpose, target }
            &&& after == (App {
                status: after.status,
                busy: Busy { lifecycle: true, ..self.busy },
                ..self
            })
            &&& after.status@ == StatusView::Info(listing_text(purpose, target))
        }
    }

    pub fn start_logout(&mut self, target: Option<String>) -> (task: LifecycleTask)
        ensures
            old(self).listing_started(
                *final(self),
                task@,
                AccountPurpose::Logout,
                option_view(target),
            ),
    {
        self.start_listing(AccountPurpose::Logout, target)
    }

    pub fn start_recover(&mut self, target: Option<String>) -> (task: LifecycleTask)
        ensures
            old(self).listing_started(
                *final(self),
                task@,
                AccountPurpose::Recover,
                option_view(target),
            ),
    {
        self.start_listing(AccountPurpose::Recover, target)
    }

    pub fn start_backup_enable(&mut self, target: Option<String>) -> (task: LifecycleTask)
        ensures
            old(self).listing_started(
                *final(self),
                task@,
                AccountPurpose::BackupEnable,
                option_view(target),
            ),
    {
        self.start_listing(AccountPurpose::BackupEnable, target)
    }

    pub fn start_delete(&mut self, target: Option<String>) -> (task: LifecycleTask)
        ensures
            old(self).listing_started(
                *final(self),
                task@,
                AccountPurpose::Delete,
                option_view(target),
            ),
    {
        self.start_listing(AccountPurpose::Delete, target)
    }
}

/// How a recovery key is asked for.
pub open spec fn recovery_prompt(user_id: Seq<char>, origin: RecoveryOrigin) -> Seq<char> {
    match origin {
        RecoveryOrigin::BackupEnable => "Recovery key for "@ + user_id
            + ": input is hidden; Enter submits, empty Enter kicks upload only, Esc cancels"@,
        _ => "Recovery key for "@ + user_id
            + ": input is hidden; Enter submits, empty Enter or Esc skips"@,
    }
}

/// What is said of a recovery that the user left.
pub open spec fn skipped_text(user_id: Seq<char>, origin: RecoveryOrigin) -> Seq<char> {
    match origin {
        RecoveryOrigin::PostLogin => "recovery skipped for "@ + user_id,
        RecoveryOrigin::Command => "recovery cancelled for "@ + user_id,
        RecoveryOrigin::BackupEnable => "backup enable cancelled for "@ + user_id,
    }
}

/// A key without the white space round it, or none.
pub open spec fn key_or_none(key: Seq<char>) -> Option<Seq<char>> {
    if trim(key).len() == 0 {
        None
    } else {
        Some(trim(key))
    }
}

/// Whether a key was handed on, or the recovery skipped.
pub open spec fn key_given(before: App, after: App, account: AccountDto, origin: RecoveryOrigin, task: LifecycleTask) -> bool {
    let key = before.input.buffer@;
    let user_id = account@.user_id;
    if origin == RecoveryOrigin::BackupEnable {
        &&& before.backup_begun(after, user_id)
        &&& task@ == if_wired(
            before,
            TaskView::EnableBackup {
                account_id: account.account_id,
                user_id,
                recovery_key: key_or_none(key),
            },
        )
    } else if trim(key).len() == 0 {
        &&& task@ == TaskView::Nothing
        &&& after == (App {
            input: after.input,
            mode: after.mode,
            status: after.status,
            ..before
        })
        &&& line_taken(before.input, after.input)
        &&& after.mode@ == ModeView::Compose
        &&& after.status@ == StatusView::Info(skipped_text(user_id, origin))
    } else {
        &&& begun(
            before,
            after,
            "recovering encryption keys for "@ + user_id + "…"@,
        )
        &&& task@ == if_wired(
            before,
            TaskView::Recover {
                account_id: account.account_id,
                user_id,
                recovery_key: key,
            },
        )
    }
}

impl App {
    pub fn request_recovery(&mut self, account: AccountDto, origin: RecoveryOrigin)
        ensures
            prompted(
                *old(self),
                *final(self),
                ModeView::RecoveryKey { account: account@, origin },
                recovery_prompt(account@.user_id, origin),
            ),
    {
        let text = match origin {
            RecoveryOrigin::BackupEnable => cat3(
                "Recovery key for ",
                account.user_id.as_str(),
                ": input is hidden; Enter submits, empty Enter kicks upload only, Esc cancels",
            ),
            _ => cat3(
                "Recovery key for ",
                account.user_id.as_str(),
                ": input is hidden; Enter submits, empty Enter or Esc skips",
            ),
        };
        self.prompt(Mode::RecoveryKey { account, origin }, text);
    }

    fn perform_recover(&mut self, account: AccountDto, recovery_key: String) -> (task: LifecycleTask)
        ensures
            begun(
                *old(self),
                *final(self),
                "recovering encryption keys for "@ + account@.user_id + "…"@,
            ),
            task@ == if_wired(
                *old(self),
                TaskView::Recover {
                    account_id: account.account_id,
                    user_id: account@.user_id,
                    recovery_key: recovery_key@,
                },
            ),
    {
        self.begin(cat3("recovering encryption keys for ", account.user_id.as_str(), "…"));
        if self.session.wired {
            LifecycleTask::Recover {
                account_id: account.account_id,
                user_id: account.user_id,
                recovery_key,
            }
        } else {
            LifecycleTask::Nothing
        }
    }

    fn perform_enable_backup(&mut self, account: AccountDto, recovery_key: Option<String>) -> (task:
        LifecycleTask)
        ensures
            old(self).backup_begun(*final(self), account@.user_id),
            task@ == if_wired(
                *old(self),
                TaskView::EnableBackup {
                    account_id: account.account_id,
                    user_id: account@.user_id,
                    recovery_key: option_view(recovery_key),
                },
            ),
    {
        self.input.clear_for_prompt();
        self.mode = Mode::Compose;
        let text = cat3("enabling megolm backup for ", account.user_id.as_str(), "…");
        self.status = Status::Info(text);
        if self.session.wired {
            self.busy.lifecycle = true;
            LifecycleTask::EnableBackup {
                account_id: account.account_id,
                user_id: account.user_id,
                recovery_key,
            }
        } else {
            LifecycleTask::Nothing
        }
    }

    /// Whether the backup is being enabled. That is said even where requests cannot
    /// be made.
    pub open spec fn backup_begun(self, after: App, user_id: Seq<char>) -> bool {
        &&& after == (App {
            input: after.input,
            mode: after.mode,
            status: after.status,
            busy: Busy { lifecycle: self.session.wired || self.busy.lifecycle, ..self.busy },
            ..self
        })
        &&& line_cleared(self.input, after.input)
        &&& after.mode@ == ModeView::Compose
        &&& after.status@ == StatusView::Info("enabling megolm backup for "@ + user_id + "…"@)
    }

    /// Takes the line as a recovery key. An empty one leaves the recovery, but lets
    /// the backup go on.
    pub fn submit_recovery_key(&mut self, account: AccountDto, origin: RecoveryOrigin) -> (task:
        LifecycleTask)
        ensures
            key_given(*old(self), *final(self), account, origin, task),
    {
        let key = self.input.take_line();
        let trimmed = trim_text(key.as_str());
        if origin == RecoveryOrigin::BackupEnable {
            let given = if trimmed.is_empty() {
                None
            } else {
                Some(trimmed.to_owned())
            };
            return self.perform_enable_backup(account, given);
        }
        if trimmed.is_empty() {
            self.mode = Mode::Compose;
            let text = match origin {
                RecoveryOrigin::PostLogin => cat2(
                    "recovery skipped for ",
                    account.user_id.as_str(),
                ),
                RecoveryOrigin::Command => cat2(
                    "recovery cancelled for ",
                    account.user_id.as_str(),
                ),
                RecoveryOrigin::BackupEnable => cat2(
                    "backup enable cancelled for ",
                    account.user_id.as_str(),
                ),
            };
            self.status = Status::Info(text);
            return LifecycleTask::Nothing;
        }
        self.perform_recover(account, key)
    }

    pub fn perform_logout(&mut self, account: AccountDto) -> (task: LifecycleTask)
        ensures
            begun(*old(self), *final(self), "logging out "@ + account@.user_id + "…"@),
            task@ == if_wired(
                *old(self),
                TaskView::Logout { account_id: account.account_id, user_id: account@.user_id },
            ),
    {
        self.begin(cat3("logging out ", account.user_id.as_str(), "…"));
        if self.session.wired {
            LifecycleTask::Logout { account_id: account.account_id, user_id: account.user_id }
        } else {
            LifecycleTask::Nothing
        }
    }

    /// Whether the user was asked to confirm a logout, or it was begun.
    pub open spec fn logout_requested(self, after: App, task: TaskView, account: AccountView) -> bool {
        if self.display.confirm_logout {
            task == TaskView::Nothing && prompted(
                self,
                after,
                ModeView::ConfirmLogout { account },
                "Log out "@ + account.user_id + "? [y/N]"@,
            )
        } else {
            &&& begun(self, after, "logging out "@ + account.user_id + "…"@)
            &&& task == if_wired(
                self,
                TaskView::Logout { account_id: account.account_id, user_id: account.user_id },
            )
        }
    }

    pub fn request_logout(&mut self, account: AccountDto) -> (task: LifecycleTask)
        ensures
            old(self).logout_requested(*final(self), task@, account@),
    {
        if self.display.confirm_logout {
            let text = cat3("Log out ", account.user_id.as_str(), "? [y/N]");
            self.prompt(Mode::ConfirmLogout { account }, text);
            LifecycleTask::Nothing
        } else {
            self.perform_logout(account)
        }
    }

    pub fn cancel_logout_confirmation(&mut self)
        ensures
            *final(self) == (App {
                mode: final(self).mode,
                status: final(self).status,
                ..*old(self)
            }),
            final(self).mode@ == ModeView::Compose,
            final(self).status@ == StatusView::Info(Seq::empty()),
    {
        self.mode = Mode::Compose;
        let empty = String::new();
        assert(empty@ =~= Seq::<char>::empty());
        self.status = Status::Info(empty);
    }

    pub fn request_delete(&mut self, account: AccountDto)
        ensures
            prompted(
                *old(self),
                *final(self),
                ModeView::ConfirmDelete { account: account@ },
                "Permanently delete "@ + account@.user_id
                    + "? Type YES to confirm, or Esc to cancel"@,
            ),
    {
        let text = cat3(
            "Permanently delete ",
            account.user_id.as_str(),
            "? Type YES to confirm, or Esc to cancel",
        );
        self.prompt(Mode::ConfirmDelete { account }, text);
    }

    pub fn cancel_delete_confirmation(&mut self)
        ensures
            prompted(*old(self), *final(self), ModeView::Compose, "deletion cancelled"@),
    {
        self.prompt(Mode::Compose, "deletion cancelled".to_owned());
    }

    pub fn perform_delete(&mut self, account: AccountDto) -> (task: LifecycleTask)
        ensures
            begun(*old(self), *final(self), "deleting "@ + account@.user_id + "…"@),
            task@ == if_wired(
                *old(self),
                TaskView::Delete { account_id: account.account_id, user_id: account@.user_id },
            ),
    {
        self.begin(cat3("deleting ", account.user_id.as_str(), "…"));
        if self.session.wired {
            LifecycleTask::Delete { account_id: account.account_id, user_id: account.user_id }
        } else {
            LifecycleTask::Nothing
        }
    }
}

} // verus!
