//! What a command does.
//!
//! A command changes the client at once, as far as it can. What is left for the
//! caller, a request to the server or a file to be written, comes back as an effect.

use vstd::prelude::*;

use crate::api::client::Request;
use crate::app::bootstrap::rooms_asked;
use crate::app::choice::{filter_of_word, sort_of_word, RoomFilter, RoomKey, RoomSort};
use crate::app::compose::{
    media_sent, message_sent, reply_started, thread_started, MediaSend, MessageSend, ThreadToOpen,
};
use crate::app::drafts::DraftPut;
use crate::app::history::{jump_begun, timeline_asked, top_begun};
use crate::app::inspect::event_asked;
use crate::app::lifecycle::{login_started, said, AccountPurpose, LifecycleTask};
use crate::app::outcome::response_queued;
use crate::app::paging::{Straddle, TopWalk};
use crate::app::panels::{popped_up, whereami_shown, whoami_shown};
use crate::app::reactions::{
    react_started, reaction_asked, reaction_prepared, unreact_started, withdrawal_begun,
    Withdrawal,
};
use crate::app::room_list::{filter_set, selection_in_list, sort_set, RoomViewTokens};
use crate::app::selection::message_selected;
use crate::app::state::{App, OwnReaction, PopupKind, Session, SIXEL_REFRESH_INTERVAL};
use crate::app::status::Status;
use crate::app::switching::{
    account_switched, room_pinned, room_switched, room_unpinned, PinChange,
};
use crate::app::verify::verification_started;
use crate::text::{is_listed, lowercase, option_str, option_str_view, option_view, trim, views};

verus! {

/// A command that the search or the room panel carries out.
#[derive(Debug, PartialEq, Eq)]
pub enum Elsewhere {
    Search(String),
    UnreadThreads,
    Leave,
    Forget(Option<String>),
    Invite(String),
    Kick(String),
    Ban(String),
    Unban(String),
}

/// A command as it was typed. Where a message is also sent as HTML, that form comes
/// with it.
#[derive(Debug)]
#[allow(inconsistent_fields)]
pub enum Command {
    Login { username: Option<String>, password: Option<String>, homeserver: Option<String> },
    Logout(Option<String>),
    Recover(Option<String>),
    BackupEnable(Option<String>),
    Delete(Option<String>),
    Room(String),
    Pin(Option<String>),
    Unpin(Option<String>),
    Filter(String),
    Sort(String),
    Account(String),
    Status,
    Event(String),
    Whoami,
    Whereami,
    StartReact,
    /// A reaction, with the one that the text stands for.
    React { input: String, meant: Option<String> },
    Unreact,
    Reply,
    Thread,
    Verify(Option<String>),
    Bundle(String),
    Help,
    Shortcuts,
    Refresh,
    EditConfig,
    SaveConfig,
    Quit,
    Send { body: String, html: Option<String> },
    /// A message of HTML, with its plain text.
    SendHtml { html: String, plain: String },
    SendLiteral(String),
    SendMedia { path: String, caption: Option<String> },
    Rainbow { text: String, html: String },
    Spoiler { plain: String, html: String },
    JumpToDate(i64),
    JumpToTop,
    Invalid(String),
    ApiUnsupported(String),
    Unknown(String),
    Elsewhere(Elsewhere),
    Empty,
}

/// What a command leaves to the caller.
#[derive(Debug)]
#[allow(inconsistent_fields)]
pub enum Effect {
    Nothing,
    Task(LifecycleTask),
    LoadTimeline(RoomKey, Request),
    KeepRoomView(RoomViewTokens),
    KeepPins(PinChange),
    ReadEvent(Request),
    ReadBundle { event_id: String, request: Request },
    WriteDraft(DraftPut),
    SendReaction { event_id: String, key: String, request: Request },
    Withdraw(Withdrawal),
    OpenThread(ThreadToOpen),
    FetchRooms,
    KeepDisplay,
    SendMessage(MessageSend),
    SendMedia(MediaSend),
    Jump(RoomKey, Straddle),
    WalkToTop(RoomKey, TopWalk),
    Elsewhere(Elsewhere),
}

impl Effect {
    /// Whether the answer to the command is known only once the effect is done.
    pub open spec fn is_awaited(self) -> bool {
        match self {
            Effect::Nothing => false,
            Effect::Task(_) => false,
            Effect::WriteDraft(_) => false,
            Effect::FetchRooms => false,
            Effect::SendMessage(_) => false,
            Effect::SendMedia(_) => false,
            _ => true,
        }
    }

    pub fn awaited(&self) -> (r: bool)
        ensures
            r == self.is_awaited(),
    {
        match self {
            Effect::Nothing => false,
            Effect::Task(_) => false,
            Effect::WriteDraft(_) => false,
            Effect::FetchRooms => false,
            Effect::SendMessage(_) => false,
            Effect::SendMedia(_) => false,
            _ => true,
        }
    }
}

/// What a command depends on besides the client.
pub struct Surroundings<'a> {
    /// Milliseconds of a clock that never goes back.
    pub now: u64,
    /// Milliseconds since 1970.
    pub now_ms: i64,
    pub home: Option<&'a str>,
    /// The messages of the selected room that have a thread.
    pub thread_roots: &'a Vec<String>,
}

// ---------------------------------------------------------------------------
// Effects of what a command began
// ---------------------------------------------------------------------------

pub open spec fn loads(effect: Effect) -> Option<(RoomKey, Request)> {
    match effect {
        Effect::LoadTimeline(key, request) => Some((key, request)),
        _ => None,
    }
}

pub open spec fn pins_kept(effect: Effect) -> Option<PinChange> {
    match effect {
        Effect::KeepPins(change) => Some(change),
        _ => None,
    }
}

pub open spec fn messages_sent(effect: Effect) -> Option<MessageSend> {
    match effect {
        Effect::SendMessage(send) => Some(send),
        _ => None,
    }
}

pub open spec fn files_sent(effect: Effect) -> Option<MediaSend> {
    match effect {
        Effect::SendMedia(send) => Some(send),
        _ => None,
    }
}

pub open spec fn drafts_written(effect: Effect) -> Option<DraftPut> {
    match effect {
        Effect::WriteDraft(put) => Some(put),
        _ => None,
    }
}

pub open spec fn threads_opened(effect: Effect) -> Option<ThreadToOpen> {
    match effect {
        Effect::OpenThread(open) => Some(open),
        _ => None,
    }
}

pub open spec fn jumps(effect: Effect) -> Option<(RoomKey, Straddle)> {
    match effect {
        Effect::Jump(key, search) => Some((key, search)),
        _ => None,
    }
}

pub open spec fn walks(effect: Effect) -> Option<(RoomKey, TopWalk)> {
    match effect {
        Effect::WalkToTop(key, walk) => Some((key, walk)),
        _ => None,
    }
}

pub open spec fn withdrawals(effect: Effect) -> Option<Withdrawal> {
    match effect {
        Effect::Withdraw(w) => Some(w),
        _ => None,
    }
}

pub open spec fn events_read(effect: Effect) -> Option<Request> {
    match effect {
        Effect::ReadEvent(request) => Some(request),
        _ => None,
    }
}

/// An effect that is there, or nothing.
pub open spec fn either<T>(there: Option<T>, effect: Effect) -> bool {
    there is Some || effect is Nothing
}

/// The format of a message that is also sent as HTML.
pub open spec fn html_form(html: Option<Seq<char>>) -> Option<(Seq<char>, Seq<char>)> {
    match html {
        Some(h) => Some(("org.matrix.custom.html"@, h)),
        None => None,
    }
}

fn as_html(html: Option<String>) -> (out: Option<(String, String)>)
    ensures
        crate::app::compose::formatted_view(out) == html_form(option_view(html)),
{
    match html {
        Some(h) => Some(("org.matrix.custom.html".to_owned(), h)),
        None => None,
    }
}

// ---------------------------------------------------------------------------
// Commands
// ---------------------------------------------------------------------------

/// Whether the room or account that a command named is shown from now on, its timeline
/// to be loaded.
pub open spec fn switched(middle: App, after: App, load: bool, effect: Effect) -> bool {
    if load {
        timeline_asked(middle, after, loads(effect)) && either(loads(effect), effect)
    } else {
        after == middle && effect is Nothing
    }
}

pub open spec fn room_run(
    before: App,
    middle: App,
    after: App,
    target: Seq<char>,
    load: bool,
    effect: Effect,
) -> bool {
    room_switched(before, middle, target, load) && switched(middle, after, load, effect)
}

pub open spec fn account_run(
    before: App,
    middle: App,
    after: App,
    target: Seq<char>,
    done: bool,
    effect: Effect,
) -> bool {
    account_switched(before, middle, trim(target), done) && switched(middle, after, done, effect)
}

/// Whether a reaction was prepared and is to be sent, or it was said why not.
pub open spec fn react_run(
    before: App,
    middle: App,
    after: App,
    input: Seq<char>,
    meant: Option<String>,
    prepared: Result<(String, String), String>,
    effect: Effect,
) -> bool {
    &&& reaction_prepared(before, middle, input, meant, prepared)
    &&& match prepared {
        Err(e) => effect is Nothing && said(middle, after, e@),
        Ok((id, key)) => match effect {
            Effect::SendReaction { event_id, key: k, request } => event_id == id && k == key
                && reaction_asked(middle, after, id@, key@, Some(request)),
            Effect::Nothing => reaction_asked(middle, after, id@, key@, None),
            _ => false,
        },
    }
}

/// Whether a reaction of the selected message is withdrawn.
pub open spec fn unreact_run(
    middle: App,
    chosen: App,
    after: App,
    found: Option<(String, OwnReaction)>,
    effect: Effect,
) -> bool {
    &&& unreact_started(middle, chosen, found)
    &&& match found {
        None => after == chosen && effect is Nothing,
        Some((id, reaction)) => withdrawal_begun(
            chosen,
            after,
            id@,
            reaction,
            withdrawals(effect),
        ) && either(withdrawals(effect), effect),
    }
}

/// Whether the thread of the selected message is opened or begun.
pub open spec fn thread_run(middle: App, after: App, roots: Seq<Seq<char>>, effect: Effect) -> bool {
    let is_root = middle.target() is Some && roots.contains(middle.target()->0.event_id);
    thread_started(middle, after, is_root, threads_opened(effect)) && either(
        threads_opened(effect),
        effect,
    )
}

/// Whether a command that looks for rooms or accounts was carried out.
pub open spec fn lists_run(
    before: App,
    after: App,
    command: Command,
    effect: Effect,
) -> bool {
    match command {
        Command::Room(target) => exists|middle: App, load: bool| #[trigger]
            room_run(before, middle, after, target@, load, effect),
        Command::Account(target) => exists|middle: App, done: bool| #[trigger]
            account_run(before, middle, after, target@, done, effect),
        Command::Pin(target) => room_pinned(before, after, option_view(target), pins_kept(effect))
            && either(pins_kept(effect), effect),
        Command::Unpin(target) => room_unpinned(
            before,
            after,
            option_view(target),
            pins_kept(effect),
        ) && either(pins_kept(effect), effect),
        Command::Filter(arg) => effect matches Effect::KeepRoomView(tokens) && exists|
            filter: RoomFilter,
        | filter@ == filter_of_word(lowercase(trim(arg@))) && #[trigger] filter_set(before, after, filter, tokens),
        Command::Sort(arg) => effect matches Effect::KeepRoomView(tokens) && sort_set(
            before,
            after,
            sort_of_word(lowercase(trim(arg@))),
            tokens,
        ),
        _ => true,
    }
}

/// Whether a command on accounts was carried out.
pub open spec fn accounts_run(before: App, after: App, command: Command, effect: Effect) -> bool {
    match command {
        Command::Login { username, password, homeserver } => effect matches Effect::Task(task)
            && login_started(
            before,
            after,
            option_view(username),
            option_view(password),
            option_view(homeserver),
            task@,
        ),
        Command::Logout(target) => effect matches Effect::Task(task) && before.listing_started(
            after,
            task@,
            AccountPurpose::Logout,
            option_view(target),
        ),
        Command::Recover(target) => effect matches Effect::Task(task) && before.listing_started(
            after,
            task@,
            AccountPurpose::Recover,
            option_view(target),
        ),
        Command::BackupEnable(target) => effect matches Effect::Task(task)
            && before.listing_started(
            after,
            task@,
            AccountPurpose::BackupEnable,
            option_view(target),
        ),
        Command::Delete(target) => effect matches Effect::Task(task) && before.listing_started(
            after,
            task@,
            AccountPurpose::Delete,
            option_view(target),
        ),
        Command::Verify(target) => effect matches Effect::Task(task) && verification_started(
            before,
            after,
            option_view(target),
            task@,
        ),
        _ => true,
    }
}

/// Whether a command on the selected message was carried out.
pub open spec fn selected_run(
    before: App,
    after: App,
    command: Command,
    roots: Seq<Seq<char>>,
    effect: Effect,
) -> bool {
    match command {
        Command::StartReact => exists|middle: App| #[trigger]
            message_selected(before, middle) && react_started(middle, after, drafts_written(effect))
                && either(drafts_written(effect), effect),
        Command::React { input, meant } => exists|
            middle: App,
            prepared: Result<(String, String), String>,
        | #[trigger] react_run(before, middle, after, input@, meant, prepared, effect),
        Command::Unreact => exists|middle: App, chosen: App, found: Option<(String, OwnReaction)>|
            message_selected(before, middle) && #[trigger] unreact_run(
                middle,
                chosen,
                after,
                found,
                effect,
            ),
        Command::Reply => effect is Nothing && exists|middle: App| #[trigger]
            message_selected(before, middle) && reply_started(middle, after),
        Command::Thread => exists|middle: App| #[trigger]
            message_selected(before, middle) && thread_run(middle, after, roots, effect),
        Command::Event(id) => event_asked(
            before,
            after,
            id@,
            Seq::empty(),
            "select a room before using /event"@,
            events_read(effect),
        ) && either(events_read(effect), effect),
        Command::Bundle(id) => match effect {
            Effect::ReadBundle { event_id, request } => event_id == id && event_asked(
                before,
                after,
                id@,
                "/verification"@,
                "select a room before using /bundle"@,
                Some(request),
            ),
            Effect::Nothing => event_asked(
                before,
                after,
                id@,
                "/verification"@,
                "select a room before using /bundle"@,
                None,
            ),
            _ => false,
        },
        _ => true,
    }
}

/// Whether a message was sent as its command says.
pub open spec fn send_run(
    before: App,
    after: App,
    body: Seq<char>,
    html: Option<Seq<char>>,
    now_ms: i64,
    effect: Effect,
) -> bool {
    message_sent(before, after, body, html_form(html), now_ms, messages_sent(effect)) && either(
        messages_sent(effect),
        effect,
    )
}

/// The body of a message of HTML: its plain text, where it has any.
pub open spec fn body_of_html(html: Seq<char>, plain: Seq<char>) -> Seq<char> {
    if plain.len() == 0 {
        html
    } else {
        plain
    }
}

/// Whether a command that sends something was carried out.
pub open spec fn sending_run(
    before: App,
    after: App,
    command: Command,
    now_ms: i64,
    home: Option<Seq<char>>,
    effect: Effect,
) -> bool {
    match command {
        Command::Send { body, html } => send_run(
            before,
            after,
            body@,
            option_view(html),
            now_ms,
            effect,
        ),
        Command::SendHtml { html, plain } => send_run(
            before,
            after,
            body_of_html(html@, plain@),
            Some(html@),
            now_ms,
            effect,
        ),
        Command::SendLiteral(body) => send_run(before, after, body@, None, now_ms, effect),
        Command::Rainbow { text, html } => send_run(
            before,
            after,
            text@,
            Some(html@),
            now_ms,
            effect,
        ),
        Command::Spoiler { plain, html } => send_run(
            before,
            after,
            plain@,
            Some(html@),
            now_ms,
            effect,
        ),
        Command::SendMedia { path, caption } => media_sent(
            before,
            after,
            path@,
            caption,
            home,
            files_sent(effect),
        ) && either(files_sent(effect), effect),
        _ => true,
    }
}

/// Whether a command on the whole client was carried out.
pub open spec fn client_run(
    before: App,
    after: App,
    command: Command,
    now: int,
    now_ms: i64,
    effect: Effect,
) -> bool {
    match command {
        Command::Status => effect is Nothing && popped_up(before, after, PopupKind::Status, now),
        Command::Help => effect is Nothing && popped_up(before, after, PopupKind::Help, now),
        Command::Shortcuts => effect is Nothing && popped_up(
            before,
            after,
            PopupKind::Shortcuts,
            now,
        ),
        Command::Whoami => effect is Nothing && whoami_shown(before, after),
        Command::Whereami => effect is Nothing && whereami_shown(before, after, now),
        Command::Refresh => {
            &&& after == (App {
                startup: rooms_asked(before.startup, before.room() is Some),
                ..before
            })
            &&& if before.session.wired && !before.startup.rooms_fetch_inflight {
                effect is FetchRooms
            } else {
                effect is Nothing
            }
        },
        Command::EditConfig => effect is Nothing && after == (App {
            session: Session { edit_config_requested: true, ..before.session },
            ..before
        }),
        Command::SaveConfig => effect is KeepDisplay && after == before,
        Command::Quit => effect is Nothing && after == (App {
            session: Session { should_quit: true, ..before.session },
            ..before
        }),
        Command::JumpToDate(ts) => jump_begun(before, after, ts, now_ms, jumps(effect)) && either(
            jumps(effect),
            effect,
        ),
        Command::JumpToTop => top_begun(before, after, walks(effect)) && either(
            walks(effect),
            effect,
        ),
        Command::Invalid(text) => effect is Nothing && said(before, after, text@),
        Command::ApiUnsupported(text) => effect is Nothing && said(before, after, text@),
        Command::Unknown(text) => effect is Nothing && said(before, after, text@),
        Command::Elsewhere(e) => effect == Effect::Elsewhere(e) && after == before,
        Command::Empty => effect is Nothing && after == before,
        _ => true,
    }
}

/// Whether a command was carried out.
pub open spec fn command_run(
    before: App,
    after: App,
    command: Command,
    around: Surroundings,
    effect: Effect,
) -> bool {
    &&& lists_run(before, after, command, effect)
    &&& accounts_run(before, after, command, effect)
    &&& selected_run(before, after, command, views(around.thread_roots@), effect)
    &&& sending_run(
        before,
        after,
        command,
        around.now_ms,
        option_str_view(around.home),
        effect,
    )
    &&& client_run(before, after, command, around.now as int, around.now_ms, effect)
}

/// Whether a command is on the selected room for want of another: one that pins or
/// unpins.
pub open spec fn means_selected_room(command: Command) -> bool {
    match command {
        Command::Pin(target) => target is None,
        Command::Unpin(target) => target is None,
        _ => false,
    }
}

/// Whether the status line answers a command.
pub open spec fn is_answered_by_status(command: Command) -> bool {
    !(command is Send) && !(command is Empty) && !(command is Quit)
}

fn is_answered(command: &Command) -> (r: bool)
    ensures
        r == is_answered_by_status(*command),
{
    match command {
        Command::Send { .. } => false,
        Command::Empty => false,
        Command::Quit => false,
        _ => true,
    }
}

impl App {
    /// The client without the answer to an earlier command.
    pub open spec fn without_response(self) -> App {
        App { session: Session { pending_command_response: None, ..self.session }, ..self }
    }

    fn load_after_switch(&mut self, load: bool) -> (effect: Effect)
        ensures
            switched(*old(self), *final(self), load, effect),
    {
        if !load {
            return Effect::Nothing;
        }
        match self.load_selected_timeline() {
            Some((key, request)) => Effect::LoadTimeline(key, request),
            None => Effect::Nothing,
        }
    }

    fn run_room(&mut self, target: &str) -> (effect: Effect)
        ensures
            exists|middle: App, load: bool| #[trigger]
                room_run(*old(self), middle, *final(self), target@, load, effect),
            selection_in_list(old(self).rooms) ==> selection_in_list(final(self).rooms),
    {
        let load = self.switch_room(target);
        let ghost middle = *self;
        let effect = self.load_after_switch(load);
        assert(room_run(*old(self), middle, *self, target@, load, effect));
        effect
    }

    fn run_account(&mut self, target: &str) -> (effect: Effect)
        ensures
            exists|middle: App, done: bool| #[trigger]
                account_run(*old(self), middle, *final(self), target@, done, effect),
            selection_in_list(old(self).rooms) ==> selection_in_list(final(self).rooms),
    {
        let done = self.switch_account(target);
        let ghost middle = *self;
        let effect = self.load_after_switch(done);
        assert(account_run(*old(self), middle, *self, target@, done, effect));
        effect
    }

    fn run_react(&mut self, input: &str, meant: Option<String>) -> (effect: Effect)
        ensures
            exists|middle: App, prepared: Result<(String, String), String>| #[trigger]
                react_run(*old(self), middle, *final(self), input@, meant, prepared, effect),
    {
        let prepared = self.prepare_reaction(input, meant);
        let ghost middle = *self;
        let ghost known = prepared;
        let effect = match prepared {
            Err(message) => {
                self.status = Status::Info(message);
                Effect::Nothing
            },
            Ok((event_id, key)) => match self.send_react(event_id.as_str(), key.as_str()) {
                Some(request) => Effect::SendReaction { event_id, key, request },
                None => Effect::Nothing,
            },
        };
        assert(react_run(*old(self), middle, *self, input@, meant, known, effect));
        effect
    }

    fn run_unreact(&mut self) -> (effect: Effect)
        ensures
            exists|middle: App, chosen: App, found: Option<(String, OwnReaction)>|
                message_selected(*old(self), middle) && #[trigger] unreact_run(
                    middle,
                    chosen,
                    *final(self),
                    found,
                    effect,
                ),
    {
        self.select_most_recent_message_if_needed();
        let ghost middle = *self;
        let found = self.start_unreact_from_selected_message();
        let ghost chosen = *self;
        let ghost known = found;
        let effect = match found {
            None => Effect::Nothing,
            Some((id, reaction)) => match self.withdraw_reaction(id.as_str(), reaction) {
                Some(w) => Effect::Withdraw(w),
                None => Effect::Nothing,
            },
        };
        assert(unreact_run(middle, chosen, *self, known, effect));
        effect
    }

    fn run_thread(&mut self, roots: &Vec<String>) -> (effect: Effect)
        ensures
            exists|middle: App| #[trigger]
                message_selected(*old(self), middle) && thread_run(
                    middle,
                    *final(self),
                    views(roots@),
                    effect,
                ),
    {
        self.select_most_recent_message_if_needed();
        let ghost middle = *self;
        let is_root = match self.selected_message_event() {
            Some(event) => is_listed(roots.as_slice(), event.event_id.as_str()),
            None => false,
        };
        let effect = match self.start_thread_from_selected_message(is_root) {
            Some(open) => Effect::OpenThread(open),
            None => Effect::Nothing,
        };
        assert(message_selected(*old(self), middle) && thread_run(
            middle,
            *self,
            views(roots@),
            effect,
        ));
        effect
    }

    fn run_send(&mut self, body: &str, html: Option<String>, now_ms: i64) -> (effect: Effect)
        ensures
            send_run(*old(self), *final(self), body@, option_view(html), now_ms, effect),
    {
        match self.send_message_to_room(body, as_html(html), now_ms) {
            Some(send) => Effect::SendMessage(send),
            None => Effect::Nothing,
        }
    }

    fn run_filter(&mut self, arg: &str) -> (effect: Effect)
        ensures
            effect matches Effect::KeepRoomView(tokens) && exists|filter: RoomFilter|
                filter@ == filter_of_word(lowercase(trim(arg@))) && #[trigger] filter_set(
                    *old(self),
                    *final(self),
                    filter,
                    tokens,
                ),
            selection_in_list(final(self).rooms),
    {
        let filter = RoomFilter::parse(arg);
        let ghost known = filter;
        let tokens = self.set_room_filter(filter);
        assert(known@ == filter_of_word(lowercase(trim(arg@))) && filter_set(
            *old(self),
            *self,
            known,
            tokens,
        ));
        let effect = Effect::KeepRoomView(tokens);
        assert(effect->KeepRoomView_0 == tokens);
        effect
    }

    fn run_on_accounts(&mut self, command: Command) -> (effect: Effect)
        ensures
            accounts_run(*old(self), *final(self), command, effect),
    {
        let task = match command {
            Command::Login { username, password, homeserver } => self.start_login(
                username,
                password,
                homeserver,
            ),
            Command::Logout(target) => self.start_logout(target),
            Command::Recover(target) => self.start_recover(target),
            Command::BackupEnable(target) => self.start_backup_enable(target),
            Command::Delete(target) => self.start_delete(target),
            Command::Verify(target) => self.start_verification(target),
            _ => LifecycleTask::Nothing,
        };
        Effect::Task(task)
    }

    fn run_on_lists(&mut self, command: Command) -> (effect: Effect)
        requires
            means_selected_room(command) ==> selection_in_list(old(self).rooms),
        ensures
            lists_run(*old(self), *final(self), command, effect),
            selection_in_list(old(self).rooms) ==> selection_in_list(final(self).rooms),
    {
        match command {
            Command::Room(target) => self.run_room(target.as_str()),
            Command::Account(target) => self.run_account(target.as_str()),
            Command::Pin(target) => match self.pin_room(option_str(&target)) {
                Some(change) => Effect::KeepPins(change),
                None => Effect::Nothing,
            },
            Command::Unpin(target) => match self.unpin_room(option_str(&target)) {
                Some(change) => Effect::KeepPins(change),
                None => Effect::Nothing,
            },
            Command::Filter(arg) => self.run_filter(arg.as_str()),
            Command::Sort(arg) => Effect::KeepRoomView(
                self.set_room_sort(RoomSort::parse(arg.as_str())),
            ),
            _ => Effect::Nothing,
        }
    }

    fn run_on_selected(&mut self, command: Command, roots: &Vec<String>) -> (effect: Effect)
        ensures
            selected_run(*old(self), *final(self), command, views(roots@), effect),
    {
        match command {
            Command::StartReact => {
                self.select_most_recent_message_if_needed();
                let ghost middle = *self;
                let effect = match self.start_react_to_selected_message() {
                    Some(put) => Effect::WriteDraft(put),
                    None => Effect::Nothing,
                };
                assert(message_selected(*old(self), middle));
                effect
            },
            Command::React { input, meant } => self.run_react(input.as_str(), meant),
            Command::Unreact => self.run_unreact(),
            Command::Reply => {
                self.select_most_recent_message_if_needed();
                let ghost middle = *self;
                self.start_reply_to_selected_message();
                assert(message_selected(*old(self), middle));
                Effect::Nothing
            },
            Command::Thread => self.run_thread(roots),
            Command::Event(event_id) => match self.show_event(event_id.as_str()) {
                Some(request) => Effect::ReadEvent(request),
                None => Effect::Nothing,
            },
            Command::Bundle(event_id) => match self.show_verification_bundle(event_id.as_str()) {
                Some(request) => Effect::ReadBundle { event_id, request },
                None => Effect::Nothing,
            },
            _ => Effect::Nothing,
        }
    }

    fn run_sending(&mut self, command: Command, now_ms: i64, home: Option<&str>) -> (effect: Effect)
        ensures
            sending_run(
                *old(self),
                *final(self),
                command,
                now_ms,
                option_str_view(home),
                effect,
            ),
    {
        match command {
            Command::Send { body, html } => self.run_send(body.as_str(), html, now_ms),
            Command::SendHtml { html, plain } => {
                let body = if plain.as_str().is_empty() {
                    html.clone()
                } else {
                    plain
                };
                self.run_send(body.as_str(), Some(html), now_ms)
            },
            Command::SendLiteral(body) => self.run_send(body.as_str(), None, now_ms),
            Command::Rainbow { text, html } => self.run_send(text.as_str(), Some(html), now_ms),
            Command::Spoiler { plain, html } => self.run_send(plain.as_str(), Some(html), now_ms),
            Command::SendMedia { path, caption } => match self.send_media_to_room(
                path,
                caption,
                home,
            ) {
                Some(send) => Effect::SendMedia(send),
                None => Effect::Nothing,
            },
            _ => Effect::Nothing,
        }
    }

    fn run_on_client(&mut self, command: Command, now: u64, now_ms: i64) -> (effect: Effect)
        requires
            now + SIXEL_REFRESH_INTERVAL <= u64::MAX,
        ensures
            client_run(*old(self), *final(self), command, now as int, now_ms, effect),
    {
        match command {
            Command::Status => {
                self.open_popup(PopupKind::Status, now);
                Effect::Nothing
            },
            Command::Help => {
                self.open_popup(PopupKind::Help, now);
                Effect::Nothing
            },
            Command::Shortcuts => {
                self.open_popup(PopupKind::Shortcuts, now);
                Effect::Nothing
            },
            Command::Whoami => {
                self.show_whoami();
                Effect::Nothing
            },
            Command::Whereami => {
                self.show_whereami(now);
                Effect::Nothing
            },
            Command::Refresh => if self.request_rooms_refresh() {
                Effect::FetchRooms
            } else {
                Effect::Nothing
            },
            Command::EditConfig => {
                self.session.edit_config_requested = true;
                Effect::Nothing
            },
            Command::SaveConfig => Effect::KeepDisplay,
            Command::Quit => {
                self.session.should_quit = true;
                Effect::Nothing
            },
            Command::JumpToDate(ts) => match self.jump_to_date(ts, now_ms) {
                Some((key, search)) => Effect::Jump(key, search),
                None => Effect::Nothing,
            },
            Command::JumpToTop => match self.jump_to_top() {
                Some((key, walk)) => Effect::WalkToTop(key, walk),
                None => Effect::Nothing,
            },
            Command::Invalid(text) => {
                self.status = Status::Info(text);
                Effect::Nothing
            },
            Command::ApiUnsupported(text) => {
                self.status = Status::Info(text);
                Effect::Nothing
            },
            Command::Unknown(text) => {
                self.status = Status::Info(text);
                Effect::Nothing
            },
            Command::Elsewhere(e) => Effect::Elsewhere(e),
            _ => Effect::Nothing,
        }
    }

    /// Carries out a command.
    pub fn handle_command_inner(&mut self, command: Command, around: &Surroundings<'_>) -> (effect:
        Effect)
        requires
            means_selected_room(command) ==> selection_in_list(old(self).rooms),
            around.now + SIXEL_REFRESH_INTERVAL <= u64::MAX,
        ensures
            command_run(*old(self), *final(self), command, *around, effect),
            selection_in_list(old(self).rooms) ==> selection_in_list(final(self).rooms),
    {
        match command {
            Command::Room(_) | Command::Account(_) | Command::Pin(_) | Command::Unpin(_)
            | Command::Filter(_) | Command::Sort(_) => self.run_on_lists(command),
            Command::Login { .. } | Command::Logout(_) | Command::Recover(_)
            | Command::BackupEnable(_) | Command::Delete(_) | Command::Verify(_) => {
                self.run_on_accounts(command)
            },
            Command::StartReact | Command::React { .. } | Command::Unreact | Command::Reply
            | Command::Thread | Command::Event(_) | Command::Bundle(_) => self.run_on_selected(
                command,
                around.thread_roots,
            ),
            Command::Send { .. } | Command::SendHtml { .. } | Command::SendLiteral(_)
            | Command::SendMedia { .. } | Command::Rainbow { .. } | Command::Spoiler { .. } => {
                self.run_sending(command, around.now_ms, around.home)
            },
            _ => self.run_on_client(command, around.now, around.now_ms),
        }
    }

    /// Carries out a command, and keeps its answer where it is known at once. Where the
    /// effect is awaited, the answer is kept once it is done.
    pub fn handle_command(&mut self, command: Command, around: &Surroundings<'_>) -> (effect: Effect)
        requires
            means_selected_room(command) ==> selection_in_list(old(self).rooms),
            around.now + SIXEL_REFRESH_INTERVAL <= u64::MAX,
        ensures
            exists|middle: App| #[trigger]
                command_run(old(self).without_response(), middle, command, *around, effect) && if (
                is_answered_by_status(command) && !effect.is_awaited()) {
                    response_queued(middle, *final(self))
                } else {
                    *final(self) == middle
                },
            selection_in_list(old(self).rooms) ==> selection_in_list(final(self).rooms),
    {
        let answers = is_answered(&command);
        let ghost given = command;
        self.session.pending_command_response = None;
        assert(*self == old(self).without_response());
        let effect = self.handle_command_inner(command, around);
        let ghost middle = *self;
        assert(command_run(old(self).without_response(), middle, given, *around, effect));
        if answers && !effect.awaited() {
            self.queue_completed_command_response();
        }
        effect
    }
}

} // verus!
