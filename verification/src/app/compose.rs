//! What the user does with messages: sending, replying, editing, removing.

use vstd::prelude::*;

use crate::api::client::{
    AxonClient,    account_url, and_maybe, bare, event_url, room_url, BodyView, Members, Method, Request,
    RequestView, SendRelation, MESSAGE_MUTATION_TIMEOUT, UPLOAD_TIMEOUT,
};
use crate::api::dto::{EventDto, EventView, RoomDto, RoomView};
use crate::api::event::{text_of_event, thread_root_of};
use crate::app::accounts::{account_position, find_account};
use crate::app::choice::{room_key, RoomKey, RoomKeyView};
use crate::app::drafts::{held, put_view, DraftPut};
use crate::app::lifecycle::{line_set, said};
use crate::app::outcome::{event_replaced, kept_at};
use crate::app::selection::{echo_id, is_local_echo};
use crate::app::state::{
    pending_echo_text, App, Busy, MessagePane, Mode, ModeView, ThreadState,
};
use crate::app::status::{Status, StatusView};
use crate::app::upload::{
    expand_send_path_with_home, expanded, file_name, final_name, kind_of_ending,
    media_kind_and_content_type, small_ending,
};
use crate::ids::id_text;
use crate::json::{Json, JsonView};
use crate::keyed::Key;
use crate::text::{
    cat2, cat3, copy_option, decimal_i64, decimal_int, option_str, option_str_view, option_view,
    views,
};

verus! {

// ---------------------------------------------------------------------------
// Replies, threads and edits
// ---------------------------------------------------------------------------

impl App {
    fn say_unconfirmed(&mut self)
        ensures
            said(*old(self), *final(self), pending_echo_text()),
    {
        self.say("message not yet confirmed by server — please wait a moment and try again");
    }
}

/// Whether the status says what is done to an event.
pub open spec fn acting(status: StatusView, debug: Seq<char>, redacted: Seq<char>) -> bool {
    status == (StatusView::EventAction { debug, redacted })
}

/// Whether the next message was made a reply to the selected one.
pub open spec fn reply_started(before: App, after: App) -> bool {
    match before.target() {
        None => said(
            before,
            after,
            "select a displayed message before replying"@,
        ),
        Some(event) => if echo_id(event.event_id) {
            said(before, after, pending_echo_text())
        } else {
            &&& after == (App {
                threads: after.threads,
                mode: after.mode,
                status: after.status,
                ..before
            })
            &&& after.threads == (ThreadState {
                pending_thread: None,
                pending_reply: after.threads.pending_reply,
                ..before.threads
            })
            &&& option_view(after.threads.pending_reply) == Some(event.event_id)
            &&& after.mode@ == ModeView::Compose
            &&& acting(
                after.status@,
                "replying to "@ + event.event_id + " - Esc to cancel"@,
                "replying to message - Esc to cancel"@,
            )
        },
    }
}

impl App {
    /// The next message replies to the selected one. A reply and a new thread exclude
    /// each other.
    pub fn start_reply_to_selected_message(&mut self)
        ensures
            reply_started(*old(self), *final(self)),
    {
        let event_id = match self.selected_message_event() {
            Some(event) => event.event_id.clone(),
            None => {
                self.say("select a displayed message before replying");
                return ;
            },
        };
        if is_local_echo(event_id.as_str()) {
            self.say_unconfirmed();
            return ;
        }
        let debug = cat3("replying to ", event_id.as_str(), " - Esc to cancel");
        self.threads.pending_thread = None;
        self.threads.pending_reply = Some(event_id);
        self.mode = Mode::Compose;
        self.status = Status::EventAction { debug, redacted: "replying to message - Esc to cancel" };
    }
}

/// A thread that is to be opened.
#[derive(Debug)]
pub struct ThreadToOpen {
    pub account_id: u128,
    pub root: String,
}

/// The root of the thread that a message is in, as far as there is one.
pub open spec fn thread_of(event: EventView, is_root: bool) -> Option<Seq<char>> {
    match thread_root_of(event) {
        Some(root) => Some(root),
        None => if is_root {
            Some(event.event_id)
        } else {
            None
        },
    }
}

/// Whether the thread of the selected message is to be opened, or one was begun on it.
pub open spec fn thread_started(before: App, after: App, is_root: bool, open: Option<ThreadToOpen>) -> bool {
    match before.target() {
        None => open is None && said(
            before,
            after,
            "select a displayed message before opening a thread"@,
        ),
        Some(event) => if echo_id(event.event_id) {
            open is None && said(before, after, pending_echo_text())
        } else {
            match thread_of(event, is_root) {
                Some(root) => {
                    &&& after == before
                    &&& open matches Some(o) && o.account_id == event.account_id && o.root@
                        == root
                },
                None => {
                    &&& open is None
                    &&& after == (App {
                        threads: after.threads,
                        mode: after.mode,
                        status: after.status,
                        ..before
                    })
                    &&& after.threads == (ThreadState {
                        pending_reply: None,
                        pending_thread: after.threads.pending_thread,
                        ..before.threads
                    })
                    &&& option_view(after.threads.pending_thread) == Some(
                        event.event_id,
                    )
                    &&& after.mode@ == ModeView::Compose
                    &&& acting(
                        after.status@,
                        "replying in new thread on "@ + event.event_id
                            + " - Esc to cancel"@,
                        "replying in new thread - Esc to cancel"@,
                    )
                },
            }
        },
    }
}

/// Whether the selected message stands in the line to be edited.
pub open spec fn edit_begun(before: App, after: App, put: Option<DraftPut>) -> bool {
    match before.target() {
        None => put is None && said(
            before,
            after,
            "select a displayed message before editing"@,
        ),
        Some(event) => if echo_id(event.event_id) {
            put is None && said(before, after, pending_echo_text())
        } else {
            &&& before.draft_flushed(
                App {
                    input: before.input,
                    mode: before.mode,
                    status: before.status,
                    ..after
                },
                put_view(put),
            )
            &&& line_set(before.input, after.input, text_of_event(event, event.sender))
            &&& after.mode@ == (ModeView::Editing { event_id: event.event_id })
            &&& acting(
                after.status@,
                "editing "@ + event.event_id + " - Esc to cancel"@,
                "editing message - Esc to cancel"@,
            )
        },
    }
}

impl App {
    /// Opens the thread of the selected message, or begins one on it with the next
    /// message. `is_root` says whether replies in a thread on it are known.
    pub fn start_thread_from_selected_message(&mut self, is_root: bool) -> (open: Option<
        ThreadToOpen,
    >)
        ensures
            thread_started(*old(self), *final(self), is_root, open),
    {
        let (account_id, event_id, root) = match self.selected_message_event() {
            Some(event) => (
                event.account_id,
                event.event_id.clone(),
                match event.thread_relation() {
                    Some(root) => Some(root.to_owned()),
                    None => None,
                },
            ),
            None => {
                self.say("select a displayed message before opening a thread");
                return None;
            },
        };
        if is_local_echo(event_id.as_str()) {
            self.say_unconfirmed();
            return None;
        }
        match root {
            Some(root) => Some(ThreadToOpen { account_id, root }),
            None => {
                if is_root {
                    return Some(ThreadToOpen { account_id, root: event_id });
                }
                let debug = cat3(
                    "replying in new thread on ",
                    event_id.as_str(),
                    " - Esc to cancel",
                );
                self.threads.pending_reply = None;
                self.threads.pending_thread = Some(event_id);
                self.mode = Mode::Compose;
                self.status = Status::EventAction {
                    debug,
                    redacted: "replying in new thread - Esc to cancel",
                };
                None
            },
        }
    }

    /// Puts the selected message into the line to be edited. The draft that the line
    /// held is written first.
    pub fn start_edit_selected_message(&mut self) -> (put: Option<DraftPut>)
        ensures
            edit_begun(*old(self), *final(self), put),
    {
        let (event_id, body) = match self.selected_message_event() {
            Some(event) => (event.event_id.clone(), event.display_body()),
            None => {
                self.say("select a displayed message before editing");
                return None;
            },
        };
        if is_local_echo(event_id.as_str()) {
            self.say_unconfirmed();
            return None;
        }
        let put = self.flush_pending_draft_now();
        self.input.set(body);
        let debug = cat3("editing ", event_id.as_str(), " - Esc to cancel");
        self.mode = Mode::Editing { event_id };
        self.status = Status::EventAction { debug, redacted: "editing message - Esc to cancel" };
        put
    }
}

// ---------------------------------------------------------------------------
// Who the user is
// ---------------------------------------------------------------------------

impl App {
    /// The user of an account, from the first of three sources that knows: the room,
    /// the events that the account sent, the list of accounts.
    pub open spec fn own_user(self, room: RoomView) -> Option<Seq<char>> {
        match room.account_user_id {
            Some(user) => Some(user),
            None => match held(self.live.own_senders@, room.account_id) {
                Some(user) => Some(user@),
                None => {
                    let accounts = views(self.accounts.accounts@);
                    let at = account_position(accounts, room.account_id);
                    if at < accounts.len() {
                        Some(accounts[at].user_id)
                    } else {
                        None
                    }
                },
            },
        }
    }

    pub fn own_user_id_for(&self, room: &RoomDto) -> (out: Option<String>)
        ensures
            option_view(out) == self.own_user(room@),
    {
        if let Some(user) = &room.account_user_id {
            return Some(user.clone());
        }
        if let Some(user) = self.live.own_senders.get(&room.account_id) {
            return Some(user.clone());
        }
        let at: usize = find_account(&self.accounts.accounts, room.account_id);
        if at < self.accounts.accounts.len() {
            assert(views(self.accounts.accounts@)[at as int] == self.accounts.accounts@[at as int]@);
            Some(self.accounts.accounts[at].user_id.clone())
        } else {
            None
        }
    }
}

// ---------------------------------------------------------------------------
// Messages
// ---------------------------------------------------------------------------

/// What is shown of a message until the server confirms it: its body, and what it is
/// formatted as.
pub open spec fn echo_content(body: Seq<char>, formatted: Option<(Seq<char>, Seq<char>)>) -> Option<
    JsonView,
> {
    match formatted {
        Some((format, text)) => Some(
            JsonView::Object(
                seq![
                    ("msgtype"@, JsonView::Text("m.text"@)),
                    ("body"@, JsonView::Text(body)),
                    ("format"@, JsonView::Text(format)),
                    ("formatted_body"@, JsonView::Text(text)),
                ],
            ),
        ),
        None => None,
    }
}

/// What a message in a thread answers.
pub open spec fn answered_in_thread(target: Seq<char>, falling_back: bool) -> JsonView {
    JsonView::Object(
        seq![
            ("event_id"@, JsonView::Text(target)),
            ("is_falling_back"@, JsonView::Bool(falling_back)),
        ],
    )
}

/// The relation of a message in a thread.
pub open spec fn thread_member(root: Seq<char>, target: Seq<char>, falling_back: bool) -> JsonView {
    JsonView::Object(
        seq![
            ("rel_type"@, JsonView::Text("m.thread"@)),
            ("event_id"@, JsonView::Text(root)),
            ("m.in_reply_to"@, answered_in_thread(target, falling_back)),
        ],
    )
}

/// The relation of a message that answers another.
pub open spec fn plain_reply(target: Seq<char>) -> JsonView {
    JsonView::Object(
        seq![("m.in_reply_to"@, JsonView::Object(seq![("event_id"@, JsonView::Text(target))]))],
    )
}

/// The relation that the server will give a message. A message in a thread that
/// answers no other falls back to the root.
pub open spec fn echo_relation(reply: Option<Seq<char>>, root: Option<Seq<char>>) -> Option<JsonView> {
    match (root, reply) {
        (Some(root), Some(reply)) => Some(thread_member(root, reply, false)),
        (Some(root), None) => Some(thread_member(root, root, true)),
        (None, Some(reply)) => Some(plain_reply(reply)),
        (None, None) => None,
    }
}

pub open spec fn formatted_view(formatted: Option<(String, String)>) -> Option<
    (Seq<char>, Seq<char>),
> {
    match formatted {
        Some((format, text)) => Some((format@, text@)),
        None => None,
    }
}

fn content_of_echo(body: &str, formatted: &Option<(String, String)>) -> (out: Option<Json>)
    ensures
        crate::api::dto::json_option_view(out) == echo_content(body@, formatted_view(*formatted)),
{
    match formatted {
        Some((format, text)) => {
            let members = Members::new().and_text("msgtype", "m.text").and_text(
                "body",
                body,
            ).and_text("format", format.as_str()).and_text("formatted_body", text.as_str());
            assert(members@ =~= seq![
                ("msgtype"@, JsonView::Text("m.text"@)),
                ("body"@, JsonView::Text(body@)),
                ("format"@, JsonView::Text(format@)),
                ("formatted_body"@, JsonView::Text(text@)),
            ]);
            Some(members.into_json())
        },
        None => None,
    }
}

fn member_of_thread(root: &str, target: &str, falling_back: bool) -> (out: Json)
    ensures
        out@ == thread_member(root@, target@, falling_back),
{
    let inner = Members::new().and_text("event_id", target).and(
        "is_falling_back",
        Json::Bool(falling_back),
    );
    assert(inner@ =~= seq![
        ("event_id"@, JsonView::Text(target@)),
        ("is_falling_back"@, JsonView::Bool(falling_back)),
    ]);
    let inner = inner.into_json();
    let members = Members::new().and_text("rel_type", "m.thread").and_text("event_id", root).and(
        "m.in_reply_to",
        inner,
    );
    assert(members@ =~= seq![
        ("rel_type"@, JsonView::Text("m.thread"@)),
        ("event_id"@, JsonView::Text(root@)),
        ("m.in_reply_to"@, answered_in_thread(target@, falling_back)),
    ]);
    members.into_json()
}

fn relation_of_echo(reply: Option<&str>, root: Option<&str>) -> (out: Option<Json>)
    ensures
        crate::api::dto::json_option_view(out) == echo_relation(
            option_str_view(reply),
            option_str_view(root),
        ),
{
    match (root, reply) {
        (Some(root), Some(reply)) => Some(member_of_thread(root, reply, false)),
        (Some(root), None) => Some(member_of_thread(root, root, true)),
        (None, Some(reply)) => {
            let inner = Members::new().and_text("event_id", reply);
            assert(inner@ =~= seq![("event_id"@, JsonView::Text(reply@))]);
            let inner = inner.into_json();
            let ghost i = inner@;
            let members = Members::new().and("m.in_reply_to", inner);
            assert(members@ =~= seq![("m.in_reply_to"@, i)]);
            Some(members.into_json())
        },
        (None, None) => None,
    }
}

/// A message as it is shown until the server confirms it. It has not arrived, so it
/// comes before everything that has.
pub open spec fn echo_event(
    key: RoomKeyView,
    sender: Seq<char>,
    body: Seq<char>,
    formatted: Option<(Seq<char>, Seq<char>)>,
    reply: Option<Seq<char>>,
    root: Option<Seq<char>>,
    now_ms: i64,
) -> EventView {
    EventView {
        account_id: key.account_id,
        event_id: "local-echo:"@ + decimal_int(now_ms as int),
        room_id: key.room_id,
        sender,
        state_key: None,
        arrival_order: i64::MIN,
        origin_ts: now_ms,
        event_type: "m.room.message"@,
        content: echo_content(body, formatted),
        body: Some(body),
        relates_to: echo_relation(reply, root),
        redacted: false,
        redaction_event_id: None,
        reactions: None,
        sender_trust: None,
    }
}

/// A message to send, and what is shown of it meanwhile.
#[derive(Debug)]
pub struct MessageSend {
    pub key: RoomKey,
    pub temp_id: String,
    pub request: Request,
}

/// The root of the thread that the next message goes to: the one that it begins,
/// else the one that the pane shows.
pub open spec fn thread_to_use(threads: ThreadState) -> Option<Seq<char>> {
    match threads.pending_thread {
        Some(root) => Some(root@),
        None => option_view(threads.panel),
    }
}

/// Whether what the next message relates to was used up.
pub open spec fn relation_used(before: ThreadState, after: ThreadState) -> bool {
    after == (ThreadState { pending_reply: None, pending_thread: None, ..before })
}

impl ThreadState {
    fn take_relation(&mut self) -> (out: (Option<String>, Option<String>))
        ensures
            relation_used(*old(self), *final(self)),
            option_view(out.0) == option_view(old(self).pending_reply),
            option_view(out.1) == thread_to_use(*old(self)),
    {
        let mut reply: Option<String> = None;
        core::mem::swap(&mut reply, &mut self.pending_reply);
        let mut begun: Option<String> = None;
        core::mem::swap(&mut begun, &mut self.pending_thread);
        let root = match begun {
            Some(root) => Some(root),
            None => copy_option(&self.panel),
        };
        (reply, root)
    }
}

/// Whether an event was added to the end of a room.
pub open spec fn event_added(before: MessagePane, after: MessagePane, key: RoomKeyView, event: EventView) -> bool {
    let list = match held(before.events@, key) {
        Some(list) => list@,
        None => Seq::empty(),
    };
    &&& after == (MessagePane {
        events: after.events,
        scroll: after.scroll,
        selection: after.selection,
        ..before
    })
    &&& after.events@.dom() == before.events@.dom().insert(key)
    &&& forall|k: RoomKeyView|
        k != key && before.events@.dom().contains(k) ==> #[trigger] after.events@[k]
            == before.events@[k]
    &&& after.events@[key]@.len() == list.len() + 1
    &&& after.events@[key]@.drop_last() == list
    &&& after.events@[key]@.last()@ == event
}

/// The request that sends a message.
pub open spec fn message_request(
    base: Seq<char>,
    key: RoomKeyView,
    body: Seq<char>,
    formatted: Option<(Seq<char>, Seq<char>)>,
    reply: Option<Seq<char>>,
    root: Option<Seq<char>>,
) -> RequestView {
    let plain = seq![("body"@, JsonView::Text(body))];
    let members = match formatted {
        Some((format, text)) => plain.push(("format"@, JsonView::Text(format))).push(
            ("formatted_body"@, JsonView::Text(text)),
        ),
        None => plain,
    };
    bare(
        Method::Post,
        room_url(base, key.account_id, key.room_id) + "/send"@,
        MESSAGE_MUTATION_TIMEOUT,
    ).with_json(and_maybe(and_maybe(members, "reply_to"@, reply), "thread_root"@, root))
}

/// Whether a message was shown and is to be sent.
pub open spec fn message_sent(before: App, after: App, body: Seq<char>, formatted: Option<(Seq<char>, Seq<char>)>, now_ms: i64, send: Option<MessageSend>) -> bool {
    match before.room() {
        None => send is None && said(before, after, "select a room before sending"@),
        Some(room) => if !before.session.wired {
            send is None && after == before
        } else {
            let key = room_key(room@);
            let reply = option_view(before.threads.pending_reply);
            let root = thread_to_use(before.threads);
            let sender = match before.own_user(room@) {
                Some(user) => user,
                None => Seq::empty(),
            };
            let echo = echo_event(
                key,
                sender,
                body,
                formatted,
                reply,
                root,
                now_ms,
            );
            &&& after == (App {
                messages: after.messages,
                threads: after.threads,
                ..before
            })
            &&& relation_used(before.threads, after.threads)
            &&& event_added(before.messages, after.messages, key, echo)
            &&& after.messages.scroll == usize::MAX
            &&& after.messages.selection is None
            &&& send matches Some(s) && s.key@ == key && s.temp_id@ == echo.event_id
                && s.request@ == message_request(
                before.client.base(),
                key,
                body,
                formatted,
                reply,
                root,
            )
        },
    }
}

impl App {
    fn show_echo(&mut self, key: &RoomKey, echo: EventDto)
        ensures
            *final(self) == (App { messages: final(self).messages, ..*old(self) }),
            event_added(old(self).messages, final(self).messages, key@, echo@),
            final(self).messages.scroll == usize::MAX,
            final(self).messages.selection is None,
    {
        let ghost before = self.messages.events@;
        self.messages.scroll = usize::MAX;
        self.messages.selection = None;
        let mut list: Vec<EventDto> = match self.messages.events.remove(key) {
            Some(list) => list,
            None => Vec::new(),
        };
        let ghost kept = list@;
        list.push(echo);
        assert(list@.drop_last() =~= kept);
        self.messages.events.insert(key.duplicate(), list);
        assert(self.messages.events@.dom() =~= before.dom().insert(key@));
    }

    /// Sends a message to the selected room. It is shown at once, and what it relates
    /// to is used up.
    pub fn send_message_to_room(
        &mut self,
        body: &str,
        formatted: Option<(String, String)>,
        now_ms: i64,
    ) -> (send: Option<MessageSend>)
        ensures
            message_sent(*old(self), *final(self), body@, formatted_view(formatted), now_ms, send),
    {
        let (key, sender) = match self.selected_room() {
            Some(room) => (RoomKey::of(room), self.own_user_id_for(room)),
            None => {
                self.say("select a room before sending");
                return None;
            },
        };
        if !self.session.wired {
            return None;
        }
        let (reply, root) = self.threads.take_relation();
        let sender = match sender {
            Some(user) => user,
            None => String::new(),
        };
        assert(old(self).own_user(old(self).room()->0@) is None ==> sender@ =~= Seq::<char>::empty());
        let number = decimal_i64(now_ms);
        let temp_id = cat2("local-echo:", number.as_str());
        let echo = EventDto {
            account_id: key.account_id,
            event_id: temp_id.clone(),
            room_id: key.room_id.clone(),
            sender,
            state_key: None,
            arrival_order: i64::MIN,
            origin_ts: now_ms,
            event_type: "m.room.message".to_owned(),
            content: content_of_echo(body, &formatted),
            body: Some(body.to_owned()),
            relates_to: relation_of_echo(option_str(&reply), option_str(&root)),
            redacted: false,
            redaction_event_id: None,
            reactions: None,
            sender_trust: None,
        };
        self.show_echo(&key, echo);
        let pair = match &formatted {
            Some((format, text)) => Some((format.as_str(), text.as_str())),
            None => None,
        };
        let request = self.client.send_message(
            key.account_id,
            key.room_id.as_str(),
            body,
            pair,
            SendRelation { reply_to: option_str(&reply), thread_root: option_str(&root) },
        );
        Some(MessageSend { key, temp_id, request })
    }
}

/// A message that the server has not confirmed is shown as such, is never the last to
/// have arrived, and answers what the user chose.
pub proof fn law_echo(
    key: RoomKeyView,
    sender: Seq<char>,
    body: Seq<char>,
    formatted: Option<(Seq<char>, Seq<char>)>,
    reply: Option<Seq<char>>,
    root: Option<Seq<char>>,
    now_ms: i64,
    other: EventView,
)
    ensures
        ({
            let echo = echo_event(key, sender, body, formatted, reply, root, now_ms);
            &&& echo_id(echo.event_id)
            &&& echo.arrival_order <= other.arrival_order
            &&& thread_root_of(echo) == root
        }),
{
    let echo = echo_event(key, sender, body, formatted, reply, root, now_ms);
    let prefix = "local-echo:"@;
    assert(crate::text::begins(echo.event_id, prefix)) by {
        assert(echo.event_id.subrange(0, prefix.len() as int) =~= prefix);
    }
    reveal_strlit("rel_type");
    reveal_strlit("event_id");
    reveal_strlit("m.in_reply_to");
    assert("rel_type"@.len() == 8 && "event_id"@.len() == 8 && "m.in_reply_to"@.len() == 13);
    assert("rel_type"@[0] != "event_id"@[0]);
    reveal_with_fuel(crate::json::member_of, 4);
    match (root, reply) {
        (Some(r), _) => {
            let members = echo.relates_to->0->Object_0;
            assert(members.drop_last().drop_last() =~= seq![members[0]]);
            assert(members.drop_last() =~= seq![members[0], members[1]]);
        },
        (None, Some(_)) => {
            let members = echo.relates_to->0->Object_0;
            assert(members.drop_last() =~= Seq::empty());
        },
        (None, None) => {},
    }
}

// ---------------------------------------------------------------------------
// Files
// ---------------------------------------------------------------------------

/// A file to send: where it is read, what it is called, and what it relates to.
#[derive(Debug)]
pub struct MediaSend {
    pub key: RoomKey,
    pub path: String,
    pub filename: String,
    pub caption: Option<String>,
    pub reply_to: Option<String>,
    pub thread_root: Option<String>,
}

/// The name that a file is sent under: that of the file, else the path as it was
/// typed.
pub open spec fn sent_name(path: Seq<char>, home: Option<Seq<char>>) -> Seq<char> {
    match final_name(expanded(path, home)) {
        Some(name) => name,
        None => path,
    }
}

/// Whether a file is to be sent.
pub open spec fn media_sent(before: App, after: App, path: Seq<char>, caption: Option<String>, dir: Option<Seq<char>>, send: Option<MediaSend>) -> bool {
    match before.room() {
        None => send is None && said(before, after, "select a room before sending"@),
        Some(room) => if !before.session.wired {
            send is None && after == before
        } else if before.busy.media_send {
            send is None && said(
                before,
                after,
                "a /send upload is already in progress"@,
            )
        } else {
                                &&& after == (App {
                threads: after.threads,
                busy: Busy { media_send: true, ..before.busy },
                status: after.status,
                ..before
            })
            &&& relation_used(before.threads, after.threads)
            &&& after.status@ == StatusView::Info(
                "uploading "@ + sent_name(path, dir) + "…"@,
            )
            &&& send matches Some(s) && s.key@ == room_key(room@) && s.path@ == expanded(
                path,
                dir,
            ) && s.filename@ == sent_name(path, dir) && s.caption == caption
                && option_view(s.reply_to) == option_view(before.threads.pending_reply)
                && option_view(s.thread_root) == thread_to_use(before.threads)
        },
    }
}

impl App {
    /// Begins to send a file to the selected room, one at a time. What it relates to
    /// is used up. The sent message comes with the live events.
    pub fn send_media_to_room(
        &mut self,
        path: String,
        caption: Option<String>,
        home: Option<&str>,
    ) -> (send: Option<MediaSend>)
        ensures
            media_sent(*old(self), *final(self), path@, caption, option_str_view(home), send),
    {
        let key = match self.selected_room() {
            Some(room) => RoomKey::of(room),
            None => {
                self.say("select a room before sending");
                return None;
            },
        };
        if !self.session.wired {
            return None;
        }
        if self.busy.media_send {
            self.say("a /send upload is already in progress");
            return None;
        }
        let (reply_to, thread_root) = self.threads.take_relation();
        let full = expand_send_path_with_home(path.as_str(), home);
        let filename = match file_name(full.as_str()) {
            Some(name) => name,
            None => path,
        };
        self.busy.media_send = true;
        self.status = Status::Info(cat3("uploading ", filename.as_str(), "…"));
        Some(MediaSend { key, path: full, filename, caption, reply_to, thread_root })
    }
}

impl MediaSend {
    /// The request that stages the bytes of a file.
    pub fn stage_request(&self, client: &AxonClient, bytes: Vec<u8>) -> (out: Request)
        ensures
            out@ == ({
                let (kind, content_type) = kind_of_ending(small_ending(self.filename@));
                RequestView {
                    body: BodyView::Bytes(bytes@),
                    content_type: Some(content_type),
                    ..bare(
                        Method::Post,
                        account_url(client.base(), self.key@.account_id) + "/media/uploads"@,
                        UPLOAD_TIMEOUT,
                    ).with_query("kind"@, kind).with_query("filename"@, self.filename@)
                }
            }),
    {
        let (kind, content_type) = media_kind_and_content_type(self.filename.as_str());
        client.stage_upload(
            self.key.account_id,
            kind,
            self.filename.as_str(),
            Some(content_type),
            bytes,
        )
    }

    /// The request that sends a staged file.
    pub fn send_request(&self, client: &AxonClient, upload_id: u128) -> (out: Request)
        ensures
            out@ == bare(
                Method::Post,
                room_url(client.base(), self.key@.account_id, self.key@.room_id)
                    + "/send-media"@,
                MESSAGE_MUTATION_TIMEOUT,
            ).with_json(
                and_maybe(
                    and_maybe(
                        and_maybe(
                            seq![("upload_id"@, JsonView::Text(id_text(upload_id)))],
                            "caption"@,
                            option_view(self.caption),
                        ),
                        "reply_to"@,
                        option_view(self.reply_to),
                    ),
                    "thread_root"@,
                    option_view(self.thread_root),
                ),
            ),
    {
        client.send_media(
            self.key.account_id,
            self.key.room_id.as_str(),
            upload_id,
            option_str(&self.caption),
            SendRelation {
                reply_to: option_str(&self.reply_to),
                thread_root: option_str(&self.thread_root),
            },
        )
    }
}

// ---------------------------------------------------------------------------
// Edits and removals
// ---------------------------------------------------------------------------

/// A change of an event that the server is asked for.
#[derive(Debug)]
pub struct EventChange {
    pub key: RoomKey,
    pub event_id: String,
    pub request: Request,
}

impl App {
    /// Asks for a new body of an event of the selected room.
    pub fn send_edit(&mut self, event_id: &str, body: &str) -> (change: Option<EventChange>)
        ensures
            match old(self).room() {
                None => change is None && said(*old(self), *final(self), "no room selected"@),
                Some(room) => {
                    let key = room_key(room@);
                    &&& *final(self) == *old(self)
                    &&& change matches Some(c) && c.key@ == key && c.event_id@ == event_id@
                        && c.request@ == bare(
                        Method::Put,
                        event_url(old(self).client.base(), key.account_id, key.room_id, event_id@),
                        MESSAGE_MUTATION_TIMEOUT,
                    ).with_json(seq![("body"@, JsonView::Text(body@))])
                },
            },
    {
        let key = match self.selected_room() {
            Some(room) => RoomKey::of(room),
            None => {
                self.say("no room selected");
                return None;
            },
        };
        let request = self.client.edit_message(
            key.account_id,
            key.room_id.as_str(),
            event_id,
            body,
            None,
        );
        Some(EventChange { key, event_id: event_id.to_owned(), request })
    }
}

/// Whether one event of a room, where it is kept, changed in one place.
pub open spec fn event_changed(
    before: MessagePane,
    after: MessagePane,
    key: RoomKeyView,
    id: Seq<char>,
    change: spec_fn(EventDto, EventDto) -> bool,
) -> bool {
    match kept_at(before.events@, key, id) {
        Some(at) => {
            let now = after.events@[key]@[at];
            &&& after == (MessagePane { events: after.events, ..before })
            &&& event_replaced(before.events@, after.events@, key, at, now)
            &&& change(before.events@[key]@[at], now)
        },
        None => after == before,
    }
}

/// Whether an event has a new body and is otherwise the same.
pub open spec fn rebodied(before: EventDto, after: EventDto, body: Seq<char>) -> bool {
    after == (EventDto { body: after.body, ..before }) && option_view(after.body) == Some(body)
}

impl MessagePane {
    pub fn set_body(&mut self, key: &RoomKey, id: &str, body: &str)
        ensures
            event_changed(
                *old(self),
                *final(self),
                key@,
                id@,
                |a: EventDto, b: EventDto| rebodied(a, b, body@),
            ),
    {
        let ghost before = self.events@;
        if let Some((rest, at, event)) = self.take_event(key, id) {
            let ghost original = event;
            let mut changed = event;
            changed.body = Some(body.to_owned());
            let ghost now = changed;
            let ghost list = rest@;
            self.put_event(key, rest, at, changed);
            proof {
                assert(before[key@]@ == list.insert(at as int, original));
                assert(list.insert(at as int, now) =~= list.insert(at as int, original).update(
                    at as int,
                    now,
                ));
                assert(self.events@.dom() =~= before.dom());
                assert(self.events@[key@]@[at as int] == now);
            }
        }
    }

    pub fn set_redacted(&mut self, key: &RoomKey, id: &str)
        ensures
            event_changed(
                *old(self),
                *final(self),
                key@,
                id@,
                |a: EventDto, b: EventDto| b == (EventDto { redacted: true, ..a }),
            ),
    {
        let ghost before = self.events@;
        if let Some((rest, at, event)) = self.take_event(key, id) {
            let ghost original = event;
            let mut changed = event;
            changed.redacted = true;
            let ghost now = changed;
            let ghost list = rest@;
            self.put_event(key, rest, at, changed);
            proof {
                assert(before[key@]@ == list.insert(at as int, original));
                assert(list.insert(at as int, now) =~= list.insert(at as int, original).update(
                    at as int,
                    now,
                ));
                assert(self.events@.dom() =~= before.dom());
                assert(self.events@[key@]@[at as int] == now);
            }
        }
    }
}

/// Whether the answer to a redaction was taken over.
pub open spec fn redaction_over(before: App, after: App, key: RoomKey, event_id: Seq<char>, result: Result<String, String>) -> bool {
    match result {
        Ok(id) => {
            &&& after == (App {
                messages: after.messages,
                status: after.status,
                ..before
            })
            &&& event_changed(
                before.messages,
                after.messages,
                key@,
                event_id,
                |a: EventDto, b: EventDto| b == (EventDto { redacted: true, ..a }),
            )
            &&& acting(after.status@, "redacted: "@ + id@, "redacted"@)
        },
        Err(e) => said(before, after, "redact failed: "@ + e@),
    }
}

/// Whether the answer to an edit was taken over.
pub open spec fn edit_over(before: App, after: App, key: RoomKey, event_id: Seq<char>, body: Seq<char>, result: Result<String, String>) -> bool {
    match result {
        Ok(id) => {
            &&& after == (App {
                messages: after.messages,
                status: after.status,
                ..before
            })
            &&& event_changed(
                before.messages,
                after.messages,
                key@,
                event_id,
                |a: EventDto, b: EventDto| rebodied(a, b, body),
            )
            &&& acting(after.status@, "edited: "@ + id@, "edited"@)
        },
        Err(e) => said(before, after, "edit failed: "@ + e@),
    }
}

/// Whether the selected message is to be redacted.
pub open spec fn redaction_asked(before: App, after: App, change: Option<EventChange>) -> bool {
    match (before.target(), before.room()) {
        (Some(event), Some(room)) => if echo_id(event.event_id) {
            change is None && said(before, after, pending_echo_text())
        } else {
            let key = room_key(room@);
            &&& after == before
            &&& change matches Some(c) && c.key@ == key && c.event_id@ == event.event_id
                && c.request@ == bare(
                Method::Delete,
                event_url(
                    before.client.base(),
                    key.account_id,
                    key.room_id,
                    event.event_id,
                ),
                MESSAGE_MUTATION_TIMEOUT,
            )
        },
        _ => change is None && said(
            before,
            after,
            "select a displayed message before redacting"@,
        ),
    }
}

impl App {
    /// Takes over the reply to an edit: the event's id, or what went wrong.
    pub fn apply_edit(
        &mut self,
        key: &RoomKey,
        event_id: &str,
        body: &str,
        result: Result<String, String>,
    )
        ensures
            edit_over(*old(self), *final(self), *key, event_id@, body@, result),
    {
        match result {
            Ok(id) => {
                self.messages.set_body(key, event_id, body);
                self.status = Status::EventAction {
                    debug: cat2("edited: ", id.as_str()),
                    redacted: "edited",
                };
            },
            Err(e) => {
                self.status = Status::Info(cat2("edit failed: ", e.as_str()));
            },
        }
    }

    /// Asks for the removal of the selected message.
    pub fn redact_selected_message(&mut self) -> (change: Option<EventChange>)
        ensures
            redaction_asked(*old(self), *final(self), change),
    {
        let event_id = match self.selected_message_event() {
            Some(event) => event.event_id.clone(),
            None => {
                self.say("select a displayed message before redacting");
                return None;
            },
        };
        let key = match self.selected_room() {
            Some(room) => RoomKey::of(room),
            None => {
                self.say("select a displayed message before redacting");
                return None;
            },
        };
        if is_local_echo(event_id.as_str()) {
            self.say_unconfirmed();
            return None;
        }
        let request = self.client.redact_event(
            key.account_id,
            key.room_id.as_str(),
            event_id.as_str(),
            None,
        );
        Some(EventChange { key, event_id, request })
    }

    /// Takes over the reply to a removal.
    pub fn apply_redaction(&mut self, key: &RoomKey, event_id: &str, result: Result<String, String>)
        ensures
            redaction_over(*old(self), *final(self), *key, event_id@, result),
    {
        match result {
            Ok(id) => {
                self.messages.set_redacted(key, event_id);
                self.status = Status::EventAction {
                    debug: cat2("redacted: ", id.as_str()),
                    redacted: "redacted",
                };
            },
            Err(e) => {
                self.status = Status::Info(cat2("redact failed: ", e.as_str()));
            },
        }
    }
}

} // verus!
