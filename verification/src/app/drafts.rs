//! Drafts: what stands in the line of each room, shared by the user's devices.
//!
//! The line is only overwritten where the user loses nothing: it is empty, or holds
//! just what the room's draft is known to be.

use vstd::prelude::*;

use crate::api::client::{
    bare, escaped, Members, Method, Request, RequestView, HTTP_REQUEST_TIMEOUT,
};
use crate::api::dto::{DeviceStateDto, DeviceStateEntryDto};
use crate::app::choice::{room_key, RoomKey, RoomKeyView};
use crate::app::lifecycle::line_set;
use crate::app::refresh::{remove_all, texts};
use crate::app::state::{App, DeviceState, Mode, ModeView, PendingDraftPut};
use crate::app::status::{Status, StatusView};
use crate::ids::{format_id, id_text, lemma_id_text, parse_id, parsed_id};
use crate::json::{Json, JsonView};
use crate::keyed::{Key, KeyedMap};
use crate::text::{
    begins, cat2, option_view, same_text, text_begins, trim, trim_end, trim_start, trim_text,
    views,
};

verus! {

/// The line that keeps the id of this device.
pub open spec fn device_id_line(id: u128) -> Seq<char> {
    id_text(id) + "\n"@
}

/// The line that keeps the id of this device.
pub fn write_device_id(id: u128) -> (out: String)
    ensures
        out@ == device_id_line(id),
{
    cat2(format_id(id).as_str(), "\n")
}

proof fn lemma_line_trims(id: u128)
    ensures
        trim(device_id_line(id)) == id_text(id),
{
    reveal_strlit("\n");
    lemma_id_text(id);
    let line = device_id_line(id);
    assert(id_text(id)[0] == line[0] && id_text(id)[35] == line[35]);
    assert(trim_start(line) == line);
    assert(line.last() == '\n');
    assert(line.drop_last() =~= id_text(id));
    assert(id_text(id).last() == id_text(id)[35]);
    assert(trim_end(id_text(id)) == id_text(id));
    assert(trim_end(line) == trim_end(line.drop_last()));
}

/// The id that a kept text holds. What was written reads back.
pub fn read_device_id(text: &str) -> (out: Option<u128>)
    ensures
        out == parsed_id(trim(text@)),
        forall|id: u128| text@ == #[trigger] device_id_line(id) ==> out == Some(id),
{
    let out = parse_id(trim_text(text));
    proof {
        assert forall|id: u128| text@ == #[trigger] device_id_line(id) implies out == Some(id) by {
            lemma_line_trims(id);
            assert(trim(text@) == id_text(id));
        }
    }
    out
}

/// The part of the devices' state that holds drafts.
pub open spec fn drafts_namespace() -> Seq<char> {
    "drafts"@
}

/// How long the line stays as it is before its draft is written, in milliseconds.
pub const DRAFT_DEBOUNCE: u64 = 400;

/// A draft that is to be written to the server.
#[derive(Debug)]
pub struct DraftPut {
    pub room: RoomKey,
    pub value: Option<String>,
}

pub struct DraftPutView {
    pub room: RoomKeyView,
    pub value: Option<Seq<char>>,
}

impl View for DraftPut {
    type V = DraftPutView;

    open spec fn view(&self) -> DraftPutView {
        DraftPutView { room: self.room@, value: option_view(self.value) }
    }
}

pub open spec fn put_view(put: Option<DraftPut>) -> Option<DraftPutView> {
    match put {
        Some(p) => Some(p@),
        None => None,
    }
}

/// What the user's typing tells the others in a room.
#[derive(Debug, Clone, Copy, PartialEq, Eq, Structural)]
pub enum TypingSignal {
    Keep,
    Start,
    Stop,
}

// ---------------------------------------------------------------------------
// Values
// ---------------------------------------------------------------------------

/// How a draft is stored.
pub open spec fn stored_draft(text: Seq<char>) -> JsonView {
    JsonView::Object(seq![("text"@, JsonView::Text(text))])
}

/// The draft that a stored value holds.
pub open spec fn draft_of(value: JsonView) -> Option<Seq<char>> {
    value.text_at("text"@)
}

pub fn draft_value(text: &str) -> (out: Json)
    ensures
        out@ == stored_draft(text@),
{
    let members = Members::new().and_text("text", text);
    assert(members@ =~= seq![("text"@, JsonView::Text(text@))]);
    members.into_json()
}

pub fn draft_text(value: &Json) -> (out: Option<&str>)
    ensures
        crate::text::option_str_view(out) == draft_of(value@),
{
    value.text_at("text")
}

/// A draft that was stored is read back as it was.
pub proof fn law_stored_draft_reads_back(text: Seq<char>)
    ensures
        draft_of(stored_draft(text)) == Some(text),
{
    let members = seq![("text"@, JsonView::Text(text))];
    reveal_with_fuel(crate::json::member_of, 2);
    assert(members.last() == ("text"@, JsonView::Text(text)));
}

/// The request that writes a draft.
pub open spec fn draft_request_of(base: Seq<char>, device_id: u128, put: DraftPutView) -> RequestView {
    bare(
        Method::Put,
        base + "/v1/devices/"@ + id_text(device_id) + "/state/"@ + escaped(drafts_namespace()),
        HTTP_REQUEST_TIMEOUT,
    ).with_query("account_id"@, id_text(put.room.account_id)).with_json(
        seq![
            (
                "entries"@,
                JsonView::Object(
                    seq![
                        (
                            put.room.room_id,
                            match put.value {
                                Some(t) => stored_draft(t),
                                None => JsonView::Null,
                            },
                        ),
                    ],
                ),
            ),
        ],
    )
}

// ---------------------------------------------------------------------------
// The line and the drafts
// ---------------------------------------------------------------------------

/// What a map holds under a key.
pub open spec fn held<K, V>(map: Map<K, V>, key: K) -> Option<V> {
    if map.dom().contains(key) {
        Some(map[key])
    } else {
        None
    }
}

/// The draft of a room.
pub open spec fn draft_at(device: DeviceState, key: RoomKeyView) -> Option<Seq<char>> {
    held(texts(device.drafts@), key)
}

/// Whether a mode leaves the line to the room's draft.
pub open spec fn leaves_line(mode: ModeView) -> bool {
    !(mode is LoginUsername || mode is LoginPassword || mode is RecoveryKey || mode is ConfirmLogout
        || mode is ConfirmDelete || mode is Editing || mode is Reacting || mode is Unreacting
        || mode is Verification || mode is DateJump)
}

/// A line as a draft: an empty one is none.
pub open spec fn as_draft(line: Seq<char>) -> Option<Seq<char>> {
    if line.len() == 0 {
        None
    } else {
        Some(line)
    }
}

/// Whether a line is a command being typed. Two slashes stand for a slash.
pub open spec fn is_command(line: Seq<char>) -> bool {
    begins(line, "/"@) && !begins(line, "//"@)
}

pub open spec fn room_view(key: Option<RoomKey>) -> Option<RoomKeyView> {
    match key {
        Some(k) => Some(k@),
        None => None,
    }
}

pub open spec fn pending_room(device: DeviceState) -> Option<RoomKeyView> {
    match device.pending_draft_put {
        Some(p) => Some(p.room@),
        None => None,
    }
}

/// The key of the selected room.
pub open spec fn chosen(app: App) -> Option<RoomKeyView> {
    match app.room() {
        Some(room) => Some(room_key(room@)),
        None => None,
    }
}

impl DeviceState {
    fn draft(&self, key: &RoomKey) -> (out: Option<&String>)
        ensures
            match out {
                Some(t) => draft_at(*self, key@) == Some(t@),
                None => draft_at(*self, key@) is None,
            },
    {
        self.drafts.get(key)
    }

    /// Drops the draft that waits, where it is of a room.
    fn cancel_pending_draft_put(&mut self, room: &RoomKey)
        ensures
            *final(self) == (if pending_room(*old(self)) == Some(room@) {
                DeviceState { pending_draft_put: None, ..*old(self) }
            } else {
                *old(self)
            }),
    {
        let same = match &self.pending_draft_put {
            Some(p) => p.room.same(room),
            None => false,
        };
        if same {
            self.pending_draft_put = None;
        }
    }
}

/// Whether the line was looked at after a key, and its draft set to wait.
pub open spec fn activity_noted(before: App, after: App, signal: TypingSignal, now: int) -> bool {
    let line = before.input.buffer@;
    let value = as_draft(line);
    let idle = before.mode@ !is Compose || chosen(before) is None;
    if idle {
        after == before && signal == TypingSignal::Keep
    } else {
        let key = chosen(before)->0;
        let known = draft_at(before.device, key) == value;
        &&& after == (App { device: after.device, ..before })
        &&& after.device == (DeviceState {
            pending_draft_put: after.device.pending_draft_put,
            compose_room: after.device.compose_room,
            ..before.device
        })
        &&& room_view(after.device.compose_room) == Some(key)
        &&& if is_command(line) || known {
            after.device.pending_draft_put == (if pending_room(before.device) == Some(key) {
                None
            } else {
                before.device.pending_draft_put
            })
        } else {
            match after.device.pending_draft_put {
                Some(p) => p.room@ == key && option_view(p.value) == value && p.due == now
                    + DRAFT_DEBOUNCE,
                None => false,
            }
        }
        &&& signal == (if is_command(line) || value is None {
            TypingSignal::Stop
        } else if known {
            TypingSignal::Keep
        } else {
            TypingSignal::Start
        })
    }
}

impl App {
    fn chosen_room_key(&self) -> (out: Option<RoomKey>)
        ensures
            room_view(out) == chosen(*self),
    {
        match self.selected_room() {
            Some(room) => Some(RoomKey::of(room)),
            None => None,
        }
    }

    /// Looks at the line after a key. Where it is no longer what the draft of the
    /// room is known to be, the draft waits to be written.
    pub fn note_draft_activity(&mut self, now: u64) -> (signal: TypingSignal)
        requires
            now + DRAFT_DEBOUNCE <= u64::MAX,
        ensures
            activity_noted(*old(self), *final(self), signal, now as int),
    {
        if !self.mode.is_compose() {
            return TypingSignal::Keep;
        }
        let room = match self.chosen_room_key() {
            Some(k) => k,
            None => return TypingSignal::Keep,
        };
        let line = self.input.buffer.as_str();
        let command = text_begins(line, "/") && !text_begins(line, "//");
        let empty = line.is_empty();
        let known = match self.device.draft(&room) {
            Some(t) => !empty && same_text(t.as_str(), line),
            None => empty,
        };
        let value = if empty {
            None
        } else {
            Some(self.input.buffer.clone())
        };
        if command || known {
            self.device.cancel_pending_draft_put(&room);
            self.device.compose_room = Some(room);
            return if command || empty {
                TypingSignal::Stop
            } else {
                TypingSignal::Keep
            };
        }
        self.device.compose_room = Some(room.duplicate());
        self.device.pending_draft_put = Some(
            PendingDraftPut { room, value, due: now + DRAFT_DEBOUNCE },
        );
        if empty {
            TypingSignal::Stop
        } else {
            TypingSignal::Start
        }
    }

    /// The request that writes a draft.
    pub fn draft_request(&self, put: &DraftPut) -> (out: Request)
        ensures
            out@ == draft_request_of(self.client.base(), self.device.device_id, put@),
    {
        let value = match &put.value {
            Some(t) => draft_value(t.as_str()),
            None => Json::Null,
        };
        let ghost v = value@;
        let entries = Members::new().and(put.room.room_id.as_str(), value);
        assert(entries@ =~= seq![(put.room.room_id@, v)]);
        self.client.put_device_state(
            self.device.device_id,
            put.room.account_id,
            "drafts",
            entries,
        )
    }
}

/// What flushing a draft that is due leads to: the drafts, and what is to be
/// written. A room that had no draft needs none removed.
pub open spec fn flushed(before: DeviceState, after: DeviceState, put: Option<DraftPutView>) -> bool {
    match before.pending_draft_put {
        None => after == before && put is None,
        Some(p) => {
            let key = p.room@;
            let value = option_view(p.value);
            &&& after == (DeviceState {
                drafts: after.drafts,
                pending_draft_put: None,
                ..before
            })
            &&& texts(after.drafts@) == (match value {
                Some(t) => texts(before.drafts@).insert(key, t),
                None => texts(before.drafts@).remove(key),
            })
            &&& put == (if value is None && draft_at(before, key) is None {
                None
            } else {
                Some(DraftPutView { room: key, value })
            })
        },
    }
}

impl DeviceState {
    fn flush_pending(&mut self) -> (put: Option<DraftPut>)
        ensures
            flushed(*old(self), *final(self), put_view(put)),
    {
        let mut pending: Option<PendingDraftPut> = None;
        core::mem::swap(&mut pending, &mut self.pending_draft_put);
        let p = match pending {
            Some(p) => p,
            None => return None,
        };
        let ghost before = self.drafts@;
        match p.value {
            Some(text) => {
                self.drafts.insert(p.room.duplicate(), text.clone());
                assert(texts(self.drafts@) =~= texts(before).insert(p.room@, text@));
                Some(DraftPut { room: p.room, value: Some(text) })
            },
            None => {
                let removed = self.drafts.remove(&p.room);
                assert(texts(self.drafts@) =~= texts(before).remove(p.room@));
                match removed {
                    Some(_) => Some(DraftPut { room: p.room, value: None }),
                    None => None,
                }
            },
        }
    }
}

pub open spec fn due_draft(device: DeviceState, now: int) -> bool {
    match device.pending_draft_put {
        Some(p) => p.due <= now,
        None => false,
    }
}

/// What is to be written, where requests can be made.
pub open spec fn if_sent(app: App, put: Option<DraftPutView>) -> Option<DraftPutView> {
    if app.session.wired {
        put
    } else {
        None
    }
}

impl App {
    fn flush_draft(&mut self) -> (put: Option<DraftPut>)
        ensures
            old(self).draft_flushed(*final(self), put_view(put)),
    {
        let put = self.device.flush_pending();
        let ghost shown = put_view(put);
        assert(flushed(old(self).device, self.device, shown));
        if self.session.wired {
            put
        } else {
            None
        }
    }

    /// Whether the draft that waits was settled.
    pub open spec fn draft_flushed(self, after: App, put: Option<DraftPutView>) -> bool {
        &&& after == (App { device: after.device, ..self })
        &&& exists|all: Option<DraftPutView>|
            #![trigger flushed(self.device, after.device, all)]
            flushed(self.device, after.device, all) && put == if_sent(self, all)
    }

    /// Settles the draft that waits, where it is due.
    pub fn flush_due_draft_put(&mut self, now: u64) -> (put: Option<DraftPut>)
        ensures
            if due_draft(old(self).device, now as int) {
                old(self).draft_flushed(*final(self), put_view(put))
            } else {
                *final(self) == *old(self) && put is None
            },
    {
        let due = match &self.device.pending_draft_put {
            Some(p) => p.due <= now,
            None => false,
        };
        if due {
            self.flush_draft()
        } else {
            None
        }
    }

    /// Settles the draft that waits at once, before the line goes to something else.
    pub fn flush_pending_draft_now(&mut self) -> (put: Option<DraftPut>)
        ensures
            old(self).draft_flushed(*final(self), put_view(put)),
    {
        self.flush_draft()
    }

    /// A draft that could not be written. It is kept, and said only while debugging.
    pub fn handle_draft_outcome(&mut self, error: &str)
        ensures
            *final(self) == (App { status: final(self).status, ..*old(self) }),
            if old(self).mid_command() {
                final(self).status == old(self).status
            } else {
                final(self).status@ == StatusView::Debug("draft sync failed: "@ + error@)
            },
    {
        if !self.is_mid_command() {
            let text = cat2("draft sync failed: ", error);
            self.status = Status::Debug(text);
        }
    }

    pub fn buffer_holds_draft(&self) -> (r: bool)
        ensures
            r == leaves_line(self.mode@),
    {
        match &self.mode {
            Mode::LoginUsername => false,
            Mode::LoginPassword { .. } => false,
            Mode::RecoveryKey { .. } => false,
            Mode::ConfirmLogout { .. } => false,
            Mode::ConfirmDelete { .. } => false,
            Mode::Editing { .. } => false,
            Mode::Reacting { .. } => false,
            Mode::Unreacting { .. } => false,
            Mode::Verification => false,
            Mode::DateJump => false,
            _ => true,
        }
    }

    /// Whether the draft of the room was put into an empty line.
    pub open spec fn draft_restored(self, after: App) -> bool {
        if !leaves_line(self.mode@) || self.input.buffer@.len() > 0 || chosen(self) is None {
            after == self
        } else {
            let key = chosen(self)->0;
            &&& after == (App { input: after.input, device: after.device, ..self })
            &&& after.device == (DeviceState {
                compose_room: after.device.compose_room,
                ..self.device
            })
            &&& room_view(after.device.compose_room) == Some(key)
            &&& match draft_at(self.device, key) {
                Some(t) => line_set(self.input, after.input, t),
                None => after.input == self.input,
            }
        }
    }

    pub fn restore_draft_into_buffer(&mut self)
        ensures
            old(self).draft_restored(*final(self)),
    {
        if !self.buffer_holds_draft() || !self.input.buffer.as_str().is_empty() {
            return ;
        }
        let key = match self.chosen_room_key() {
            Some(k) => k,
            None => return ,
        };
        let draft = match self.device.draft(&key) {
            Some(t) => Some(t.clone()),
            None => None,
        };
        if let Some(t) = draft {
            self.input.set(t);
        }
        self.device.compose_room = Some(key);
    }

    /// Whether the line was handed from the room it belonged to to the selected one:
    /// the draft of the first is settled, and that of the second stands in the line.
    pub open spec fn line_handed_over(self, after: App, put: Option<DraftPutView>, stops: bool) -> bool {
        if !leaves_line(self.mode@) || room_view(self.device.compose_room) == chosen(self) {
            after == self && put is None && !stops
        } else {
            let target = chosen(self);
            &&& stops
            &&& after == (App { input: after.input, device: after.device, ..self })
            &&& exists|middle: App|
                #![trigger self.draft_flushed(middle, put)]
                self.draft_flushed(middle, put) && after.device == (DeviceState {
                    compose_room: after.device.compose_room,
                    ..middle.device
                }) && line_set(
                    self.input,
                    after.input,
                    match target {
                        Some(key) => match draft_at(middle.device, key) {
                            Some(t) => t,
                            None => Seq::empty(),
                        },
                        None => Seq::empty(),
                    },
                )
            &&& room_view(after.device.compose_room) == target
        }
    }

    /// Hands the line over when another room is selected. The second result says
    /// whether the room that was left is to be told that the user stopped typing.
    pub fn sync_draft_on_room_change(&mut self) -> (out: (Option<DraftPut>, bool))
        ensures
            old(self).line_handed_over(*final(self), put_view(out.0), out.1),
    {
        if !self.buffer_holds_draft() {
            return (None, false);
        }
        let selected = self.chosen_room_key();
        let same = match (&self.device.compose_room, &selected) {
            (Some(a), Some(b)) => a.same(b),
            (None, None) => true,
            _ => false,
        };
        if same {
            return (None, false);
        }
        let put = self.flush_draft();
        let ghost middle = *self;
        assert(old(self).draft_flushed(middle, put_view(put)));
        let line = match &selected {
            Some(key) => match self.device.draft(key) {
                Some(t) => t.clone(),
                None => String::new(),
            },
            None => String::new(),
        };
        proof {
            let wanted = match chosen(*old(self)) {
                Some(key) => match draft_at(middle.device, key) {
                    Some(t) => t,
                    None => Seq::empty(),
                },
                None => Seq::empty(),
            };
            assert(line@ =~= wanted);
        }
        self.input.set(line);
        self.device.compose_room = selected;
        (put, true)
    }
}

// ---------------------------------------------------------------------------
// Drafts of other devices
// ---------------------------------------------------------------------------

/// Whether an entry of another device's drafts was taken over. The line follows it
/// only where it belongs to the room, nothing else took it, and the user loses
/// nothing: it is empty, or just the draft that was replaced.
pub open spec fn draft_entry_applied(before: App, after: App, key: RoomKeyView, value: JsonView) -> bool {
    let incoming = if value == JsonView::Null {
        None
    } else {
        draft_of(value)
    };
    if value != JsonView::Null && draft_of(value) is None {
        after == before
    } else {
        let line = before.input.buffer@;
        let clean = line.len() == 0 || draft_at(before.device, key) == Some(line);
        let follows = room_view(before.device.compose_room) == Some(key) && leaves_line(before.mode@)
            && clean;
        &&& after == (App { input: after.input, device: after.device, ..before })
        &&& after.device == (DeviceState {
            drafts: after.device.drafts,
            drafts_written_since_fetch: after.device.drafts_written_since_fetch,
            ..before.device
        })
        &&& texts(after.device.drafts@) == (match incoming {
            Some(t) => texts(before.device.drafts@).insert(key, t),
            None => texts(before.device.drafts@).remove(key),
        })
        &&& after.device.drafts_written_since_fetch@.dom()
            == before.device.drafts_written_since_fetch@.dom().insert(key)
        &&& if follows {
            line_set(
                before.input,
                after.input,
                match incoming {
                    Some(t) => t,
                    None => Seq::empty(),
                },
            )
        } else {
            after.input == before.input
        }
    }
}

/// Whether the entries of a frame were taken over, one after the other.
pub open spec fn draft_entries_applied(
    before: App,
    after: App,
    account_id: u128,
    entries: Seq<(String, Json)>,
) -> bool
    decreases entries.len(),
{
    if entries.len() == 0 {
        after == before
    } else {
        exists|middle: App|
            #![trigger listed_entry_applied(middle, after, account_id, entries.last())]
            draft_entries_applied(before, middle, account_id, entries.drop_last())
                && listed_entry_applied(middle, after, account_id, entries.last())
    }
}

/// Whether an entry of a frame was taken over.
pub open spec fn listed_entry_applied(
    before: App,
    after: App,
    account_id: u128,
    entry: (String, Json),
) -> bool {
    draft_entry_applied(
        before,
        after,
        RoomKeyView { account_id, room_id: entry.0@ },
        entry.1@,
    )
}

impl App {
    fn apply_draft_entry(&mut self, key: RoomKey, value: &Json)
        ensures
            draft_entry_applied(*old(self), *final(self), key@, value@),
    {
        let incoming = if value.is_null() {
            None
        } else {
            match draft_text(value) {
                Some(t) => Some(t.to_owned()),
                None => return ,
            }
        };
        let line = self.input.buffer.as_str();
        let clean = line.is_empty() || match self.device.draft(&key) {
            Some(t) => same_text(t.as_str(), line),
            None => false,
        };
        let here = match &self.device.compose_room {
            Some(k) => k.same(&key),
            None => false,
        };
        let follows = here && clean && self.buffer_holds_draft();
        let ghost before = self.device.drafts@;
        match &incoming {
            Some(t) => {
                self.device.drafts.insert(key.duplicate(), t.clone());
                assert(texts(self.device.drafts@) =~= texts(before).insert(key@, t@));
            },
            None => {
                let _ = self.device.drafts.remove(&key);
                assert(texts(self.device.drafts@) =~= texts(before).remove(key@));
            },
        }
        let ghost written = self.device.drafts_written_since_fetch@;
        self.device.drafts_written_since_fetch.insert(key.duplicate(), ());
        assert(self.device.drafts_written_since_fetch@.dom() =~= written.dom().insert(key@));
        if follows {
            let text = match incoming {
                Some(t) => t,
                None => String::new(),
            };
            assert(incoming is None ==> text@ =~= Seq::<char>::empty());
            self.input.set(text);
        }
    }

    /// Takes over the drafts that another device wrote.
    pub fn handle_draft_frame(&mut self, account_id: u128, entries: &KeyedMap<String, Json>)
        ensures
            draft_entries_applied(*old(self), *final(self), account_id, entries.listed()),
    {
        let n: usize = entries.count();
        let ghost all = entries.listed();
        let mut i: usize = 0;
        while i < n
            invariant
                i <= n,
                n == all.len(),
                all == entries.listed(),
                draft_entries_applied(*old(self), *self, account_id, all.take(i as int)),
            decreases n - i,
        {
            let ghost middle = *self;
            assert(all.take(i + 1).drop_last() =~= all.take(i as int));
            let (room_id, value) = entries.entry(i);
            assert(all.take(i + 1).last() == all[i as int]);
            self.apply_draft_entry(RoomKey { account_id, room_id: room_id.clone() }, value);
            assert(listed_entry_applied(middle, *self, account_id, all.take(i + 1).last()));
            i = i + 1;
        }
        assert(all.take(i as int) =~= all);
    }
}

/// A draft of another device never replaces what the user typed: where the line is
/// neither empty nor the room's known draft, it stays as it is.
pub proof fn law_typed_line_is_kept(before: App, after: App, key: RoomKeyView, value: JsonView)
    requires
        draft_entry_applied(before, after, key, value),
        before.input.buffer@.len() > 0,
        match room_view(before.device.compose_room) {
            Some(room) => draft_at(before.device, room) != Some(before.input.buffer@),
            None => true,
        },
    ensures
        after.input == before.input,
{
}

/// Restoring a draft never replaces anything that stands in the line.
pub proof fn law_restore_keeps_line(before: App, after: App)
    requires
        before.draft_restored(after),
        before.input.buffer@.len() > 0,
    ensures
        after.input == before.input,
{
}

// ---------------------------------------------------------------------------
// Reading all drafts
// ---------------------------------------------------------------------------

/// Whether a draft is newer than what the server just told: its room's line is
/// being typed, it waits to be written, or another device wrote it since the server
/// was asked.
pub open spec fn is_protected(device: DeviceState, key: RoomKeyView) -> bool {
    ||| room_view(device.compose_room) == Some(key)
    ||| pending_room(device) == Some(key)
    ||| device.drafts_written_since_fetch@.dom().contains(key)
}

/// The draft of a room after the server told all that it has of the account.
pub open spec fn draft_after_read(
    before: Option<Seq<char>>,
    protected: bool,
    entry: Option<JsonView>,
) -> Option<Seq<char>> {
    if protected {
        before
    } else {
        match entry {
            Some(value) => match draft_of(value) {
                Some(t) => Some(t),
                None => before,
            },
            None => None,
        }
    }
}

/// Whether the drafts of an account were taken over from the server.
pub open spec fn drafts_read(
    before: DeviceState,
    after: DeviceState,
    account_id: u128,
    state: DeviceStateDto,
) -> bool {
    &&& after == (DeviceState { drafts: after.drafts, ..before })
    &&& forall|key: RoomKeyView| #[trigger]
        held(texts(after.drafts@), key) == (if key.account_id == account_id {
            draft_after_read(
                held(texts(before.drafts@), key),
                is_protected(before, key),
                held(entry_values(state), key.room_id),
            )
        } else {
            held(texts(before.drafts@), key)
        })
}

/// The values of the entries of a state.
pub open spec fn entry_values(state: DeviceStateDto) -> Map<Seq<char>, JsonView> {
    state.entries@.map_values(|e: DeviceStateEntryDto| e.value@)
}

impl DeviceState {
    fn protects(&self, key: &RoomKey) -> (r: bool)
        ensures
            r == is_protected(*self, key@),
    {
        let composing = match &self.compose_room {
            Some(k) => k.same(key),
            None => false,
        };
        let waiting = match &self.pending_draft_put {
            Some(p) => p.room.same(key),
            None => false,
        };
        composing || waiting || self.drafts_written_since_fetch.contains_key(key)
    }

    pub open spec fn is_stale(self, account_id: u128, state: DeviceStateDto, key: RoomKeyView) -> bool {
        key.account_id == account_id && !state.entries@.dom().contains(key.room_id)
            && !is_protected(self, key)
    }

    /// The drafts of an account that the server no longer has.
    fn stale_drafts(&self, account_id: u128, state: &DeviceStateDto) -> (out: Vec<RoomKey>)
        ensures
            forall|key: RoomKeyView| #[trigger]
                views(out@).contains(key) <==> self.drafts@.dom().contains(key) && self.is_stale(
                    account_id,
                    *state,
                    key,
                ),
    {
        let n: usize = self.drafts.count();
        let ghost all = self.drafts.listed();
        let mut out: Vec<RoomKey> = Vec::new();
        let mut i: usize = 0;
        while i < n
            invariant
                i <= n,
                n == all.len(),
                all == self.drafts.listed(),
                forall|key: RoomKeyView| #[trigger]
                    views(out@).contains(key) <==> self.is_stale(account_id, *state, key)
                        && exists|j: int| 0 <= j < i && (#[trigger] all[j]).0@ == key,
            decreases n - i,
        {
            let (key, _) = self.drafts.entry(i);
            let ghost before = views(out@);
            let drop = key.account_id == account_id && !state.entries.contains_key(&key.room_id)
                && !self.protects(key);
            if drop {
                let copy = key.duplicate();
                let ghost k = copy@;
                out.push(copy);
                assert(views(out@) =~= before.push(k));
            }
            assert forall|k: RoomKeyView| #[trigger]
                views(out@).contains(k) <==> self.is_stale(account_id, *state, k) && exists|j: int|
                    0 <= j < i + 1 && (#[trigger] all[j]).0@ == k by {
                if before.contains(k) {
                    let p = choose|p: int| 0 <= p < before.len() && before[p] == k;
                    assert(views(out@)[p] == k);
                    let j = choose|j: int| 0 <= j < i && (#[trigger] all[j]).0@ == k;
                    assert(all[j].0@ == k);
                }
                if views(out@).contains(k) {
                    let p = choose|p: int| 0 <= p < views(out@).len() && views(out@)[p] == k;
                    if p < before.len() {
                        assert(before[p] == k);
                        assert(before.contains(k));
                    } else {
                        assert(all[i as int].0@ == k);
                    }
                }
                if self.is_stale(account_id, *state, k) && all[i as int].0@ == k {
                    assert(views(out@)[views(out@).len() - 1] == k);
                }
            }
            i = i + 1;
        }
        proof {
            assert forall|key: RoomKeyView| #[trigger]
                views(out@).contains(key) <==> self.drafts@.dom().contains(key) && self.is_stale(
                    account_id,
                    *state,
                    key,
                ) by {
                self.drafts.lemma_listed_key(key);
            }
        }
        out
    }

    fn take_entries(&mut self, account_id: u128, state: &DeviceStateDto)
        ensures
            *final(self) == (DeviceState { drafts: final(self).drafts, ..*old(self) }),
            forall|key: RoomKeyView| #[trigger]
                held(texts(final(self).drafts@), key) == (if key.account_id == account_id
                    && state.entries@.dom().contains(key.room_id) && !is_protected(*old(self), key)
                    && draft_of(state.entries@[key.room_id].value@) is Some {
                    draft_of(state.entries@[key.room_id].value@)
                } else {
                    held(texts(old(self).drafts@), key)
                }),
    {
        let n: usize = state.entries.count();
        let ghost all = state.entries.listed();
        let ghost start = *self;
        let mut i: usize = 0;
        while i < n
            invariant
                i <= n,
                n == all.len(),
                all == state.entries.listed(),
                crate::keyed::keys_once(all),
                start == *old(self),
                *self == (DeviceState { drafts: self.drafts, ..start }),
                forall|key: RoomKeyView| #[trigger]
                    held(texts(self.drafts@), key) == (if key.account_id == account_id
                        && taken_before(all, i as int, key.room_id) && !is_protected(start, key)
                        && draft_of(state.entries@[key.room_id].value@) is Some {
                        draft_of(state.entries@[key.room_id].value@)
                    } else {
                        held(texts(start.drafts@), key)
                    }),
            decreases n - i,
        {
            let (room_id, entry) = state.entries.entry(i);
            let key = RoomKey { account_id, room_id: room_id.clone() };
            let ghost k = key@;
            let ghost before = texts(self.drafts@);
            assert(is_protected(*self, k) == is_protected(start, k));
            if !self.protects(&key) {
                if let Some(text) = draft_text(&entry.value) {
                    let t = text.to_owned();
                    let ghost tv = t@;
                    self.drafts.insert(key, t);
                    assert(texts(self.drafts@) =~= before.insert(k, tv));
                }
            }
            proof {
                assert(state.entries@[room_id@] == *entry);
                assert forall|key: RoomKeyView| #[trigger]
                    held(texts(self.drafts@), key) == (if key.account_id == account_id
                        && taken_before(all, i + 1, key.room_id) && !is_protected(start, key)
                        && draft_of(state.entries@[key.room_id].value@) is Some {
                        draft_of(state.entries@[key.room_id].value@)
                    } else {
                        held(texts(start.drafts@), key)
                    }) by {
                    assert(held(before, key) == held(before, key));
                    if key == k {
                        assert(all[i as int].0@ == key.room_id);
                    } else if key.account_id == account_id {
                        assert(key.room_id != k.room_id);
                        if taken_before(all, i + 1, key.room_id) {
                            let j = choose|j: int|
                                0 <= j < i + 1 && (#[trigger] all[j]).0@ == key.room_id;
                            assert(j < i);
                        }
                        assert(taken_before(all, i + 1, key.room_id) == taken_before(
                            all,
                            i as int,
                            key.room_id,
                        ));
                    }
                }
            }
            i = i + 1;
        }
        proof {
            assert forall|key: RoomKeyView| #[trigger]
                held(texts(self.drafts@), key) == (if key.account_id == account_id
                    && state.entries@.dom().contains(key.room_id) && !is_protected(start, key)
                    && draft_of(state.entries@[key.room_id].value@) is Some {
                    draft_of(state.entries@[key.room_id].value@)
                } else {
                    held(texts(start.drafts@), key)
                }) by {
                state.entries.lemma_listed_key(key.room_id);
                assert(taken_before(all, n as int, key.room_id)
                    == state.entries@.dom().contains(key.room_id));
            }
        }
    }

    fn read_drafts(&mut self, account_id: u128, state: &DeviceStateDto)
        ensures
            drafts_read(*old(self), *final(self), account_id, *state),
    {
        let ghost start = *self;
        let gone = self.stale_drafts(account_id, state);
        let ghost set = views(gone@).to_set();
        remove_all(&mut self.drafts, &gone);
        let ghost middle = *self;
        self.take_entries(account_id, state);
        proof {
            assert forall|key: RoomKeyView| #[trigger]
                held(texts(self.drafts@), key) == (if key.account_id == account_id {
                    draft_after_read(
                        held(texts(start.drafts@), key),
                        is_protected(start, key),
                        held(entry_values(*state), key.room_id),
                    )
                } else {
                    held(texts(start.drafts@), key)
                }) by {
                assert(is_protected(middle, key) == is_protected(start, key));
                assert(set.contains(key) == views(gone@).contains(key));
                assert(held(texts(middle.drafts@), key) == (if set.contains(key) {
                    None
                } else {
                    held(texts(start.drafts@), key)
                }));
            }
        }
    }
}

/// Whether one of the first entries of a list is of a room.
spec fn taken_before(all: Seq<(String, DeviceStateEntryDto)>, n: int, room_id: Seq<char>) -> bool {
    exists|j: int| 0 <= j < n && (#[trigger] all[j]).0@ == room_id
}

/// Whether what the server told of each account was taken over. An account that
/// could not be read keeps its drafts.
pub open spec fn all_drafts_read(
    before: DeviceState,
    after: DeviceState,
    reads: Seq<(u128, Result<DeviceStateDto, String>)>,
) -> bool
    decreases reads.len(),
{
    if reads.len() == 0 {
        after == before
    } else {
        exists|middle: DeviceState|
            #![trigger account_drafts_read(middle, after, reads.last())]
            all_drafts_read(before, middle, reads.drop_last()) && account_drafts_read(
                middle,
                after,
                reads.last(),
            )
    }
}

/// Whether what the server told of an account was taken over.
pub open spec fn account_drafts_read(
    before: DeviceState,
    after: DeviceState,
    read: (u128, Result<DeviceStateDto, String>),
) -> bool {
    match read.1 {
        Ok(state) => drafts_read(before, after, read.0, state),
        Err(_) => after == before,
    }
}

/// Whether the drafts that the server has were taken over, and that of the room put into
/// an empty line.
pub open spec fn draft_reads_applied(
    before: App,
    after: App,
    reads: Seq<(u128, Result<DeviceStateDto, String>)>,
) -> bool {
    exists|middle: App|
        #![trigger all_drafts_read(before.device, middle.device, reads)]
        middle == (App { device: middle.device, ..before }) && all_drafts_read(
            before.device,
            middle.device,
            reads,
        ) && middle.draft_restored(after)
}

impl App {
    /// Takes over the drafts that the server has, and puts that of the room into an
    /// empty line.
    pub fn apply_draft_reads(&mut self, reads: &Vec<(u128, Result<DeviceStateDto, String>)>)
        ensures
            draft_reads_applied(*old(self), *final(self), reads@),
    {
        let mut i: usize = 0;
        while i < reads.len()
            invariant
                i <= reads.len(),
                *self == (App { device: self.device, ..*old(self) }),
                all_drafts_read(old(self).device, self.device, reads@.take(i as int)),
            decreases reads.len() - i,
        {
            let ghost middle = self.device;
            assert(reads@.take(i + 1).drop_last() =~= reads@.take(i as int));
            assert(reads@.take(i + 1).last() == reads@[i as int]);
            let read = &reads[i];
            if let Ok(state) = &read.1 {
                self.device.read_drafts(read.0, state);
            }
            assert(account_drafts_read(middle, self.device, reads@.take(i + 1).last()));
            i = i + 1;
        }
        assert(reads@.take(i as int) =~= reads@);
        let ghost middle = *self;
        assert(all_drafts_read(old(self).device, middle.device, reads@));
        self.restore_draft_into_buffer();
    }
}

/// A draft that is newer than what the server told is neither removed nor replaced.
pub proof fn law_newer_draft_is_kept(
    before: DeviceState,
    after: DeviceState,
    account_id: u128,
    state: DeviceStateDto,
    key: RoomKeyView,
)
    requires
        drafts_read(before, after, account_id, state),
        is_protected(before, key),
    ensures
        draft_at(after, key) == draft_at(before, key),
{
    assert(held(texts(after.drafts@), key) == held(texts(after.drafts@), key));
}

} // verus!
