//! The timeline of the selected room: loading it, going back, going forward, jumping.

use vstd::prelude::*;

use crate::api::client::{bare, room_url, Method, Request, RequestView, HTTP_REQUEST_TIMEOUT};
use crate::api::dto::{room_title, EventDto, EventView, TimelinePage};
use crate::app::calendar::{day_label, day_of, format_jump_date};
use crate::app::choice::{event_position, find_event, room_key, RoomKey, RoomKeyView};
use crate::app::drafts::{held, put_view, DraftPut, DRAFT_DEBOUNCE};
use crate::app::edits::{apply_edits, edited, turn_round};
use crate::app::lifecycle::said;
use crate::app::outcome::find_stored;
use crate::app::paging::{page_request, Straddle, TopWalk, TIMELINE_LIMIT};
use crate::app::read_markers::{
    arrived_last, main_timeline, marker_of, read_noted, read_put_view, read_targets_for,
    receipt_of, ReadPut, ThreadRoot,
};
use crate::app::rooms::keep_adjacent_older_tail;
use crate::app::selection::ids_of;
use crate::app::state::{App, MessagePane, Panels, RoomsState, Session, ThreadState};
use crate::app::status::{Status, StatusView};
use crate::keyed::Key;
use crate::text::{cat2, cat3, copy_option, decimal, decimal_usize, option_view, views};

verus! {

/// The events of a room that are kept at most.
pub const MAX_EVENTS: usize = 500;

// ---------------------------------------------------------------------------
// Opening a room
// ---------------------------------------------------------------------------

/// Where the next older page starts, after a page came.
pub open spec fn cursor_kept(
    before: Map<RoomKeyView, String>,
    after: Map<RoomKeyView, String>,
    key: RoomKeyView,
    cursor: Option<Seq<char>>,
) -> bool {
    match cursor {
        Some(c) => after == before.insert(key, after[key]) && after[key]@ == c,
        None => after == before.remove(key),
    }
}

impl MessagePane {
    fn keep_cursor(&mut self, key: &RoomKey, cursor: Option<String>)
        ensures
            *final(self) == (MessagePane {
                history_cursors: final(self).history_cursors,
                ..*old(self)
            }),
            cursor_kept(
                old(self).history_cursors@,
                final(self).history_cursors@,
                key@,
                option_view(cursor),
            ),
    {
        match cursor {
            Some(c) => {
                self.history_cursors.insert(key.duplicate(), c);
            },
            None => {
                let _ = self.history_cursors.remove(key);
            },
        }
    }
}

/// Whether the events of a room were replaced.
pub open spec fn events_replaced(
    before: Map<RoomKeyView, Vec<EventDto>>,
    after: Map<RoomKeyView, Vec<EventDto>>,
    key: RoomKeyView,
    events: Seq<EventView>,
) -> bool {
    after == before.insert(key, after[key]) && views(after[key]@) == events
}

/// The events of a page in the order in which they are shown, edits taken over.
pub open spec fn in_order(page: TimelinePage) -> Seq<EventView> {
    edited(views(page.events@).reverse())
}

fn order_page(events: Vec<EventDto>) -> (out: Vec<EventDto>)
    ensures
        views(out@) == edited(views(events@).reverse()),
{
    let ghost all = views(events@);
    let mut out = turn_round(events);
    assert(views(out@) =~= all.reverse());
    apply_edits(&mut out);
    out
}

/// Whether the timeline of the selected room is to be loaded.
pub open spec fn timeline_asked(before: App, after: App, request: Option<(RoomKey, Request)>) -> bool {
    match before.room() {
        None => request is None && after == before,
        Some(room) => {
            &&& after == (App {
                messages: MessagePane {
                    selection: None,
                    scroll: usize::MAX,
                    ..before.messages
                },
                session: Session { last_jump_ts: None, ..before.session },
                panels: Panels { force_terminal_clear: true, ..before.panels },
                ..before
            })
            &&& request matches Some((key, r)) && key@ == room_key(room@) && r@
                == page_request(
                before.client.base(),
                room_key(room@),
                None,
                None,
                TIMELINE_LIMIT,
            )
        },
    }
}

impl App {
    /// Begins to load the timeline of the selected room.
    pub fn load_selected_timeline(&mut self) -> (request: Option<(RoomKey, Request)>)
        ensures
            timeline_asked(*old(self), *final(self), request),
    {
        let key = match self.selected_room() {
            Some(room) => RoomKey::of(room),
            None => return None,
        };
        self.messages.selection = None;
        self.messages.scroll = usize::MAX;
        self.session.last_jump_ts = None;
        self.panels.force_terminal_clear = true;
        let request = self.client.room_timeline(
            key.account_id,
            key.room_id.as_str(),
            None,
            None,
            TIMELINE_LIMIT,
        );
        Some((key, request))
    }
}

/// Where the names of a room's senders come from, once events of it were loaded.
#[derive(Debug)]
pub enum NamesDue {
    /// They stay as they are.
    Kept,
    /// They are made anew of the events that are kept of the room, and over those of its
    /// members, who are to be asked for. Where that fails the names of the events stay.
    Anew(Request),
    /// Those that are missing are taken from the events with these ids.
    Missing(Vec<String>),
}

pub enum NamesDueView {
    Kept,
    Anew(RequestView),
    Missing(Seq<Seq<char>>),
}

impl View for NamesDue {
    type V = NamesDueView;

    open spec fn view(&self) -> NamesDueView {
        match self {
            NamesDue::Kept => NamesDueView::Kept,
            NamesDue::Anew(request) => NamesDueView::Anew(request@),
            NamesDue::Missing(ids) => NamesDueView::Missing(views(ids@)),
        }
    }
}

/// What is due where a page took the place of what was kept of a room: a page names few
/// of the senders, so the members of the room are asked for.
pub open spec fn names_anew(app: App, key: RoomKeyView) -> NamesDueView {
    NamesDueView::Anew(
        bare(
            Method::Get,
            room_url(app.client.base(), key.account_id, key.room_id) + "/members"@,
            HTTP_REQUEST_TIMEOUT,
        ),
    )
}

/// The first events of a list.
pub open spec fn leading(events: Seq<EventView>, n: int) -> Seq<EventView> {
    if n < events.len() {
        events.take(n)
    } else {
        events
    }
}

/// The ids of the first events of a list.
fn leading_ids(events: &Vec<EventDto>, n: usize) -> (out: Vec<String>)
    ensures
        views(out@) == ids_of(leading(views(events@), n as int)),
{
    let ghost first = leading(views(events@), n as int);
    assert(views(events@).len() == events@.len());
    let mut out: Vec<String> = Vec::new();
    let mut i: usize = 0;
    while i < n && i < events.len()
        invariant
            i <= n,
            i <= events.len(),
            out.len() == i,
            forall|k: int| 0 <= k < i ==> (#[trigger] out@[k])@ == events@[k]@.event_id,
        decreases events.len() - i,
    {
        out.push(events[i].event_id.clone());
        i = i + 1;
    }
    assert(first.len() == i);
    assert(views(out@) =~= ids_of(first));
    out
}

impl App {
    fn ask_names(&self, key: &RoomKey) -> (out: NamesDue)
        ensures
            out@ == names_anew(*self, key@),
    {
        NamesDue::Anew(self.client.room_members(key.account_id, key.room_id.as_str()))
    }
}

/// What is still to be done once a timeline was loaded.
#[derive(Debug)]
pub struct TimelineEffects {
    /// The names of the senders.
    pub names: NamesDue,
    /// The thread roots to fetch.
    pub roots: Vec<ThreadRoot>,
    pub read: Option<ReadPut>,
    /// Whether what relates to the events is to be fetched.
    pub relations: bool,
    pub draft: Option<DraftPut>,
    pub stop_typing: bool,
}

/// Whether nothing is left to do.
pub open spec fn nothing_due(effects: TimelineEffects) -> bool {
    &&& effects.names is Kept
    &&& effects.roots@.len() == 0
    &&& effects.read is None
    &&& !effects.relations
    &&& effects.draft is None
    &&& !effects.stop_typing
}

impl App {
    /// Whether a page of a room was opened: it is what is kept of the room, the replies
    /// that made the room unread are shown, the room is read as far as it is shown,
    /// and its badge is gone.
    pub open spec fn page_opened(
        self,
        after: App,
        key: RoomKeyView,
        events: Seq<EventView>,
        cursor: Option<Seq<char>>,
        roots: Seq<(u128, Seq<char>)>,
        put: Option<crate::app::read_markers::ReadPutView>,
        now: int,
    ) -> bool {
        let paged = App {
            messages: MessagePane {
                history_cursors: after.messages.history_cursors,
                ..self.messages
            },
            ..self
        };
        let promoted = App {
            threads: ThreadState {
                promoted: after.threads.promoted,
                unread: after.threads.unread,
                ..self.threads
            },
            ..paged
        };
        let read = App { device: after.device, ..promoted };
        let shown = main_timeline(
            events,
            self.display.show_state_events,
            after.threads.promoted@.dom(),
        );
        &&& after == (App {
            messages: MessagePane { events: after.messages.events, ..paged.messages },
            rooms: RoomsState { unread: after.rooms.unread, ..self.rooms },
            threads: ThreadState { panel: None, ..promoted.threads },
            ..read
        })
        &&& cursor_kept(
            self.messages.history_cursors@,
            after.messages.history_cursors@,
            key,
            cursor,
        )
        &&& paged.promotions(promoted, key, events, roots)
        &&& if shown.len() == 0 {
            read == promoted && put is None
        } else {
            read_noted(
                promoted,
                read,
                put,
                key,
                marker_of(shown.last()),
                Some(receipt_of(shown[arrived_last(shown)])),
                now,
            )
        }
        &&& events_replaced(self.messages.events@, after.messages.events@, key, events)
        &&& after.rooms.unread@ == self.rooms.unread@.remove(key)
    }

    fn open_page(&mut self, key: &RoomKey, events: Vec<EventDto>, cursor: Option<String>, now: u64) -> (out:
        (Vec<ThreadRoot>, Option<ReadPut>))
        requires
            now + DRAFT_DEBOUNCE <= u64::MAX,
        ensures
            old(self).page_opened(
                *final(self),
                key@,
                views(events@),
                option_view(cursor),
                views(out.0@),
                read_put_view(out.1),
                now as int,
            ),
    {
        self.messages.keep_cursor(key, cursor);
        let roots = self.collect_unseen_thread_promotions(key, events.as_slice());
        let ghost promoted = *self;
        let put = match read_targets_for(
            events.as_slice(),
            self.display.show_state_events,
            &self.threads.promoted,
        ) {
            Some(targets) => self.note_room_read(
                key.duplicate(),
                targets.marker,
                Some(targets.receipt),
                now,
            ),
            None => None,
        };
        self.messages.events.insert(key.duplicate(), events);
        let _ = self.rooms.unread.remove(key);
        self.threads.panel = None;
        (roots, put)
    }
}

/// What is said of a room that is shown.
pub open spec fn showing_text(title: Seq<char>, more: bool) -> Seq<char> {
    if more {
        "showing "@ + title + " (older history available later)"@
    } else {
        "showing "@ + title
    }
}

/// A status line that does not interrupt what the user is asked.
pub open spec fn politely(before: App, after: App, text: Seq<char>) -> bool {
    if before.mid_command() {
        after.status == before.status
    } else {
        after.status@ == StatusView::Info(text)
    }
}

impl App {
    /// Whether the timeline of the selected room was taken over, and the line handed
    /// to its draft.
    pub open spec fn timeline_taken(
        self,
        after: App,
        room: crate::api::dto::RoomDto,
        result: Result<TimelinePage, String>,
        effects: TimelineEffects,
        now: int,
    ) -> bool {
        exists|middle: App| #[trigger]
            middle.line_handed_over(after, put_view(effects.draft), effects.stop_typing)
                && match result {
                Ok(page) => {
                    &&& self.page_opened(
                        App { status: self.status, ..middle },
                        room_key(room@),
                        in_order(page),
                        option_view(page.next_cursor),
                        views(effects.roots@),
                        read_put_view(effects.read),
                        now,
                    )
                    &&& effects.relations
                    &&& effects.names@ == names_anew(self, room_key(room@))
                    &&& politely(
                        self,
                        middle,
                        showing_text(room_title(room@), page.next_cursor is Some),
                    )
                },
                Err(e) => {
                    &&& middle == (App { status: middle.status, ..self })
                    &&& politely(self, middle, "timeline load failed: "@ + e@)
                    &&& effects.roots@.len() == 0
                    &&& effects.read is None
                    &&& !effects.relations
                    &&& effects.names is Kept
                },
            }
    }

    /// Takes over the timeline of the selected room, or what went wrong.
    pub fn timeline_loaded(&mut self, result: Result<TimelinePage, String>, now: u64) -> (effects:
        TimelineEffects)
        requires
            now + DRAFT_DEBOUNCE <= u64::MAX,
        ensures
            match old(self).room() {
                Some(room) => old(self).timeline_taken(
                    *final(self),
                    room,
                    result,
                    effects,
                    now as int,
                ),
                None => *final(self) == *old(self) && nothing_due(effects),
            },
    {
        let (key, title) = match self.selected_room() {
            Some(room) => (RoomKey::of(room), room.title().to_owned()),
            None => {
                return TimelineEffects {
                    names: NamesDue::Kept,
                    roots: Vec::new(),
                    read: None,
                    relations: false,
                    draft: None,
                    stop_typing: false,
                };
            },
        };
        let mut roots: Vec<ThreadRoot> = Vec::new();
        let mut read: Option<ReadPut> = None;
        let mut relations = false;
        let mut names = NamesDue::Kept;
        match result {
            Ok(page) => {
                names = self.ask_names(&key);
                let events = order_page(page.events);
                let more = page.next_cursor.is_some();
                let (found, put) = self.open_page(&key, events, page.next_cursor, now);
                roots = found;
                read = put;
                relations = true;
                if !self.is_mid_command() {
                    self.status = Status::Info(
                        if more {
                            cat3("showing ", title.as_str(), " (older history available later)")
                        } else {
                            cat2("showing ", title.as_str())
                        },
                    );
                }
            },
            Err(e) => {
                if !self.is_mid_command() {
                    self.status = Status::Info(cat2("timeline load failed: ", e.as_str()));
                }
            },
        }
        let ghost middle = *self;
        let (draft, stop_typing) = self.sync_draft_on_room_change();
        let effects = TimelineEffects { names, roots, read, relations, draft, stop_typing };
        assert(middle.line_handed_over(*self, put_view(effects.draft), effects.stop_typing));
        effects
    }
}

// ---------------------------------------------------------------------------
// Older events
// ---------------------------------------------------------------------------

/// What is said where no more events are kept.
pub open spec fn full_text() -> Seq<char> {
    "showing 500 messages — End to return to live"@
}

/// The number of events that are kept of a room.
pub open spec fn kept_count(pane: MessagePane, key: RoomKeyView) -> nat {
    match held(pane.events@, key) {
        Some(list) => list@.len(),
        None => 0,
    }
}

/// Whether older messages of the selected room are asked for.
pub open spec fn older_asked(before: App, after: App, request: Option<(RoomKey, Request)>) -> bool {
    match before.room() {
        None => request is None && after == before,
        Some(room) => {
            let key = room_key(room@);
            match held(before.messages.history_cursors@, key) {
                None => request is None && said(
                    before,
                    after,
                    "at beginning of Axon history"@,
                ),
                Some(cursor) => if before.messages.loading_history {
                    request is None && after == before
                } else if kept_count(before.messages, key) >= MAX_EVENTS {
                    request is None && said(before, after, full_text())
                } else {
                    &&& after == (App {
                        messages: MessagePane {
                            loading_history: true,
                            ..before.messages
                        },
                        status: after.status,
                        ..before
                    })
                    &&& after.status@ == StatusView::Info("Loading older messages…"@)
                    &&& request matches Some((k, r)) && k@ == key && r@ == page_request(
                        before.client.base(),
                        key,
                        Some(cursor@),
                        None,
                        TIMELINE_LIMIT,
                    )
                },
            }
        },
    }
}

impl App {
    fn count_kept(&self, key: &RoomKey) -> (n: usize)
        ensures
            n == kept_count(self.messages, key@),
    {
        match self.messages.events.get(key) {
            Some(list) => list.len(),
            None => 0,
        }
    }

    /// Begins to load older events of the selected room.
    pub fn load_more_history(&mut self) -> (request: Option<(RoomKey, Request)>)
        ensures
            older_asked(*old(self), *final(self), request),
    {
        let key = match self.selected_room() {
            Some(room) => RoomKey::of(room),
            None => return None,
        };
        let cursor = match self.messages.history_cursors.get(&key) {
            Some(c) => c.clone(),
            None => {
                self.say("at beginning of Axon history");
                return None;
            },
        };
        if self.messages.loading_history {
            return None;
        }
        if self.count_kept(&key) >= MAX_EVENTS {
            self.say("showing 500 messages — End to return to live");
            return None;
        }
        self.messages.loading_history = true;
        self.say("Loading older messages…");
        let request = self.client.room_timeline(
            key.account_id,
            key.room_id.as_str(),
            Some(cursor.as_str()),
            None,
            TIMELINE_LIMIT,
        );
        Some((key, request))
    }
}

/// What is still to be done once older or newer events were loaded.
#[derive(Debug)]
pub struct HistoryEffects {
    /// The position in the pane that is to be seen.
    pub seen: Option<usize>,
    /// The names of the senders.
    pub names: NamesDue,
}

/// How many more events are kept of a room.
pub open spec fn spare(count: nat) -> int {
    if count >= MAX_EVENTS {
        0
    } else {
        MAX_EVENTS - count
    }
}

/// The newest of older events, as many as there is room for.
pub open spec fn adjacent(older: Seq<EventView>, room: int) -> Seq<EventView> {
    if older.len() > room {
        older.skip(older.len() - room)
    } else {
        older
    }
}

/// What is said of older events that were loaded.
pub open spec fn older_text(added: nat, loaded: nat, more: bool) -> Seq<char> {
    "loaded "@ + decimal(added) + if added < loaded {
        " older messages (capped at 500 total)"@
    } else if more {
        " older messages — PageUp for more"@
    } else {
        " older messages — beginning of Axon history"@
    }
}

/// The position of an event in the pane, where it is shown.
pub open spec fn place_of(pane: Seq<EventView>, id: Seq<char>) -> Option<usize> {
    let at = event_position(ids_of(pane), id);
    if at < pane.len() {
        Some(at as usize)
    } else {
        None
    }
}

impl App {
    fn find_place(&self, id: &str) -> (out: Option<usize>)
        ensures
            out == place_of(self.pane(), id@),
    {
        let events = self.selected_events();
        assert(views(events@).len() == events@.len());
        assert(crate::app::choice::event_ids(events@) =~= ids_of(self.pane()));
        let at: usize = find_event(events.as_slice(), id);
        if at < events.len() {
            Some(at)
        } else {
            None
        }
    }

    /// Whether an older page stands before the events of a room, with the edits
    /// between the two taken over. What was selected stays so and is to be seen; else
    /// the oldest event is selected.
    pub open spec fn older_taken(
        self,
        after: App,
        key: RoomKeyView,
        page: TimelinePage,
        effects: HistoryEffects,
    ) -> bool {
        let seen = effects.seen;
        let added = adjacent(
            views(page.events@).reverse(),
            spare(kept_count(self.messages, key)),
        );
        let events = edited(added + self.events_of(key));
        &&& after == (App { messages: after.messages, status: after.status, ..self })
        &&& after.messages == (MessagePane {
            events: after.messages.events,
            history_cursors: after.messages.history_cursors,
            selection: after.messages.selection,
            loading_history: false,
            ..self.messages
        })
        &&& events_replaced(self.messages.events@, after.messages.events@, key, events)
        &&& cursor_kept(
            self.messages.history_cursors@,
            after.messages.history_cursors@,
            key,
            option_view(page.next_cursor),
        )
        &&& match self.messages.selection {
            Some(id) => after.messages.selection == self.messages.selection && seen == place_of(
                after.pane(),
                id@,
            ),
            None => {
                &&& option_view(after.messages.selection) == (if events.len() > 0 {
                    Some(events[0].event_id)
                } else {
                    None
                })
                &&& seen == Some(0usize)
            },
        }
        &&& after.status@ == StatusView::Info(
            older_text(added.len(), page.events@.len(), page.next_cursor is Some),
        )
        &&& effects.names@ == NamesDueView::Missing(ids_of(leading(events, added.len() as int)))
    }

    /// Takes over older events of the selected room. The result is the position in the
    /// pane that is to be seen, and where missing names come from.
    pub fn more_history_loaded(&mut self, key: &RoomKey, result: Result<TimelinePage, String>) -> (effects:
        HistoryEffects)
        ensures
            match result {
                Ok(page) => old(self).older_taken(*final(self), key@, page, effects),
                Err(e) => {
                    &&& *final(self) == (App {
                        messages: MessagePane { loading_history: false, ..old(self).messages },
                        status: final(self).status,
                        ..*old(self)
                    })
                    &&& final(self).status@ == StatusView::Info("history load failed: "@ + e@)
                    &&& effects.seen is None
                    &&& effects.names is Kept
                },
            },
    {
        self.messages.loading_history = false;
        let page = match result {
            Ok(page) => page,
            Err(e) => {
                self.status = Status::Info(cat2("history load failed: ", e.as_str()));
                return HistoryEffects { seen: None, names: NamesDue::Kept };
            },
        };
        let ghost all = views(page.events@);
        let ghost kept = self.events_of(key@);
        let loaded: usize = page.events.len();
        let count: usize = self.count_kept(key);
        let room: usize = if count >= MAX_EVENTS {
            0
        } else {
            MAX_EVENTS - count
        };
        let mut events = turn_round(page.events);
        assert(views(events@) =~= all.reverse());
        keep_adjacent_older_tail(&mut events, room);
        let ghost added = adjacent(all.reverse(), room as int);
        assert(views(events@) =~= added);
        let prepended: usize = events.len();
        match self.messages.events.remove(key) {
            Some(list) => {
                let mut rest = list;
                let ghost r = views(rest@);
                events.append(&mut rest);
                assert(views(events@) =~= added + r);
            },
            None => {
                assert(added + kept =~= added);
            },
        }
        apply_edits(&mut events);
        let first = if events.len() > 0 {
            Some(events[0].event_id.clone())
        } else {
            None
        };
        let more = page.next_cursor.is_some();
        let names = NamesDue::Missing(leading_ids(&events, prepended));
        self.messages.events.insert(key.duplicate(), events);
        assert(self.messages.events@ =~= old(self).messages.events@.insert(
            key@,
            self.messages.events@[key@],
        ));
        self.messages.keep_cursor(key, page.next_cursor);
        let n = decimal_usize(prepended);
        self.status = Status::Info(
            cat3(
                "loaded ",
                n.as_str(),
                if prepended < loaded {
                    " older messages (capped at 500 total)"
                } else if more {
                    " older messages — PageUp for more"
                } else {
                    " older messages — beginning of Axon history"
                },
            ),
        );
        let chosen = copy_option(&self.messages.selection);
        let seen = match chosen {
            Some(id) => self.find_place(id.as_str()),
            None => {
                self.messages.selection = first;
                Some(0)
            },
        };
        HistoryEffects { seen, names }
    }
}

// ---------------------------------------------------------------------------
// Newer events
// ---------------------------------------------------------------------------

/// The events of a list that are newer than a moment and have none of the ids.
pub open spec fn fresh(events: Seq<EventView>, ts: i64, ids: Seq<Seq<char>>) -> Seq<EventView>
    decreases events.len(),
{
    if events.len() == 0 {
        Seq::empty()
    } else {
        let before = fresh(events.drop_last(), ts, ids);
        if events.last().origin_ts > ts && !ids.contains(events.last().event_id) {
            before.push(events.last())
        } else {
            before
        }
    }
}

/// The events of a page, where there is one, that are newer than a moment and have
/// none of the ids.
pub open spec fn fresh_of(page: Option<TimelinePage>, ts: i64, ids: Seq<Seq<char>>) -> Seq<EventView> {
    match page {
        Some(p) => fresh(views(p.events@).reverse(), ts, ids),
        None => Seq::empty(),
    }
}

/// The first of newer events, as many as there is room for.
pub open spec fn first_ones(events: Seq<EventView>, room: int) -> Seq<EventView> {
    if events.len() > room {
        events.take(room)
    } else {
        events
    }
}

fn fresh_ones(newest_first: Vec<EventDto>, ts: i64, kept: Option<&Vec<EventDto>>) -> (out: Vec<EventDto>)
    ensures
        views(out@) == fresh(
            views(newest_first@).reverse(),
            ts,
            match kept {
                Some(list) => ids_of(views(list@)),
                None => Seq::empty(),
            },
        ),
{
    let ghost ids = match kept {
        Some(list) => ids_of(views(list@)),
        None => Seq::empty(),
    };
    let ghost all = views(newest_first@).reverse();
    let mut rest = newest_first;
    let ghost source = views(rest@);
    let mut out: Vec<EventDto> = Vec::new();
    assert(views(out@) =~= Seq::<EventView>::empty());
    assert(all.take(0) =~= Seq::<EventView>::empty());
    while rest.len() > 0
        invariant
            rest@.len() <= source.len(),
            all == source.reverse(),
            views(rest@) == source.take(rest@.len() as int),
            ids == (match kept {
                Some(list) => ids_of(views(list@)),
                None => Seq::empty(),
            }),
            views(out@) == fresh(all.take(source.len() - rest@.len()), ts, ids),
        decreases rest.len(),
    {
        let ghost n = rest@.len() as int;
        let ghost done = source.len() - n;
        let ghost before = views(out@);
        assert(all.take(done + 1).drop_last() =~= all.take(done));
        assert(all.take(done + 1).last() == source[n - 1]);
        assert(views(rest@)[n - 1] == rest@[n - 1]@);
        if let Some(event) = rest.pop() {
            assert(event@ == source[n - 1]);
            assert(views(rest@) =~= source.take(n - 1));
            let held_already = match kept {
                Some(list) => {
                    let at: usize = find_stored(list, event.event_id.as_str());
                    proof {
                        crate::app::edits::lemma_listed_position(list@, event.event_id@);
                    }
                    at < list.len()
                },
                None => false,
            };
            if event.origin_ts > ts && !held_already {
                out.push(event);
                assert(views(out@) =~= before.push(source[n - 1]));
            }
        }
    }
    assert(all.take(source.len() as int) =~= all);
    out
}

/// Whether newer messages of the selected room are looked for, from the last that is kept.
pub open spec fn newer_asked(before: App, after: App, now: i64, search: Option<(RoomKey, Straddle)>) -> bool {
    if before.session.last_jump_ts is None || before.messages.loading_history {
        search is None && after == before
    } else {
        match before.room() {
            None => search is None && after == before,
            Some(room) => {
                let key = room_key(room@);
                match before.last_ts(key) {
                    None => search is None && after == before,
                    Some(ts) => if kept_count(before.messages, key) >= MAX_EVENTS {
                        search is None && said(before, after, full_text())
                    } else {
                        &&& after == (App {
                            messages: MessagePane {
                                loading_history: true,
                                ..before.messages
                            },
                            status: after.status,
                            ..before
                        })
                        &&& after.status@ == StatusView::Info(
                            "Loading newer messages…"@,
                        )
                        &&& search matches Some((k, s)) && k@ == key && s.pivot == ts
                            && s.limit == TIMELINE_LIMIT && s.want_after == 25 && s.now
                            == now && s.window == crate::app::paging::DAY_MS && s.left
                            == crate::app::paging::STRADDLE_PAGES && s.chosen is None
                    },
                }
            },
        }
    }
}

impl App {
    /// The moment of the last event that is kept of a room.
    pub open spec fn last_ts(self, key: RoomKeyView) -> Option<i64> {
        let events = self.events_of(key);
        if events.len() > 0 {
            Some(events.last().origin_ts)
        } else {
            None
        }
    }

    /// Begins to load newer events of the selected room. That is for the view after a
    /// jump; otherwise newer events come by themselves.
    pub fn load_newer_history(&mut self, now: i64) -> (search: Option<(RoomKey, Straddle)>)
        ensures
            newer_asked(*old(self), *final(self), now, search),
    {
        if self.session.last_jump_ts.is_none() || self.messages.loading_history {
            return None;
        }
        let key = match self.selected_room() {
            Some(room) => RoomKey::of(room),
            None => return None,
        };
        let newest: i64 = match self.messages.events.get(&key) {
            Some(list) => {
                assert(views(list@).len() == list@.len());
                if list.len() > 0 {
                    list[list.len() - 1].origin_ts
                } else {
                    return None;
                }
            },
            None => return None,
        };
        if self.count_kept(&key) >= MAX_EVENTS {
            self.say("showing 500 messages — End to return to live");
            return None;
        }
        self.messages.loading_history = true;
        self.say("Loading newer messages…");
        Some((key, Straddle::start(newest, TIMELINE_LIMIT, TIMELINE_LIMIT / 2, now)))
    }

    /// Whether the view follows the live events again, its last event selected.
    pub open spec fn caught_up(self, after: App, effects: HistoryEffects) -> bool {
        let seen = effects.seen;
        &&& after == (App {
            messages: MessagePane { selection: after.messages.selection, ..self.messages },
            session: Session { last_jump_ts: None, ..self.session },
            status: after.status,
            ..self
        })
        &&& if self.pane().len() > 0 {
            &&& option_view(after.messages.selection) == Some(self.pane().last().event_id)
            &&& seen == Some((self.pane().len() - 1) as usize)
        } else {
            after.messages.selection == self.messages.selection && seen is None
        }
        &&& after.status@ == StatusView::Info("at the latest messages — live updates resumed"@)
        &&& effects.names is Kept
    }

    fn catch_up(&mut self) -> (effects: HistoryEffects)
        ensures
            old(self).caught_up(*final(self), effects),
    {
        let last = {
            let events = self.selected_events();
            assert(views(events@).len() == events@.len());
            if events.len() > 0 {
                Some((events[events.len() - 1].event_id.clone(), events.len() - 1))
            } else {
                None
            }
        };
        self.session.last_jump_ts = None;
        self.say("at the latest messages — live updates resumed");
        let seen = match last {
            Some((id, at)) => {
                self.messages.selection = Some(id);
                Some(at)
            },
            None => None,
        };
        HistoryEffects { seen, names: NamesDue::Kept }
    }

    /// Whether newer events stand behind those of a room, as many as there is room for.
    /// The first of them is selected, where the pane shows it.
    pub open spec fn newer_added(
        self,
        after: App,
        key: RoomKeyView,
        found: Seq<EventView>,
        effects: HistoryEffects,
    ) -> bool {
        let seen = effects.seen;
        let added = first_ones(found, spare(kept_count(self.messages, key)));
        &&& after == (App { messages: after.messages, status: after.status, ..self })
        &&& after.messages == (MessagePane {
            events: after.messages.events,
            selection: after.messages.selection,
            ..self.messages
        })
        &&& self.run_appended(after, key, added)
        &&& if added.len() > 0 && place_of(after.pane(), added[0].event_id) is Some {
            &&& option_view(after.messages.selection) == Some(added[0].event_id)
            &&& seen == place_of(after.pane(), added[0].event_id)
        } else {
            after.messages.selection == self.messages.selection && seen is None
        }
        &&& after.status@ == StatusView::Info(
            "loaded newer messages — PageDown for more, End for latest"@,
        )
        &&& effects.names@ == NamesDueView::Missing(ids_of(added))
    }

    /// Whether events were put behind those of a room, edits taken over.
    pub open spec fn run_appended(self, after: App, key: RoomKeyView, added: Seq<EventView>) -> bool {
        if held(self.messages.events@, key) is Some {
            events_replaced(
                self.messages.events@,
                after.messages.events@,
                key,
                edited(self.events_of(key) + added),
            )
        } else {
            after.messages.events@ == self.messages.events@
        }
    }

    fn append_run(&mut self, key: &RoomKey, newer: Vec<EventDto>)
        ensures
            *final(self) == (App {
                messages: MessagePane {
                    events: final(self).messages.events,
                    ..old(self).messages
                },
                ..*old(self)
            }),
            old(self).run_appended(*final(self), key@, views(newer@)),
    {
        let ghost kept = self.events_of(key@);
        let ghost added = views(newer@);
        match self.messages.events.remove(key) {
            Some(list) => {
                let mut run = newer;
                let mut events = list;
                events.append(&mut run);
                assert(views(events@) =~= kept + added);
                apply_edits(&mut events);
                self.messages.events.insert(key.duplicate(), events);
                assert(self.messages.events@ =~= old(self).messages.events@.insert(
                    key@,
                    self.messages.events@[key@],
                ));
            },
            None => {
                assert(self.messages.events@ =~= old(self).messages.events@);
            },
        }
    }

    fn add_newer(&mut self, key: &RoomKey, found: Vec<EventDto>) -> (effects: HistoryEffects)
        ensures
            old(self).newer_added(*final(self), key@, views(found@), effects),
    {
        let ghost all = views(found@);
        let count: usize = self.count_kept(key);
        let room: usize = if count >= MAX_EVENTS {
            0
        } else {
            MAX_EVENTS - count
        };
        let mut newer = found;
        if newer.len() > room {
            newer.truncate(room);
        }
        assert(views(newer@) =~= first_ones(all, room as int));
        assert(views(newer@).len() == newer@.len());
        let first = if newer.len() > 0 {
            assert(views(newer@)[0] == newer@[0]@);
            Some(newer[0].event_id.clone())
        } else {
            None
        };
        let ids = leading_ids(&newer, newer.len());
        let names = NamesDue::Missing(ids);
        self.append_run(key, newer);
        self.say("loaded newer messages — PageDown for more, End for latest");
        let seen = match first {
            Some(id) => {
                let at = self.find_place(id.as_str());
                let ghost pane = self.pane();
                if at.is_some() {
                    self.messages.selection = Some(id);
                }
                assert(self.pane() == pane);
                at
            },
            None => None,
        };
        HistoryEffects { seen, names }
    }

    /// Whether newer events were taken over. Where there are none the view follows the
    /// live events again.
    pub open spec fn newer_taken(
        self,
        after: App,
        key: RoomKeyView,
        ts: i64,
        page: Option<TimelinePage>,
        effects: HistoryEffects,
    ) -> bool {
        let quiet = App {
            messages: MessagePane { loading_history: false, ..self.messages },
            ..self
        };
        let found = fresh_of(page, ts, ids_of(self.events_of(key)));
        if found.len() == 0 {
            quiet.caught_up(after, effects)
        } else {
            quiet.newer_added(after, key, found, effects)
        }
    }

    /// Takes over the page around the last event that is kept of the selected room.
    /// The result is the position in the pane that is to be seen, and where missing names
    /// come from.
    pub fn newer_history_loaded(&mut self, key: &RoomKey, newest: i64, page: Option<TimelinePage>) -> (effects:
        HistoryEffects)
        ensures
            old(self).newer_taken(*final(self), key@, newest, page, effects),
    {
        self.messages.loading_history = false;
        let ghost kept = self.events_of(key@);
        assert(kept == old(self).events_of(key@));
        let ghost found = fresh_of(page, newest, ids_of(kept));
        let newer: Vec<EventDto> = match page {
            Some(page) => {
                assert(ids_of(Seq::<EventView>::empty()) =~= Seq::<Seq<char>>::empty());
                fresh_ones(page.events, newest, self.messages.events.get(key))
            },
            None => {
                let none: Vec<EventDto> = Vec::new();
                assert(views(none@) =~= Seq::<EventView>::empty());
                none
            },
        };
        assert(views(newer@) == found);
        assert(found.len() == newer@.len());
        if newer.len() == 0 {
            self.catch_up()
        } else {
            self.add_newer(key, newer)
        }
    }
}

// ---------------------------------------------------------------------------
// Jumps
// ---------------------------------------------------------------------------

/// What is still to be done once a page of the past was shown.
#[derive(Debug)]
pub struct PastEffects {
    pub shown: bool,
    /// The names of the senders.
    pub names: NamesDue,
}

/// Whether a jump to a moment was begun.
pub open spec fn jump_begun(before: App, after: App, ts: i64, now: i64, search: Option<(RoomKey, Straddle)>) -> bool {
    match before.room() {
        None => search is None && said(
            before,
            after,
            "select a room before using /jump"@,
        ),
        Some(room) => {
            &&& said(
                before,
                after,
                "Jumping to "@ + day_label(day_of(ts as int)) + "…"@,
            )
            &&& search matches Some((k, s)) && k@ == room_key(room@) && s.pivot == ts
                && s.limit == TIMELINE_LIMIT && s.want_after
                == crate::app::paging::wanted_after(
                before.messages.page_size / 2,
                TIMELINE_LIMIT,
            ) && s.now == now && s.window == crate::app::paging::DAY_MS && s.left
                == crate::app::paging::STRADDLE_PAGES && s.chosen is None
        },
    }
}

/// Whether the way back to the start was begun.
pub open spec fn top_begun(before: App, after: App, walk: Option<(RoomKey, TopWalk)>) -> bool {
    match before.room() {
        None => walk is None && said(
            before,
            after,
            "select a room before using /top"@,
        ),
        Some(room) => if before.messages.loading_history {
            walk is None && after == before
        } else {
            &&& after == (App {
                messages: MessagePane { loading_history: true, ..before.messages },
                status: after.status,
                ..before
            })
            &&& after.status@ == StatusView::Info(
                "Jumping to the start of "@ + room_title(room@) + "…"@,
            )
            &&& walk matches Some((k, w)) && k@ == room_key(room@) && w == (TopWalk {
                cursor: None,
                left: crate::app::paging::TOP_PAGES,
                earliest: None,
            })
        },
    }
}

/// Whether what a jump found is shown, or it was said that nothing was found.
pub open spec fn jump_over(before: App, after: App, key: RoomKey, ts: i64, page: Option<TimelinePage>, effects: PastEffects) -> bool {
    let label = day_label(day_of(ts as int));
    match page {
        None => !effects.shown && effects.names is Kept && said(
            before,
            after,
            "no messages found near "@ + label,
        ),
        Some(p) => {
            &&& effects.shown == (p.events@.len() > 0)
            &&& effects.names@ == names_anew(before, key@)
            &&& before.past_shown(after, key@, p, ts)
            &&& after.status@ == StatusView::Info(
                if in_order(p).len() > 0 && in_order(p)[0].origin_ts > ts {
                    label
                        + " is before the earliest messages — showing oldest available"@
                } else {
                    "Jumped to "@ + label + " — PageUp for older, End for newest"@
                },
            )
        },
    }
}

impl App {
    /// Begins to jump to a moment in the selected room.
    pub fn jump_to_date(&mut self, ts: i64, now: i64) -> (search: Option<(RoomKey, Straddle)>)
        ensures
            jump_begun(*old(self), *final(self), ts, now, search),
    {
        let key = match self.selected_room() {
            Some(room) => RoomKey::of(room),
            None => {
                self.say("select a room before using /jump");
                return None;
            },
        };
        let label = format_jump_date(ts);
        self.status = Status::Info(cat3("Jumping to ", label.as_str(), "…"));
        let want: usize = self.messages.page_size / 2;
        Some((key, Straddle::start(ts, TIMELINE_LIMIT, want, now)))
    }

    /// Whether a page takes the place of what was kept of a room, shown from its top as
    /// a view of the past.
    pub open spec fn past_shown(
        self,
        after: App,
        key: RoomKeyView,
        page: TimelinePage,
        pivot: i64,
    ) -> bool {
        &&& after == (App {
            messages: after.messages,
            session: Session { last_jump_ts: Some(pivot), ..self.session },
            threads: ThreadState { panel: None, ..self.threads },
            status: after.status,
            ..self
        })
        &&& after.messages == (MessagePane {
            events: after.messages.events,
            history_cursors: after.messages.history_cursors,
            selection: None,
            scroll: 0,
            ..self.messages
        })
        &&& events_replaced(
            self.messages.events@,
            after.messages.events@,
            key,
            in_order(page),
        )
        &&& cursor_kept(
            self.messages.history_cursors@,
            after.messages.history_cursors@,
            key,
            option_view(page.next_cursor),
        )
    }

    fn show_past(&mut self, key: &RoomKey, page: TimelinePage, pivot: i64) -> (first: Option<i64>)
        ensures
            old(self).past_shown(*final(self), key@, page, pivot),
            final(self).status == old(self).status,
            first == (if in_order(page).len() > 0 {
                Some(in_order(page)[0].origin_ts)
            } else {
                None
            }),
    {
        let events = order_page(page.events);
        self.messages.keep_cursor(key, page.next_cursor);
        assert(views(events@).len() == events@.len());
        let first = if events.len() > 0 {
            assert(views(events@)[0] == events@[0]@);
            Some(events[0].origin_ts)
        } else {
            None
        };
        self.messages.events.insert(key.duplicate(), events);
        self.messages.selection = None;
        self.session.last_jump_ts = Some(pivot);
        self.messages.scroll = 0;
        self.threads.panel = None;
        first
    }

    /// Takes over the page around a moment. The result says whether it holds any event;
    /// the moment is then to stand in the middle of the pane.
    pub fn jumped_to_date(&mut self, key: &RoomKey, ts: i64, page: Option<TimelinePage>) -> (effects:
        PastEffects)
        ensures
            jump_over(*old(self), *final(self), *key, ts, page, effects),
    {
        let label = format_jump_date(ts);
        let page = match page {
            Some(page) => page,
            None => {
                self.status = Status::Info(cat2("no messages found near ", label.as_str()));
                return PastEffects { shown: false, names: NamesDue::Kept };
            },
        };
        let shown = page.events.len() > 0;
        let names = self.ask_names(key);
        let first = self.show_past(key, page, ts);
        let too_early = match first {
            Some(e) => e > ts,
            None => false,
        };
        self.status = Status::Info(
            if too_early {
                cat2(
                    label.as_str(),
                    " is before the earliest messages — showing oldest available",
                )
            } else {
                cat3("Jumped to ", label.as_str(), " — PageUp for older, End for newest")
            },
        );
        PastEffects { shown, names }
    }

    /// Begins to go back to the start of the selected room.
    pub fn jump_to_top(&mut self) -> (walk: Option<(RoomKey, TopWalk)>)
        ensures
            top_begun(*old(self), *final(self), walk),
    {
        let (key, text) = match self.selected_room() {
            Some(room) => (
                RoomKey::of(room),
                cat3("Jumping to the start of ", room.title(), "…"),
            ),
            None => {
                self.say("select a room before using /top");
                return None;
            },
        };
        if self.messages.loading_history {
            return None;
        }
        self.messages.loading_history = true;
        self.status = Status::Info(text);
        Some((key, TopWalk::start()))
    }

    /// Ends the way back to the start of a room where a page could not be had.
    pub fn top_failed(&mut self, error: &str)
        ensures
            *final(self) == (App {
                messages: MessagePane { loading_history: false, ..old(self).messages },
                status: final(self).status,
                ..*old(self)
            }),
            final(self).status@ == StatusView::Info("/top failed: "@ + error@),
    {
        self.messages.loading_history = false;
        self.status = Status::Info(cat2("/top failed: ", error));
    }

    /// Shows the oldest page that was reached. The result says whether there is one;
    /// what relates to its events is then to be fetched.
    pub fn top_reached(&mut self, key: &RoomKey, title: &str, walk: TopWalk) -> (effects:
        PastEffects)
        ensures
            ({
                let quiet = App {
                    messages: MessagePane { loading_history: false, ..old(self).messages },
                    ..*old(self)
                };
                if walk.earliest is None || walk.earliest->0.events@.len() == 0 {
                    !effects.shown && effects.names is Kept && said(
                        quiet,
                        *final(self),
                        "no messages found in "@ + title@,
                    )
                } else {
                    let page = walk.earliest->0;
                    &&& effects.shown
                    &&& effects.names@ == names_anew(*old(self), key@)
                    &&& quiet.past_shown(*final(self), key@, page, 0)
                    &&& final(self).status@ == StatusView::Info(
                        if page.next_cursor is None {
                            "Showing the earliest messages in "@ + title@
                                + " — PageDown for newer, End for latest"@
                        } else {
                            "Showing the oldest loaded messages in "@ + title@
                                + " — PageUp for older, End for latest"@
                        },
                    )
                }
            }),
    {
        self.messages.loading_history = false;
        let page = match walk.earliest {
            Some(page) => page,
            None => {
                self.status = Status::Info(cat2("no messages found in ", title));
                return PastEffects { shown: false, names: NamesDue::Kept };
            },
        };
        if page.events.len() == 0 {
            self.status = Status::Info(cat2("no messages found in ", title));
            return PastEffects { shown: false, names: NamesDue::Kept };
        }
        let at_start = page.next_cursor.is_none();
        let names = self.ask_names(key);
        let _ = self.show_past(key, page, 0);
        self.status = Status::Info(
            if at_start {
                cat3(
                    "Showing the earliest messages in ",
                    title,
                    " — PageDown for newer, End for latest",
                )
            } else {
                cat3(
                    "Showing the oldest loaded messages in ",
                    title,
                    " — PageUp for older, End for latest",
                )
            },
        );
        PastEffects { shown: true, names }
    }
}

/// A room never keeps more events than it may, as far as pages of the past go.
pub proof fn law_pages_are_bounded(older: Seq<EventView>, kept: Seq<EventView>)
    requires
        kept.len() <= MAX_EVENTS,
    ensures
        (adjacent(older, spare(kept.len())) + kept).len() <= MAX_EVENTS,
        edited(adjacent(older, spare(kept.len())) + kept).len() <= MAX_EVENTS,
        edited(kept + first_ones(older, spare(kept.len()))).len() <= MAX_EVENTS,
{
    lemma_edited_len(adjacent(older, spare(kept.len())) + kept);
    lemma_edited_len(kept + first_ones(older, spare(kept.len())));
}

proof fn lemma_edited_len(events: Seq<EventView>)
    ensures
        edited(events).len() <= events.len(),
{
    lemma_with_edits_len(events, crate::app::edits::edits_in(events));
    lemma_without_spent_len(
        crate::app::edits::with_edits(events, crate::app::edits::edits_in(events)),
        ids_of(events),
        crate::app::edits::edits_in(events),
    );
}

proof fn lemma_with_edits_len(
    events: Seq<EventView>,
    edits: Seq<crate::app::edits::EditView>,
)
    ensures
        crate::app::edits::with_edits(events, edits).len() == events.len(),
    decreases edits.len(),
{
    if edits.len() > 0 {
        lemma_with_edits_len(events, edits.drop_last());
        crate::app::selection::lemma_position_found(
            ids_of(crate::app::edits::with_edits(events, edits.drop_last())),
            edits.last().0,
        );
    }
}

proof fn lemma_without_spent_len(
    events: Seq<EventView>,
    ids: Seq<Seq<char>>,
    edits: Seq<crate::app::edits::EditView>,
)
    ensures
        crate::app::edits::without_spent(events, ids, edits).len() <= events.len(),
    decreases events.len(),
{
    if events.len() > 0 {
        lemma_without_spent_len(events.drop_last(), ids, edits);
    }
}

} // verus!
