//! How far each room was read.
//!
//! Reading a room moves two positions that have nothing to do with each other. The
//! marker follows the order of display and is shared by the user's devices. The
//! receipt follows the order of arrival and tells the others. An event that arrives
//! late and is dated early moves the one and not the other.

use vstd::prelude::*;

use crate::api::client::{
    bare, escaped, room_url, Members, Method, Request, RequestView, HTTP_REQUEST_TIMEOUT,
    MESSAGE_MUTATION_TIMEOUT,
};
use crate::api::dto::{
    DeviceStateChangedDto, DeviceStateDto, DeviceStateEntryDto, EventDto, EventView,
};
use crate::api::event::thread_root_of;
use crate::app::choice::{room_key, RoomKey, RoomKeyView};
use crate::app::drafts::{
    draft_entries_applied, held, DRAFT_DEBOUNCE,
};
use crate::app::room_list::{find_room, room_position};
use crate::app::state::{
    App, DeviceState, LiveState, PendingMarkerPut, ReadMarker, ReadMarkerView, ReceiptTarget,
    ReceiptTargetView, RoomsState, ThreadState,
};
use crate::app::threads::{is_own_event, reply_counted, unread_at, UnreadThreadView};
use crate::app::timeline::{displayed_list, displayed_of};
use crate::ids::id_text;
use crate::json::{Json, JsonNumber, JsonNumberView, JsonView};
use crate::keyed::{Key, KeyedMap};
use crate::text::{same_text, views};

verus! {

// ---------------------------------------------------------------------------
// Positions
// ---------------------------------------------------------------------------

/// The two positions that a page settles.
#[derive(Debug, PartialEq, Eq)]
pub struct ReadTargets {
    pub marker: ReadMarker,
    pub receipt: ReceiptTarget,
}

/// The events of a list that the main timeline shows.
pub open spec fn main_timeline(
    events: Seq<EventView>,
    show_state_events: bool,
    promoted: Set<Seq<char>>,
) -> Seq<EventView> {
    displayed_of(events, show_state_events, None, promoted)
}

/// The position of the event that arrived last, the later one of two that arrived
/// together.
pub open spec fn arrived_last(events: Seq<EventView>) -> int
    decreases events.len(),
{
    if events.len() <= 1 {
        0
    } else {
        let before = arrived_last(events.drop_last());
        if events.last().arrival_order >= events.drop_last()[before].arrival_order {
            events.len() - 1
        } else {
            before
        }
    }
}

pub open spec fn marker_of(event: EventView) -> ReadMarkerView {
    ReadMarkerView { event_id: event.event_id, origin_ts: event.origin_ts }
}

pub open spec fn receipt_of(event: EventView) -> ReceiptTargetView {
    ReceiptTargetView { event_id: event.event_id, arrival_order: event.arrival_order }
}

/// The events that the main timeline shows, in the order of the page.
pub fn displayed_events<'a>(
    events: &'a [EventDto],
    show_state_events: bool,
    promoted: &KeyedMap<String, ()>,
) -> (out: Vec<&'a EventDto>)
    ensures
        views(out@) == main_timeline(views(events@), show_state_events, promoted@.dom()),
{
    displayed_list(events, show_state_events, None, promoted)
}

/// The positions that a page settles: the marker at the last event that is shown,
/// the receipt at the one that arrived last among them.
pub fn read_targets_for(
    events: &[EventDto],
    show_state_events: bool,
    promoted: &KeyedMap<String, ()>,
) -> (out: Option<ReadTargets>)
    ensures
        ({
            let shown = main_timeline(views(events@), show_state_events, promoted@.dom());
            match out {
                Some(t) => shown.len() > 0 && t.marker@ == marker_of(shown.last()) && t.receipt@
                    == receipt_of(shown[arrived_last(shown)]),
                None => shown.len() == 0,
            }
        }),
{
    let list = displayed_events(events, show_state_events, promoted);
    let ghost shown = views(list@);
    assert(shown.len() == list@.len());
    if list.len() == 0 {
        return None;
    }
    let mut best: usize = 0;
    let mut i: usize = 1;
    assert(shown.take(1).len() == 1);
    while i < list.len()
        invariant
            1 <= i <= list.len(),
            shown == views(list@),
            best < i,
            best == arrived_last(shown.take(i as int)),
        decreases list.len() - i,
    {
        assert(shown.take(i + 1).drop_last() =~= shown.take(i as int));
        assert(shown.take(i + 1).last() == list@[i as int]@);
        assert(shown.take(i as int)[best as int] == list@[best as int]@);
        if list[i].arrival_order >= list[best].arrival_order {
            best = i;
        }
        i = i + 1;
    }
    assert(shown.take(i as int) =~= shown);
    let last: &EventDto = list[list.len() - 1];
    let arrived: &EventDto = list[best];
    assert(shown.last() == last@);
    assert(shown[best as int] == arrived@);
    Some(
        ReadTargets {
            marker: ReadMarker { event_id: last.event_id.clone(), origin_ts: last.origin_ts },
            receipt: ReceiptTarget {
                event_id: arrived.event_id.clone(),
                arrival_order: arrived.arrival_order,
            },
        },
    )
}

proof fn lemma_arrived_last(events: Seq<EventView>)
    requires
        events.len() > 0,
    ensures
        0 <= arrived_last(events) < events.len(),
        forall|i: int|
            0 <= i < events.len() ==> (#[trigger] events[i]).arrival_order
                <= events[arrived_last(events)].arrival_order,
    decreases events.len(),
{
    if events.len() > 1 {
        let rest = events.drop_last();
        lemma_arrived_last(rest);
        assert forall|i: int| 0 <= i < events.len() implies (#[trigger] events[i]).arrival_order
            <= events[arrived_last(events)].arrival_order by {
            if i < rest.len() {
                assert(rest[i] == events[i]);
            }
        }
    }
}

/// The receipt of a page names an event that is shown, and none that is shown
/// arrived after it.
pub proof fn law_receipt_covers_page(
    events: Seq<EventView>,
    show_state_events: bool,
    promoted: Set<Seq<char>>,
    i: int,
)
    requires
        0 <= i < main_timeline(events, show_state_events, promoted).len(),
    ensures
        ({
            let shown = main_timeline(events, show_state_events, promoted);
            0 <= arrived_last(shown) < shown.len() && shown[i].arrival_order
                <= shown[arrived_last(shown)].arrival_order
        }),
{
    lemma_arrived_last(main_timeline(events, show_state_events, promoted));
}

// ---------------------------------------------------------------------------
// Values
// ---------------------------------------------------------------------------

pub open spec fn stored_marker(marker: ReadMarkerView) -> JsonView {
    JsonView::Object(
        seq![
            ("event_id"@, JsonView::Text(marker.event_id)),
            ("origin_ts"@, JsonView::Number(JsonNumberView::Signed(marker.origin_ts))),
        ],
    )
}

/// The marker that a stored value holds.
pub open spec fn marker_in(value: JsonView) -> Option<ReadMarkerView> {
    match (value.text_at("event_id"@), value.get("origin_ts"@)) {
        (Some(event_id), Some(ts)) => match ts.integer() {
            Some(origin_ts) => Some(ReadMarkerView { event_id, origin_ts }),
            None => None,
        },
        _ => None,
    }
}

pub fn marker_value(marker: &ReadMarker) -> (out: Json)
    ensures
        out@ == stored_marker(marker@),
{
    let number = Json::Number(JsonNumber::Signed(marker.origin_ts));
    let ghost n = number@;
    let members = Members::new().and_text("event_id", marker.event_id.as_str()).and(
        "origin_ts",
        number,
    );
    assert(members@ =~= seq![
        ("event_id"@, JsonView::Text(marker.event_id@)),
        ("origin_ts"@, n),
    ]);
    members.into_json()
}

pub fn marker_from_value(value: &Json) -> (out: Option<ReadMarker>)
    ensures
        match out {
            Some(m) => marker_in(value@) == Some(m@),
            None => marker_in(value@) is None,
        },
{
    let event_id = match value.text_at("event_id") {
        Some(id) => id.to_owned(),
        None => return None,
    };
    match value.get("origin_ts") {
        Some(ts) => match ts.integer() {
            Some(origin_ts) => Some(ReadMarker { event_id, origin_ts }),
            None => None,
        },
        None => None,
    }
}

// ---------------------------------------------------------------------------
// The two positions move forward
// ---------------------------------------------------------------------------

/// The marker of a room.
pub open spec fn marker_at(device: DeviceState, key: RoomKeyView) -> Option<ReadMarkerView> {
    match held(device.read_markers@, key) {
        Some(m) => Some(m@),
        None => None,
    }
}

/// The receipt of a room.
pub open spec fn receipt_at(device: DeviceState, key: RoomKeyView) -> Option<ReceiptTargetView> {
    match held(device.receipt_targets@, key) {
        Some(t) => Some(t@),
        None => None,
    }
}

/// Whether a marker is ahead of the one that a room has.
pub open spec fn marker_moves(device: DeviceState, key: RoomKeyView, marker: ReadMarkerView) -> bool {
    match marker_at(device, key) {
        Some(current) => current.origin_ts < marker.origin_ts,
        None => true,
    }
}

pub open spec fn receipt_moves(
    device: DeviceState,
    key: RoomKeyView,
    target: ReceiptTargetView,
) -> bool {
    match receipt_at(device, key) {
        Some(current) => current.arrival_order < target.arrival_order,
        None => true,
    }
}

/// Whether a marker was taken over where it is ahead, and nothing else changed.
pub open spec fn marker_merged(
    before: DeviceState,
    after: DeviceState,
    key: RoomKeyView,
    marker: ReadMarkerView,
) -> bool {
    if marker_moves(before, key, marker) {
        &&& after == (DeviceState { read_markers: after.read_markers, ..before })
        &&& after.read_markers@ == before.read_markers@.insert(key, after.read_markers@[key])
        &&& after.read_markers@[key]@ == marker
    } else {
        after == before
    }
}

pub open spec fn receipt_merged(
    before: DeviceState,
    after: DeviceState,
    key: RoomKeyView,
    target: ReceiptTargetView,
) -> bool {
    if receipt_moves(before, key, target) {
        &&& after == (DeviceState { receipt_targets: after.receipt_targets, ..before })
        &&& after.receipt_targets@ == before.receipt_targets@.insert(
            key,
            after.receipt_targets@[key],
        )
        &&& after.receipt_targets@[key]@ == target
    } else {
        after == before
    }
}

impl DeviceState {
    fn apply_marker(&mut self, room: RoomKey, marker: ReadMarker) -> (moved: bool)
        ensures
            moved == marker_moves(*old(self), room@, marker@),
            marker_merged(*old(self), *final(self), room@, marker@),
    {
        let behind = match self.read_markers.get(&room) {
            Some(current) => current.origin_ts < marker.origin_ts,
            None => true,
        };
        if behind {
            self.read_markers.insert(room, marker);
            assert(self.read_markers@ =~= old(self).read_markers@.insert(
                room@,
                self.read_markers@[room@],
            ));
        }
        behind
    }

    fn apply_receipt_target(&mut self, room: RoomKey, target: ReceiptTarget) -> (moved: bool)
        ensures
            moved == receipt_moves(*old(self), room@, target@),
            receipt_merged(*old(self), *final(self), room@, target@),
    {
        let behind = match self.receipt_targets.get(&room) {
            Some(current) => current.arrival_order < target.arrival_order,
            None => true,
        };
        if behind {
            self.receipt_targets.insert(room, target);
            assert(self.receipt_targets@ =~= old(self).receipt_targets@.insert(
                room@,
                self.receipt_targets@[room@],
            ));
        }
        behind
    }
}

/// A marker never moves back.
pub proof fn law_marker_moves_forward(
    before: DeviceState,
    after: DeviceState,
    key: RoomKeyView,
    marker: ReadMarkerView,
    room: RoomKeyView,
)
    requires
        marker_merged(before, after, key, marker),
        marker_at(before, room) is Some,
    ensures
        marker_at(after, room) is Some,
        marker_at(before, room)->0.origin_ts <= marker_at(after, room)->0.origin_ts,
        room != key ==> marker_at(after, room) == marker_at(before, room),
{
}

/// A receipt never moves back, and moves without the marker.
pub proof fn law_receipt_moves_forward(
    before: DeviceState,
    after: DeviceState,
    key: RoomKeyView,
    target: ReceiptTargetView,
    room: RoomKeyView,
)
    requires
        receipt_merged(before, after, key, target),
        receipt_at(before, room) is Some,
    ensures
        receipt_at(after, room) is Some,
        receipt_at(before, room)->0.arrival_order <= receipt_at(after, room)->0.arrival_order,
        marker_at(after, room) == marker_at(before, room),
{
}

// ---------------------------------------------------------------------------
// Writing
// ---------------------------------------------------------------------------

/// What is to be told of a room: its marker to the user's devices, its receipt to
/// the others.
#[derive(Debug)]
pub struct ReadPut {
    pub room: RoomKey,
    pub marker: ReadMarker,
    pub receipt: Option<ReceiptTarget>,
}

pub struct ReadPutView {
    pub room: RoomKeyView,
    pub marker: ReadMarkerView,
    pub receipt: Option<ReceiptTargetView>,
}

impl View for ReadPut {
    type V = ReadPutView;

    open spec fn view(&self) -> ReadPutView {
        ReadPutView {
            room: self.room@,
            marker: self.marker@,
            receipt: match self.receipt {
                Some(r) => Some(r@),
                None => None,
            },
        }
    }
}

pub open spec fn read_put_view(put: Option<ReadPut>) -> Option<ReadPutView> {
    match put {
        Some(p) => Some(p@),
        None => None,
    }
}

/// The positions of a room as they are now. Another device may have moved the
/// marker while the write waited.
pub open spec fn current_put(device: DeviceState, key: RoomKeyView, armed: ReadMarkerView) -> ReadPutView {
    ReadPutView {
        room: key,
        marker: match marker_at(device, key) {
            Some(m) => m,
            None => armed,
        },
        receipt: receipt_at(device, key),
    }
}

pub open spec fn if_told(app: App, put: ReadPutView) -> Option<ReadPutView> {
    if app.session.wired {
        Some(put)
    } else {
        None
    }
}

impl App {
    fn current_read_put(&self, room: RoomKey, armed: ReadMarker) -> (out: Option<ReadPut>)
        ensures
            read_put_view(out) == if_told(*self, current_put(self.device, room@, armed@)),
    {
        if !self.session.wired {
            return None;
        }
        let marker = match self.device.read_markers.get(&room) {
            Some(m) => m.copy(),
            None => armed,
        };
        let receipt = match self.device.receipt_targets.get(&room) {
            Some(t) => Some(t.copy()),
            None => None,
        };
        Some(ReadPut { room, marker, receipt })
    }
}

/// Whether reading a room moved its positions and set them to wait. A write of
/// another room that waits is sent at once.
pub open spec fn read_noted(
    before: App,
    after: App,
    put: Option<ReadPutView>,
    key: RoomKeyView,
    marker: ReadMarkerView,
    receipt: Option<ReceiptTargetView>,
    now: int,
) -> bool {
    let receipted = receipt is Some && receipt_moves(before.device, key, receipt->0);
    let moved = marker_moves(before.device, key, marker) || receipted;
    &&& after == (App { device: after.device, ..before })
    &&& after.device == (DeviceState {
        read_markers: after.device.read_markers,
        receipt_targets: after.device.receipt_targets,
        pending_marker_put: after.device.pending_marker_put,
        ..before.device
    })
    &&& marker_merged(
        DeviceState { receipt_targets: after.device.receipt_targets, ..before.device },
        DeviceState { pending_marker_put: before.device.pending_marker_put, ..after.device },
        key,
        marker,
    )
    &&& match receipt {
        Some(target) => receipt_merged(
            before.device,
            DeviceState {
                pending_marker_put: before.device.pending_marker_put,
                read_markers: before.device.read_markers,
                ..after.device
            },
            key,
            target,
        ),
        None => after.device.receipt_targets == before.device.receipt_targets,
    }
    &&& if !moved {
        after.device.pending_marker_put == before.device.pending_marker_put && put is None
    } else {
        &&& match after.device.pending_marker_put {
            Some(p) => p.room@ == key && marker_at(after.device, key) == Some(p.marker@) && p.due
                == now + DRAFT_DEBOUNCE,
            None => false,
        }
        &&& put == match before.device.pending_marker_put {
            Some(p) => if p.room@ != key {
                if_told(before, current_put(after.device, p.room@, p.marker@))
            } else {
                None
            },
            None => None,
        }
    }
}

impl App {
    /// The room is read up to a marker, and up to a receipt. Each position moves for
    /// itself.
    pub fn note_room_read(
        &mut self,
        room: RoomKey,
        marker: ReadMarker,
        receipt: Option<ReceiptTarget>,
        now: u64,
    ) -> (put: Option<ReadPut>)
        requires
            now + DRAFT_DEBOUNCE <= u64::MAX,
        ensures
            read_noted(
                *old(self),
                *final(self),
                read_put_view(put),
                room@,
                marker@,
                match receipt {
                    Some(t) => Some(t@),
                    None => None,
                },
                now as int,
            ),
    {
        let ghost key = room@;
        let fallback = marker.copy();
        let marker_moved = self.device.apply_marker(room.duplicate(), marker);
        let receipt_moved = match receipt {
            Some(target) => self.device.apply_receipt_target(room.duplicate(), target),
            None => false,
        };
        if !marker_moved && !receipt_moved {
            return None;
        }
        let mut pending: Option<PendingMarkerPut> = None;
        core::mem::swap(&mut pending, &mut self.device.pending_marker_put);
        let put = match pending {
            Some(p) => if p.room.same(&room) {
                None
            } else {
                self.current_read_put(p.room, p.marker)
            },
            None => None,
        };
        let current = match self.device.read_markers.get(&room) {
            Some(m) => m.copy(),
            None => fallback,
        };
        self.device.pending_marker_put = Some(
            PendingMarkerPut { room, marker: current, due: now + DRAFT_DEBOUNCE },
        );
        put
    }

    /// Sends the positions that wait, where they are due.
    pub fn flush_due_marker_put(&mut self, now: u64) -> (put: Option<ReadPut>)
        ensures
            *final(self) == (App { device: final(self).device, ..*old(self) }),
            match old(self).device.pending_marker_put {
                Some(p) => if p.due <= now {
                    &&& final(self).device == (DeviceState {
                        pending_marker_put: None,
                        ..old(self).device
                    })
                    &&& read_put_view(put) == if_told(
                        *old(self),
                        current_put(old(self).device, p.room@, p.marker@),
                    )
                } else {
                    final(self).device == old(self).device && put is None
                },
                None => final(self).device == old(self).device && put is None,
            },
    {
        let due = match &self.device.pending_marker_put {
            Some(p) => p.due <= now,
            None => false,
        };
        if !due {
            return None;
        }
        let mut pending: Option<PendingMarkerPut> = None;
        core::mem::swap(&mut pending, &mut self.device.pending_marker_put);
        match pending {
            Some(p) => self.current_read_put(p.room, p.marker),
            None => None,
        }
    }

    /// The request that writes a marker for the user's devices.
    pub fn marker_request(&self, put: &ReadPut) -> (out: Request)
        ensures
            out@ == marker_request_of(self.client.base(), self.device.device_id, put@),
    {
        let value = marker_value(&put.marker);
        let ghost v = value@;
        let entries = Members::new().and(put.room.room_id.as_str(), value);
        assert(entries@ =~= seq![(put.room.room_id@, v)]);
        self.client.put_device_state(
            self.device.device_id,
            put.room.account_id,
            "read_markers",
            entries,
        )
    }

    /// The request that tells the others what was read. It names the receipt, which
    /// is not the marker.
    pub fn receipt_request(&self, put: &ReadPut) -> (out: Option<Request>)
        ensures
            match out {
                Some(r) => put@.receipt is Some && r@ == bare(
                    Method::Post,
                    room_url(self.client.base(), put@.room.account_id, put@.room.room_id)
                        + "/read"@,
                    MESSAGE_MUTATION_TIMEOUT,
                ).with_json(seq![("event_id"@, JsonView::Text(put@.receipt->0.event_id))]),
                None => put@.receipt is None,
            },
    {
        match &put.receipt {
            Some(target) => Some(
                self.client.send_read_receipt(
                    put.room.account_id,
                    put.room.room_id.as_str(),
                    target.event_id.as_str(),
                ),
            ),
            None => None,
        }
    }
}

pub open spec fn marker_request_of(base: Seq<char>, device_id: u128, put: ReadPutView) -> RequestView {
    bare(
        Method::Put,
        base + "/v1/devices/"@ + id_text(device_id) + "/state/"@ + escaped("read_markers"@),
        HTTP_REQUEST_TIMEOUT,
    ).with_query("account_id"@, id_text(put.room.account_id)).with_json(
        seq![
            (
                "entries"@,
                JsonView::Object(seq![(put.room.room_id, stored_marker(put.marker))]),
            ),
        ],
    )
}

// ---------------------------------------------------------------------------
// Unread rooms
// ---------------------------------------------------------------------------

/// The date of the newest event of a list, or zero.
pub open spec fn newest_ts(events: Seq<EventDto>) -> i64
    decreases events.len(),
{
    if events.len() == 0 {
        0
    } else if events.len() == 1 {
        events[0].origin_ts
    } else {
        let before = newest_ts(events.drop_last());
        if events.last().origin_ts > before {
            events.last().origin_ts
        } else {
            before
        }
    }
}

pub open spec fn later(a: i64, b: i64) -> i64 {
    if a < b {
        b
    } else {
        a
    }
}

impl App {
    /// The date of the newest event of a room that is loaded.
    pub open spec fn loaded_ts(self, key: RoomKeyView) -> i64 {
        match held(self.messages.events@, key) {
            Some(events) => newest_ts(events@),
            None => 0,
        }
    }

    /// The date of the newest thing that is known of a room.
    pub open spec fn activity_ts(self, key: RoomKeyView) -> i64 {
        let rooms = views(self.rooms.rooms@);
        let at = room_position(rooms, key);
        let listed = if at < rooms.len() {
            rooms[at].last_activity_ts
        } else {
            0
        };
        later(listed, self.loaded_ts(key))
    }

    pub fn loaded_activity_ts(&self, room: &RoomKey) -> (ts: i64)
        ensures
            ts == self.loaded_ts(room@),
    {
        let events = match self.messages.events.get(room) {
            Some(e) => e,
            None => return 0,
        };
        if events.len() == 0 {
            return 0;
        }
        let mut newest: i64 = events[0].origin_ts;
        let mut i: usize = 1;
        assert(events@.take(1).len() == 1);
        while i < events.len()
            invariant
                1 <= i <= events.len(),
                newest == newest_ts(events@.take(i as int)),
            decreases events.len() - i,
        {
            assert(events@.take(i + 1).drop_last() =~= events@.take(i as int));
            if events[i].origin_ts > newest {
                newest = events[i].origin_ts;
            }
            i = i + 1;
        }
        assert(events@.take(i as int) =~= events@);
        newest
    }

    pub fn latest_known_activity_ts(&self, room: &RoomKey) -> (ts: i64)
        ensures
            ts == self.activity_ts(room@),
    {
        let at: usize = find_room(&self.rooms.rooms, room);
        let listed: i64 = if at < self.rooms.rooms.len() {
            self.rooms.rooms[at].last_activity_ts
        } else {
            0
        };
        let loaded: i64 = self.loaded_activity_ts(room);
        if listed < loaded {
            loaded
        } else {
            listed
        }
    }

    /// Whether the badge of a room that was read elsewhere was removed.
    pub open spec fn badge_cleared(self, after: App, key: RoomKeyView) -> bool {
        &&& after == (App { rooms: after.rooms, ..self })
        &&& after.rooms == (RoomsState { unread: after.rooms.unread, ..self.rooms })
        &&& if marker_at(self.device, key) is Some && marker_at(self.device, key)->0.origin_ts
            >= self.activity_ts(key) {
            after.rooms.unread@ == self.rooms.unread@.remove(key)
        } else {
            after.rooms.unread == self.rooms.unread
        }
    }

    fn clear_unread_if_read(&mut self, room: &RoomKey)
        ensures
            old(self).badge_cleared(*final(self), room@),
    {
        let read = match self.device.read_markers.get(room) {
            Some(m) => m.origin_ts >= self.latest_known_activity_ts(room),
            None => false,
        };
        if read {
            let _ = self.rooms.unread.remove(room);
        }
    }
}

/// Whether a room is unread as far as its marker tells. A room without a marker is
/// left alone.
pub open spec fn unread_after(
    before: Option<usize>,
    marker: Option<ReadMarkerView>,
    activity: i64,
) -> Option<usize> {
    match marker {
        None => before,
        Some(m) => if activity > m.origin_ts {
            match before {
                Some(n) => Some(n),
                None => Some(1),
            }
        } else {
            None
        },
    }
}

impl App {
    /// The badges after the first rooms of the list were looked at.
    pub open spec fn badges_reconciled(self, unread: Map<RoomKeyView, usize>, n: int) -> Map<
        RoomKeyView,
        usize,
    >
        decreases n,
    {
        if n <= 0 {
            unread
        } else {
            let before = self.badges_reconciled(unread, n - 1);
            let room = self.rooms.rooms@[n - 1]@;
            let key = room_key(room);
            match unread_after(
                held(before, key),
                marker_at(self.device, key),
                later(room.last_activity_ts, self.loaded_ts(key)),
            ) {
                Some(count) => before.insert(key, count),
                None => before.remove(key),
            }
        }
    }

    /// Sets the badge of every room that has a marker by what is known of it.
    pub fn reconcile_unread_with_markers(&mut self)
        ensures
            *final(self) == (App { rooms: final(self).rooms, ..*old(self) }),
            final(self).rooms == (RoomsState {
                unread: final(self).rooms.unread,
                ..old(self).rooms
            }),
            final(self).rooms.unread@ == old(self).badges_reconciled(
                old(self).rooms.unread@,
                old(self).rooms.rooms@.len() as int,
            ),
    {
        let ghost start = *self;
        let mut i: usize = 0;
        while i < self.rooms.rooms.len()
            invariant
                i <= self.rooms.rooms.len(),
                start == *old(self),
                *self == (App { rooms: self.rooms, ..start }),
                self.rooms == (RoomsState { unread: self.rooms.unread, ..start.rooms }),
                self.rooms.unread@ == start.badges_reconciled(start.rooms.unread@, i as int),
            decreases self.rooms.rooms.len() - i,
        {
            let ghost before = self.rooms.unread@;
            let key = RoomKey::of(&self.rooms.rooms[i]);
            let listed: i64 = self.rooms.rooms[i].last_activity_ts;
            let loaded: i64 = self.loaded_activity_ts(&key);
            assert(loaded == start.loaded_ts(key@));
            let activity: i64 = if listed < loaded {
                loaded
            } else {
                listed
            };
            let marker_ts = match self.device.read_markers.get(&key) {
                Some(m) => Some(m.origin_ts),
                None => None,
            };
            match marker_ts {
                Some(ts) => {
                    if activity > ts {
                        let ghost k = key@;
                        if !self.rooms.unread.contains_key(&key) {
                            self.rooms.unread.insert(key, 1);
                        } else {
                            assert(before.insert(k, before[k]) =~= before);
                        }
                    } else {
                        let _ = self.rooms.unread.remove(&key);
                    }
                },
                None => {
                    proof {
                        let k = key@;
                        if before.dom().contains(k) {
                            assert(before.insert(k, before[k]) =~= before);
                        } else {
                            assert(before.remove(k) =~= before);
                        }
                    }
                },
            }
            assert(self.rooms.unread@ =~= start.badges_reconciled(start.rooms.unread@, i + 1));
            i = i + 1;
        }
    }
}

// ---------------------------------------------------------------------------
// Markers of other devices
// ---------------------------------------------------------------------------

/// Whether a marker of another device was taken over, and the badge removed where
/// the room was read there.
pub open spec fn marker_entry_applied(before: App, after: App, key: RoomKeyView, value: JsonView) -> bool {
    match marker_in(value) {
        None => after == before,
        Some(marker) => if marker_moves(before.device, key, marker) {
            exists|middle: App|
                #![trigger middle.badge_cleared(after, key)]
                middle == (App { device: middle.device, ..before }) && marker_merged(
                    before.device,
                    middle.device,
                    key,
                    marker,
                ) && middle.badge_cleared(after, key)
        } else {
            after == before
        },
    }
}

/// Whether an entry of a frame was taken over.
pub open spec fn listed_marker_applied(
    before: App,
    after: App,
    account_id: u128,
    entry: (String, Json),
) -> bool {
    marker_entry_applied(
        before,
        after,
        RoomKeyView { account_id, room_id: entry.0@ },
        entry.1@,
    )
}

/// Whether the entries of a frame were taken over, one after the other.
pub open spec fn marker_entries_applied(
    before: App,
    after: App,
    account_id: u128,
    entries: Seq<(String, Json)>,
) -> bool
    decreases entries.len(),
{
    if entries.len() == 0 {
        after == before
    } else {
        exists|middle: App|
            #![trigger listed_marker_applied(middle, after, account_id, entries.last())]
            marker_entries_applied(before, middle, account_id, entries.drop_last())
                && listed_marker_applied(middle, after, account_id, entries.last())
    }
}

impl App {
    fn apply_marker_entry(&mut self, key: RoomKey, value: &Json)
        ensures
            marker_entry_applied(*old(self), *final(self), key@, value@),
    {
        let marker = match marker_from_value(value) {
            Some(m) => m,
            None => return ,
        };
        if self.device.apply_marker(key.duplicate(), marker) {
            let ghost middle = *self;
            self.clear_unread_if_read(&key);
            assert(middle.badge_cleared(*self, key@));
        }
    }

    pub fn handle_read_marker_frame(&mut self, account_id: u128, entries: &KeyedMap<String, Json>)
        ensures
            marker_entries_applied(*old(self), *final(self), account_id, entries.listed()),
    {
        let n: usize = entries.count();
        let ghost all = entries.listed();
        let mut i: usize = 0;
        while i < n
            invariant
                i <= n,
                n == all.len(),
                all == entries.listed(),
                marker_entries_applied(*old(self), *self, account_id, all.take(i as int)),
            decreases n - i,
        {
            let ghost middle = *self;
            assert(all.take(i + 1).drop_last() =~= all.take(i as int));
            let (room_id, value) = entries.entry(i);
            assert(all.take(i + 1).last() == all[i as int]);
            self.apply_marker_entry(RoomKey { account_id, room_id: room_id.clone() }, value);
            assert(listed_marker_applied(middle, *self, account_id, all.take(i + 1).last()));
            i = i + 1;
        }
        assert(all.take(i as int) =~= all);
    }

    /// Takes over what another device changed. What this device wrote comes back to
    /// it and is dropped, as are parts of the state that the client does not know.
    pub fn handle_device_state_frame(&mut self, account_id: u128, payload: &DeviceStateChangedDto)
        ensures
            if payload.device_id == old(self).device.device_id {
                *final(self) == *old(self)
            } else if payload.namespace@ == "drafts"@ {
                draft_entries_applied(
                    *old(self),
                    *final(self),
                    account_id,
                    payload.entries.listed(),
                )
            } else if payload.namespace@ == "read_markers"@ {
                marker_entries_applied(
                    *old(self),
                    *final(self),
                    account_id,
                    payload.entries.listed(),
                )
            } else {
                *final(self) == *old(self)
            },
    {
        if payload.device_id == self.device.device_id {
            return ;
        }
        if same_text(payload.namespace.as_str(), "drafts") {
            self.handle_draft_frame(account_id, &payload.entries);
        } else if same_text(payload.namespace.as_str(), "read_markers") {
            self.handle_read_marker_frame(account_id, &payload.entries);
        }
    }
}

/// Whether the markers that the server has of an account were taken over, as far as
/// they are ahead.
pub open spec fn markers_read(
    before: DeviceState,
    after: DeviceState,
    account_id: u128,
    entries: Seq<(String, DeviceStateEntryDto)>,
) -> bool
    decreases entries.len(),
{
    if entries.len() == 0 {
        after == before
    } else {
        exists|middle: DeviceState|
            #![trigger listed_marker_read(middle, after, account_id, entries.last())]
            markers_read(before, middle, account_id, entries.drop_last()) && listed_marker_read(
                middle,
                after,
                account_id,
                entries.last(),
            )
    }
}

pub open spec fn listed_marker_read(
    before: DeviceState,
    after: DeviceState,
    account_id: u128,
    entry: (String, DeviceStateEntryDto),
) -> bool {
    match marker_in(entry.1.value@) {
        Some(marker) => marker_merged(
            before,
            after,
            RoomKeyView { account_id, room_id: entry.0@ },
            marker,
        ),
        None => after == before,
    }
}

impl App {
    /// Takes over the markers that the server has of an account.
    pub fn apply_marker_read(&mut self, account_id: u128, state: &DeviceStateDto)
        ensures
            *final(self) == (App { device: final(self).device, ..*old(self) }),
            markers_read(
                old(self).device,
                final(self).device,
                account_id,
                state.entries.listed(),
            ),
    {
        let n: usize = state.entries.count();
        let ghost all = state.entries.listed();
        let mut i: usize = 0;
        while i < n
            invariant
                i <= n,
                n == all.len(),
                all == state.entries.listed(),
                *self == (App { device: self.device, ..*old(self) }),
                markers_read(old(self).device, self.device, account_id, all.take(i as int)),
            decreases n - i,
        {
            let ghost middle = self.device;
            assert(all.take(i + 1).drop_last() =~= all.take(i as int));
            let (room_id, entry) = state.entries.entry(i);
            assert(all.take(i + 1).last() == all[i as int]);
            if let Some(marker) = marker_from_value(&entry.value) {
                let _ = self.device.apply_marker(
                    RoomKey { account_id, room_id: room_id.clone() },
                    marker,
                );
            }
            assert(listed_marker_read(middle, self.device, account_id, all.take(i + 1).last()));
            i = i + 1;
        }
        assert(all.take(i as int) =~= all);
    }
}

/// Whether the markers that the server has of each account were taken over. An account
/// that could not be read keeps its markers.
pub open spec fn all_markers_read(
    before: DeviceState,
    after: DeviceState,
    reads: Seq<(u128, Result<DeviceStateDto, String>)>,
) -> bool
    decreases reads.len(),
{
    if reads.len() == 0 {
        after == before
    } else {
        exists|middle: DeviceState|
            #![trigger account_markers_read(middle, after, reads.last())]
            all_markers_read(before, middle, reads.drop_last()) && account_markers_read(
                middle,
                after,
                reads.last(),
            )
    }
}

pub open spec fn account_markers_read(
    before: DeviceState,
    after: DeviceState,
    read: (u128, Result<DeviceStateDto, String>),
) -> bool {
    match read.1 {
        Ok(state) => markers_read(before, after, read.0, state.entries.listed()),
        Err(_) => after == before,
    }
}

/// Whether the markers were taken over and the badges set by them.
pub open spec fn marker_reads_applied(
    before: App,
    after: App,
    reads: Seq<(u128, Result<DeviceStateDto, String>)>,
) -> bool {
    let marked = App { device: after.device, ..before };
    &&& after == (App {
        rooms: RoomsState { unread: after.rooms.unread, ..before.rooms },
        ..marked
    })
    &&& all_markers_read(before.device, after.device, reads)
    &&& after.rooms.unread@ == marked.badges_reconciled(
        before.rooms.unread@,
        before.rooms.rooms@.len() as int,
    )
}

impl App {
    /// Takes over the markers that the server has, and sets the badges by them.
    pub fn apply_read_marker_reads(&mut self, reads: &Vec<(u128, Result<DeviceStateDto, String>)>)
        ensures
            marker_reads_applied(*old(self), *final(self), reads@),
    {
        let mut i: usize = 0;
        while i < reads.len()
            invariant
                i <= reads.len(),
                *self == (App { device: self.device, ..*old(self) }),
                all_markers_read(old(self).device, self.device, reads@.take(i as int)),
            decreases reads.len() - i,
        {
            let ghost middle = self.device;
            assert(reads@.take(i + 1).drop_last() =~= reads@.take(i as int));
            assert(reads@.take(i + 1).last() == reads@[i as int]);
            let read = &reads[i];
            if let Ok(state) = &read.1 {
                self.apply_marker_read(read.0, state);
            }
            assert(account_markers_read(middle, self.device, reads@.take(i + 1).last()));
            i = i + 1;
        }
        assert(reads@.take(i as int) =~= reads@);
        self.reconcile_unread_with_markers();
    }
}

// ---------------------------------------------------------------------------
// Replies in threads that were not seen
// ---------------------------------------------------------------------------

/// Whether an event is a reply in a thread that is newer than the marker of its
/// room.
pub open spec fn unseen_reply(event: EventView, marker_ts: i64) -> bool {
    event.origin_ts > marker_ts && thread_root_of(event) is Some
}

/// The roots of the threads that hold such replies, each once, in the order in
/// which they come.
pub open spec fn unseen_roots(events: Seq<EventView>, marker_ts: i64) -> Seq<(u128, Seq<char>)>
    decreases events.len(),
{
    if events.len() == 0 {
        Seq::empty()
    } else {
        let before = unseen_roots(events.drop_last(), marker_ts);
        let event = events.last();
        if unseen_reply(event, marker_ts) && !before.contains(
            (event.account_id, thread_root_of(event)->0),
        ) {
            before.push((event.account_id, thread_root_of(event)->0))
        } else {
            before
        }
    }
}

/// The replies that are to be shown in the main timeline.
pub open spec fn promoted_after(
    promoted: Set<Seq<char>>,
    events: Seq<EventView>,
    marker_ts: i64,
) -> Set<Seq<char>>
    decreases events.len(),
{
    if events.len() == 0 {
        promoted
    } else {
        let before = promoted_after(promoted, events.drop_last(), marker_ts);
        if unseen_reply(events.last(), marker_ts) {
            before.insert(events.last().event_id)
        } else {
            before
        }
    }
}

/// What is not seen of a thread once the unseen replies of others among events were
/// counted.
pub open spec fn thread_after(
    thread: Option<UnreadThreadView>,
    root: Seq<char>,
    events: Seq<EventView>,
    marker_ts: i64,
    live: LiveState,
) -> Option<UnreadThreadView>
    decreases events.len(),
{
    if events.len() == 0 {
        thread
    } else {
        let before = thread_after(thread, root, events.drop_last(), marker_ts, live);
        let last = events.last();
        if unseen_reply(last, marker_ts) && thread_root_of(last) == Some(root) && !is_own_event(
            live,
            last,
        ) {
            Some(reply_counted(before, last))
        } else {
            before
        }
    }
}

/// Whether the unseen replies of others were counted, thread by thread.
pub open spec fn unseen_counted(
    before: ThreadState,
    after: ThreadState,
    room: RoomKeyView,
    events: Seq<EventView>,
    marker_ts: i64,
    live: LiveState,
) -> bool {
    forall|r: RoomKeyView, t: Seq<char>| #[trigger]
        unread_at(after, r, t) == (if r == room {
            thread_after(unread_at(before, r, t), t, events, marker_ts, live)
        } else {
            unread_at(before, r, t)
        })
}

/// The root of a thread and the account that it is read by.
#[derive(Debug)]
pub struct ThreadRoot {
    pub account_id: u128,
    pub event_id: String,
}

impl View for ThreadRoot {
    type V = (u128, Seq<char>);

    open spec fn view(&self) -> (u128, Seq<char>) {
        (self.account_id, self.event_id@)
    }
}

fn holds_root(roots: &Vec<ThreadRoot>, account_id: u128, root: &str) -> (r: bool)
    ensures
        r == views(roots@).contains((account_id, root@)),
{
    let mut i: usize = 0;
    while i < roots.len()
        invariant
            i <= roots.len(),
            forall|k: int| 0 <= k < i ==> (#[trigger] views(roots@)[k]) != (account_id, root@),
        decreases roots.len() - i,
    {
        if roots[i].account_id == account_id && same_text(roots[i].event_id.as_str(), root) {
            assert(views(roots@)[i as int] == (account_id, root@));
            return true;
        }
        i = i + 1;
    }
    false
}

impl App {
    /// Whether the replies in threads that are newer than the room's marker were added
    /// to those that the main timeline shows.
    pub open spec fn promotions(
        self,
        after: App,
        key: RoomKeyView,
        events: Seq<EventView>,
        roots: Seq<(u128, Seq<char>)>,
    ) -> bool {
        &&& after == (App { threads: after.threads, ..self })
        &&& after.threads == (ThreadState {
            promoted: after.threads.promoted,
            unread: after.threads.unread,
            ..self.threads
        })
        &&& match marker_at(self.device, key) {
            Some(marker) => {
                &&& unseen_counted(
                    self.threads,
                    after.threads,
                    key,
                    events,
                    marker.origin_ts,
                    self.live,
                )
                &&& roots == unseen_roots(events, marker.origin_ts)
                &&& after.threads.promoted@.dom() == promoted_after(
                    self.threads.promoted@.dom(),
                    events,
                    marker.origin_ts,
                )
            },
            None => roots.len() == 0 && after == self,
        }
    }

    /// Lets the main timeline show the replies in threads that are newer than the
    /// room's marker, so that what made the room unread is seen. A room without a
    /// marker has none. Those of others count as not seen. The result names the roots
    /// that are to be fetched.
    pub fn collect_unseen_thread_promotions(&mut self, room: &RoomKey, events: &[EventDto]) -> (roots:
        Vec<ThreadRoot>)
        ensures
            old(self).promotions(*final(self), room@, views(events@), views(roots@)),
    {
        let marker_ts: i64 = match self.device.read_markers.get(room) {
            Some(m) => m.origin_ts,
            None => return Vec::new(),
        };
        let ghost all = views(events@);
        let mut roots: Vec<ThreadRoot> = Vec::new();
        let mut i: usize = 0;
        assert(views(roots@) =~= Seq::<(u128, Seq<char>)>::empty());
        while i < events.len()
            invariant
                i <= events.len(),
                all == views(events@),
                *self == (App { threads: self.threads, ..*old(self) }),
                self.threads == (ThreadState {
                    promoted: self.threads.promoted,
                    unread: self.threads.unread,
                    ..old(self).threads
                }),
                unseen_counted(
                    old(self).threads,
                    self.threads,
                    room@,
                    all.take(i as int),
                    marker_ts,
                    old(self).live,
                ),
                views(roots@) == unseen_roots(all.take(i as int), marker_ts),
                self.threads.promoted@.dom() == promoted_after(
                    old(self).threads.promoted@.dom(),
                    all.take(i as int),
                    marker_ts,
                ),
            decreases events.len() - i,
        {
            let ghost before = views(roots@);
            let ghost known = self.threads.promoted@.dom();
            let ghost start = self.threads;
            assert(all.take(i + 1).drop_last() =~= all.take(i as int));
            assert(all.take(i + 1).last() == events@[i as int]@);
            let event = &events[i];
            if event.origin_ts > marker_ts {
                if let Some(root) = event.thread_relation() {
                    self.threads.promoted.insert(event.event_id.clone(), ());
                    assert(self.threads.promoted@.dom() =~= known.insert(event@.event_id));
                    if self.thread_event_counts_as_unread(event) {
                        self.threads.mark_thread_unread_from_event(room, root, event);
                    }
                    if !holds_root(&roots, event.account_id, root) {
                        let ghost r = (event.account_id, root@);
                        roots.push(
                            ThreadRoot { account_id: event.account_id, event_id: root.to_owned() },
                        );
                        assert(views(roots@) =~= before.push(r));
                    }
                }
            }
            proof {
                let (now, first) = (self.threads, old(self).threads);
                assert forall|r: RoomKeyView, t: Seq<char>| #[trigger] unread_at(now, r, t) == (
                if r == room@ {
                    thread_after(unread_at(first, r, t), t, all.take(i + 1), marker_ts, self.live)
                } else {
                    unread_at(first, r, t)
                }) by {
                    let known = unread_at(start, r, t);
                    assert(known == if r == room@ {
                        thread_after(
                            unread_at(first, r, t),
                            t,
                            all.take(i as int),
                            marker_ts,
                            self.live,
                        )
                    } else {
                        unread_at(first, r, t)
                    });
                }
            }
            i = i + 1;
        }
        assert(all.take(i as int) =~= all);
        roots
    }
}

} // verus!
