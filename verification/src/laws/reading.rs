//! What counts as read, what is shown of it, and what others do.

use vstd::prelude::*;

use crate::api::dto::{EventDto, EventView};
use crate::api::event::thread_root_of;
use crate::app::choice::{room_key, RoomKeyView};
use crate::app::drafts::held;
use crate::app::ephemeral::{
    date_of, last_by, notice_taken, public_reads, readers_of, reads_in, typing_text, typing_users,
    with_reads,
};
use crate::app::read_markers::{
    marker_at, marker_entry_applied, marker_in, newest_ts, promoted_after, read_noted, receipt_at,
    stored_marker, thread_after, unseen_roots, ReadPutView,
};
use crate::app::state::{App, EphemeralState, LiveState, ReadMarkerView, ReceiptTargetView};
use crate::app::threads::{reply_counted, UnreadThreadView};
use crate::app::timeline::displayed_of;
use crate::json::{member_of, JsonView};
use crate::text::{decimal, is_blank};

verus! {

/// The pane shows the events of its room in their order. Reactions are no rows, state events
/// only where the user wants them. A thread has a pane of its own.
pub proof fn law_events_of_the_pane(
    events: Seq<EventView>,
    states: bool,
    panel: Option<Seq<char>>,
    promoted: Set<Seq<char>>,
)
    ensures
        displayed_of(events, states, panel, promoted) == events.filter(
            |e: EventView|
                e.event_type != "m.reaction"@ && (states || e.state_key is None) && (if panel is Some {
                    e.event_id == panel->0 || thread_root_of(e) == panel
                } else {
                    thread_root_of(e) is None || promoted.contains(e.event_id)
                }),
        ),
    decreases events.len(),
{
    reveal(Seq::filter);
    if events.len() > 0 {
        law_events_of_the_pane(events.drop_last(), states, panel, promoted);
    }
}

/// A marker reads back as it was written.
pub proof fn law_marker_reads_back(marker: ReadMarkerView)
    ensures
        marker_in(stored_marker(marker)) == Some(marker),
{
    reveal_strlit("event_id");
    reveal_strlit("origin_ts");
    assert("event_id"@.len() == 8);
    assert("origin_ts"@.len() == 9);
    let members = stored_marker(marker)->Object_0;
    reveal_with_fuel(member_of, 3);
    assert(members.drop_last() =~= seq![members[0]]);
    assert(members.drop_last().last() == members[0]);
}

/// What was read moves the marker of its room forward and never back, and is written once
/// the user has paused. Other rooms keep their markers.
pub proof fn law_reading_moves_the_marker(
    before: App,
    after: App,
    put: Option<ReadPutView>,
    key: RoomKeyView,
    marker: ReadMarkerView,
    receipt: Option<ReceiptTargetView>,
    now: int,
    other: RoomKeyView,
)
    requires
        read_noted(before, after, put, key, marker, receipt, now),
        other != key,
    ensures
        marker_at(before.device, key) is None ==> marker_at(after.device, key) == Some(marker),
        marker_at(before.device, key) matches Some(known) ==> marker_at(after.device, key) == Some(
            if known.origin_ts < marker.origin_ts {
                marker
            } else {
                known
            },
        ),
        marker_at(after.device, other) == marker_at(before.device, other),
        receipt_at(after.device, other) == receipt_at(before.device, other),
        receipt is Some && (receipt_at(before.device, key) is None || receipt_at(
            before.device,
            key,
        )->0.arrival_order < receipt->0.arrival_order) ==> receipt_at(after.device, key) == receipt,
        marker_at(after.device, key) != marker_at(before.device, key) ==> {
            &&& after.device.pending_marker_put is Some
            &&& after.device.pending_marker_put->0.room@ == key
            &&& after.device.pending_marker_put->0.due == now + 400
        },
        after.rooms == before.rooms,
{
}

/// Where one room waits to be written and another is read, the first is written at once.
pub proof fn law_waiting_marker_is_not_lost(
    before: App,
    after: App,
    put: Option<ReadPutView>,
    key: RoomKeyView,
    marker: ReadMarkerView,
    now: int,
)
    requires
        read_noted(before, after, put, key, marker, None, now),
        before.session.wired,
        marker_at(before.device, key) is None,
        before.device.pending_marker_put is Some,
        before.device.pending_marker_put->0.room@ != key,
        marker_at(before.device, before.device.pending_marker_put->0.room@) is Some,
    ensures
        put is Some,
        put->0.room == before.device.pending_marker_put->0.room@,
        Some(put->0.marker) == marker_at(before.device, put->0.room),
{
}

/// The later of two times.
pub open spec fn newer(a: i64, b: i64) -> i64 {
    if a >= b {
        a
    } else {
        b
    }
}

proof fn lemma_badges(app: App, unread: Map<RoomKeyView, usize>, n: int, i: int)
    requires
        0 <= n <= app.rooms.rooms@.len(),
        0 <= i < app.rooms.rooms@.len(),
        forall|k: int|
            0 <= k < app.rooms.rooms@.len() && k != i ==> room_key((#[trigger] app.rooms.rooms@[k])@)
                != room_key(app.rooms.rooms@[i]@),
    ensures
        ({
            let room = app.rooms.rooms@[i]@;
            let key = room_key(room);
            let now = app.badges_reconciled(unread, n);
            let active = newer(room.last_activity_ts, app.loaded_ts(key));
            &&& i >= n || marker_at(app.device, key) is None ==> held(now, key) == held(unread, key)
            &&& i < n && marker_at(app.device, key) is Some && marker_at(
                app.device,
                key,
            )->0.origin_ts >= active ==> held(now, key) is None
            &&& i < n && marker_at(app.device, key) is Some && marker_at(
                app.device,
                key,
            )->0.origin_ts < active ==> held(now, key) == Some(
                if held(unread, key) is Some {
                    held(unread, key)->0
                } else {
                    1
                },
            )
        }),
    decreases n,
{
    if n > 0 {
        lemma_badges(app, unread, n - 1, i);
        assert(n - 1 != i ==> room_key(app.rooms.rooms@[n - 1]@) != room_key(
            app.rooms.rooms@[i]@,
        ));
    }
}

/// A room that was read up to its latest message has no badge. One with a later message has
/// a badge, and keeps the count that it has. A room of which nothing is known keeps its own.
pub proof fn law_badges_follow_markers(app: App, i: int)
    requires
        0 <= i < app.rooms.rooms@.len(),
        forall|k: int|
            0 <= k < app.rooms.rooms@.len() && k != i ==> room_key((#[trigger] app.rooms.rooms@[k])@)
                != room_key(app.rooms.rooms@[i]@),
    ensures
        ({
            let room = app.rooms.rooms@[i]@;
            let key = room_key(room);
            let before = app.rooms.unread@;
            let after = app.badges_reconciled(before, app.rooms.rooms@.len() as int);
            let active = newer(room.last_activity_ts, app.loaded_ts(key));
            match marker_at(app.device, key) {
                None => held(after, key) == held(before, key),
                Some(marker) => if marker.origin_ts >= active {
                    !after.dom().contains(key)
                } else {
                    after.dom().contains(key) && after[key] == (if before.dom().contains(key) {
                        before[key]
                    } else {
                        1
                    })
                },
            }
        }),
{
    lemma_badges(app, app.rooms.unread@, app.rooms.rooms@.len() as int, i);
}

/// The latest time among events is that of one of them, and none is later.
pub proof fn law_newest_time(events: Seq<EventDto>, i: int)
    requires
        0 <= i < events.len(),
    ensures
        events[i].origin_ts <= newest_ts(events),
        exists|k: int| 0 <= k < events.len() && (#[trigger] events[k]).origin_ts == newest_ts(events),
    decreases events.len(),
{
    if events.len() > 1 {
        let rest = events.drop_last();
        if i < rest.len() {
            law_newest_time(rest, i);
        } else {
            law_newest_time(rest, 0);
        }
        let k = choose|k: int| 0 <= k < rest.len() && rest[k].origin_ts == newest_ts(rest);
        assert(events[k].origin_ts == newest_ts(rest));
        assert(events[events.len() - 1] == events.last());
    } else {
        assert(events[0].origin_ts == newest_ts(events));
    }
}

/// What another device read clears the badge here, if nothing came since.
pub proof fn law_reading_elsewhere_counts(
    before: App,
    after: App,
    key: RoomKeyView,
    marker: ReadMarkerView,
)
    requires
        marker_entry_applied(before, after, key, stored_marker(marker)),
    ensures
        marker_at(before.device, key) matches Some(known) && known.origin_ts >= marker.origin_ts
            ==> after == before,
        marker_at(before.device, key) is None || marker_at(before.device, key)->0.origin_ts
            < marker.origin_ts ==> {
            &&& marker_at(after.device, key) == Some(marker)
            &&& marker.origin_ts >= before.activity_ts(key) ==> !after.rooms.unread@.dom().contains(
                key,
            )
            &&& marker.origin_ts < before.activity_ts(key) ==> after.rooms.unread
                == before.rooms.unread
        },
{
    law_marker_reads_back(marker);
}

/// Whether an event answers in a thread after a time.
pub open spec fn came_after(event: EventView, root: Seq<char>, ts: i64) -> bool {
    thread_root_of(event) == Some(root) && event.origin_ts > ts
}

/// The threads with replies that were not seen are those that a later event answers in, each
/// once.
pub proof fn law_threads_not_seen(events: Seq<EventView>, ts: i64, account: u128, root: Seq<char>)
    ensures
        unseen_roots(events, ts).contains((account, root)) <==> (exists|k: int|
            0 <= k < events.len() && came_after(#[trigger] events[k], root, ts)
                && events[k].account_id == account),
        unseen_roots(events, ts).no_duplicates(),
    decreases events.len(),
{
    let all = unseen_roots(events, ts);
    if events.len() > 0 {
        let rest = events.drop_last();
        let last = events.last();
        let before = unseen_roots(rest, ts);
        law_threads_not_seen(rest, ts, account, root);
        assert(last == events[events.len() - 1]);
        if before.contains((account, root)) {
            let p = choose|p: int| 0 <= p < before.len() && before[p] == (account, root);
            assert(all[p] == (account, root));
            let k = choose|k: int|
                0 <= k < rest.len() && came_after(#[trigger] rest[k], root, ts)
                    && rest[k].account_id == account;
            assert(came_after(events[k], root, ts));
        } else {
            assert forall|k: int| 0 <= k < rest.len() implies !(came_after(
                #[trigger] events[k],
                root,
                ts,
            ) && events[k].account_id == account) by {
                assert(rest[k] == events[k]);
            }
            if all.contains((account, root)) {
                let p = choose|p: int| 0 <= p < all.len() && all[p] == (account, root);
                assert(p == before.len());
                assert(came_after(events[events.len() - 1], root, ts));
            }
            if came_after(last, root, ts) && last.account_id == account {
                assert(all[before.len() as int] == (account, root));
            }
        }
    }
}

/// A reply in a thread that was not seen is shown in the main timeline too.
pub proof fn law_unseen_reply_is_promoted(
    promoted: Set<Seq<char>>,
    events: Seq<EventView>,
    ts: i64,
    id: Seq<char>,
)
    ensures
        promoted_after(promoted, events, ts).contains(id) <==> promoted.contains(id) || (exists|
            k: int,
        |
            0 <= k < events.len() && (#[trigger] events[k]).event_id == id && thread_root_of(
                events[k],
            ) is Some && events[k].origin_ts > ts),
    decreases events.len(),
{
    if events.len() > 0 {
        let rest = events.drop_last();
        law_unseen_reply_is_promoted(promoted, rest, ts, id);
        assert(events.last() == events[events.len() - 1]);
        assert forall|k: int| 0 <= k < rest.len() implies #[trigger] rest[k] == events[k] by {
        }
        if exists|k: int|
            0 <= k < rest.len() && (#[trigger] rest[k]).event_id == id && thread_root_of(rest[k])
                is Some && rest[k].origin_ts > ts {
            let k = choose|k: int|
                0 <= k < rest.len() && (#[trigger] rest[k]).event_id == id && thread_root_of(
                    rest[k],
                ) is Some && rest[k].origin_ts > ts;
            assert(events[k].event_id == id);
        }
        if exists|k: int|
            0 <= k < events.len() && (#[trigger] events[k]).event_id == id && thread_root_of(
                events[k],
            ) is Some && events[k].origin_ts > ts {
            let k = choose|k: int|
                0 <= k < events.len() && (#[trigger] events[k]).event_id == id && thread_root_of(
                    events[k],
                ) is Some && events[k].origin_ts > ts;
            if k < rest.len() {
                assert(rest[k].event_id == id);
            }
        }
    }
}

/// Replies that were seen, that the user sent, or that are in another thread, do not make a
/// thread unread.
pub proof fn law_seen_and_own_replies_do_not_count(
    thread: Option<UnreadThreadView>,
    root: Seq<char>,
    events: Seq<EventView>,
    ts: i64,
    live: LiveState,
)
    requires
        forall|k: int|
            0 <= k < events.len() ==> !came_after(#[trigger] events[k], root, ts) || (
            live.own_senders@.dom().contains(events[k].account_id)
                && live.own_senders@[events[k].account_id]@ == events[k].sender),
    ensures
        thread_after(thread, root, events, ts, live) == thread,
    decreases events.len(),
{
    if events.len() > 0 {
        let rest = events.drop_last();
        assert forall|k: int| 0 <= k < rest.len() implies !came_after(#[trigger] rest[k], root, ts)
            || (live.own_senders@.dom().contains(rest[k].account_id)
            && live.own_senders@[rest[k].account_id]@ == rest[k].sender) by {
            assert(rest[k] == events[k]);
        }
        law_seen_and_own_replies_do_not_count(thread, root, rest, ts, live);
        assert(events.last() == events[events.len() - 1]);
    }
}

/// A new reply in a thread counts one more, and is the latest where none is later.
pub proof fn law_reply_counts_one_more(thread: UnreadThreadView, reply: EventView)
    requires
        !thread.counted.contains(reply.event_id),
        thread.unread_count < usize::MAX,
    ensures
        reply_counted(Some(thread), reply).unread_count == thread.unread_count + 1,
        reply.origin_ts >= thread.latest_ts ==> reply_counted(Some(thread), reply).latest_event_id
            == reply.event_id && reply_counted(Some(thread), reply).latest_sender == reply.sender,
        reply.origin_ts < thread.latest_ts ==> reply_counted(Some(thread), reply).latest_event_id
            == thread.latest_event_id && reply_counted(Some(thread), reply).latest_sender
            == thread.latest_sender,
        reply_counted(None, reply).unread_count == 1,
        reply_counted(None, reply).latest_event_id == reply.event_id,
{
}

/// One who types is named, two are named, and of more the first two are named and the
/// others counted.
pub proof fn law_who_is_typing(names: Seq<Seq<char>>)
    ensures
        names.len() == 0 ==> typing_text(names) is None,
        names.len() == 1 ==> typing_text(names) == Some(names[0] + " is typing…"@),
        names.len() == 2 ==> typing_text(names) == Some(
            names[0] + " and "@ + names[1] + " are typing…"@,
        ),
        names.len() > 2 ==> typing_text(names) == Some(
            names[0] + ", "@ + names[1] + ", and "@ + decimal((names.len() - 2) as nat)
                + " more are typing…"@,
        ),
{
}

/// All who type but the user are named, in their order.
pub proof fn law_others_are_named(
    app: App,
    key: RoomKeyView,
    users: Seq<Seq<char>>,
    own: Seq<char>,
)
    ensures
        app.names_of_others(key, users, Some(own)) == users.filter(
            |u: Seq<char>| u != own,
        ).map_values(|u: Seq<char>| app.called(key, u)),
    decreases users.len(),
{
    reveal(Seq::filter);
    let other = |u: Seq<char>| u != own;
    let name = |u: Seq<char>| app.called(key, u);
    if users.len() > 0 {
        let rest = users.drop_last();
        law_others_are_named(app, key, rest, own);
        if other(users.last()) {
            assert(rest.filter(other).push(users.last()).map_values(name) =~= rest.filter(
                other,
            ).map_values(name).push(name(users.last())));
        }
    } else {
        assert(app.names_of_others(key, users, Some(own)) =~= users.filter(other).map_values(name));
    }
}

/// A user goes by the name that they have in the room, else by their id.
pub proof fn law_what_a_user_is_called(app: App, key: RoomKeyView, user: Seq<char>)
    ensures
        app.rooms.display_names@.dom().contains(key) && app.rooms.display_names@[key]@.dom().contains(
            user,
        ) && !is_blank(app.rooms.display_names@[key]@[user]@) ==> app.called(key, user)
            == app.rooms.display_names@[key]@[user]@,
        !app.rooms.display_names@.dom().contains(key) ==> app.called(key, user) == user,
{
}

/// Of the receipts of a user the one that came last counts, and other users keep theirs.
pub proof fn law_last_receipt_counts(
    known: Map<Seq<char>, Seq<char>>,
    pairs: Seq<(Seq<char>, Seq<char>)>,
    i: int,
    other: Seq<char>,
)
    requires
        0 <= i < pairs.len(),
        forall|k: int| i < k < pairs.len() ==> (#[trigger] pairs[k]).1 != pairs[i].1,
        forall|k: int| 0 <= k < pairs.len() ==> (#[trigger] pairs[k]).1 != other,
    ensures
        with_reads(known, pairs).dom().contains(pairs[i].1),
        with_reads(known, pairs)[pairs[i].1] == pairs[i].0,
        held(with_reads(known, pairs), other) == held(known, other),
    decreases pairs.len(),
{
    let rest = pairs.drop_last();
    assert(pairs.last() == pairs[pairs.len() - 1]);
    if i < pairs.len() - 1 {
        assert forall|k: int| i < k < rest.len() implies (#[trigger] rest[k]).1 != rest[i].1 by {
            assert(rest[k] == pairs[k]);
        }
        assert forall|k: int| 0 <= k < rest.len() implies (#[trigger] rest[k]).1 != other by {
            assert(rest[k] == pairs[k]);
        }
        law_last_receipt_counts(known, rest, i, other);
    } else {
        assert forall|k: int| 0 <= k < rest.len() implies (#[trigger] rest[k]).1 != other by {
            assert(rest[k] == pairs[k]);
        }
        lemma_others_keep(known, rest, other);
    }
}

proof fn lemma_others_keep(
    known: Map<Seq<char>, Seq<char>>,
    pairs: Seq<(Seq<char>, Seq<char>)>,
    other: Seq<char>,
)
    requires
        forall|k: int| 0 <= k < pairs.len() ==> (#[trigger] pairs[k]).1 != other,
    ensures
        held(with_reads(known, pairs), other) == held(known, other),
    decreases pairs.len(),
{
    if pairs.len() > 0 {
        let rest = pairs.drop_last();
        assert forall|k: int| 0 <= k < rest.len() implies (#[trigger] rest[k]).1 != other by {
            assert(rest[k] == pairs[k]);
        }
        lemma_others_keep(known, rest, other);
        assert(pairs.last() == pairs[pairs.len() - 1]);
    }
}

/// A receipt counts for the event that it stands under and the user that it names. Private
/// receipts do not count.
pub proof fn law_what_a_receipt_says(
    members: Seq<(Seq<char>, JsonView)>,
    i: int,
    readers: Seq<(Seq<char>, JsonView)>,
    k: int,
)
    requires
        0 <= i < members.len(),
        members[i].1.get("m.read"@) == Some(JsonView::Object(readers)),
        0 <= k < readers.len(),
    ensures
        public_reads(JsonView::Object(members)).contains((members[i].0, readers[k].0)),
    decreases members.len(),
{
    let rest = members.drop_last();
    let before = reads_in(rest);
    let all = reads_in(members);
    let pair = (members[i].0, readers[k].0);
    if i == members.len() - 1 {
        assert(readers_of(members.last())[k] == pair);
        assert(all[before.len() + k] == pair);
    } else {
        law_what_a_receipt_says(rest, i, readers, k);
        let p = choose|p: int| 0 <= p < before.len() && before[p] == pair;
        assert(all[p] == pair);
    }
}

/// The last message of a user, and none that is later.
pub proof fn law_last_message_of_a_user(events: Seq<EventView>, sender: Seq<char>, i: int)
    requires
        0 <= i < events.len(),
        events[i].sender == sender,
        forall|k: int| i < k < events.len() ==> (#[trigger] events[k]).sender != sender,
    ensures
        last_by(events, sender) == Some(events[i]),
    decreases events.len(),
{
    if i < events.len() - 1 {
        let rest = events.drop_last();
        assert(events.last() == events[events.len() - 1]);
        assert forall|k: int| i < k < rest.len() implies (#[trigger] rest[k]).sender != sender by {
            assert(rest[k] == events[k]);
        }
        law_last_message_of_a_user(rest, sender, i);
    }
}

/// Another user has read the last message of the user where their receipt stands on an event
/// that is no older.
pub proof fn law_who_has_read(
    app: App,
    key: RoomKeyView,
    own: Seq<char>,
    entry: (String, String),
    ts: i64,
    i: int,
)
    requires
        0 <= i < app.events_of(key).len(),
        app.events_of(key)[i].event_id == entry.1@,
        forall|k: int|
            i < k < app.events_of(key).len() ==> (#[trigger] app.events_of(key)[k]).event_id
                != entry.1@,
    ensures
        app.has_read(key, own, entry, ts) == (entry.0@ != own && app.events_of(key)[i].origin_ts
            >= ts),
{
    lemma_date(app.events_of(key), entry.1@, i);
}

proof fn lemma_date(events: Seq<EventView>, id: Seq<char>, i: int)
    requires
        0 <= i < events.len(),
        events[i].event_id == id,
        forall|k: int| i < k < events.len() ==> (#[trigger] events[k]).event_id != id,
    ensures
        date_of(events, id) == Some(events[i].origin_ts),
    decreases events.len(),
{
    if i < events.len() - 1 {
        let rest = events.drop_last();
        assert(events.last() == events[events.len() - 1]);
        assert forall|k: int| i < k < rest.len() implies (#[trigger] rest[k]).event_id != id by {
            assert(rest[k] == events[k]);
        }
        lemma_date(rest, id, i);
    }
}

/// A notice of who types replaces the one before it for its room, for half a minute. An empty
/// one ends it.
pub proof fn law_typing_notice(
    before: EphemeralState,
    after: EphemeralState,
    key: RoomKeyView,
    content: JsonView,
    now: int,
    other: RoomKeyView,
)
    requires
        notice_taken(before, after, key, "m.typing"@, content, now),
        typing_users(content) is Some,
        other != key,
    ensures
        typing_users(content)->0.len() == 0 ==> !after.typing@.dom().contains(key),
        typing_users(content)->0.len() > 0 ==> after.typing@.dom().contains(key)
            && crate::text::views(after.typing@[key].user_ids@) == typing_users(content)->0
            && after.typing@[key].expires_at == now + 30_000,
        held(after.typing@, other) == held(before.typing@, other),
        after.read == before.read,
{
}

} // verus!
