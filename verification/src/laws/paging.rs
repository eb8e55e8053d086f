//! How the history of a room is read, page by page.

use vstd::prelude::*;

use crate::api::client::Method;
use crate::api::dto::{EventDto, EventView, TimelinePage};
use crate::api::event::edit_of;
use crate::app::choice::{RoomKey, RoomKeyView};
use crate::app::drafts::held;
use crate::app::edits::law_nothing_to_edit;
use crate::app::history::{
    first_ones, fresh, in_order, kept_count, timeline_asked, HistoryEffects,
};
use crate::app::paging::{
    count_after, oldest_from, page_request, wanted_after, FirstSearch, Straddle,
};
use crate::app::state::App;
use crate::text::{decimal, views};

verus! {

/// Whether none of the events is an edit.
pub open spec fn no_edits(events: Seq<EventView>) -> bool {
    forall|i: int| 0 <= i < events.len() ==> edit_of(#[trigger] events[i]) is None
}

/// A page comes with the latest event first, and is shown with the earliest first.
pub proof fn law_page_is_turned_round(page: TimelinePage, i: int)
    requires
        no_edits(views(page.events@)),
        0 <= i < page.events@.len(),
    ensures
        in_order(page).len() == page.events@.len(),
        in_order(page)[i] == page.events@[page.events@.len() - 1 - i]@,
{
    let turned = views(page.events@).reverse();
    assert forall|k: int| 0 <= k < turned.len() implies edit_of(#[trigger] turned[k]) is None by {
        assert(turned[k] == views(page.events@)[turned.len() - 1 - k]);
    }
    law_nothing_to_edit(turned);
}

/// Older events go above those that are there, next to them, as long as there are no more
/// than five hundred. Those that are there stay, and so does the selection.
pub proof fn law_older_events_go_above(
    before: App,
    after: App,
    key: RoomKeyView,
    page: TimelinePage,
    effects: HistoryEffects,
)
    requires
        before.older_taken(after, key, page, effects),
        no_edits(views(page.events@)),
        no_edits(before.events_of(key)),
        kept_count(before.messages, key) <= 500,
    ensures
        ({
            let old_events = before.events_of(key);
            let events = after.events_of(key);
            let n = events.len() - old_events.len();
            &&& 0 <= n
            &&& n == page.events@.len() || (n < page.events@.len() && events.len() == 500)
            &&& events.skip(n) == old_events
            &&& forall|i: int| 0 <= i < n ==> #[trigger] events[i] == page.events@[n - 1 - i]@
        }),
        !after.messages.loading_history,
        before.messages.selection is Some ==> after.messages.selection == before.messages.selection,
        page.next_cursor is None ==> !after.messages.history_cursors@.dom().contains(key),
        page.next_cursor is Some ==> after.messages.history_cursors@.dom().contains(key)
            && after.messages.history_cursors@[key]@ == page.next_cursor->0@,
        forall|other: RoomKeyView|
            other != key ==> #[trigger] after.events_of(other) == before.events_of(other),
{
    let older = views(page.events@).reverse();
    let room = crate::app::history::spare(kept_count(before.messages, key));
    let added = crate::app::history::adjacent(older, room);
    let kept = before.events_of(key);
    let all = added + kept;
    assert forall|k: int| 0 <= k < all.len() implies edit_of(#[trigger] all[k]) is None by {
        if k < added.len() {
            let from = older.len() - added.len() + k;
            assert(added[k] == older[from]);
            assert(older[from] == views(page.events@)[older.len() - 1 - from]);
        } else {
            assert(all[k] == kept[k - added.len()]);
        }
    }
    law_nothing_to_edit(all);
    assert(after.events_of(key) == all);
    assert(all.skip(added.len() as int) =~= kept);
    assert(kept.len() == kept_count(before.messages, key));
    assert forall|i: int| 0 <= i < added.len() implies #[trigger] all[i]
        == page.events@[added.len() - 1 - i]@ by {
        let from = older.len() - added.len() + i;
        assert(added[i] == older[from]);
        assert(older[from] == views(page.events@)[older.len() - 1 - from]);
    }
    assert forall|other: RoomKeyView| other != key implies #[trigger] after.events_of(other)
        == before.events_of(other) by {
        assert(held(after.messages.events@, other) == held(before.messages.events@, other));
    }
}

/// What is new in a page are the events that are later than the last one that is there, and
/// not there yet, in their order.
pub proof fn law_what_is_new(events: Seq<EventView>, ts: i64, ids: Seq<Seq<char>>)
    ensures
        fresh(events, ts, ids) == events.filter(
            |e: EventView| e.origin_ts > ts && !ids.contains(e.event_id),
        ),
    decreases events.len(),
{
    reveal(Seq::filter);
    if events.len() > 0 {
        law_what_is_new(events.drop_last(), ts, ids);
    }
}

/// Newer events go below those that are there. Where there are none, the pane is at the
/// latest messages, and live updates are shown again.
pub proof fn law_newer_events_go_below(
    before: App,
    after: App,
    key: RoomKeyView,
    ts: i64,
    page: TimelinePage,
    effects: HistoryEffects,
)
    requires
        before.newer_taken(after, key, ts, Some(page), effects),
        no_edits(views(page.events@)),
        no_edits(before.events_of(key)),
        before.messages.events@.dom().contains(key),
        kept_count(before.messages, key) < 500,
    ensures
        !after.messages.loading_history,
        ({
            let old_events = before.events_of(key);
            let events = after.events_of(key);
            let found = fresh(
                views(page.events@).reverse(),
                ts,
                crate::app::selection::ids_of(old_events),
            );
            &&& found.len() == 0 ==> after.session.last_jump_ts is None && events == old_events
            &&& found.len() > 0 ==> {
                &&& after.session.last_jump_ts == before.session.last_jump_ts
                &&& events.len() > old_events.len()
                &&& events.len() <= 500
                &&& events.take(old_events.len() as int) == old_events
                &&& events.len() < 500 ==> events.len() == old_events.len() + found.len()
                &&& forall|i: int|
                    old_events.len() <= i < events.len() ==> #[trigger] events[i] == found[i
                        - old_events.len()]
            }
        }),
{
    let kept = before.events_of(key);
    let turned = views(page.events@).reverse();
    let found = fresh(turned, ts, crate::app::selection::ids_of(kept));
    let room = crate::app::history::spare(kept_count(before.messages, key));
    let added = first_ones(found, room);
    assert forall|k: int| 0 <= k < turned.len() implies edit_of(#[trigger] turned[k]) is None by {
        assert(turned[k] == views(page.events@)[turned.len() - 1 - k]);
    }
    lemma_fresh_unedited(turned, ts, crate::app::selection::ids_of(kept));
    assert(kept.len() == kept_count(before.messages, key));
    let all = kept + added;
    assert forall|k: int| 0 <= k < all.len() implies edit_of(#[trigger] all[k]) is None by {
        if k >= kept.len() {
            assert(all[k] == found[k - kept.len()]);
        }
    }
    law_nothing_to_edit(all);
    if found.len() > 0 {
        assert(after.events_of(key) == all);
        assert(all.take(kept.len() as int) =~= kept);
    }
}

proof fn lemma_fresh_unedited(events: Seq<EventView>, ts: i64, ids: Seq<Seq<char>>)
    requires
        no_edits(events),
    ensures
        no_edits(fresh(events, ts, ids)),
    decreases events.len(),
{
    if events.len() > 0 {
        let rest = events.drop_last();
        assert forall|k: int| 0 <= k < rest.len() implies edit_of(#[trigger] rest[k]) is None by {
            assert(rest[k] == events[k]);
        }
        lemma_fresh_unedited(rest, ts, ids);
        assert(events.last() == events[events.len() - 1]);
        assert forall|k: int| 0 <= k < fresh(events, ts, ids).len() implies edit_of(
            #[trigger] fresh(events, ts, ids)[k],
        ) is None by {
            if k < fresh(rest, ts, ids).len() {
                assert(fresh(events, ts, ids)[k] == fresh(rest, ts, ids)[k]);
            }
        }
    }
}

/// A jump shows a page of the past from its top, in the main timeline, in place of what was
/// there. From there on older pages follow, and live updates wait.
pub proof fn law_jump_shows_the_past(
    before: App,
    after: App,
    key: RoomKeyView,
    page: TimelinePage,
    pivot: i64,
    i: int,
)
    requires
        before.past_shown(after, key, page, pivot),
        no_edits(views(page.events@)),
        0 <= i < page.events@.len(),
    ensures
        after.events_of(key).len() == page.events@.len(),
        after.events_of(key)[i] == page.events@[page.events@.len() - 1 - i]@,
        after.messages.scroll == 0,
        after.messages.selection is None,
        after.threads.panel is None,
        after.session.last_jump_ts == Some(pivot),
        page.next_cursor is None ==> !after.messages.history_cursors@.dom().contains(key),
        page.next_cursor is Some ==> after.messages.history_cursors@.dom().contains(key)
            && after.messages.history_cursors@[key]@ == page.next_cursor->0@,
{
    law_page_is_turned_round(page, i);
}

/// A room that is opened shows its latest page from the end, is no longer unread, and counts
/// as read up to the last message that is shown.
pub proof fn law_opened_room_is_read(
    before: App,
    after: App,
    key: RoomKeyView,
    events: Seq<EventView>,
    cursor: Option<Seq<char>>,
    roots: Seq<(u128, Seq<char>)>,
    put: Option<crate::app::read_markers::ReadPutView>,
    now: int,
)
    requires
        before.page_opened(after, key, events, cursor, roots, put, now),
    ensures
        after.events_of(key) == events,
        !after.rooms.unread@.dom().contains(key),
        after.threads.panel is None,
        cursor is None ==> !after.messages.history_cursors@.dom().contains(key),
        cursor is Some ==> after.messages.history_cursors@.dom().contains(key)
            && after.messages.history_cursors@[key]@ == cursor->0,
        ({
            let shown = crate::app::timeline::displayed_of(
                events,
                before.display.show_state_events,
                None,
                after.threads.promoted@.dom(),
            );
            shown.len() > 0 ==> {
                let marker = crate::app::read_markers::marker_at(after.device, key);
                &&& marker is Some
                &&& marker->0.origin_ts >= shown.last().origin_ts
            }
        }),
{
}

/// The request for a page names its room, how many events it may hold, where it goes on, and
/// the moment that it ends at, where there is one.
pub proof fn law_request_for_a_page(
    base: Seq<char>,
    key: RoomKeyView,
    cursor: Option<Seq<char>>,
    at_ts: Option<i64>,
    limit: usize,
)
    ensures
        ({
            let request = page_request(base, key, cursor, at_ts, limit);
            &&& request.method == Method::Get
            &&& request.query.contains(("limit"@, decimal(limit as nat)))
            &&& cursor is Some ==> request.query.contains(("cursor"@, cursor->0))
            &&& at_ts is Some ==> request.query.contains(
                ("at_ts"@, crate::text::decimal_int(at_ts->0 as int)),
            )
            &&& request.query.len() == 1 + (if cursor is Some {
                1int
            } else {
                0
            }) + (if at_ts is Some {
                1int
            } else {
                0
            })
        }),
{
    let request = page_request(base, key, cursor, at_ts, limit);
    assert(request.query[0] == ("limit"@, decimal(limit as nat)));
    if cursor is Some {
        assert(request.query[1] == ("cursor"@, cursor->0));
    }
    if at_ts is Some {
        assert(request.query[request.query.len() - 1] == (
            "at_ts"@,
            crate::text::decimal_int(at_ts->0 as int),
        ));
    }
}

/// A selected room is asked for its latest fifty events, and is shown from the end.
pub proof fn law_room_is_loaded(before: App, after: App, request: Option<(RoomKey, crate::api::client::Request)>)
    requires
        timeline_asked(before, after, request),
        before.room() is Some,
    ensures
        request is Some,
        (request->0).0@.account_id == before.room()->0.account_id,
        (request->0).0@.room_id == before.room()->0.room_id@,
        (request->0).1@ == page_request(
            before.client.base(),
            (request->0).0@,
            None,
            None,
            50,
        ),
        after.messages.scroll == usize::MAX,
        after.messages.selection is None,
        after.session.last_jump_ts is None,
{
}

/// How many events are later than a moment.
pub proof fn law_count_of_later_events(events: Seq<EventDto>, ts: i64)
    ensures
        count_after(events, ts) == events.filter(|e: EventDto| e.origin_ts > ts).len(),
    decreases events.len(),
{
    reveal(Seq::filter);
    if events.len() > 0 {
        law_count_of_later_events(events.drop_last(), ts);
    }
}

/// A page round a moment is taken once it holds enough that is later, or reaches the present.
/// Until then the page ends later and later, twice as far each time.
pub proof fn law_page_round_a_moment(search: Straddle, page: TimelinePage)
    requires
        search.left > 0,
        page.events@.len() > 0,
        page.events@.len() != search.limit || page.events@.last().origin_ts <= search.pivot,
    ensures
        search.after(page).chosen == Some(page),
        count_after(page.events@, search.pivot) >= search.want_after || search.end_at()
            >= search.now ==> search.after(page).left == 0,
        count_after(page.events@, search.pivot) < search.want_after && search.end_at() < search.now
            ==> search.after(page).left == search.left - 1 && (2 * search.window <= i64::MAX
            && search.window >= 0 ==> search.after(page).window == 2 * search.window),
        search.end_at() <= search.now,
{
}

/// How much is wanted that is later than a moment: at least one event, and no more than half
/// of a page.
pub proof fn law_wanted_after_a_moment(want: usize, limit: usize)
    requires
        limit >= 2,
    ensures
        1 <= wanted_after(want, limit) <= limit / 2,
        1 <= want <= limit / 2 ==> wanted_after(want, limit) == want,
{
}

/// The earliest event that a search has seen is no later than any event from its start on in
/// the page that it took.
pub proof fn law_earliest_event_is_found(search: FirstSearch, events: Seq<EventDto>, i: int)
    requires
        search.left > 0,
        0 <= i < events.len(),
        events[i].origin_ts >= search.lower,
        forall|a: int, b: int|
            0 <= a <= b < events.len() ==> (#[trigger] events[a]).origin_ts >= (
            #[trigger] events[b]).origin_ts,
    ensures
        search.after(events).earliest is Some,
        search.after(events).earliest->0 <= events[i].origin_ts,
{
    lemma_oldest(events, search.lower, i);
}

proof fn lemma_oldest(events: Seq<EventDto>, lower: i64, i: int)
    requires
        0 <= i < events.len(),
        events[i].origin_ts >= lower,
        forall|a: int, b: int|
            0 <= a <= b < events.len() ==> (#[trigger] events[a]).origin_ts >= (
            #[trigger] events[b]).origin_ts,
    ensures
        oldest_from(events, lower) is Some,
        oldest_from(events, lower)->0 <= events[i].origin_ts,
    decreases events.len(),
{
    let last = events.len() - 1;
    assert(events.last() == events[last]);
    assert(events[i].origin_ts >= events[last].origin_ts);
    if events.last().origin_ts < lower {
        let rest = events.drop_last();
        assert forall|a: int, b: int| 0 <= a <= b < rest.len() implies (
        #[trigger] rest[a]).origin_ts >= (#[trigger] rest[b]).origin_ts by {
            assert(events[a].origin_ts >= events[b].origin_ts);
        }
        lemma_oldest(rest, lower, i);
    }
}

} // verus!
