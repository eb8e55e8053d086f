//! Which rooms the list shows, in what order, and under what titles.

use vstd::prelude::*;

use crate::api::dto::RoomView;
use crate::app::choice::{RoomFilterView, RoomKeyView, RoomSort};
use crate::app::room_list::{lemma_shown_among, lemma_shown_are_of_account, resorted};
use crate::app::rooms::{list_title, orders_rooms, pin_rank, rooms_sorted};
use crate::app::state::RoomsState;
use crate::order::text_less;
use crate::text::{ascii_lower, is_white, lowercase, trim_end, trim_start, views};

verus! {

/// Whether nothing but white space is written.
pub open spec fn nothing_written(text: Option<Seq<char>>) -> bool {
    match text {
        Some(t) => forall|i: int| 0 <= i < t.len() ==> is_white(#[trigger] t[i]),
        None => true,
    }
}

proof fn lemma_white_ends(t: Seq<char>)
    ensures
        trim_end(t).len() == 0 <==> forall|i: int| 0 <= i < t.len() ==> is_white(#[trigger] t[i]),
    decreases t.len(),
{
    if t.len() > 0 {
        lemma_white_ends(t.drop_last());
        if is_white(t.last()) {
            assert forall|i: int| 0 <= i < t.len() && trim_end(t).len() == 0 implies is_white(
                #[trigger] t[i],
            ) by {
                if i < t.len() - 1 {
                    assert(t.drop_last()[i] == t[i]);
                }
            }
            if forall|i: int| 0 <= i < t.len() ==> is_white(#[trigger] t[i]) {
                assert forall|i: int| 0 <= i < t.drop_last().len() implies is_white(
                    #[trigger] t.drop_last()[i],
                ) by {
                    assert(t.drop_last()[i] == t[i]);
                }
            }
        } else {
            assert(!is_white(t[t.len() - 1]));
        }
    }
}

proof fn lemma_white_starts(t: Seq<char>)
    ensures
        trim_end(trim_start(t)).len() == 0 <==> forall|i: int|
            0 <= i < t.len() ==> is_white(#[trigger] t[i]),
    decreases t.len(),
{
    if t.len() > 0 && is_white(t[0]) {
        let rest = t.drop_first();
        lemma_white_starts(rest);
        if forall|i: int| 0 <= i < t.len() ==> is_white(#[trigger] t[i]) {
            assert forall|i: int| 0 <= i < rest.len() implies is_white(#[trigger] rest[i]) by {
                assert(rest[i] == t[i + 1]);
            }
        }
        if forall|i: int| 0 <= i < rest.len() ==> is_white(#[trigger] rest[i]) {
            assert forall|i: int| 0 <= i < t.len() implies is_white(#[trigger] t[i]) by {
                if i > 0 {
                    assert(rest[i - 1] == t[i]);
                }
            }
        }
    } else {
        lemma_white_ends(t);
    }
}

pub proof fn lemma_nothing_written(room: RoomView)
    ensures
        crate::app::rooms::option_blank(room.name) == nothing_written(room.name),
        crate::app::rooms::option_blank(room.canonical_alias) == nothing_written(
            room.canonical_alias,
        ),
{
    if let Some(t) = room.name {
        lemma_white_starts(t);
    }
    if let Some(t) = room.canonical_alias {
        lemma_white_starts(t);
    }
}

/// Whether a room is one of the account that the list is narrowed to.
pub open spec fn of_account(rooms: RoomsState, account: Option<u128>, i: int) -> bool {
    match account {
        Some(id) => rooms.rooms@[i].account_id == id,
        None => true,
    }
}

proof fn lemma_shown_iff(rooms: RoomsState, account: Option<u128>, i: usize)
    requires
        i < rooms.rooms@.len(),
    ensures
        rooms.visible(account).contains(i) <==> rooms.room_shown(account, i as int),
{
    reveal(RoomsState::visible);
    let n = rooms.rooms@.len() as int;
    assert(rooms.rooms@.len() == rooms.rooms.len());
    if rooms.room_shown(account, i as int) {
        lemma_shown_among(rooms, account, n, i as int);
    }
    if rooms.visible(account).contains(i) {
        let k = choose|k: int| 0 <= k < rooms.visible(account).len() && rooms.visible(account)[k] == i;
        lemma_shown_are_of_account(rooms, account, n, k);
    }
}

/// Under the filter for direct messages the list shows the rooms without a name and an
/// alias, under the one for groups the rooms with one of them; the selected room stays.
pub proof fn law_direct_messages_and_groups(rooms: RoomsState, account: Option<u128>, i: usize)
    requires
        i < rooms.rooms@.len(),
        of_account(rooms, account, i as int),
        rooms.selected != Some(i),
    ensures
        rooms.filter@ == RoomFilterView::Dms ==> (rooms.visible(account).contains(i) <==> {
            &&& nothing_written(rooms.rooms@[i as int]@.name)
            &&& nothing_written(rooms.rooms@[i as int]@.canonical_alias)
        }),
        rooms.filter@ == RoomFilterView::Groups ==> (rooms.visible(account).contains(i) <==> {
            ||| !nothing_written(rooms.rooms@[i as int]@.name)
            ||| !nothing_written(rooms.rooms@[i as int]@.canonical_alias)
        }),
{
    lemma_shown_iff(rooms, account, i);
    lemma_nothing_written(rooms.rooms@[i as int]@);
}

/// No room of another account is shown. Without a filter every room of the account is;
/// under the filter for unread rooms those with something unread; under the one for
/// favorites the pinned ones.
pub proof fn law_other_filters(rooms: RoomsState, account: Option<u128>, i: usize)
    requires
        i < rooms.rooms@.len(),
    ensures
        !of_account(rooms, account, i as int) ==> !rooms.visible(account).contains(i),
        of_account(rooms, account, i as int) && rooms.filter@ == RoomFilterView::All
            ==> rooms.visible(account).contains(i),
        of_account(rooms, account, i as int) && rooms.selected != Some(i) ==> {
            let room = rooms.rooms@[i as int]@;
            let key = RoomKeyView { account_id: room.account_id, room_id: room.room_id };
            &&& rooms.filter@ == RoomFilterView::Unread ==> (rooms.visible(account).contains(i)
                <==> rooms.unread@.dom().contains(key) && rooms.unread@[key] >= 1)
            &&& rooms.filter@ == RoomFilterView::Favorites ==> (rooms.visible(account).contains(i)
                <==> exists|p: int| 0 <= p < rooms.pinned@.len() && (#[trigger] rooms.pinned@[p])@ == key)
        },
{
    lemma_shown_iff(rooms, account, i);
    let room = rooms.rooms@[i as int]@;
    let key = RoomKeyView { account_id: room.account_id, room_id: room.room_id };
    assert(views(rooms.pinned@).len() == rooms.pinned@.len());
    if views(rooms.pinned@).contains(key) {
        let p = choose|p: int| 0 <= p < rooms.pinned@.len() && views(rooms.pinned@)[p] == key;
        assert(rooms.pinned@[p]@ == key);
    }
    if exists|p: int| 0 <= p < rooms.pinned@.len() && (#[trigger] rooms.pinned@[p])@ == key {
        let p = choose|p: int| 0 <= p < rooms.pinned@.len() && (#[trigger] rooms.pinned@[p])@ == key;
        assert(views(rooms.pinned@)[p] == key);
    }
}

/// Whether a text is written in another from some place on, the case of ASCII letters
/// aside.
pub open spec fn written_at(text: Seq<char>, part: Seq<char>, at: int) -> bool {
    &&& 0 <= at <= text.len() - part.len()
    &&& forall|i: int|
        0 <= i < part.len() ==> ascii_lower(#[trigger] part[i]) == ascii_lower(text[at + i])
}

pub open spec fn written_in(text: Seq<char>, part: Seq<char>) -> bool {
    exists|at: int| written_at(text, part, at)
}

proof fn lemma_written_in(text: Seq<char>, part: Seq<char>)
    ensures
        crate::app::timeline::has_part_ignoring_case(text, part) == written_in(text, part),
{
    let (a, b) = (crate::text::ascii_lowercase(text), crate::text::ascii_lowercase(part));
    if crate::text::has_part(a, b) {
        let at = choose|at: int| crate::text::holds_at(a, b, at);
        assert forall|i: int| 0 <= i < part.len() implies ascii_lower(#[trigger] part[i])
            == ascii_lower(text[at + i]) by {
            assert(a.subrange(at, at + b.len())[i] == b[i]);
        }
        assert(written_at(text, part, at));
    }
    if written_in(text, part) {
        let at = choose|at: int| written_at(text, part, at);
        assert forall|i: int| 0 <= i < b.len() implies a.subrange(at, at + b.len())[i] == b[i] by {
            assert(ascii_lower(part[i]) == ascii_lower(text[at + i]));
        }
        assert(a.subrange(at, at + b.len()) =~= b);
        assert(crate::text::holds_at(a, b, at));
    }
}

/// Under a filter by name the list shows the rooms whose name, alias, topic or id holds
/// what was typed, and those that are shown under a title that does.
pub proof fn law_name_filter(rooms: RoomsState, account: Option<u128>, i: usize, query: Seq<char>)
    requires
        i < rooms.rooms@.len(),
        of_account(rooms, account, i as int),
        rooms.selected != Some(i),
        rooms.filter@ == RoomFilterView::Name(query),
    ensures
        rooms.visible(account).contains(i) <==> {
            let room = rooms.rooms@[i as int]@;
            ||| room.name is Some && written_in(room.name->0, query)
            ||| room.canonical_alias is Some && written_in(room.canonical_alias->0, query)
            ||| room.topic is Some && written_in(room.topic->0, query)
            ||| written_in(room.room_id, query)
            ||| written_in(list_title(rooms.titles@, room), query)
        },
{
    let room = rooms.rooms@[i as int]@;
    lemma_shown_iff(rooms, account, i);
    if let Some(t) = room.name {
        lemma_written_in(t, query);
    }
    if let Some(t) = room.canonical_alias {
        lemma_written_in(t, query);
    }
    if let Some(t) = room.topic {
        lemma_written_in(t, query);
    }
    lemma_written_in(room.room_id, query);
    lemma_written_in(list_title(rooms.titles@, room), query);
}

/// The list shows rooms in the order in which they stand, each once.
pub proof fn law_shown_in_order(rooms: RoomsState, account: Option<u128>, j: int, k: int)
    requires
        0 <= j < k < rooms.visible(account).len(),
    ensures
        rooms.visible(account)[j] < rooms.visible(account)[k] < rooms.rooms@.len(),
{
    reveal(RoomsState::visible);
    assert(rooms.rooms@.len() == rooms.rooms.len());
    lemma_ascending(rooms, account, rooms.rooms@.len() as int, j, k);
    lemma_shown_are_of_account(rooms, account, rooms.rooms@.len() as int, k);
}

proof fn lemma_ascending(rooms: RoomsState, account: Option<u128>, n: int, j: int, k: int)
    requires
        0 <= n <= rooms.rooms@.len(),
        rooms.rooms@.len() <= usize::MAX,
        0 <= j < k < rooms.shown_among(account, n).len(),
    ensures
        rooms.shown_among(account, n)[j] < rooms.shown_among(account, n)[k],
    decreases n,
{
    if n > 0 {
        let before = rooms.shown_among(account, n - 1);
        lemma_shown_are_of_account(rooms, account, n, j);
        if k < before.len() {
            lemma_ascending(rooms, account, n - 1, j, k);
        } else {
            lemma_shown_are_of_account(rooms, account, n - 1, j);
        }
    }
}

/// A room goes by its name; without one by its alias; without both by the title that its
/// members give it, and until that is known by its id.
pub proof fn law_room_goes_by(rooms: RoomsState, room: RoomView)
    ensures
        ({
            let key = RoomKeyView { account_id: room.account_id, room_id: room.room_id };
            let title = list_title(rooms.titles@, room);
            &&& room.name is Some && !nothing_written(room.name) ==> title == room.name->0
            &&& room.name is None && room.canonical_alias is Some && !nothing_written(
                room.canonical_alias,
            ) ==> title == room.canonical_alias->0
            &&& nothing_written(room.name) && nothing_written(room.canonical_alias)
                && rooms.titles@.dom().contains(key) ==> title == rooms.titles@[key]@
            &&& room.name is None && room.canonical_alias is None && !rooms.titles@.dom().contains(
                key,
            ) ==> title == room.room_id
        }),
{
    lemma_nothing_written(room);
}

/// Whether a room is pinned.
pub open spec fn pinned(pins: Seq<RoomKeyView>, room: RoomView) -> bool {
    pins.contains(RoomKeyView { account_id: room.account_id, room_id: room.room_id })
}

proof fn lemma_pin_rank(pins: Seq<RoomKeyView>, key: RoomKeyView)
    requires
        pins.len() <= usize::MAX,
    ensures
        pins.contains(key) ==> 0 <= pin_rank(pins, key) < pins.len() && pins[pin_rank(pins, key)]
            == key,
        !pins.contains(key) ==> pin_rank(pins, key) == usize::MAX,
    decreases pins.len(),
{
    if pins.len() > 0 {
        let rest = pins.drop_last();
        lemma_pin_rank(rest, key);
        if pins.last() != key {
            if pins.contains(key) {
                let k = choose|k: int| 0 <= k < pins.len() && pins[k] == key;
                assert(rest[k] == key);
            }
            if rest.contains(key) {
                let k = choose|k: int| 0 <= k < rest.len() && rest[k] == key;
                assert(pins[k] == key);
            }
        } else {
            assert(pins[pins.len() - 1] == key);
        }
    }
}

/// The list puts pinned rooms first, in the order in which they are pinned. The others
/// follow with the latest activity first, or the oldest, or by their titles in small
/// letters one way or the other.
pub proof fn law_order_of_rooms(before: RoomsState, after: RoomsState, i: int, j: int)
    requires
        resorted(before, after),
        before.pinned@.len() < usize::MAX,
        0 <= i < j < after.rooms@.len(),
    ensures
        ({
            let pins = views(before.pinned@);
            let (a, b) = (after.rooms@[i]@, after.rooms@[j]@);
            let (s, t) = (
                lowercase(list_title(before.titles@, a)),
                lowercase(list_title(before.titles@, b)),
            );
            &&& pinned(pins, b) ==> pinned(pins, a)
            &&& pinned(pins, a) && pinned(pins, b) ==> exists|p: int, q: int|
                0 <= p <= q < pins.len() && #[trigger] pins[p] == (RoomKeyView {
                    account_id: a.account_id,
                    room_id: a.room_id,
                }) && #[trigger] pins[q] == (RoomKeyView {
                    account_id: b.account_id,
                    room_id: b.room_id,
                })
            &&& !pinned(pins, a) && !pinned(pins, b) ==> match before.sort {
                RoomSort::RecentActivity => a.last_activity_ts >= b.last_activity_ts,
                RoomSort::OldestActivity => a.last_activity_ts <= b.last_activity_ts,
                RoomSort::AlphaAsc => !text_less(t, s),
                RoomSort::AlphaDesc => !text_less(s, t),
            }
        }),
{
    let rooms = views(before.rooms@);
    let pins = views(before.pinned@);
    let titles = before.list_titles();
    let order = choose|order: Seq<usize>|
        orders_rooms(order, rooms, titles, pins, before.sort) && views(after.rooms@) == Seq::new(
            rooms.len(),
            |i: int| rooms[order[i] as int],
        );
    assert(rooms_sorted(views(after.rooms@), rooms, titles, pins, before.sort));
    assert(orders_rooms(order, rooms, titles, pins, before.sort));
    let (x, y) = (order[i] as int, order[j] as int);
    let (a, b) = (after.rooms@[i]@, after.rooms@[j]@);
    assert(views(after.rooms@)[i] == a && views(after.rooms@)[j] == b);
    assert(a == rooms[x] && b == rooms[y]);
    assert(titles[x] == list_title(before.titles@, a));
    assert(titles[y] == list_title(before.titles@, b));
    let (k, l) = (
        RoomKeyView { account_id: a.account_id, room_id: a.room_id },
        RoomKeyView { account_id: b.account_id, room_id: b.room_id },
    );
    lemma_pin_rank(pins, k);
    lemma_pin_rank(pins, l);
    let (s, t) = (lowercase(titles[x]), lowercase(titles[y]));
    crate::order::lemma_text_less_total(s, t);
    if pinned(pins, a) && pinned(pins, b) {
        assert(pins[pin_rank(pins, k)] == k && pins[pin_rank(pins, l)] == l);
    }
}

/// Sorting the list neither drops a room nor adds one.
pub proof fn law_sorting_keeps_rooms(before: RoomsState, after: RoomsState)
    requires
        resorted(before, after),
    ensures
        after.rooms@.len() == before.rooms@.len(),
        forall|i: int| 0 <= i < before.rooms@.len() ==> exists|k: int|
            0 <= k < after.rooms@.len() && (#[trigger] after.rooms@[k])@ == (
            #[trigger] before.rooms@[i])@,
{
    let rooms = views(before.rooms@);
    let pins = views(before.pinned@);
    let titles = before.list_titles();
    let order = choose|order: Seq<usize>|
        orders_rooms(order, rooms, titles, pins, before.sort) && views(after.rooms@) == Seq::new(
            rooms.len(),
            |i: int| rooms[order[i] as int],
        );
    assert(orders_rooms(order, rooms, titles, pins, before.sort));
    assert(views(after.rooms@).len() == rooms.len());
    assert forall|i: int| 0 <= i < before.rooms@.len() implies exists|k: int|
        0 <= k < after.rooms@.len() && (#[trigger] after.rooms@[k])@ == (
        #[trigger] before.rooms@[i])@ by {
        crate::order::lemma_each_once_holds(order, rooms.len() as int, i);
        let k = choose|k: int| 0 <= k < order.len() && #[trigger] order[k] == i;
        assert(views(after.rooms@)[k] == after.rooms@[k]@);
        assert(after.rooms@[k]@ == rooms[i]);
    }
}

} // verus!
