//! What a new list of rooms changes, and what is asked for at the start.

use vstd::prelude::*;

use crate::api::dto::RoomView;
use crate::app::choice::{room_key, RoomKeyView};
use crate::app::refresh::{
    keys_gone, reselected_in, rooms_kept, rooms_refreshed, senders_of, title_window,
};
use crate::app::room_list::{reselected, room_position};

use crate::app::state::{App, RoomsState};
use crate::laws::listing::nothing_written;
use crate::text::views;

verus! {

/// Rooms of accounts that are known to be inactive are not listed. The others are, in the
/// order in which they came.
pub proof fn law_rooms_of_active_accounts(rooms: Seq<RoomView>, inactive: Seq<u128>)
    ensures
        rooms_kept(rooms, inactive) == rooms.filter(
            |r: RoomView| !inactive.contains(r.account_id),
        ),
    decreases rooms.len(),
{
    reveal(Seq::filter);
    if rooms.len() > 0 {
        law_rooms_of_active_accounts(rooms.drop_last(), inactive);
    }
}

pub proof fn lemma_room_at(rooms: Seq<RoomView>, key: RoomKeyView, i: int)
    requires
        0 <= i <= rooms.len(),
        i < rooms.len() ==> room_key(rooms[i]) == key,
        forall|k: int| 0 <= k < i ==> room_key(#[trigger] rooms[k]) != key,
    ensures
        room_position(rooms, key) == i,
    decreases rooms.len(),
{
    if i > 0 {
        let rest = rooms.drop_first();
        assert forall|k: int| 0 <= k < i - 1 implies room_key(#[trigger] rest[k]) != key by {
            assert(rest[k] == rooms[k + 1]);
        }
        assert(room_key(rooms[0]) != key);
        lemma_room_at(rest, key, i - 1);
    }
}

/// The selected room stays selected wherever it now stands.
pub proof fn law_selected_room_follows(before: RoomsState, rooms: Seq<RoomView>, i: int)
    requires
        before.chosen() is Some,
        0 <= i < rooms.len() <= usize::MAX,
        rooms[i].account_id == before.chosen()->0.account_id,
        rooms[i].room_id == before.chosen()->0.room_id@,
        forall|k: int| 0 <= k < i ==> room_key(#[trigger] rooms[k]) != room_key(rooms[i]),
    ensures
        reselected_in(before, rooms) == Some(i as usize),
        reselected(rooms, room_key(rooms[i])) == Some(i as usize),
{
    lemma_room_at(rooms, room_key(rooms[i]), i);
}

proof fn lemma_gone(before: Seq<RoomView>, after: Seq<RoomView>, i: int)
    requires
        0 <= i < before.len(),
        forall|k: int| 0 <= k < after.len() ==> room_key(#[trigger] after[k]) != room_key(before[i]),
    ensures
        keys_gone(before, after).contains(room_key(before[i])),
    decreases before.len(),
{
    let rest = before.drop_last();
    let gone = keys_gone(rest, after);
    let all = keys_gone(before, after);
    if i == before.len() - 1 {
        lemma_room_at(after, room_key(before[i]), after.len() as int);
        assert(all[gone.len() as int] == room_key(before[i]));
    } else {
        lemma_gone(rest, after, i);
        let p = choose|p: int| 0 <= p < gone.len() && gone[p] == room_key(before[i]);
        assert(all[p] == room_key(before[i]));
    }
}

proof fn lemma_not_gone(before: Seq<RoomView>, after: Seq<RoomView>, key: RoomKeyView, i: int)
    requires
        0 <= i < after.len(),
        room_key(after[i]) == key,
    ensures
        !keys_gone(before, after).contains(key),
    decreases before.len(),
{
    if before.len() > 0 {
        let rest = before.drop_last();
        lemma_not_gone(rest, after, key, i);
        lemma_at_most(after, key, i);
        let gone = keys_gone(rest, after);
        let all = keys_gone(before, after);
        if all.contains(key) {
            let p = choose|p: int| 0 <= p < all.len() && all[p] == key;
            if p < gone.len() {
                assert(gone[p] == key);
                assert(gone.contains(key));
            }
        }
    }
}

proof fn lemma_at_most(rooms: Seq<RoomView>, key: RoomKeyView, i: int)
    requires
        0 <= i < rooms.len(),
        room_key(rooms[i]) == key,
    ensures
        room_position(rooms, key) <= i,
    decreases rooms.len(),
{
    if i > 0 && room_key(rooms[0]) != key {
        assert(rooms.drop_first()[i - 1] == rooms[i]);
        lemma_at_most(rooms.drop_first(), key, i - 1);
    }
}

/// Of a room that is gone nothing is kept. What is kept of a room that stays is what there
/// was.
pub proof fn law_nothing_is_kept_of_a_lost_room(
    before: App,
    after: App,
    rooms: Seq<RoomView>,
    i: int,
    other: int,
)
    requires
        rooms_refreshed(before, after, rooms),
        0 <= i < before.rooms.rooms@.len(),
        forall|k: int|
            0 <= k < after.rooms.rooms@.len() ==> room_key((#[trigger] after.rooms.rooms@[k])@)
                != room_key(before.rooms.rooms@[i]@),
        0 <= other < after.rooms.rooms@.len(),
    ensures
        ({
            let lost = room_key(before.rooms.rooms@[i]@);
            let kept = room_key(after.rooms.rooms@[other]@);
            &&& !after.messages.events@.dom().contains(lost)
            &&& !after.rooms.unread@.dom().contains(lost)
            &&& !after.rooms.titles@.dom().contains(lost)
            &&& !after.rooms.display_names@.dom().contains(lost)
            &&& !after.messages.history_cursors@.dom().contains(lost)
            &&& before.messages.events@.dom().contains(kept)
                ==> after.messages.events@.dom().contains(kept) && after.messages.events@[kept]
                == before.messages.events@[kept]
            &&& before.rooms.unread@.dom().contains(kept) ==> after.rooms.unread@.dom().contains(
                kept,
            ) && after.rooms.unread@[kept] == before.rooms.unread@[kept]
        }),
{
    let was = views(before.rooms.rooms@);
    let now = views(after.rooms.rooms@);
    assert forall|k: int| 0 <= k < now.len() implies room_key(#[trigger] now[k]) != room_key(was[i]) by {
        assert(now[k] == after.rooms.rooms@[k]@);
    }
    lemma_gone(was, now, i);
    lemma_not_gone(was, now, room_key(now[other]), other);
    let gone = keys_gone(was, now).to_set();
    assert(gone.contains(room_key(was[i])));
    assert(!gone.contains(room_key(now[other])));
}

/// Who the user of an account is, is told by the rooms of the account, the last one that
/// says it.
pub proof fn law_user_told_by_rooms(known: Map<u128, Seq<char>>, rooms: Seq<RoomView>, i: int)
    requires
        0 <= i < rooms.len(),
        rooms[i].account_user_id is Some,
        forall|k: int|
            i < k < rooms.len() ==> (#[trigger] rooms[k]).account_id != rooms[i].account_id
                || rooms[k].account_user_id is None,
    ensures
        senders_of(known, rooms).dom().contains(rooms[i].account_id),
        senders_of(known, rooms)[rooms[i].account_id] == rooms[i].account_user_id->0,
    decreases rooms.len(),
{
    let rest = rooms.drop_last();
    assert(rooms.last() == rooms[rooms.len() - 1]);
    if i < rooms.len() - 1 {
        assert forall|k: int| i < k < rest.len() implies (#[trigger] rest[k]).account_id
            != rest[i].account_id || rest[k].account_user_id is None by {
            assert(rest[k] == rooms[k]);
        }
        law_user_told_by_rooms(known, rest, i);
    }
}

/// Titles are asked for of the rooms that are on the screen and a few round them, as long as
/// they are in the list.
pub proof fn law_rooms_near_the_screen(scroll: int, page: int, len: int, row: int)
    requires
        scroll >= 0,
        page > 0,
        0 <= row < len,
        scroll <= row < scroll + page,
    ensures
        title_window(scroll, page, len).0 <= row < title_window(scroll, page, len).1 <= len,
{
}

/// Titles are asked for of direct messages that have none, and of which it is not known that
/// they have none.
pub proof fn law_which_rooms_want_titles(rooms: RoomsState, room: RoomView)
    ensures
        rooms.wants_title(room) ==> !rooms.titles@.dom().contains(room_key(room))
            && !rooms.without_title@.dom().contains(room_key(room)),
        rooms.wants_title(room) ==> nothing_written(room.name) && nothing_written(
            room.canonical_alias,
        ),
        nothing_written(room.name) && nothing_written(room.canonical_alias)
            && !rooms.titles@.dom().contains(room_key(room))
            && !rooms.without_title@.dom().contains(room_key(room)) ==> rooms.wants_title(room),
{
    crate::laws::listing::lemma_nothing_written(room);
}

} // verus!
