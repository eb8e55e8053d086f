//! How the user moves through lists.

use vstd::prelude::*;

use crate::app::choice::{
    event_position, filter_of_word, first_not_before, last_before, message_target,
    next_filter, next_match, next_sort, picked, selection_at, selection_row, sort_of_word,
    stepped_room, AccountSelection, RoomFilterView, RoomSort,
};

verus! {

/// A step leads to the next room or the one before. From the last it leads to the first, and
/// from the first to the last.
pub proof fn law_step_to_a_room(current: int, len: int)
    requires
        0 <= current < len,
    ensures
        current + 1 < len ==> stepped_room(current, len, 1) == current + 1,
        current + 1 == len ==> stepped_room(current, len, 1) == 0,
        current > 0 ==> stepped_room(current, len, -1) == current - 1,
        current == 0 ==> stepped_room(current, len, -1) == len - 1,
        stepped_room(current, len, 0) == current,
{
    if current + 1 < len {
        vstd::arithmetic::div_mod::lemma_small_mod((current + 1) as nat, len as nat);
    } else {
        vstd::arithmetic::div_mod::lemma_mod_self_0(len);
    }
    vstd::arithmetic::div_mod::lemma_small_mod(current as nat, len as nat);
}

/// Each press of the key leads to the next candidate, and round the list. The first press
/// leads to the first one, or to the last one in the other direction.
pub proof fn law_next_candidate(current: usize, len: int)
    requires
        0 <= current < len,
    ensures
        picked(None, len, false) == 0,
        picked(None, len, true) == len - 1,
        current + 1 < len ==> picked(Some(current), len, false) == current + 1,
        current + 1 == len ==> picked(Some(current), len, false) == 0,
        current > 0 ==> picked(Some(current), len, true) == current - 1,
        current == 0 ==> picked(Some(current), len, true) == len - 1,
{
    if current + 1 < len {
        vstd::arithmetic::div_mod::lemma_small_mod((current + 1) as nat, len as nat);
    } else {
        vstd::arithmetic::div_mod::lemma_mod_self_0(len);
    }
    if current > 0 {
        vstd::arithmetic::div_mod::lemma_mod_add_multiples_vanish(current - 1, len);
        vstd::arithmetic::div_mod::lemma_small_mod((current - 1) as nat, len as nat);
    } else {
        vstd::arithmetic::div_mod::lemma_small_mod((len - 1) as nat, len as nat);
    }
}

/// The selection of a message moves by the offset and stops at the ends. Without one, the way
/// up begins at the last message and the way down at the first.
pub proof fn law_step_to_a_message(ids: Seq<Seq<char>>, i: int, offset: int)
    requires
        0 <= i < ids.len(),
        forall|k: int| 0 <= k < i ==> #[trigger] ids[k] != ids[i],
    ensures
        0 <= i + offset < ids.len() ==> message_target(ids, Some(ids[i]), offset) == i + offset,
        i + offset < 0 ==> message_target(ids, Some(ids[i]), offset) == 0,
        i + offset >= ids.len() ==> message_target(ids, Some(ids[i]), offset) == ids.len() - 1,
        offset < 0 ==> message_target(ids, None, offset) == ids.len() - 1,
        offset >= 0 ==> message_target(ids, None, offset) == 0,
{
    lemma_place(ids, i);
}

pub proof fn lemma_place(ids: Seq<Seq<char>>, i: int)
    requires
        0 <= i < ids.len(),
        forall|k: int| 0 <= k < i ==> #[trigger] ids[k] != ids[i],
    ensures
        event_position(ids, ids[i]) == i,
    decreases ids.len(),
{
    if i > 0 {
        let rest = ids.drop_first();
        assert forall|k: int| 0 <= k < i - 1 implies #[trigger] rest[k] != rest[i - 1] by {
            assert(rest[k] == ids[k + 1]);
        }
        assert(ids[0] != ids[i]);
        lemma_place(rest, i - 1);
    }
}

/// The next match is the nearest one in the direction of the search. Past the last one the
/// search begins anew where it may.
pub proof fn law_nearest_match(matches: Seq<usize>, i: int, current: usize, wrap: bool)
    requires
        0 <= i < matches.len(),
        forall|a: int, b: int|
            0 <= a < b < matches.len() ==> (#[trigger] matches[a]) < (#[trigger] matches[b]),
    ensures
        current < matches[i] && (i == 0 || matches[i - 1] <= current) ==> next_match(
            matches,
            Some(current),
            true,
            wrap,
        ) == Some(matches[i]),
        current > matches[i] && (i == matches.len() - 1 || matches[i + 1] >= current) ==> next_match(
            matches,
            Some(current),
            false,
            wrap,
        ) == Some(matches[i]),
        current >= matches.last() ==> next_match(matches, Some(current), true, wrap) == (if wrap {
            Some(matches[0])
        } else {
            None
        }),
        current <= matches[0] ==> next_match(matches, Some(current), false, wrap) == (if wrap {
            Some(matches.last())
        } else {
            None
        }),
{
    if current < matches[i] && (i == 0 || matches[i - 1] <= current) {
        lemma_first(matches, i, current + 1);
    }
    if current > matches[i] && (i == matches.len() - 1 || matches[i + 1] >= current) {
        lemma_last(matches, i, current as int);
    }
    if current >= matches.last() {
        lemma_none_after(matches, current + 1);
    }
    if current <= matches[0] {
        lemma_none_before(matches, current as int);
    }
}

proof fn lemma_first(matches: Seq<usize>, i: int, bound: int)
    requires
        0 <= i < matches.len(),
        forall|a: int, b: int|
            0 <= a < b < matches.len() ==> (#[trigger] matches[a]) < (#[trigger] matches[b]),
        matches[i] >= bound,
        i == 0 || matches[i - 1] < bound,
    ensures
        first_not_before(matches, bound) == Some(matches[i]),
    decreases matches.len(),
{
    if i > 0 {
        let rest = matches.drop_first();
        assert(matches[0] <= matches[i - 1]);
        assert forall|a: int, b: int| 0 <= a < b < rest.len() implies (#[trigger] rest[a]) < (
        #[trigger] rest[b]) by {
            assert(matches[a + 1] < matches[b + 1]);
        }
        lemma_first(rest, i - 1, bound);
    }
}

proof fn lemma_last(matches: Seq<usize>, i: int, bound: int)
    requires
        0 <= i < matches.len(),
        forall|a: int, b: int|
            0 <= a < b < matches.len() ==> (#[trigger] matches[a]) < (#[trigger] matches[b]),
        matches[i] < bound,
        i == matches.len() - 1 || matches[i + 1] >= bound,
    ensures
        last_before(matches, bound) == Some(matches[i]),
    decreases matches.len(),
{
    let last = matches.len() - 1;
    if i < last {
        assert(matches[i + 1] <= matches[last]);
        let rest = matches.drop_last();
        assert forall|a: int, b: int| 0 <= a < b < rest.len() implies (#[trigger] rest[a]) < (
        #[trigger] rest[b]) by {
            assert(matches[a] < matches[b]);
        }
        lemma_last(rest, i, bound);
    }
}

proof fn lemma_none_after(matches: Seq<usize>, bound: int)
    requires
        matches.len() > 0,
        forall|a: int, b: int|
            0 <= a < b < matches.len() ==> (#[trigger] matches[a]) < (#[trigger] matches[b]),
        matches.last() < bound,
    ensures
        first_not_before(matches, bound) is None,
    decreases matches.len(),
{
    let rest = matches.drop_first();
    reveal_with_fuel(first_not_before, 2);
    if rest.len() > 0 {
        assert(matches[0] < matches[matches.len() - 1]);
        assert forall|a: int, b: int| 0 <= a < b < rest.len() implies (#[trigger] rest[a]) < (
        #[trigger] rest[b]) by {
            assert(matches[a + 1] < matches[b + 1]);
        }
        lemma_none_after(rest, bound);
    } else {
        assert(rest =~= Seq::<usize>::empty());
    }
}

proof fn lemma_none_before(matches: Seq<usize>, bound: int)
    requires
        matches.len() > 0,
        forall|a: int, b: int|
            0 <= a < b < matches.len() ==> (#[trigger] matches[a]) < (#[trigger] matches[b]),
        matches[0] >= bound,
    ensures
        last_before(matches, bound) is None,
    decreases matches.len(),
{
    let rest = matches.drop_last();
    reveal_with_fuel(last_before, 2);
    if rest.len() > 0 {
        assert(matches[0] < matches[matches.len() - 1]);
        assert forall|a: int, b: int| 0 <= a < b < rest.len() implies (#[trigger] rest[a]) < (
        #[trigger] rest[b]) by {
            assert(matches[a] < matches[b]);
        }
        lemma_none_before(rest, bound);
    } else {
        assert(rest =~= Seq::<usize>::empty());
    }
}

/// The first row of the account list is that of all accounts. The others follow in order.
pub proof fn law_rows_of_the_account_list(i: usize)
    ensures
        selection_row(AccountSelection::All) == 0,
        selection_row(AccountSelection::Account(i)) == i + 1,
        selection_at(0) == AccountSelection::All,
        selection_at(i + 1) == AccountSelection::Account(i),
{
}

/// The filters follow one another: all rooms, direct messages, groups, unread rooms,
/// favourites, and all again. A filter by name leads back to all.
pub proof fn law_filters_in_turn(query: Seq<char>)
    ensures
        next_filter(RoomFilterView::All) == RoomFilterView::Dms,
        next_filter(RoomFilterView::Dms) == RoomFilterView::Groups,
        next_filter(RoomFilterView::Groups) == RoomFilterView::Unread,
        next_filter(RoomFilterView::Unread) == RoomFilterView::Favorites,
        next_filter(RoomFilterView::Favorites) == RoomFilterView::All,
        next_filter(RoomFilterView::Name(query)) == RoomFilterView::All,
        next_sort(RoomSort::RecentActivity) == RoomSort::OldestActivity,
        next_sort(RoomSort::OldestActivity) == RoomSort::AlphaAsc,
        next_sort(RoomSort::AlphaAsc) == RoomSort::AlphaDesc,
        next_sort(RoomSort::AlphaDesc) == RoomSort::RecentActivity,
{
}

/// A word that is no filter of its own is looked for in the names of rooms.
pub proof fn law_other_words_are_names(word: Seq<char>)
    requires
        word.len() > 9,
    ensures
        filter_of_word(word) == RoomFilterView::Name(word),
        sort_of_word(word) == RoomSort::RecentActivity,
        filter_of_word(Seq::empty()) == RoomFilterView::All,
{
    reveal_strlit("all");
    reveal_strlit("dms");
    reveal_strlit("dm");
    reveal_strlit("people");
    reveal_strlit("groups");
    reveal_strlit("group");
    reveal_strlit("rooms");
    reveal_strlit("unread");
    reveal_strlit("fav");
    reveal_strlit("favs");
    reveal_strlit("favorites");
    reveal_strlit("oldest");
    reveal_strlit("az");
    reveal_strlit("alpha");
    reveal_strlit("a-z");
    reveal_strlit("za");
    reveal_strlit("z-a");
    assert("all"@.len() == 3 && "dms"@.len() == 3 && "dm"@.len() == 2 && "people"@.len() == 6);
    assert("groups"@.len() == 6 && "group"@.len() == 5 && "rooms"@.len() == 5);
    assert("unread"@.len() == 6 && "fav"@.len() == 3 && "favs"@.len() == 4);
    assert("favorites"@.len() == 9 && "oldest"@.len() == 6 && "az"@.len() == 2);
    assert("alpha"@.len() == 5 && "a-z"@.len() == 3 && "za"@.len() == 2 && "z-a"@.len() == 3);
}

/// The other words for a filter.
pub proof fn law_words_for_filters()
    ensures
        filter_of_word("people"@) == RoomFilterView::Dms,
        filter_of_word("dm"@) == RoomFilterView::Dms,
        filter_of_word("rooms"@) == RoomFilterView::Groups,
        filter_of_word("group"@) == RoomFilterView::Groups,
        filter_of_word("fav"@) == RoomFilterView::Favorites,
        filter_of_word("favs"@) == RoomFilterView::Favorites,
        sort_of_word("alpha"@) == RoomSort::AlphaAsc,
        sort_of_word("a-z"@) == RoomSort::AlphaAsc,
        sort_of_word("z-a"@) == RoomSort::AlphaDesc,
{
    reveal_strlit("all");
    reveal_strlit("dms");
    reveal_strlit("dm");
    reveal_strlit("people");
    reveal_strlit("groups");
    reveal_strlit("group");
    reveal_strlit("rooms");
    reveal_strlit("unread");
    reveal_strlit("fav");
    reveal_strlit("favs");
    reveal_strlit("oldest");
    reveal_strlit("az");
    reveal_strlit("alpha");
    reveal_strlit("a-z");
    reveal_strlit("z-a");
    assert("all"@.len() == 3 && "all"@[0] == 'a');
    assert("dms"@.len() == 3 && "dms"@[0] == 'd');
    assert("dm"@.len() == 2);
    assert("people"@.len() == 6 && "people"@[0] == 'p');
    assert("groups"@.len() == 6 && "groups"@[0] == 'g');
    assert("group"@.len() == 5 && "group"@[0] == 'g');
    assert("rooms"@.len() == 5 && "rooms"@[0] == 'r');
    assert("unread"@.len() == 6 && "unread"@[0] == 'u');
    assert("fav"@.len() == 3 && "fav"@[0] == 'f');
    assert("favs"@.len() == 4);
    assert("oldest"@.len() == 6 && "oldest"@[0] == 'o');
    assert("az"@.len() == 2);
    assert("alpha"@.len() == 5 && "alpha"@[0] == 'a');
    assert("a-z"@.len() == 3 && "a-z"@[0] == 'a');
    assert("z-a"@.len() == 3 && "z-a"@[0] == 'z');
}

} // verus!
