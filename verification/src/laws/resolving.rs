//! Which room a target means.

use vstd::prelude::*;

use crate::api::dto::{RoomDto, RoomView};
use crate::app::room_target::{meant, meant_of, MatchRule, RoomTargetView};
use crate::app::state::RoomsState;
use crate::laws::listing::law_shown_in_order;
use crate::app::words::local_name;
use crate::text::{begins, lowercase, number_of, same_ignoring_case, trim};

verus! {

/// Whether a target is what a room is called: its id, its alias, or its name with the
/// case aside.
pub open spec fn is_called(room: RoomView, target: Seq<char>) -> bool {
    ||| room.room_id == target
    ||| room.canonical_alias == Some(target)
    ||| room.name is Some && lowercase(room.name->0) == lowercase(target)
}

proof fn lemma_none_meant(rooms: Seq<RoomDto>, visible: Seq<usize>, rule: MatchRule, target: Seq<char>)
    requires
        forall|k: int|
            0 <= k < visible.len() ==> !meant(rule, rooms[#[trigger] visible[k] as int]@, target),
    ensures
        meant_of(rooms, visible, rule, target).len() == 0,
    decreases visible.len(),
{
    if visible.len() > 0 {
        let rest = visible.drop_last();
        assert forall|k: int| 0 <= k < rest.len() implies !meant(
            rule,
            rooms[#[trigger] rest[k] as int]@,
            target,
        ) by {
            assert(rest[k] == visible[k]);
        }
        assert(visible.last() == visible[visible.len() - 1]);
        lemma_none_meant(rooms, rest, rule, target);
    }
}

proof fn lemma_one_meant(
    rooms: Seq<RoomDto>,
    visible: Seq<usize>,
    rule: MatchRule,
    target: Seq<char>,
    p: int,
)
    requires
        0 <= p < visible.len(),
        meant(rule, rooms[visible[p] as int]@, target),
        forall|k: int|
            0 <= k < visible.len() && k != p ==> !meant(
                rule,
                rooms[#[trigger] visible[k] as int]@,
                target,
            ),
    ensures
        meant_of(rooms, visible, rule, target) == seq![visible[p]],
    decreases visible.len(),
{
    let rest = visible.drop_last();
    let last = visible.len() - 1;
    assert(visible.last() == visible[last]);
    if p == last {
        assert forall|k: int| 0 <= k < rest.len() implies !meant(
            rule,
            rooms[#[trigger] rest[k] as int]@,
            target,
        ) by {
            assert(rest[k] == visible[k]);
        }
        lemma_none_meant(rooms, rest, rule, target);
        assert(meant_of(rooms, rest, rule, target) =~= Seq::<usize>::empty());
        assert(meant_of(rooms, visible, rule, target) =~= seq![visible[p]]);
    } else {
        assert forall|k: int| 0 <= k < rest.len() && k != p implies !meant(
            rule,
            rooms[#[trigger] rest[k] as int]@,
            target,
        ) by {
            assert(rest[k] == visible[k]);
        }
        lemma_one_meant(rooms, rest, rule, target, p);
        assert(!meant(rule, rooms[visible[last] as int]@, target));
    }
}

/// A target that is what exactly one of the rooms that the list shows is called means that
/// room, whatever other rooms begin with it.
pub proof fn law_called_room_is_meant(
    rooms: RoomsState,
    account: Option<u128>,
    target: Seq<char>,
    i: usize,
)
    requires
        number_of(trim(target)) is None,
        rooms.visible(account).contains(i),
        is_called(rooms.rooms@[i as int]@, trim(target)),
        forall|k: usize|
            rooms.visible(account).contains(k) && k != i ==> !is_called(
                #[trigger] rooms.rooms@[k as int]@,
                trim(target),
            ),
    ensures
        rooms.resolved_room(account, target) == RoomTargetView::Match(i),
{
    let visible = rooms.visible(account);
    let t = trim(target);
    let p = choose|p: int| 0 <= p < visible.len() && visible[p] == i;
    assert forall|k: int| 0 <= k < visible.len() && k != p implies !meant(
        MatchRule::Exact,
        rooms.rooms@[#[trigger] visible[k] as int]@,
        t,
    ) by {
        if k < p {
            law_shown_in_order(rooms, account, k, p);
        } else {
            law_shown_in_order(rooms, account, p, k);
        }
        assert(visible.contains(visible[k]));
        assert(!is_called(rooms.rooms@[visible[k] as int]@, t));
    }
    lemma_one_meant(rooms.rooms@, visible, MatchRule::Exact, t, p);
}

/// Where several of the rooms that the list shows are called what the target is, none is
/// taken: as many are offered.
pub proof fn law_shared_name_is_ambiguous(
    rooms: RoomsState,
    account: Option<u128>,
    target: Seq<char>,
    i: usize,
    j: usize,
)
    requires
        number_of(trim(target)) is None,
        i != j,
        rooms.visible(account).contains(i),
        rooms.visible(account).contains(j),
        is_called(rooms.rooms@[i as int]@, trim(target)),
        is_called(rooms.rooms@[j as int]@, trim(target)),
    ensures
        rooms.resolved_room(account, target) matches RoomTargetView::Ambiguous(options)
            && options.len() >= 2,
{
    let visible = rooms.visible(account);
    let t = trim(target);
    let p = choose|p: int| 0 <= p < visible.len() && visible[p] == i;
    let q = choose|q: int| 0 <= q < visible.len() && visible[q] == j;
    lemma_two_meant(rooms.rooms@, visible, MatchRule::Exact, t, p, q);
}

proof fn lemma_two_meant(
    rooms: Seq<RoomDto>,
    visible: Seq<usize>,
    rule: MatchRule,
    target: Seq<char>,
    p: int,
    q: int,
)
    requires
        0 <= p < visible.len(),
        0 <= q < visible.len(),
        p != q,
        meant(rule, rooms[visible[p] as int]@, target),
        meant(rule, rooms[visible[q] as int]@, target),
    ensures
        meant_of(rooms, visible, rule, target).len() >= 2,
    decreases visible.len(),
{
    let rest = visible.drop_last();
    let last = visible.len() - 1;
    if p < last && q < last {
        lemma_two_meant(rooms, rest, rule, target, p, q);
    } else {
        let other = if p == last {
            q
        } else {
            p
        };
        lemma_some_meant(rooms, rest, rule, target, other);
    }
}

proof fn lemma_some_meant(
    rooms: Seq<RoomDto>,
    visible: Seq<usize>,
    rule: MatchRule,
    target: Seq<char>,
    p: int,
)
    requires
        0 <= p < visible.len(),
        meant(rule, rooms[visible[p] as int]@, target),
    ensures
        meant_of(rooms, visible, rule, target).len() >= 1,
    decreases visible.len(),
{
    if p < visible.len() - 1 {
        lemma_some_meant(rooms, visible.drop_last(), rule, target, p);
    }
}

/// A number means the room at that place of the list, counted from one, and no room where
/// the list is shorter.
pub proof fn law_number_is_a_place(rooms: RoomsState, account: Option<u128>, target: Seq<char>, n: nat)
    requires
        number_of(trim(target)) == Some(n),
        n <= usize::MAX,
    ensures
        1 <= n <= rooms.visible(account).len() ==> rooms.resolved_room(account, target)
            == RoomTargetView::Match(rooms.visible(account)[n - 1]),
        n == 0 || n > rooms.visible(account).len() ==> rooms.resolved_room(account, target)
            == RoomTargetView::Missing,
{
}

/// A target that no room is called, and that the name of one room alone begins with, the
/// case aside, means that room.
pub proof fn law_beginning_of_a_name(
    rooms: RoomsState,
    account: Option<u128>,
    target: Seq<char>,
    i: usize,
)
    requires
        number_of(trim(target)) is None,
        rooms.visible(account).contains(i),
        ({
            let name = rooms.rooms@[i as int]@.name;
            name is Some && begins(lowercase(name->0), lowercase(trim(target)))
        }),
        forall|k: usize, rule: MatchRule|
            rooms.visible(account).contains(k) && k != i ==> !(#[trigger] meant(
                rule,
                rooms.rooms@[k as int]@,
                trim(target),
            )),
    ensures
        rooms.resolved_room(account, target) == RoomTargetView::Match(i),
{
    let visible = rooms.visible(account);
    let t = trim(target);
    let p = choose|p: int| 0 <= p < visible.len() && visible[p] == i;
    let room = rooms.rooms@[i as int]@;
    assert forall|k: int, rule: MatchRule| 0 <= k < visible.len() && k != p implies !(
    #[trigger] meant(rule, rooms.rooms@[visible[k] as int]@, t)) by {
        if k < p {
            law_shown_in_order(rooms, account, k, p);
        } else {
            law_shown_in_order(rooms, account, p, k);
        }
        assert(visible.contains(visible[k]));
        assert(!meant(rule, rooms.rooms@[visible[k] as int]@, t));
    }
    lemma_by_rule(rooms, visible, MatchRule::Exact, t, p);
    lemma_by_rule(rooms, visible, MatchRule::Alias, t, p);
    lemma_by_rule(rooms, visible, MatchRule::Local, t, p);
    lemma_trimmed_twice(target);
    assert(meant(MatchRule::Prefix, room, t));
    lemma_by_rule(rooms, visible, MatchRule::Prefix, t, p);
}

proof fn lemma_by_rule(rooms: RoomsState, visible: Seq<usize>, rule: MatchRule, t: Seq<char>, p: int)
    requires
        0 <= p < visible.len(),
        forall|k: int|
            0 <= k < visible.len() && k != p ==> !(#[trigger] meant(
                rule,
                rooms.rooms@[visible[k] as int]@,
                t,
            )),
    ensures
        meant_of(rooms.rooms@, visible, rule, t) == (if meant(
            rule,
            rooms.rooms@[visible[p] as int]@,
            t,
        ) {
            seq![visible[p]]
        } else {
            Seq::empty()
        }),
{
    assert forall|k: int| 0 <= k < visible.len() && k != p implies !meant(
        rule,
        rooms.rooms@[#[trigger] visible[k] as int]@,
        t,
    ) by {
        assert(!meant(rule, rooms.rooms@[visible[k] as int]@, t));
    }
    if meant(rule, rooms.rooms@[visible[p] as int]@, t) {
        lemma_one_meant(rooms.rooms@, visible, rule, t, p);
    } else {
        lemma_none_meant(rooms.rooms@, visible, rule, t);
        assert(meant_of(rooms.rooms@, visible, rule, t) =~= Seq::<usize>::empty());
    }
}

pub proof fn lemma_trimmed_twice(s: Seq<char>)
    ensures
        trim(trim(s)) == trim(s),
{
    lemma_start_trimmed(s);
    let t = crate::text::trim_start(s);
    lemma_end_trimmed(t);
    let u = crate::text::trim_end(t);
    if u.len() > 0 {
        assert(u[0] == t[0]);
    }
    assert(crate::text::trim_start(u) == u);
    assert(crate::text::trim_end(u) == u);
}

proof fn lemma_start_trimmed(s: Seq<char>)
    ensures
        crate::text::trim_start(s).len() == 0 || !crate::text::is_white(
            crate::text::trim_start(s)[0],
        ),
    decreases s.len(),
{
    if s.len() > 0 && crate::text::is_white(s[0]) {
        lemma_start_trimmed(s.drop_first());
    }
}

proof fn lemma_end_trimmed(s: Seq<char>)
    ensures
        ({
            let t = crate::text::trim_end(s);
            &&& t.len() <= s.len()
            &&& t == s.take(t.len() as int)
            &&& t.len() == 0 || !crate::text::is_white(t.last())
        }),
    decreases s.len(),
{
    if s.len() > 0 && crate::text::is_white(s.last()) {
        lemma_end_trimmed(s.drop_last());
        let t = crate::text::trim_end(s);
        assert(s.drop_last().take(t.len() as int) =~= s.take(t.len() as int));
    } else {
        assert(s.take(s.len() as int) =~= s);
    }
}

proof fn lemma_nobody_called(rooms: RoomsState, account: Option<u128>, t: Seq<char>)
    requires
        forall|k: usize|
            rooms.visible(account).contains(k) ==> !is_called(#[trigger] rooms.rooms@[k as int]@, t),
    ensures
        meant_of(rooms.rooms@, rooms.visible(account), MatchRule::Exact, t).len() == 0,
{
    let visible = rooms.visible(account);
    assert forall|k: int| 0 <= k < visible.len() implies !meant(
        MatchRule::Exact,
        rooms.rooms@[#[trigger] visible[k] as int]@,
        t,
    ) by {
        assert(visible.contains(visible[k]));
        assert(!is_called(rooms.rooms@[visible[k] as int]@, t));
    }
    lemma_none_meant(rooms.rooms@, visible, MatchRule::Exact, t);
}

/// An alias that was typed without its number sign means the room with that alias, where no
/// room is called so.
pub proof fn law_alias_without_its_sign(
    rooms: RoomsState,
    account: Option<u128>,
    target: Seq<char>,
    i: usize,
)
    requires
        number_of(trim(target)) is None,
        trim(target).len() > 0,
        trim(target)[0] != '#',
        trim(target)[0] != '!',
        trim(target).contains(':'),
        rooms.visible(account).contains(i),
        rooms.rooms@[i as int]@.canonical_alias == Some("#"@ + trim(target)),
        forall|k: usize|
            rooms.visible(account).contains(k) ==> !is_called(
                #[trigger] rooms.rooms@[k as int]@,
                trim(target),
            ),
        forall|k: usize|
            rooms.visible(account).contains(k) && k != i ==> (
            #[trigger] rooms.rooms@[k as int])@.canonical_alias != Some("#"@ + trim(target)),
    ensures
        rooms.resolved_room(account, target) == RoomTargetView::Match(i),
{
    let visible = rooms.visible(account);
    let t = trim(target);
    lemma_trimmed_twice(target);
    lemma_nobody_called(rooms, account, t);
    let p = choose|p: int| 0 <= p < visible.len() && visible[p] == i;
    assert forall|k: int| 0 <= k < visible.len() && k != p implies !meant(
        MatchRule::Alias,
        rooms.rooms@[#[trigger] visible[k] as int]@,
        t,
    ) by {
        if k < p {
            law_shown_in_order(rooms, account, k, p);
        } else {
            law_shown_in_order(rooms, account, p, k);
        }
        assert(visible.contains(visible[k]));
        assert(rooms.rooms@[visible[k] as int]@.canonical_alias != Some("#"@ + t));
    }
    lemma_one_meant(rooms.rooms@, visible, MatchRule::Alias, t, p);
}

/// The part of an alias before its server means the room with that alias, the case of letters
/// aside, where no room is called so and no other has such an alias or id.
pub proof fn law_alias_without_its_server(
    rooms: RoomsState,
    account: Option<u128>,
    target: Seq<char>,
    i: usize,
)
    requires
        number_of(trim(target)) is None,
        trim(target).len() > 0,
        trim(target)[0] != '#',
        trim(target)[0] != '!',
        !trim(target).contains(':'),
        rooms.visible(account).contains(i),
        rooms.rooms@[i as int]@.canonical_alias is Some,
        local_name(rooms.rooms@[i as int]@.canonical_alias->0) is Some,
        same_ignoring_case(
            local_name(rooms.rooms@[i as int]@.canonical_alias->0)->0,
            trim(target),
        ),
        forall|k: usize|
            rooms.visible(account).contains(k) ==> !is_called(
                #[trigger] rooms.rooms@[k as int]@,
                trim(target),
            ),
        forall|k: usize|
            rooms.visible(account).contains(k) && k != i ==> !(#[trigger] meant(
                MatchRule::Local,
                rooms.rooms@[k as int]@,
                trim(target),
            )),
    ensures
        rooms.resolved_room(account, target) == RoomTargetView::Match(i),
{
    let visible = rooms.visible(account);
    let t = trim(target);
    lemma_trimmed_twice(target);
    lemma_nobody_called(rooms, account, t);
    let p = choose|p: int| 0 <= p < visible.len() && visible[p] == i;
    assert forall|k: int| 0 <= k < visible.len() implies !meant(
        MatchRule::Alias,
        rooms.rooms@[#[trigger] visible[k] as int]@,
        t,
    ) by {
    }
    lemma_none_meant(rooms.rooms@, visible, MatchRule::Alias, t);
    assert(crate::app::words::without_sigils(t) == t);
    assert(crate::app::words::incomplete_name(t) == Some(t));
    assert(meant(MatchRule::Local, rooms.rooms@[i as int]@, t));
    assert forall|k: int| 0 <= k < visible.len() && k != p implies !meant(
        MatchRule::Local,
        rooms.rooms@[#[trigger] visible[k] as int]@,
        t,
    ) by {
        if k < p {
            law_shown_in_order(rooms, account, k, p);
        } else {
            law_shown_in_order(rooms, account, p, k);
        }
        assert(visible.contains(visible[k]));
        assert(!meant(MatchRule::Local, rooms.rooms@[visible[k] as int]@, t));
    }
    lemma_one_meant(rooms.rooms@, visible, MatchRule::Local, t, p);
}

/// A target that fits no room means none.
pub proof fn law_target_of_no_room(rooms: RoomsState, account: Option<u128>, target: Seq<char>)
    requires
        number_of(trim(target)) is None,
        forall|k: usize, rule: MatchRule|
            rooms.visible(account).contains(k) ==> !(#[trigger] meant(
                rule,
                rooms.rooms@[k as int]@,
                trim(target),
            )),
    ensures
        rooms.resolved_room(account, target) == RoomTargetView::Missing,
{
    let visible = rooms.visible(account);
    let t = trim(target);
    assert forall|k: int, rule: MatchRule| 0 <= k < visible.len() implies !(#[trigger] meant(
        rule,
        rooms.rooms@[visible[k] as int]@,
        t,
    )) by {
        assert(visible.contains(visible[k]));
        assert(!meant(rule, rooms.rooms@[visible[k] as int]@, t));
    }
    lemma_none_by(rooms, visible, MatchRule::Exact, t);
    lemma_none_by(rooms, visible, MatchRule::Alias, t);
    lemma_none_by(rooms, visible, MatchRule::Local, t);
    lemma_none_by(rooms, visible, MatchRule::Prefix, t);
}

proof fn lemma_none_by(rooms: RoomsState, visible: Seq<usize>, rule: MatchRule, t: Seq<char>)
    requires
        forall|k: int|
            0 <= k < visible.len() ==> !(#[trigger] meant(
                rule,
                rooms.rooms@[visible[k] as int]@,
                t,
            )),
    ensures
        meant_of(rooms.rooms@, visible, rule, t).len() == 0,
{
    assert forall|k: int| 0 <= k < visible.len() implies !meant(
        rule,
        rooms.rooms@[#[trigger] visible[k] as int]@,
        t,
    ) by {
        assert(!meant(rule, rooms.rooms@[visible[k] as int]@, t));
    }
    lemma_none_meant(rooms.rooms@, visible, rule, t);
}

} // verus!
