//! How rooms are pinned, accounts chosen, and direct messages named.

use vstd::prelude::*;

use crate::api::dto::{AccountView, MemberView};
use crate::app::choice::{room_key, AccountSelection, RoomKeyView};
use crate::app::rooms::{
    by_user_id, localpart, member_name, others_of, title_of_members, titled_by_members, user_order,
};
use crate::app::room_target::RoomTargetView;
use crate::app::state::App;
use crate::app::switching::{
    account_meant, account_switched, account_target, accounts_meant, room_pinned, room_switched,
    room_unpinned, without_key, AccountRule, AccountTarget, PinChange,
};
use crate::text::{is_blank, lowercase, number_of, trim, views};

verus! {

proof fn lemma_without(keys: Seq<RoomKeyView>, key: RoomKeyView)
    ensures
        without_key(keys, key) == keys.filter(|k: RoomKeyView| k != key),
        !without_key(keys, key).contains(key),
    decreases keys.len(),
{
    reveal(Seq::filter);
    if keys.len() > 0 {
        lemma_without(keys.drop_last(), key);
        let all = without_key(keys, key);
        if all.contains(key) {
            let p = choose|p: int| 0 <= p < all.len() && all[p] == key;
            let before = without_key(keys.drop_last(), key);
            if p < before.len() {
                assert(before[p] == key);
                assert(before.contains(key));
            }
        }
    }
}

/// A room that is pinned stands first among the pinned ones, once. The others keep their
/// order, and the rooms that are written down are those.
pub proof fn law_pinned_room_stands_first(
    before: App,
    after: App,
    change: Option<PinChange>,
    i: usize,
)
    requires
        room_pinned(before, after, None, change),
        before.rooms.selected == Some(i),
    ensures
        ({
            let key = room_key(before.rooms.rooms@[i as int]@);
            let pins = views(after.rooms.pinned@);
            &&& pins.len() > 0
            &&& pins[0] == key
            &&& pins.skip(1) == views(before.rooms.pinned@).filter(|k: RoomKeyView| k != key)
            &&& change is Some
            &&& change->0.pinned
            &&& change->0.entries@.len() == pins.len()
        }),
{
    let key = room_key(before.rooms.rooms@[i as int]@);
    lemma_without(views(before.rooms.pinned@), key);
    let pins = views(after.rooms.pinned@);
    assert(pins.skip(1) =~= without_key(views(before.rooms.pinned@), key));
    assert(views(change->0.entries@).len() == pins.len());
}

/// A room that is unpinned is no longer among the pinned ones. The others keep their order.
/// What is not pinned cannot be unpinned.
pub proof fn law_unpinned_room_is_gone(
    before: App,
    after: App,
    change: Option<PinChange>,
    i: usize,
)
    requires
        room_unpinned(before, after, None, change),
        before.rooms.selected == Some(i),
    ensures
        ({
            let key = room_key(before.rooms.rooms@[i as int]@);
            let pins = views(before.rooms.pinned@);
            &&& pins.contains(key) ==> change is Some && !change->0.pinned && views(
                after.rooms.pinned@,
            ) == pins.filter(|k: RoomKeyView| k != key)
            &&& !pins.contains(key) ==> change is None && after.rooms == before.rooms
        }),
{
    lemma_without(views(before.rooms.pinned@), room_key(before.rooms.rooms@[i as int]@));
}

/// A room that a target means is the one that is selected, and is loaded. Where it means
/// none, the selection stays.
pub proof fn law_switch_selects_the_room_meant(before: App, after: App, target: Seq<char>, load: bool)
    requires
        room_switched(before, after, target, load),
    ensures
        before.rooms.resolved_room(before.account_shown(), target) matches RoomTargetView::Match(i)
            ==> load && after.rooms.selected == Some(i),
        !(before.rooms.resolved_room(before.account_shown(), target) is Match) ==> !load
            && after.rooms == before.rooms,
{
}

proof fn lemma_one_account(rule: AccountRule, accounts: Seq<AccountView>, target: Seq<char>, n: int, i: int)
    requires
        0 <= i < accounts.len(),
        0 <= n <= accounts.len() <= usize::MAX,
        account_meant(rule, accounts[i], target),
        forall|k: int|
            0 <= k < accounts.len() && k != i ==> !account_meant(rule, #[trigger] accounts[k], target),
    ensures
        accounts_meant(rule, accounts, target, n) == (if i < n {
            seq![i as usize]
        } else {
            Seq::empty()
        }),
    decreases n,
{
    if n > 0 {
        lemma_one_account(rule, accounts, target, n - 1, i);
        if n - 1 == i {
            assert(accounts_meant(rule, accounts, target, n) =~= seq![i as usize]);
        } else {
            assert(!account_meant(rule, accounts[n - 1], target));
        }
    }
}

proof fn lemma_no_account(rule: AccountRule, accounts: Seq<AccountView>, target: Seq<char>, n: int)
    requires
        0 <= n <= accounts.len(),
        forall|k: int|
            0 <= k < accounts.len() ==> !account_meant(rule, #[trigger] accounts[k], target),
    ensures
        accounts_meant(rule, accounts, target, n).len() == 0,
    decreases n,
{
    if n > 0 {
        lemma_no_account(rule, accounts, target, n - 1);
        assert(!account_meant(rule, accounts[n - 1], target));
    }
}

/// The account whose user a target names, the case aside, is the one that is shown, whatever
/// other users hold that text.
pub proof fn law_account_with_the_user_is_shown(
    before: App,
    after: App,
    target: Seq<char>,
    done: bool,
    i: int,
)
    requires
        account_switched(before, after, target, done),
        number_of(target) is None,
        !crate::text::same_ignoring_case(target, "all"@),
        target != "0"@,
        0 <= i < before.accounts.accounts@.len() <= usize::MAX,
        lowercase(before.accounts.accounts@[i].user_id@) == lowercase(target),
        forall|k: int|
            0 <= k < before.accounts.accounts@.len() && k != i ==> lowercase(
                (#[trigger] before.accounts.accounts@[k]).user_id@,
            ) != lowercase(target),
    ensures
        done,
        after.accounts.selected == AccountSelection::Account(i as usize),
{
    let accounts = views(before.accounts.accounts@);
    assert forall|k: int| 0 <= k < accounts.len() && k != i implies !account_meant(
        AccountRule::Whole,
        #[trigger] accounts[k],
        target,
    ) by {
        assert(accounts[k] == before.accounts.accounts@[k]@);
    }
    lemma_one_account(AccountRule::Whole, accounts, target, accounts.len() as int, i);
}

/// The account with a user name that no other has is the one that is shown.
pub proof fn law_account_with_the_name_is_shown(accounts: Seq<AccountView>, target: Seq<char>, i: int)
    requires
        number_of(target) is None,
        !crate::text::same_ignoring_case(target, "all"@),
        target != "0"@,
        target.len() > 0,
        target[0] != '@',
        0 <= i < accounts.len() <= usize::MAX,
        localpart(accounts[i].user_id) == Some(target),
        forall|k: int|
            0 <= k < accounts.len() && k != i ==> localpart((#[trigger] accounts[k]).user_id) != Some(
                target,
            ),
        forall|k: int|
            0 <= k < accounts.len() ==> lowercase((#[trigger] accounts[k]).user_id) != lowercase(
                target,
            ),
    ensures
        account_target(accounts, target) == AccountTarget::One(i as usize),
{
    assert(crate::text::trim_start_char(target, '@') == target);
    lemma_no_account(AccountRule::Whole, accounts, target, accounts.len() as int);
    lemma_one_account(AccountRule::Local, accounts, target, accounts.len() as int, i);
}

/// A number means the account at that place, counted from one. Zero, and the word for it,
/// mean all accounts.
pub proof fn law_account_at_a_place(accounts: Seq<AccountView>, target: Seq<char>, n: nat)
    requires
        accounts.len() <= usize::MAX,
    ensures
        target == "0"@ || target == "all"@ ==> account_target(accounts, target)
            == AccountTarget::All,
        number_of(target) == Some(n) && 1 <= n <= accounts.len() && !crate::text::same_ignoring_case(
            target,
            "all"@,
        ) && target != "0"@ ==> account_target(accounts, target) == AccountTarget::One(
            (n - 1) as usize,
        ),
{
}

/// All accounts are shown again where all are asked for.
pub proof fn law_all_accounts_are_shown(before: App, after: App, done: bool)
    requires
        account_switched(before, after, "all"@, done),
    ensures
        done,
        after.accounts.selected == AccountSelection::All,
{
}

/// A direct message with one other goes by their name, whoever the user is.
pub proof fn law_direct_message_goes_by_the_other(
    title: Option<Seq<char>>,
    own: Seq<char>,
    members: Seq<MemberView>,
    i: int,
)
    requires
        titled_by_members(title, Some(own), members),
        0 <= i < members.len(),
        members[i].user_id != own,
        forall|k: int|
            0 <= k < members.len() && k != i ==> (#[trigger] members[k]).user_id == own,
    ensures
        title == Some(member_name(members[i])),
{
    lemma_one_other(own, members, i);
    let others = others_of(members, Some(own));
    let sorted = choose|sorted: Seq<MemberView>| #[trigger]
        by_user_id(sorted, others) && title->0 == title_of_members(sorted);
    let order = choose|order: Seq<usize>| #[trigger]
        user_order(order, others) && sorted == Seq::new(
            others.len(),
            |k: int| others[order[k] as int],
        );
    assert(order[0] < 1);
    assert(sorted[0] == members[i]);
    let names = Seq::new(1nat, |k: int| member_name(sorted[k]));
    reveal_with_fuel(crate::text::joined, 2);
    assert(names.drop_last() =~= Seq::<Seq<char>>::empty());
    assert(crate::text::joined(names, ", "@) =~= member_name(members[i]));
}

proof fn lemma_one_other(own: Seq<char>, members: Seq<MemberView>, i: int)
    requires
        0 <= i < members.len(),
        members[i].user_id != own,
        forall|k: int|
            0 <= k < members.len() && k != i ==> (#[trigger] members[k]).user_id == own,
    ensures
        others_of(members, Some(own)) == seq![members[i]],
    decreases members.len(),
{
    let rest = members.drop_last();
    assert(members.last() == members[members.len() - 1]);
    if i == members.len() - 1 {
        lemma_no_other(own, rest);
        assert(others_of(members, Some(own)) =~= seq![members[i]]);
    } else {
        assert forall|k: int| 0 <= k < rest.len() && k != i implies (#[trigger] rest[k]).user_id
            == own by {
            assert(rest[k] == members[k]);
        }
        lemma_one_other(own, rest, i);
    }
}

proof fn lemma_no_other(own: Seq<char>, members: Seq<MemberView>)
    requires
        forall|k: int| 0 <= k < members.len() ==> (#[trigger] members[k]).user_id == own,
    ensures
        others_of(members, Some(own)).len() == 0,
    decreases members.len(),
{
    if members.len() > 0 {
        let rest = members.drop_last();
        assert(members.last() == members[members.len() - 1]);
        assert forall|k: int| 0 <= k < rest.len() implies (#[trigger] rest[k]).user_id == own by {
            assert(rest[k] == members[k]);
        }
        lemma_no_other(own, rest);
    }
}

/// All members but the user are counted for the title, in the order of the server.
pub proof fn law_others_of_a_room(members: Seq<MemberView>, own: Seq<char>)
    ensures
        others_of(members, Some(own)) == members.filter(|m: MemberView| m.user_id != own),
        others_of(members, None) == members,
    decreases members.len(),
{
    reveal(Seq::filter);
    if members.len() > 0 {
        law_others_of_a_room(members.drop_last(), own);
        assert(members.drop_last().push(members.last()) =~= members);
    } else {
        assert(others_of(members, None) =~= members);
    }
}

/// A member goes by the name that they gave themselves, else by their user name.
pub proof fn law_what_a_member_is_called(member: MemberView, local: Seq<char>)
    ensures
        member.display_name is Some && !is_blank(member.display_name->0) ==> member_name(member)
            == trim(member.display_name->0),
        (member.display_name is None || is_blank(member.display_name->0)) && localpart(
            member.user_id,
        ) == Some(local) ==> member_name(member) == "@"@ + local,
        (member.display_name is None || is_blank(member.display_name->0)) && localpart(
            member.user_id,
        ) is None ==> member_name(member) == member.user_id,
{
}

/// Of more than three members the first three are named and the rest counted.
pub proof fn law_title_of_many(sorted: Seq<MemberView>)
    ensures
        sorted.len() == 2 ==> title_of_members(sorted) == member_name(sorted[0]) + ", "@
            + member_name(sorted[1]),
        sorted.len() > 3 ==> title_of_members(sorted) == member_name(sorted[0]) + ", "@
            + member_name(sorted[1]) + ", "@ + member_name(sorted[2]) + ", +"@
            + crate::text::decimal((sorted.len() - 3) as nat),
{
    reveal_with_fuel(crate::text::joined, 4);
    let three = Seq::new(3nat, |i: int| member_name(sorted[i]));
    let two = Seq::new(2nat, |i: int| member_name(sorted[i]));
    let one = Seq::new(1nat, |i: int| member_name(sorted[i]));
    assert(three.drop_last() =~= two);
    assert(two.drop_last() =~= one);
    assert(one.drop_last() =~= Seq::<Seq<char>>::empty());
    if sorted.len() == 2 {
        assert(title_of_members(sorted) =~= member_name(sorted[0]) + ", "@ + member_name(sorted[1]));
    }
    if sorted.len() > 3 {
        assert(title_of_members(sorted) =~= member_name(sorted[0]) + ", "@ + member_name(sorted[1])
            + ", "@ + member_name(sorted[2]) + ", +"@ + crate::text::decimal(
            (sorted.len() - 3) as nat,
        ));
    }
}

} // verus!
