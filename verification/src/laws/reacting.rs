//! How reactions are counted, shown and taken back.

use vstd::prelude::*;

use crate::api::client::Method;
use crate::api::dto::{EventView, TallyView};
use crate::api::event::reaction_of;
use crate::app::reactions::{
    arrived_on, badges_collected, last_badged, own_choices, reaction_asked, reactions_left,
    recorded, tally_of, unreact_started, wanted, with_tally, without_texts,
    withdrawn_from,
};
use crate::app::state::{App, OwnReaction, OwnReactionView};
use crate::laws::sending::sent_text;
use crate::order::text_less;

verus! {

/// A reaction of a user who has not reacted so counts one more, and they are among those who
/// reacted.
pub proof fn law_new_reaction_counts(t: TallyView, user: Seq<char>, id: Seq<char>, own: bool)
    requires
        !t.senders.contains(user),
        !(own && t.me),
        t.count < i64::MAX,
    ensures
        recorded(t, Some(user), Some(id), own).count == t.count + 1,
        recorded(t, Some(user), Some(id), own).senders.contains(user),
        recorded(t, Some(user), Some(id), own).me == (t.me || own),
        own ==> recorded(t, Some(user), Some(id), own).my_event_ids.contains(id),
        !own ==> recorded(t, Some(user), Some(id), own).my_event_ids == t.my_event_ids,
{
    let after = recorded(t, Some(user), Some(id), own);
    assert(after.senders[t.senders.len() as int] == user);
    if own && !t.my_event_ids.contains(id) {
        assert(after.my_event_ids[t.my_event_ids.len() as int] == id);
    }
}

/// A reaction that is known already does not count again.
pub proof fn law_known_reaction_does_not_count(t: TallyView, user: Seq<char>, id: Seq<char>, own: bool)
    ensures
        t.senders.contains(user) ==> recorded(t, Some(user), Some(id), own).count == t.count,
        t.my_event_ids.contains(id) ==> arrived_on(t, user, id, own) == t,
{
}

proof fn lemma_all_gone(list: Seq<Seq<char>>, gone: Seq<Seq<char>>)
    ensures
        forall|x: Seq<char>|
            #[trigger] without_texts(list, gone).contains(x) <==> list.contains(x) && !gone.contains(
                x,
            ),
    decreases list.len(),
{
    let all = without_texts(list, gone);
    if list.len() > 0 {
        let rest = list.drop_last();
        let before = without_texts(rest, gone);
        lemma_all_gone(rest, gone);
        assert forall|x: Seq<char>|
            #[trigger] all.contains(x) <==> list.contains(x) && !gone.contains(x) by {
            if all.contains(x) {
                let p = choose|p: int| 0 <= p < all.len() && all[p] == x;
                if p < before.len() {
                    assert(before[p] == x);
                    assert(before.contains(x));
                    let q = choose|q: int| 0 <= q < rest.len() && rest[q] == x;
                    assert(list[q] == x);
                } else {
                    assert(list[list.len() - 1] == x);
                }
            }
            if list.contains(x) && !gone.contains(x) {
                let q = choose|q: int| 0 <= q < list.len() && list[q] == x;
                if q < rest.len() {
                    assert(rest[q] == x);
                    assert(rest.contains(x));
                    assert(before.contains(x));
                    let p = choose|p: int| 0 <= p < before.len() && before[p] == x;
                    assert(all[p] == x);
                } else {
                    assert(all[all.len() - 1] == x);
                }
            }
        }
    }
}

/// A user who took back all their reactions counts one less and is no longer among those who
/// reacted. Others stay.
pub proof fn law_withdrawal_counts_one_less(
    t: TallyView,
    own: Seq<char>,
    gone: Seq<Seq<char>>,
    other: Seq<char>,
)
    requires
        t.me,
        t.count > i64::MIN,
        forall|k: int| 0 <= k < t.my_event_ids.len() ==> gone.contains(#[trigger] t.my_event_ids[k]),
        other != own,
    ensures
        withdrawn_from(t, Some(own), gone).count == t.count - 1,
        !withdrawn_from(t, Some(own), gone).me,
        !withdrawn_from(t, Some(own), gone).senders.contains(own),
        withdrawn_from(t, Some(own), gone).senders.contains(other) == t.senders.contains(other),
        withdrawn_from(t, Some(own), gone).my_event_ids.len() == 0,
{
    lemma_all_gone(t.my_event_ids, gone);
    let left = without_texts(t.my_event_ids, gone);
    if left.len() > 0 {
        assert(left.contains(left[0]));
        let k = choose|k: int| 0 <= k < t.my_event_ids.len() && t.my_event_ids[k] == left[0];
        assert(gone.contains(t.my_event_ids[k]));
    }
    lemma_all_gone(t.senders, seq![own]);
    assert(seq![own][0] == own);
    assert(seq![own].contains(own));
    assert(!seq![own].contains(other));
}

/// While a reaction of the user is left, the count stays.
pub proof fn law_partial_withdrawal_keeps_count(
    t: TallyView,
    own: Option<Seq<char>>,
    gone: Seq<Seq<char>>,
    k: int,
)
    requires
        0 <= k < t.my_event_ids.len(),
        !gone.contains(t.my_event_ids[k]),
    ensures
        withdrawn_from(t, own, gone).count == t.count,
        withdrawn_from(t, own, gone).me == t.me,
        withdrawn_from(t, own, gone).senders == t.senders,
{
    lemma_all_gone(t.my_event_ids, gone);
    let left = without_texts(t.my_event_ids, gone);
    assert(left.contains(t.my_event_ids[k]));
}

/// A reaction that nobody is left with is gone, and the other reactions of the event stay.
pub proof fn law_empty_reaction_is_gone(
    m: Map<Seq<char>, TallyView>,
    key: Seq<char>,
    own: Option<Seq<char>>,
    gone: Seq<Seq<char>>,
    other: Seq<char>,
)
    requires
        m.dom().contains(key),
        other != key,
    ensures
        ({
            let left = reactions_left(Some(m), key, own, gone);
            &&& withdrawn_from(m[key], own, gone).count <= 0 ==> left is None
                || !left->0.dom().contains(key)
            &&& withdrawn_from(m[key], own, gone).count > 0 ==> left is Some
                && left->0.dom().contains(key)
            &&& m.dom().contains(other) ==> left is Some && left->0.dom().contains(other)
                && left->0[other] == m[other]
        }),
{
    let none = Map::<Seq<char>, TallyView>::empty();
    assert(!none.dom().contains(key));
    assert(!none.dom().contains(other));
}

/// A new reaction stands beside the others of its event.
pub proof fn law_other_reactions_stay(
    reactions: Option<Map<Seq<char>, TallyView>>,
    key: Seq<char>,
    t: TallyView,
    other: Seq<char>,
)
    requires
        other != key,
    ensures
        tally_of(with_tally(reactions, key, t), key) == t,
        tally_of(with_tally(reactions, key, t), other) == tally_of(reactions, other),
{
}

/// The badges of a message are its reactions with a count, the most frequent first.
pub proof fn law_badges_of_a_message(
    badges: Map<Seq<char>, Vec<(String, usize)>>,
    events: Seq<EventView>,
    event: EventView,
    i: int,
    j: int,
)
    requires
        badges_collected(badges, events),
        last_badged(events, event.event_id) == Some(event),
        badges.dom().contains(event.event_id),
        0 <= i < badges[event.event_id]@.len(),
        i < j < badges[event.event_id]@.len(),
    ensures
        ({
            let list = badges[event.event_id]@;
            &&& event.reactions->0.dom().contains(list[i].0@)
            &&& event.reactions->0[list[i].0@].count > 0
            &&& list[i].1 == event.reactions->0[list[i].0@].count as usize
            &&& list[i].1 >= list[j].1
            &&& list[i].1 == list[j].1 ==> text_less(list[i].0@, list[j].0@)
        }),
{
    let list = badges[event.event_id]@;
    assert(crate::app::reactions::badges_of(list, event.reactions->0));
    assert(wanted(event.reactions->0[list[i].0@], false));
}

/// Every reaction of a message that someone is left with has a badge. A message that was
/// redacted has none.
pub proof fn law_every_reaction_has_a_badge(
    badges: Map<Seq<char>, Vec<(String, usize)>>,
    event: EventView,
    key: Seq<char>,
)
    requires
        badges_collected(badges, seq![event]),
    ensures
        event.redacted ==> !badges.dom().contains(event.event_id),
        !event.redacted && event.reactions is Some && event.reactions->0.dom().contains(key)
            && event.reactions->0[key].count > 0 ==> badges.dom().contains(event.event_id) && (
        exists|i: int|
            0 <= i < badges[event.event_id]@.len() && (#[trigger] badges[event.event_id]@[i]).0@
                == key),
{
    reveal_with_fuel(last_badged, 2);
    let events = seq![event];
    assert(events.last() == event);
    assert(events.drop_last() =~= Seq::<EventView>::empty());
    assert(badges.dom().contains(event.event_id) == (last_badged(events, event.event_id) is Some));
    if !event.redacted && event.reactions is Some && event.reactions->0.dom().contains(key)
        && event.reactions->0[key].count > 0 {
        assert(wanted(event.reactions->0[key], false));
        assert(crate::app::reactions::has_badges(event));
        assert(event.reactions->0.dom().contains(key) && wanted(event.reactions->0[key], false));
    }
}

/// What may be taken back of a message are the reactions of the user, in the order of their
/// texts.
pub proof fn law_what_may_be_taken_back(
    choices: Seq<OwnReactionView>,
    reactions: Map<Seq<char>, TallyView>,
    key: Seq<char>,
)
    requires
        own_choices(choices, reactions),
    ensures
        reactions.dom().contains(key) && reactions[key].me && reactions[key].my_event_ids.len() > 0
            ==> (exists|i: int|
            0 <= i < choices.len() && (#[trigger] choices[i]).key == key && choices[i].event_ids
                == reactions[key].my_event_ids),
        !reactions.dom().contains(key) || !reactions[key].me ==> (forall|i: int|
            0 <= i < choices.len() ==> (#[trigger] choices[i]).key != key),
{
    if reactions.dom().contains(key) && reactions[key].me && reactions[key].my_event_ids.len() > 0 {
        assert(wanted(reactions[key], true));
        assert(reactions.dom().contains(key) && wanted(reactions[key], true));
        let i = choose|i: int| 0 <= i < choices.len() && (#[trigger] choices[i]).key == key;
        assert(choices[i].key == key && choices[i].event_ids == reactions[key].my_event_ids);
    }
}

/// The only reaction of the user on a message is taken back at once. Of several they choose.
pub proof fn law_only_reaction_is_taken_back(
    before: App,
    after: App,
    withdraw: Option<(String, OwnReaction)>,
)
    requires
        unreact_started(before, after, withdraw),
        before.target() is Some,
    ensures
        withdraw is Some ==> (withdraw->0).0@ == before.target()->0.event_id && after == before,
        withdraw is None ==> after == (App { mode: after.mode, status: after.status, ..before }),
{
}

/// A reaction is sent to the event that it is for, with its key.
pub proof fn law_reaction_is_sent(
    before: App,
    after: App,
    event_id: Seq<char>,
    key: Seq<char>,
    request: Option<crate::api::client::Request>,
)
    requires
        reaction_asked(before, after, event_id, key, request),
        before.room() is Some,
    ensures
        key.len() == 0 ==> request is None,
        key.len() > 0 ==> request is Some && request->0@.method == Method::Post && sent_text(
            request->0@.body,
            "key"@,
        ) == Some(key) && after == before,
{
    reveal_with_fuel(crate::json::member_of, 2);
    let members = seq![("key"@, crate::json::JsonView::Text(key))];
    assert(members.last() == ("key"@, crate::json::JsonView::Text(key)));
}

/// Only an event of the type of reactions is one. It names the event that it is on and its
/// key.
pub proof fn law_what_a_reaction_is(event: EventView, target: Seq<char>, key: Seq<char>)
    requires
        event.relates_to is Some,
        event.relates_to->0.text_at("event_id"@) == Some(target),
        event.relates_to->0.text_at("key"@) == Some(key),
        event.relates_to->0.text_at("rel_type"@) == Some("m.annotation"@),
    ensures
        event.event_type == "m.reaction"@ ==> reaction_of(event) == Some((target, key)),
        event.event_type != "m.reaction"@ ==> reaction_of(event) is None,
{
}

} // verus!
