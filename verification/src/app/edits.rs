//! Edits take the place of what they edit.

use vstd::prelude::*;

use crate::api::dto::{EventDto, EventView};
use crate::api::event::edit_of;
use crate::app::choice::event_position;
use crate::app::outcome::{find_stored, stored_at, stored_ids};
use crate::app::selection::ids_of;
use crate::json::{Json, JsonView};
use crate::text::{same_text, views};

verus! {

/// An edit: the event that it replaces, the new body and the new content.
pub struct Edit {
    pub target: String,
    pub body: String,
    pub content: Json,
}

pub type EditView = (Seq<char>, Seq<char>, JsonView);

impl View for Edit {
    type V = (Seq<char>, Seq<char>, JsonView);

    open spec fn view(&self) -> (Seq<char>, Seq<char>, JsonView) {
        (self.target@, self.body@, self.content@)
    }
}

/// The edits among events, in their order.
pub open spec fn edits_in(events: Seq<EventView>) -> Seq<EditView>
    decreases events.len(),
{
    if events.len() == 0 {
        Seq::empty()
    } else {
        let before = edits_in(events.drop_last());
        match edit_of(events.last()) {
            Some(edit) => before.push(edit),
            None => before,
        }
    }
}

/// Events after an edit: the first one that it names has the new body and content.
pub open spec fn with_edit(events: Seq<EventView>, edit: EditView) -> Seq<EventView> {
    let at = event_position(ids_of(events), edit.0);
    if at < events.len() {
        events.update(
            at,
            EventView { body: Some(edit.1), content: Some(edit.2), ..events[at] },
        )
    } else {
        events
    }
}

/// Events after edits, one after the other.
pub open spec fn with_edits(events: Seq<EventView>, edits: Seq<EditView>) -> Seq<EventView>
    decreases edits.len(),
{
    if edits.len() == 0 {
        events
    } else {
        with_edit(with_edits(events, edits.drop_last()), edits.last())
    }
}

/// Whether one of the edits replaces an event of the list.
pub open spec fn was_edited(ids: Seq<Seq<char>>, edits: Seq<EditView>, target: Seq<char>) -> bool {
    ids.contains(target) && exists|k: int| 0 <= k < edits.len() && (#[trigger] edits[k]).0 == target
}

/// Whether an event is an edit whose target has what it says.
pub open spec fn is_spent(event: EventView, ids: Seq<Seq<char>>, edits: Seq<EditView>) -> bool {
    match edit_of(event) {
        Some((target, _, _)) => was_edited(ids, edits, target),
        None => false,
    }
}

/// The events that are no spent edits.
pub open spec fn without_spent(events: Seq<EventView>, ids: Seq<Seq<char>>, edits: Seq<EditView>) -> Seq<
    EventView,
>
    decreases events.len(),
{
    if events.len() == 0 {
        Seq::empty()
    } else {
        let before = without_spent(events.drop_last(), ids, edits);
        if is_spent(events.last(), ids, edits) {
            before
        } else {
            before.push(events.last())
        }
    }
}

/// Events with the edits among them taken over. An edit of an event that is not there
/// stays, so that it does not get lost.
pub open spec fn edited(events: Seq<EventView>) -> Seq<EventView> {
    without_spent(
        with_edits(events, edits_in(events)),
        ids_of(events),
        edits_in(events),
    )
}

fn collect_edits(events: &Vec<EventDto>) -> (out: Vec<Edit>)
    ensures
        views(out@) == edits_in(views(events@)),
{
    let ghost all = views(events@);
    let mut out: Vec<Edit> = Vec::new();
    let mut i: usize = 0;
    assert(views(out@) =~= Seq::<EditView>::empty());
    while i < events.len()
        invariant
            i <= events.len(),
            all == views(events@),
            views(out@) == edits_in(all.take(i as int)),
        decreases events.len() - i,
    {
        let ghost before = views(out@);
        assert(all.take(i + 1).drop_last() =~= all.take(i as int));
        assert(all.take(i + 1).last() == events@[i as int]@);
        if let Some((target, body, content)) = events[i].edit_relation() {
            let edit = Edit {
                target: target.to_owned(),
                body: body.to_owned(),
                content: content.copy(),
            };
            let ghost v = edit@;
            out.push(edit);
            assert(views(out@) =~= before.push(v));
        }
        i = i + 1;
    }
    assert(all.take(i as int) =~= all);
    out
}

fn take_edit(events: &mut Vec<EventDto>, edit: &Edit)
    ensures
        views(final(events)@) == with_edit(views(old(events)@), edit@),
        ids_of(views(final(events)@)) == ids_of(views(old(events)@)),
{
    let ghost all = views(events@);
    let at: usize = find_stored(events, edit.target.as_str());
    assert(stored_ids(events@) =~= ids_of(all));
    if at < events.len() {
        let ghost original = events@[at as int]@;
        let ghost list = events@;
        let mut event = events.remove(at);
        event.body = Some(edit.body.clone());
        event.content = Some(edit.content.copy());
        let ghost now = event@;
        events.insert(at, event);
        assert(now == (EventView {
            body: Some(edit@.1),
            content: Some(edit@.2),
            ..original
        }));
        assert(views(events@) =~= all.update(at as int, now));
        assert(ids_of(views(events@)) =~= ids_of(all));
    }
}

fn names_target(edits: &Vec<Edit>, target: &str) -> (r: bool)
    ensures
        r == (exists|k: int| 0 <= k < views(edits@).len() && (#[trigger] views(edits@)[k]).0 == target@),
{
    let mut i: usize = 0;
    while i < edits.len()
        invariant
            i <= edits.len(),
            forall|k: int| 0 <= k < i ==> (#[trigger] views(edits@)[k]).0 != target@,
        decreases edits.len() - i,
    {
        if same_text(edits[i].target.as_str(), target) {
            assert(views(edits@)[i as int].0 == target@);
            return true;
        }
        i = i + 1;
    }
    false
}

pub proof fn lemma_listed_position(events: Seq<EventDto>, id: Seq<char>)
    ensures
        (stored_at(events, id) < events.len()) == ids_of(views(events)).contains(id),
{
    let ids = stored_ids(events);
    assert(ids =~= ids_of(views(events)));
    lemma_position_listed(ids, id);
}

proof fn lemma_position_listed(ids: Seq<Seq<char>>, id: Seq<char>)
    ensures
        0 <= event_position(ids, id) <= ids.len(),
        (event_position(ids, id) < ids.len()) == ids.contains(id),
    decreases ids.len(),
{
    if ids.len() > 0 {
        let rest = ids.drop_first();
        lemma_position_listed(rest, id);
        if ids[0] == id {
            assert(ids.contains(id));
        } else if ids.contains(id) {
            let k = choose|k: int| 0 <= k < ids.len() && ids[k] == id;
            assert(rest[k - 1] == id);
        } else if rest.contains(id) {
            let k = choose|k: int| 0 <= k < rest.len() && rest[k] == id;
            assert(ids[k + 1] == id);
        }
    }
}

/// Moves the events of a list into a new one, the last one first.
pub fn turn_round(events: Vec<EventDto>) -> (out: Vec<EventDto>)
    ensures
        out@ == events@.reverse(),
{
    let ghost all = events@;
    let mut rest = events;
    let mut out: Vec<EventDto> = Vec::new();
    assert(all.skip(all.len() as int).reverse() =~= Seq::<EventDto>::empty());
    while rest.len() > 0
        invariant
            rest@.len() <= all.len(),
            rest@ == all.take(rest@.len() as int),
            out@ == all.skip(rest@.len() as int).reverse(),
        decreases rest.len(),
    {
        let ghost n = rest@.len();
        if let Some(event) = rest.pop() {
            out.push(event);
            assert(all.skip(n - 1).reverse() =~= all.skip(n as int).reverse().push(all[n - 1]));
            assert(rest@ =~= all.take(n - 1));
        }
    }
    assert(all.skip(0) =~= all);
    out
}

/// Takes over the edits among events.
pub fn apply_edits(events: &mut Vec<EventDto>)
    ensures
        views(final(events)@) == edited(views(old(events)@)),
{
    let edits = collect_edits(events);
    let ghost all = views(events@);
    let ghost ids = ids_of(all);
    let ghost list = views(edits@);
    let mut i: usize = 0;
    assert(list.take(0) =~= Seq::<EditView>::empty());
    while i < edits.len()
        invariant
            i <= edits.len(),
            list == views(edits@),
            ids == ids_of(views(events@)),
            views(events@) == with_edits(all, list.take(i as int)),
        decreases edits.len() - i,
    {
        assert(list.take(i + 1).drop_last() =~= list.take(i as int));
        assert(list.take(i + 1).last() == edits@[i as int]@);
        take_edit(events, &edits[i]);
        i = i + 1;
    }
    assert(list.take(i as int) =~= list);
    let ghost now = views(events@);
    let mut spent: Vec<bool> = Vec::new();
    let mut k: usize = 0;
    while k < events.len()
        invariant
            k <= events.len(),
            list == views(edits@),
            now == views(events@),
            ids == ids_of(now),
            spent.len() == k,
            forall|j: int| 0 <= j < k ==> #[trigger] spent@[j] == is_spent(now[j], ids, list),
        decreases events.len() - k,
    {
        let ghost event = now[k as int];
        assert(event == events@[k as int]@);
        let gone = match events[k].edit_relation() {
            Some((target, _, _)) => {
                proof {
                    lemma_listed_position(events@, target@);
                }
                find_stored(events, target) < events.len() && names_target(&edits, target)
            },
            None => false,
        };
        spent.push(gone);
        k = k + 1;
    }
    let mut rest: Vec<EventDto> = Vec::new();
    core::mem::swap(&mut rest, events);
    let mut kept: Vec<EventDto> = Vec::new();
    assert(now.take(now.len() as int) =~= now);
    assert(views(kept@) =~= Seq::<EventView>::empty());
    while rest.len() > 0
        invariant
            rest@.len() <= now.len(),
            spent@.len() == now.len(),
            views(rest@) == now.take(rest@.len() as int),
            forall|j: int|
                0 <= j < now.len() ==> #[trigger] spent@[j] == is_spent(now[j], ids, list),
            without_spent(now, ids, list) == without_spent(now.take(rest@.len() as int), ids, list)
                + views(kept@).reverse(),
        decreases rest.len(),
    {
        let ghost n = rest@.len() as int;
        let ghost before = views(kept@);
        let ghost part = now.take(n);
        assert(part.drop_last() =~= now.take(n - 1));
        assert(part.last() == now[n - 1]);
        assert(views(rest@)[n - 1] == rest@[n - 1]@);
        let last: usize = rest.len() - 1;
        if let Some(event) = rest.pop() {
            assert(event@ == now[n - 1]);
            assert(views(rest@) =~= now.take(n - 1));
            if !spent[last] {
                kept.push(event);
                assert(views(kept@) =~= before.push(now[n - 1]));
                assert(without_spent(now.take(n - 1), ids, list).push(now[n - 1])
                    + before.reverse() =~= without_spent(now.take(n - 1), ids, list) + before.push(
                    now[n - 1],
                ).reverse());
            }
        }
    }
    assert(without_spent(now.take(0), ids, list) =~= Seq::<EventView>::empty());
    let ghost k_views = views(kept@);
    *events = turn_round(kept);
    assert(views(events@) =~= k_views.reverse());
    assert(views(events@) =~= without_spent(now, ids, list));
}

/// Events without edits are left as they are.
pub proof fn law_nothing_to_edit(events: Seq<EventView>)
    requires
        forall|i: int| 0 <= i < events.len() ==> edit_of(#[trigger] events[i]) is None,
    ensures
        edited(events) == events,
{
    lemma_no_edits(events);
    lemma_none_spent(events, ids_of(events), edits_in(events));
}

proof fn lemma_no_edits(events: Seq<EventView>)
    requires
        forall|i: int| 0 <= i < events.len() ==> edit_of(#[trigger] events[i]) is None,
    ensures
        edits_in(events) == Seq::<EditView>::empty(),
    decreases events.len(),
{
    if events.len() > 0 {
        assert(events.last() == events[events.len() - 1]);
        lemma_no_edits(events.drop_last());
    }
}

proof fn lemma_none_spent(events: Seq<EventView>, ids: Seq<Seq<char>>, edits: Seq<EditView>)
    requires
        forall|i: int| 0 <= i < events.len() ==> !is_spent(#[trigger] events[i], ids, edits),
    ensures
        without_spent(events, ids, edits) == events,
    decreases events.len(),
{
    if events.len() > 0 {
        assert(events.last() == events[events.len() - 1]);
        let rest = events.drop_last();
        assert forall|i: int| 0 <= i < rest.len() implies !is_spent(#[trigger] rest[i], ids, edits) by {
            assert(rest[i] == events[i]);
        }
        lemma_none_spent(rest, ids, edits);
        assert(rest.push(events.last()) =~= events);
    }
}

/// An edit of an event that is not in the list is kept.
pub proof fn law_lone_edit_stays(events: Seq<EventView>, i: int)
    requires
        0 <= i < events.len(),
        edit_of(events[i]) matches Some((target, _, _)) && !ids_of(events).contains(target),
        forall|k: int|
            0 <= k < edits_in(events).len() ==> (#[trigger] edits_in(events)[k]).0
                != events[i].event_id,
    ensures
        edited(events).contains(events[i]),
{
    let edits = edits_in(events);
    let now = with_edits(events, edits);
    lemma_untouched(events, edits, i);
    lemma_kept(now, ids_of(events), edits, i);
}

proof fn lemma_untouched(events: Seq<EventView>, edits: Seq<EditView>, i: int)
    requires
        0 <= i < events.len(),
        forall|k: int| 0 <= k < edits.len() ==> (#[trigger] edits[k]).0 != events[i].event_id,
    ensures
        with_edits(events, edits).len() == events.len(),
        with_edits(events, edits)[i] == events[i],
    decreases edits.len(),
{
    if edits.len() > 0 {
        let rest = edits.drop_last();
        assert forall|k: int| 0 <= k < rest.len() implies (#[trigger] rest[k]).0
            != events[i].event_id by {
            assert(rest[k] == edits[k]);
        }
        lemma_untouched(events, rest, i);
        let before = with_edits(events, rest);
        let edit = edits.last();
        assert(edit == edits[edits.len() - 1]);
        let at = event_position(ids_of(before), edit.0);
        crate::app::selection::lemma_position_found(ids_of(before), edit.0);
        if at < before.len() {
            assert(ids_of(before)[at] == edit.0);
        }
    }
}

proof fn lemma_kept(events: Seq<EventView>, ids: Seq<Seq<char>>, edits: Seq<EditView>, i: int)
    requires
        0 <= i < events.len(),
        !is_spent(events[i], ids, edits),
    ensures
        without_spent(events, ids, edits).contains(events[i]),
    decreases events.len(),
{
    let before = without_spent(events.drop_last(), ids, edits);
    let all = without_spent(events, ids, edits);
    if i == events.len() - 1 {
        assert(all[before.len() as int] == events[i]);
    } else {
        lemma_kept(events.drop_last(), ids, edits, i);
        let k = choose|k: int| 0 <= k < before.len() && before[k] == events[i];
        assert(all[k] == events[i]);
    }
}

} // verus!
