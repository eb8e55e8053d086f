//! What edits make of the events that are shown.

use vstd::prelude::*;

use crate::api::dto::EventView;
use crate::api::event::edit_of;
use crate::app::choice::event_position;
use crate::app::edits::{
    edited, edits_in, is_spent, was_edited, with_edit, with_edits, without_spent, EditView,
};
use crate::app::selection::{ids_of, lemma_position_found};
use crate::json::JsonView;

verus! {

/// Whether an event edits the event with an id.
pub open spec fn edits_event(event: EventView, id: Seq<char>) -> bool {
    edit_of(event) is Some && (edit_of(event)->0).0 == id
}

/// Where several edits name an event, it has the body and the content of the one that
/// stands last.
pub proof fn law_last_edit_stands(
    events: Seq<EventView>,
    i: int,
    j: int,
    body: Seq<char>,
    content: JsonView,
)
    requires
        0 <= i < events.len(),
        forall|k: int|
            0 <= k < events.len() && k != i ==> (#[trigger] events[k]).event_id
                != events[i].event_id,
        0 <= j < events.len(),
        edit_of(events[j]) == Some((events[i].event_id, body, content)),
        forall|k: int|
            j < k < events.len() ==> !edits_event(#[trigger] events[k], events[i].event_id),
    ensures
        forall|m: int|
            0 <= m < edited(events).len() && (#[trigger] edited(events)[m]).event_id
                == events[i].event_id ==> edited(events)[m] == (EventView {
                body: Some(body),
                content: Some(content),
                ..events[i]
            }),
        events[i].relates_to is None ==> exists|m: int|
            0 <= m < edited(events).len() && (#[trigger] edited(events)[m]).event_id
                == events[i].event_id,
{
    let id = events[i].event_id;
    let edits = edits_in(events);
    let now = with_edits(events, edits);
    let p = lemma_last_edit(events, j, (id, body, content));
    lemma_edit_taken(events, edits, i, p);
    assert forall|m: int|
        0 <= m < edited(events).len() && (#[trigger] edited(events)[m]).event_id == id implies
        edited(events)[m] == (EventView { body: Some(body), content: Some(content), ..events[i] }) by {
        let k = lemma_came_from(now, ids_of(events), edits, m);
        assert(ids_of(now)[k] == ids_of(events)[k]);
        assert(events[k].event_id == id);
    }
    if events[i].relates_to is None {
        assert(edit_of(now[i]) is None);
        lemma_stays(now, ids_of(events), edits, i);
        let m = choose|m: int|
            0 <= m < without_spent(now, ids_of(events), edits).len() && without_spent(
                now,
                ids_of(events),
                edits,
            )[m] == now[i];
        assert(edited(events)[m].event_id == id);
    }
}

proof fn lemma_last_edit(events: Seq<EventView>, j: int, edit: EditView) -> (p: int)
    requires
        0 <= j < events.len(),
        edit_of(events[j]) == Some(edit),
        forall|k: int| j < k < events.len() ==> !edits_event(#[trigger] events[k], edit.0),
    ensures
        0 <= p < edits_in(events).len(),
        edits_in(events)[p] == edit,
        forall|q: int| p < q < edits_in(events).len() ==> (#[trigger] edits_in(events)[q]).0 != edit.0,
    decreases events.len(),
{
    let rest = events.drop_last();
    let last = events.len() - 1;
    assert(events.last() == events[last]);
    if j == last {
        edits_in(events).len() - 1
    } else {
        assert forall|k: int| j < k < rest.len() implies !edits_event(#[trigger] rest[k], edit.0) by {
            assert(rest[k] == events[k]);
        }
        let p = lemma_last_edit(rest, j, edit);
        assert(!edits_event(events[last], edit.0));
        p
    }
}

/// The ids of the events are those from before the edits.
pub proof fn lemma_ids_stay(events: Seq<EventView>, edits: Seq<EditView>)
    ensures
        ids_of(with_edits(events, edits)) == ids_of(events),
    decreases edits.len(),
{
    if edits.len() > 0 {
        let before = with_edits(events, edits.drop_last());
        lemma_ids_stay(events, edits.drop_last());
        lemma_position_found(ids_of(before), edits.last().0);
        assert(ids_of(with_edit(before, edits.last())) =~= ids_of(before));
    }
}

proof fn lemma_edit_taken(events: Seq<EventView>, edits: Seq<EditView>, i: int, p: int)
    requires
        0 <= i < events.len(),
        forall|k: int|
            0 <= k < events.len() && k != i ==> (#[trigger] events[k]).event_id
                != events[i].event_id,
        0 <= p < edits.len(),
        edits[p].0 == events[i].event_id,
        forall|q: int| p < q < edits.len() ==> (#[trigger] edits[q]).0 != edits[p].0,
    ensures
        ids_of(with_edits(events, edits)) == ids_of(events),
        with_edits(events, edits).len() == events.len(),
        with_edits(events, edits)[i] == (EventView {
            body: Some(edits[p].1),
            content: Some(edits[p].2),
            ..events[i]
        }),
    decreases edits.len(),
{
    let id = events[i].event_id;
    let rest = edits.drop_last();
    let before = with_edits(events, rest);
    let edit = edits.last();
    lemma_ids_stay(events, edits);
    lemma_ids_stay(events, rest);
    assert(ids_of(with_edits(events, edits)).len() == ids_of(events).len());
    assert(ids_of(before).len() == ids_of(events).len());
    lemma_position_found(ids_of(before), edit.0);
    let at = event_position(ids_of(before), edit.0);
    assert(edit == edits[edits.len() - 1]);
    if p == edits.len() - 1 {
        assert(ids_of(events)[i] == id);
        assert(ids_of(before).contains(id));
        assert(ids_of(events)[at] == id);
        assert(events[at].event_id == id);
        assert(at == i);
        lemma_rest_kept(events, rest, i);
    } else {
        assert forall|q: int| p < q < rest.len() implies (#[trigger] rest[q]).0 != rest[p].0 by {
            assert(rest[q] == edits[q]);
        }
        lemma_edit_taken(events, rest, i, p);
        if at < before.len() {
            assert(ids_of(events)[at] == edit.0);
            assert(at != i);
        }
    }
}

/// Edits change the body and the content of an event, and nothing else of it.
pub proof fn lemma_rest_kept(events: Seq<EventView>, edits: Seq<EditView>, i: int)
    requires
        0 <= i < events.len(),
    ensures
        with_edits(events, edits).len() == events.len(),
        with_edits(events, edits)[i] == (EventView {
            body: with_edits(events, edits)[i].body,
            content: with_edits(events, edits)[i].content,
            ..events[i]
        }),
    decreases edits.len(),
{
    if edits.len() > 0 {
        let before = with_edits(events, edits.drop_last());
        lemma_rest_kept(events, edits.drop_last(), i);
        lemma_position_found(ids_of(before), edits.last().0);
    }
}

proof fn lemma_came_from(
    events: Seq<EventView>,
    ids: Seq<Seq<char>>,
    edits: Seq<EditView>,
    m: int,
) -> (k: int)
    requires
        0 <= m < without_spent(events, ids, edits).len(),
    ensures
        0 <= k < events.len(),
        events[k] == without_spent(events, ids, edits)[m],
        !is_spent(events[k], ids, edits),
    decreases events.len(),
{
    let before = without_spent(events.drop_last(), ids, edits);
    if m < before.len() {
        lemma_came_from(events.drop_last(), ids, edits, m)
    } else {
        events.len() - 1
    }
}

proof fn lemma_stays(events: Seq<EventView>, ids: Seq<Seq<char>>, edits: Seq<EditView>, i: int)
    requires
        0 <= i < events.len(),
        !is_spent(events[i], ids, edits),
    ensures
        exists|m: int|
            0 <= m < without_spent(events, ids, edits).len() && #[trigger] without_spent(
                events,
                ids,
                edits,
            )[m] == events[i],
    decreases events.len(),
{
    let before = without_spent(events.drop_last(), ids, edits);
    let all = without_spent(events, ids, edits);
    if i == events.len() - 1 {
        assert(all[before.len() as int] == events[i]);
    } else {
        lemma_stays(events.drop_last(), ids, edits, i);
        let k = choose|k: int| 0 <= k < before.len() && before[k] == events[i];
        assert(all[k] == events[i]);
    }
}

/// An event that no edit names, and that is no edit itself, is shown as it is.
pub proof fn law_unedited_event_stays(events: Seq<EventView>, i: int)
    requires
        0 <= i < events.len(),
        edit_of(events[i]) is None,
        forall|k: int|
            0 <= k < events.len() ==> !edits_event(#[trigger] events[k], events[i].event_id),
    ensures
        edited(events).contains(events[i]),
{
    let edits = edits_in(events);
    lemma_unnamed(events, events[i].event_id);
    lemma_unmoved(events, edits, i);
    lemma_stays(with_edits(events, edits), ids_of(events), edits, i);
}

proof fn lemma_unnamed(events: Seq<EventView>, id: Seq<char>)
    requires
        forall|k: int| 0 <= k < events.len() ==> !edits_event(#[trigger] events[k], id),
    ensures
        forall|q: int| 0 <= q < edits_in(events).len() ==> (#[trigger] edits_in(events)[q]).0 != id,
    decreases events.len(),
{
    if events.len() > 0 {
        let rest = events.drop_last();
        assert forall|k: int| 0 <= k < rest.len() implies !edits_event(#[trigger] rest[k], id) by {
            assert(rest[k] == events[k]);
        }
        lemma_unnamed(rest, id);
        assert(events.last() == events[events.len() - 1]);
        assert(!edits_event(events[events.len() - 1], id));
        assert forall|q: int| 0 <= q < edits_in(events).len() implies (#[trigger] edits_in(
            events,
        )[q]).0 != id by {
            if q < edits_in(rest).len() {
                assert(edits_in(events)[q] == edits_in(rest)[q]);
            }
        }
    }
}

proof fn lemma_unmoved(events: Seq<EventView>, edits: Seq<EditView>, i: int)
    requires
        0 <= i < events.len(),
        forall|q: int| 0 <= q < edits.len() ==> (#[trigger] edits[q]).0 != events[i].event_id,
    ensures
        with_edits(events, edits).len() == events.len(),
        with_edits(events, edits)[i] == events[i],
    decreases edits.len(),
{
    if edits.len() > 0 {
        let rest = edits.drop_last();
        assert forall|q: int| 0 <= q < rest.len() implies (#[trigger] rest[q]).0
            != events[i].event_id by {
            assert(rest[q] == edits[q]);
        }
        lemma_unmoved(events, rest, i);
        lemma_ids_stay(events, rest);
        let before = with_edits(events, rest);
        let edit = edits.last();
        assert(edit == edits[edits.len() - 1]);
        lemma_position_found(ids_of(before), edit.0);
        let at = event_position(ids_of(before), edit.0);
        if at < before.len() {
            assert(ids_of(events)[at] == edit.0);
        }
    }
}

/// An edit of an event that is in the list is not shown beside it.
pub proof fn law_taken_edit_is_gone(events: Seq<EventView>, i: int, j: int)
    requires
        0 <= i < events.len(),
        0 <= j < events.len(),
        edits_event(events[j], events[i].event_id),
        forall|k: int|
            0 <= k < events.len() && k != j ==> (#[trigger] events[k]).event_id
                != events[j].event_id,
        forall|k: int|
            0 <= k < events.len() ==> !edits_event(#[trigger] events[k], events[j].event_id),
    ensures
        forall|m: int|
            0 <= m < edited(events).len() ==> (#[trigger] edited(events)[m]).event_id
                != events[j].event_id,
{
    let edits = edits_in(events);
    let ids = ids_of(events);
    let now = with_edits(events, edits);
    lemma_unnamed(events, events[j].event_id);
    lemma_unmoved(events, edits, j);
    lemma_ids_stay(events, edits);
    let target = events[i].event_id;
    assert(ids[i] == target);
    lemma_listed(events, j);
    assert(was_edited(ids, edits, target));
    assert forall|m: int| 0 <= m < edited(events).len() implies (#[trigger] edited(
        events,
    )[m]).event_id != events[j].event_id by {
        let k = lemma_came_from(now, ids, edits, m);
        assert(ids_of(now)[k] == ids[k]);
        if k == j {
            assert(is_spent(now[j], ids, edits));
        }
        assert(events[k].event_id != events[j].event_id || k == j);
    }
}

proof fn lemma_listed(events: Seq<EventView>, j: int)
    requires
        0 <= j < events.len(),
        edit_of(events[j]) is Some,
    ensures
        exists|q: int|
            0 <= q < edits_in(events).len() && #[trigger] edits_in(events)[q] == edit_of(
                events[j],
            )->0,
    decreases events.len(),
{
    let before = edits_in(events.drop_last());
    let all = edits_in(events);
    if j == events.len() - 1 {
        assert(all[before.len() as int] == edit_of(events[j])->0);
    } else {
        lemma_listed(events.drop_last(), j);
        let q = choose|q: int| 0 <= q < before.len() && before[q] == edit_of(events[j])->0;
        assert(all[q] == edit_of(events[j])->0);
    }
}

/// An event is an edit if it replaces an event that it names and has a new content with a
/// body: then it gives that body and that content to the event that it names.
pub proof fn law_what_an_edit_is(event: EventView, id: Seq<char>, body: Seq<char>, content: JsonView)
    requires
        event.relates_to is Some,
        event.content is Some,
        event.relates_to->0.text_at("event_id"@) == Some(id),
        event.content->0.get("m.new_content"@) == Some(content),
        content.text_at("body"@) == Some(body),
    ensures
        event.relates_to->0.text_at("rel_type"@) == Some("m.replace"@) ==> edit_of(event) == Some(
            (id, body, content),
        ),
        event.relates_to->0.text_at("rel_type"@) != Some("m.replace"@) ==> edit_of(event) is None,
{
}

} // verus!
