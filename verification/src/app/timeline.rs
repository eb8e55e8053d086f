//! Which events the message pane shows, and which rooms a search finds.

use vstd::prelude::*;

use crate::api::dto::{EventDto, EventView, RoomDto, RoomView};
use crate::api::event::thread_root_of;
use crate::keyed::KeyedMap;
use crate::text::{
    ascii_lowercase, has_part, option_str_view, option_view, same_text, text_has_part,
    to_ascii_lowercase, views,
};

verus! {

/// Whether `part` stands somewhere in `s`, the case of ASCII letters aside.
pub open spec fn has_part_ignoring_case(s: Seq<char>, part: Seq<char>) -> bool {
    has_part(ascii_lowercase(s), ascii_lowercase(part))
}

pub fn contains_ascii_case_insensitive(s: &str, part: &str) -> (r: bool)
    ensures
        r == has_part_ignoring_case(s@, part@),
{
    let a = to_ascii_lowercase(s);
    let b = to_ascii_lowercase(part);
    text_has_part(a.as_str(), b.as_str())
}

pub open spec fn option_has_part(s: Option<Seq<char>>, part: Seq<char>) -> bool {
    s is Some && has_part_ignoring_case(s->0, part)
}

fn option_contains(s: &Option<String>, part: &str) -> (r: bool)
    ensures
        r == option_has_part(option_view(*s), part@),
{
    match s {
        Some(t) => contains_ascii_case_insensitive(t.as_str(), part),
        None => false,
    }
}

/// Whether the name, the alias, the topic or the id of a room holds the text.
pub open spec fn room_found(room: RoomView, part: Seq<char>) -> bool {
    ||| option_has_part(room.name, part)
    ||| option_has_part(room.canonical_alias, part)
    ||| option_has_part(room.topic, part)
    ||| has_part_ignoring_case(room.room_id, part)
}

pub fn room_matches_search(room: &RoomDto, part: &str) -> (r: bool)
    ensures
        r == room_found(room@, part@),
{
    option_contains(&room.name, part) || option_contains(&room.canonical_alias, part)
        || option_contains(&room.topic, part) || contains_ascii_case_insensitive(
        room.room_id.as_str(),
        part,
    )
}

/// Whether the timeline shows an event at all. Reactions are shown on the events
/// that they annotate; state events only where the user wants them.
pub open spec fn shown(event: EventView, show_state_events: bool) -> bool {
    event.event_type != "m.reaction"@ && (event.state_key is None || show_state_events)
}

pub fn should_show_event(event: &EventDto, show_state_events: bool) -> (r: bool)
    ensures
        r == shown(event@, show_state_events),
{
    !same_text(event.event_type.as_str(), "m.reaction") && (event.state_key.is_none()
        || show_state_events)
}

/// Whether the pane shows an event as far as threads go. The panel of a thread
/// shows the root and its members. The main timeline shows no member of a thread
/// unless it was promoted.
pub open spec fn visible_in_thread(
    event: EventView,
    panel: Option<Seq<char>>,
    promoted: Set<Seq<char>>,
) -> bool {
    match panel {
        Some(root) => event.event_id == root || thread_root_of(event) == Some(root),
        None => thread_root_of(event) is None || promoted.contains(event.event_id),
    }
}

pub fn thread_visible(
    event: &EventDto,
    panel: Option<&str>,
    promoted: &KeyedMap<String, ()>,
) -> (r: bool)
    ensures
        r == visible_in_thread(event@, option_str_view(panel), promoted@.dom()),
{
    match panel {
        Some(root) => same_text(event.event_id.as_str(), root) || match event.thread_relation() {
            Some(t) => same_text(t, root),
            None => false,
        },
        None => match event.thread_relation() {
            None => true,
            Some(_) => promoted.contains_key(&event.event_id),
        },
    }
}

/// Whether the pane shows an event.
pub open spec fn displayed(
    event: EventView,
    show_state_events: bool,
    panel: Option<Seq<char>>,
    promoted: Set<Seq<char>>,
) -> bool {
    shown(event, show_state_events) && visible_in_thread(event, panel, promoted)
}

/// The events of a list that the pane shows, in their order.
pub open spec fn displayed_of(
    events: Seq<EventView>,
    show_state_events: bool,
    panel: Option<Seq<char>>,
    promoted: Set<Seq<char>>,
) -> Seq<EventView>
    decreases events.len(),
{
    if events.len() == 0 {
        Seq::empty()
    } else {
        let before = displayed_of(events.drop_last(), show_state_events, panel, promoted);
        if displayed(events.last(), show_state_events, panel, promoted) {
            before.push(events.last())
        } else {
            before
        }
    }
}

pub fn event_is_displayed(
    event: &EventDto,
    show_state_events: bool,
    panel: Option<&str>,
    promoted: &KeyedMap<String, ()>,
) -> (r: bool)
    ensures
        r == displayed(event@, show_state_events, option_str_view(panel), promoted@.dom()),
{
    should_show_event(event, show_state_events) && thread_visible(event, panel, promoted)
}

/// The events of a list that the pane shows.
pub fn displayed_list<'a>(
    events: &'a [EventDto],
    show_state_events: bool,
    panel: Option<&str>,
    promoted: &KeyedMap<String, ()>,
) -> (out: Vec<&'a EventDto>)
    ensures
        views(out@) == displayed_of(
            views(events@),
            show_state_events,
            option_str_view(panel),
            promoted@.dom(),
        ),
{
    let ghost all = views(events@);
    let ghost root = option_str_view(panel);
    let mut out: Vec<&'a EventDto> = Vec::new();
    let mut i: usize = 0;
    assert(views(out@) =~= Seq::<EventView>::empty());
    while i < events.len()
        invariant
            i <= events.len(),
            all == views(events@),
            root == option_str_view(panel),
            views(out@) == displayed_of(
                all.take(i as int),
                show_state_events,
                root,
                promoted@.dom(),
            ),
        decreases events.len() - i,
    {
        let ghost before = views(out@);
        assert(all.take(i + 1).drop_last() =~= all.take(i as int));
        assert(all.take(i + 1).last() == events@[i as int]@);
        if event_is_displayed(&events[i], show_state_events, panel, promoted) {
            out.push(&events[i]);
            assert(views(out@) =~= before.push(events@[i as int]@));
        }
        i = i + 1;
    }
    assert(all.take(i as int) =~= all);
    out
}

} // verus!
