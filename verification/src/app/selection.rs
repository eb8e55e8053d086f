//! The message that commands are about.

use vstd::prelude::*;

use crate::api::dto::{EventDto, EventView};
use crate::app::choice::{event_position, find_event, room_key, RoomKey, RoomKeyView};
use crate::app::drafts::held;
use crate::app::state::{App, MessagePane};
use crate::app::timeline::{displayed_list, displayed_of};
use crate::text::{begins, option_str, option_str_view, option_view, text_begins, views};

verus! {

/// The ids of events.
pub open spec fn ids_of(events: Seq<EventView>) -> Seq<Seq<char>> {
    Seq::new(events.len(), |i: int| events[i].event_id)
}

/// The event of a list with an id: the first one.
pub open spec fn event_with_id(events: Seq<EventView>, id: Seq<char>) -> Option<EventView> {
    let at = event_position(ids_of(events), id);
    if at < events.len() {
        Some(events[at])
    } else {
        None
    }
}

/// Whether a message is selected, where there is one.
pub open spec fn message_selected(before: App, after: App) -> bool {
    &&& after == (App { messages: after.messages, ..before })
    &&& after.messages == (MessagePane {
        selection: after.messages.selection,
        ..before.messages
    })
    &&& option_view(after.messages.selection) == before.id_to_use()
}

impl App {
    /// The events that are kept of a room.
    pub open spec fn events_of(self, key: RoomKeyView) -> Seq<EventView> {
        match held(self.messages.events@, key) {
            Some(list) => views(list@),
            None => Seq::empty(),
        }
    }

    /// The events that the message pane shows.
    pub open spec fn pane(self) -> Seq<EventView> {
        match self.room() {
            Some(room) => displayed_of(
                self.events_of(room_key(room@)),
                self.display.show_state_events,
                option_view(self.threads.panel),
                self.threads.promoted@.dom(),
            ),
            None => Seq::empty(),
        }
    }

    /// The selected message, where the pane shows it.
    pub open spec fn target(self) -> Option<EventView> {
        match option_view(self.messages.selection) {
            Some(id) => event_with_id(self.pane(), id),
            None => None,
        }
    }

    pub fn selected_events(&self) -> (out: Vec<&EventDto>)
        ensures
            views(out@) == self.pane(),
    {
        let none: Vec<&EventDto> = Vec::new();
        assert(views(none@) =~= Seq::<EventView>::empty());
        let room = match self.selected_room() {
            Some(room) => room,
            None => return none,
        };
        let events = match self.messages.events.get(&RoomKey::of(room)) {
            Some(events) => events,
            None => return none,
        };
        displayed_list(
            events.as_slice(),
            self.display.show_state_events,
            option_str(&self.threads.panel),
            &self.threads.promoted,
        )
    }

    pub fn selected_message_event(&self) -> (out: Option<&EventDto>)
        ensures
            match out {
                Some(e) => self.target() == Some(e@),
                None => self.target() is None,
            },
    {
        let id = match &self.messages.selection {
            Some(id) => id,
            None => return None,
        };
        let events = self.selected_events();
        assert(views(events@).len() == events@.len());
        assert(crate::app::choice::event_ids(events@) =~= ids_of(self.pane()));
        let at: usize = find_event(events.as_slice(), id.as_str());
        if at < events.len() {
            assert(views(events@)[at as int] == events@[at as int]@);
            Some(events[at])
        } else {
            None
        }
    }

    pub fn selected_message_id(&self) -> (out: Option<&str>)
        ensures
            option_str_view(out) == (match self.target() {
                Some(e) => Some(e.event_id),
                None => None,
            }),
    {
        match self.selected_message_event() {
            Some(e) => Some(e.event_id.as_str()),
            None => None,
        }
    }

    /// The id that is selected once a message is needed: the selected one, else the
    /// newest.
    pub open spec fn id_to_use(self) -> Option<Seq<char>> {
        match self.target() {
            Some(_) => option_view(self.messages.selection),
            None => if self.pane().len() > 0 {
                Some(self.pane().last().event_id)
            } else {
                None
            },
        }
    }

    /// Selects the newest message where none is selected.
    pub fn select_most_recent_message_if_needed(&mut self)
        ensures
            message_selected(*old(self), *final(self)),
    {
        if self.selected_message_event().is_some() {
            return ;
        }
        let id = {
            let events = self.selected_events();
            assert(views(events@).len() == events@.len());
            if events.len() > 0 {
                Some(events[events.len() - 1].event_id.clone())
            } else {
                None
            }
        };
        self.messages.selection = id;
    }
}

pub proof fn lemma_position_found(ids: Seq<Seq<char>>, id: Seq<char>)
    ensures
        0 <= event_position(ids, id) <= ids.len(),
        event_position(ids, id) < ids.len() ==> ids[event_position(ids, id)] == id,
        ids.contains(id) ==> event_position(ids, id) < ids.len(),
    decreases ids.len(),
{
    if ids.len() > 0 {
        lemma_position_found(ids.drop_first(), id);
        if ids[0] != id && ids.contains(id) {
            let k = choose|k: int| 0 <= k < ids.len() && ids[k] == id;
            assert(ids.drop_first()[k - 1] == id);
        }
    }
}

/// Once a message is needed one is selected, where the pane shows any; it has the
/// selected id.
pub proof fn law_a_shown_message_is_selected(before: App, after: App)
    requires
        after == (App { messages: after.messages, ..before }),
        after.messages == (MessagePane { selection: after.messages.selection, ..before.messages }),
        option_view(after.messages.selection) == before.id_to_use(),
    ensures
        after.pane() == before.pane(),
        before.pane().len() > 0 ==> after.target() is Some,
        after.target() is Some ==> Some(after.target()->0.event_id) == option_view(
            after.messages.selection,
        ),
{
    let pane = before.pane();
    let ids = ids_of(pane);
    assert(after.pane() == pane);
    if option_view(after.messages.selection) is Some {
        let id = option_view(after.messages.selection)->0;
        lemma_position_found(ids, id);
        if before.target() is None && pane.len() > 0 {
            assert(ids[pane.len() - 1] == id);
        }
    }
}

/// Whether an id is that of a message that the server has not confirmed.
pub open spec fn echo_id(id: Seq<char>) -> bool {
    begins(id, "local-echo:"@)
}

pub fn is_local_echo(id: &str) -> (r: bool)
    ensures
        r == echo_id(id@),
{
    text_begins(id, "local-echo:")
}

} // verus!
