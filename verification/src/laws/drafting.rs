//! What becomes of a line that was typed and not sent.

use vstd::prelude::*;

use crate::api::dto::DeviceStateDto;
use crate::app::choice::RoomKeyView;
use crate::app::drafts::{
    activity_noted, chosen, draft_at, draft_entry_applied, draft_of, drafts_read, flushed, held,
    room_view, stored_draft, DraftPutView, TypingSignal,
};
use crate::app::refresh::texts;
use crate::app::state::{App, DeviceState};
use crate::json::JsonView;
use crate::text::{begins, option_view};

verus! {

/// A line that differs from what is known of its room is written after a pause, and others
/// are told that the user types.
pub proof fn law_typed_line_waits_to_be_written(
    before: App,
    after: App,
    signal: TypingSignal,
    now: int,
    key: RoomKeyView,
)
    requires
        activity_noted(before, after, signal, now),
        before.mode@ is Compose,
        chosen(before) == Some(key),
        before.input.buffer@.len() > 0,
        !begins(before.input.buffer@, "/"@),
        draft_at(before.device, key) != Some(before.input.buffer@),
    ensures
        signal == TypingSignal::Start,
        after.device.pending_draft_put is Some,
        after.device.pending_draft_put->0.room@ == key,
        option_view(after.device.pending_draft_put->0.value) == Some(before.input.buffer@),
        after.device.pending_draft_put->0.due == now + 400,
        after.input == before.input,
{
}

/// A command is no draft: it is not written, and nobody is told of it. A line that begins
/// with two slashes is a message.
pub proof fn law_command_is_no_draft(
    before: App,
    after: App,
    signal: TypingSignal,
    now: int,
    key: RoomKeyView,
)
    requires
        activity_noted(before, after, signal, now),
        before.mode@ is Compose,
        chosen(before) == Some(key),
        begins(before.input.buffer@, "/"@),
        !begins(before.input.buffer@, "//"@),
    ensures
        signal == TypingSignal::Stop,
        after.device.pending_draft_put is Some ==> after.device.pending_draft_put->0.room@ != key,
        after.device.drafts == before.device.drafts,
{
}

/// Outside of the line of a room nothing is noted.
pub proof fn law_other_lines_are_no_drafts(before: App, after: App, signal: TypingSignal, now: int)
    requires
        activity_noted(before, after, signal, now),
        !(before.mode@ is Compose) || before.room() is None,
    ensures
        after == before,
        signal == TypingSignal::Keep,
{
}

/// An emptied line ends the typing notice, and takes the draft of its room away.
pub proof fn law_emptied_line(
    before: App,
    after: App,
    signal: TypingSignal,
    now: int,
    key: RoomKeyView,
)
    requires
        activity_noted(before, after, signal, now),
        before.mode@ is Compose,
        chosen(before) == Some(key),
        before.input.buffer@.len() == 0,
        draft_at(before.device, key) is Some,
    ensures
        signal == TypingSignal::Stop,
        after.device.pending_draft_put is Some,
        after.device.pending_draft_put->0.room@ == key,
        after.device.pending_draft_put->0.value is None,
{
    reveal_strlit("/");
    assert(!begins(before.input.buffer@, "/"@));
}

/// A draft that is written is the draft of its room from then on, and those of other rooms
/// stay. What the server does not have is not taken away from it.
pub proof fn law_written_draft_is_known(
    before: DeviceState,
    after: DeviceState,
    put: Option<DraftPutView>,
    other: RoomKeyView,
)
    requires
        flushed(before, after, put),
        before.pending_draft_put is Some,
        other != before.pending_draft_put->0.room@,
    ensures
        draft_at(after, before.pending_draft_put->0.room@) == option_view(
            before.pending_draft_put->0.value,
        ),
        draft_at(after, other) == draft_at(before, other),
        after.pending_draft_put is None,
        before.pending_draft_put->0.value is Some ==> put is Some && put->0.room
            == before.pending_draft_put->0.room@ && put->0.value == option_view(
            before.pending_draft_put->0.value,
        ),
        before.pending_draft_put->0.value is None ==> (put is Some) == (draft_at(
            before,
            before.pending_draft_put->0.room@,
        ) is Some),
{
    let key = before.pending_draft_put->0.room@;
    assert(texts(after.drafts@).dom().contains(other) == texts(before.drafts@).dom().contains(other));
}

/// A draft that another device wrote is the draft of its room, and stands in the line where
/// the user has typed nothing of their own there.
pub proof fn law_draft_of_another_device(
    before: App,
    after: App,
    key: RoomKeyView,
    text: Seq<char>,
)
    requires
        draft_entry_applied(before, after, key, stored_draft(text)),
    ensures
        draft_at(after.device, key) == Some(text),
        after.device.drafts_written_since_fetch@.dom().contains(key),
        room_view(before.device.compose_room) == Some(key) && before.mode@ is Compose && (
        before.input.buffer@.len() == 0 || draft_at(before.device, key) == Some(
            before.input.buffer@,
        )) ==> after.input.buffer@ == text,
        room_view(before.device.compose_room) != Some(key) ==> after.input == before.input,
{
    crate::app::drafts::law_stored_draft_reads_back(text);
}

/// A draft that another device took away is gone here too.
pub proof fn law_draft_taken_away_elsewhere(before: App, after: App, key: RoomKeyView)
    requires
        draft_entry_applied(before, after, key, JsonView::Null),
    ensures
        draft_at(after.device, key) is None,
        room_view(before.device.compose_room) == Some(key) && before.mode@ is Compose && draft_at(
            before.device,
            key,
        ) == Some(before.input.buffer@) ==> after.input.buffer@.len() == 0,
{
}

/// What the server has of drafts is taken over, but for rooms where this device is ahead of
/// it. Drafts that the server no longer has are gone.
pub proof fn law_drafts_of_the_server(
    before: DeviceState,
    after: DeviceState,
    account_id: u128,
    state: DeviceStateDto,
    key: RoomKeyView,
)
    requires
        drafts_read(before, after, account_id, state),
        key.account_id == account_id,
        room_view(before.compose_room) != Some(key),
        before.pending_draft_put is None || before.pending_draft_put->0.room@ != key,
        !before.drafts_written_since_fetch@.dom().contains(key),
    ensures
        !state.entries@.dom().contains(key.room_id) ==> draft_at(after, key) is None,
        state.entries@.dom().contains(key.room_id) && draft_of(state.entries@[key.room_id].value@)
            is Some ==> draft_at(after, key) == draft_of(state.entries@[key.room_id].value@),
{
    assert(held(texts(after.drafts@), key) == held(texts(after.drafts@), key));
    let values = crate::app::drafts::entry_values(state);
    assert(values.dom() =~= state.entries@.dom());
    if state.entries@.dom().contains(key.room_id) {
        assert(values[key.room_id] == state.entries@[key.room_id].value@);
    }
}

/// The accounts that were not asked keep their drafts.
pub proof fn law_drafts_of_other_accounts(
    before: DeviceState,
    after: DeviceState,
    account_id: u128,
    state: DeviceStateDto,
    key: RoomKeyView,
)
    requires
        drafts_read(before, after, account_id, state),
        key.account_id != account_id,
    ensures
        draft_at(after, key) == draft_at(before, key),
{
    assert(held(texts(after.drafts@), key) == held(texts(after.drafts@), key));
}

/// On a change of the room the line of the old one is kept as its draft, and the draft of the
/// new one stands in the line.
pub proof fn law_line_changes_with_the_room(
    before: App,
    after: App,
    put: Option<DraftPutView>,
    stops: bool,
    key: RoomKeyView,
)
    requires
        before.line_handed_over(after, put, stops),
        before.mode@ is Compose,
        chosen(before) == Some(key),
        room_view(before.device.compose_room) != Some(key),
    ensures
        stops,
        room_view(after.device.compose_room) == Some(key),
        after.device.pending_draft_put is None,
        draft_at(after.device, key) is Some ==> after.input.buffer@ == draft_at(
            after.device,
            key,
        )->0,
        draft_at(after.device, key) is None ==> after.input.buffer@.len() == 0,
        before.device.pending_draft_put is Some ==> draft_at(
            after.device,
            before.device.pending_draft_put->0.room@,
        ) == option_view(before.device.pending_draft_put->0.value),
{
    let middle = choose|middle: App|
        #![trigger before.draft_flushed(middle, put)]
        before.draft_flushed(middle, put) && after.device == (DeviceState {
            compose_room: after.device.compose_room,
            ..middle.device
        }) && crate::app::lifecycle::line_set(
            before.input,
            after.input,
            match draft_at(middle.device, key) {
                Some(t) => t,
                None => Seq::empty(),
            },
        );
    let all = choose|all: Option<DraftPutView>|
        #![trigger flushed(before.device, middle.device, all)]
        flushed(before.device, middle.device, all) && put == crate::app::drafts::if_sent(
            before,
            all,
        );
    assert(draft_at(after.device, key) == draft_at(middle.device, key));
    if before.device.pending_draft_put is Some {
        let other = RoomKeyView {
            account_id: 0,
            room_id: before.device.pending_draft_put->0.room@.room_id.push('x'),
        };
        assert(other.room_id.len() == before.device.pending_draft_put->0.room@.room_id.len() + 1);
        law_written_draft_is_known(before.device, middle.device, all, other);
    }
}

} // verus!
