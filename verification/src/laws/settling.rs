//! What the client does when the answer to something comes back.

use vstd::prelude::*;

use crate::api::dto::{
    room_title, AccountDto, DeviceStateDto, EventView, RoomDto, TimelinePage,
    VerificationFrameView,
};
use crate::app::choice::{room_key, RoomKeyView};
use crate::app::drafts::{
    draft_entries_applied, draft_entry_applied, is_protected, listed_entry_applied,
};
use crate::app::history::TimelineEffects;
use crate::app::outcome::{
    lemma_stored_at, lists_refreshed, media_sent, message_sent, no_tasks, outcome_handled, refresh_warning,
    response_queued, whoami_enriched, LifecycleOutcome, StepView,
};
use crate::app::reactions::{own_ids_on, sender_of_any, tally_of, with_text};
use crate::app::read_markers::{
    listed_marker_applied, marker_entries_applied, marker_entry_applied,
};
use crate::app::state::{App, MessagePane, ThreadState};
use crate::app::status::status_text;
use crate::app::threads::{thread_marked, unread_at};
use crate::app::verification::VerificationDirection;
use crate::app::verify::flow_of;
use crate::json::Json;
use crate::text::option_view;

verus! {

/// A message that was sent has from then on the id that the server gave it, in its place. What
/// it says stays, and so do all other messages.
pub proof fn law_sent_message_gets_its_id(
    before: App,
    after: App,
    key: RoomKeyView,
    temp_id: Seq<char>,
    id: String,
    i: int,
    j: int,
    other: RoomKeyView,
)
    requires
        message_sent(before, after, key, temp_id, Ok(id)),
        before.messages.events@.dom().contains(key),
        0 <= i < before.messages.events@[key]@.len(),
        before.messages.events@[key]@[i].event_id@ == temp_id,
        forall|k: int|
            0 <= k < i ==> (#[trigger] before.messages.events@[key]@[k]).event_id@ != temp_id,
    ensures
        after.messages.events@[key]@.len() == before.messages.events@[key]@.len(),
        after.messages.events@[key]@[i].event_id@ == id@,
        after.messages.events@[key]@[i].body == before.messages.events@[key]@[i].body,
        after.messages.events@[key]@[i].sender == before.messages.events@[key]@[i].sender,
        after.messages.events@[key]@[i].origin_ts == before.messages.events@[key]@[i].origin_ts,
        after.messages.events@[key]@[i].relates_to == before.messages.events@[key]@[i].relates_to,
        0 <= j < before.messages.events@[key]@.len() && j != i ==> after.messages.events@[key]@[j]
            == before.messages.events@[key]@[j],
        other != key && before.messages.events@.dom().contains(other)
            ==> after.messages.events@[other] == before.messages.events@[other],
        option_view(after.live.pending_own_event_id) == Some(id@),
        status_text(after.status@, false) == "sent"@,
        status_text(after.status@, true) == "sent: "@ + id@,
{
    lemma_stored_at(before.messages.events@[key]@, temp_id, i);
    assert(message_sent(before, after, key, temp_id, Ok(id)));
}

/// A message that was not sent says why in its place, and keeps its id.
pub proof fn law_failed_message_says_why(
    before: App,
    after: App,
    key: RoomKeyView,
    temp_id: Seq<char>,
    error: String,
    i: int,
    j: int,
)
    requires
        message_sent(before, after, key, temp_id, Err(error)),
        before.messages.events@.dom().contains(key),
        0 <= i < before.messages.events@[key]@.len(),
        before.messages.events@[key]@[i].event_id@ == temp_id,
        forall|k: int|
            0 <= k < i ==> (#[trigger] before.messages.events@[key]@[k]).event_id@ != temp_id,
    ensures
        after.messages.events@[key]@.len() == before.messages.events@[key]@.len(),
        after.messages.events@[key]@[i].event_id == before.messages.events@[key]@[i].event_id,
        option_view(after.messages.events@[key]@[i].body) == Some("[send failed: "@ + error@ + "]"@),
        0 <= j < before.messages.events@[key]@.len() && j != i ==> after.messages.events@[key]@[j]
            == before.messages.events@[key]@[j],
        after.live == before.live,
        status_text(after.status@, false) == "send failed: "@ + error@,
{
    lemma_stored_at(before.messages.events@[key]@, temp_id, i);
}

/// What became of an upload is told with its room where that is not on the screen. Either way
/// the next file can be sent.
pub proof fn law_upload_is_over(
    before: App,
    after: App,
    key: RoomKeyView,
    result: Result<String, String>,
)
    requires
        media_sent(before, after, key, result),
    ensures
        !after.busy.media_send,
        after.busy.lifecycle == before.busy.lifecycle,
        after.messages == before.messages,
        before.room() is Some && room_key(before.room()->0@) == key && result is Ok ==> status_text(
            after.status@,
            false,
        ) == "sent"@,
        before.room() is Some && room_key(before.room()->0@) == key && result is Err
            ==> status_text(after.status@, false) == "send failed: "@ + result->Err_0@,
        !(before.room() is Some && room_key(before.room()->0@) == key) && result is Ok
            ==> status_text(after.status@, false) == "sent to "@ + key.room_id + ": "@
            + result->Ok_0@,
        !(before.room() is Some && room_key(before.room()->0@) == key) && result is Err
            ==> status_text(after.status@, false) == "send failed in "@ + key.room_id + ": "@
            + result->Err_0@,
        result is Ok ==> option_view(after.live.pending_own_event_id) == Some(result->Ok_0@),
        result is Err ==> after.live == before.live,
{
}

/// A better answer takes the place of the first one only while that is still on the screen.
pub proof fn law_better_answer(
    before: App,
    after: App,
    provisional: Seq<char>,
    enriched: Seq<char>,
)
    requires
        whoami_enriched(before, after, provisional, enriched),
    ensures
        status_text(before.status@, false) != provisional ==> after == before,
        status_text(before.status@, false) == provisional ==> status_text(after.status@, false)
            == enriched,
        status_text(before.status@, false) == provisional && option_view(
            before.session.pending_command_response,
        ) == Some(provisional) ==> option_view(after.session.pending_command_response) == Some(
            enriched,
        ),
        option_view(before.session.pending_command_response) != Some(provisional)
            ==> after.session.pending_command_response == before.session.pending_command_response,
        after.messages == before.messages,
        after.rooms == before.rooms,
        after.busy == before.busy,
{
}

/// The answer to a command is kept for its window only where the user writes and is not asked
/// for anything, and where there is something to say.
pub proof fn law_kept_answer(before: App, after: App)
    requires
        response_queued(before, after),
    ensures
        before.mode@ is Compose && !before.mid_command() && status_text(
            before.status@,
            before.display.debug,
        ).len() > 0 ==> option_view(after.session.pending_command_response) == Some(
            status_text(before.status@, before.display.debug),
        ),
        !(before.mode@ is Compose) || before.mid_command() || status_text(
            before.status@,
            before.display.debug,
        ).len() == 0 ==> after == before,
        after.status == before.status,
        after.messages == before.messages,
{
}

/// What the client does beside an operation on an account leaves that operation under way. The
/// end of the operation itself ends it.
pub proof fn law_what_stays_under_way(
    before: App,
    after: App,
    outcome: LifecycleOutcome,
    step: StepView,
)
    requires
        outcome_handled(before, after, outcome, step),
    ensures
        outcome is MessageSent || outcome is MediaSent || outcome is WhoamiDevice
            ==> after.busy.lifecycle == before.busy.lifecycle && step == no_tasks(),
        outcome is MessageSent ==> message_sent(
            before,
            after,
            outcome->MessageSent_key@,
            outcome->temp_id@,
            outcome->MessageSent_result,
        ),
        outcome is MediaSent ==> media_sent(
            before,
            after,
            outcome->MediaSent_key@,
            outcome->MediaSent_result,
        ),
{
}

/// Of two lists that could not be read again both are told, the accounts first.
pub proof fn law_refresh_failures(a: Seq<char>, r: Seq<char>)
    ensures
        refresh_warning(None, None) is None,
        refresh_warning(Some(a), None) == Some("account refresh failed: "@ + a),
        refresh_warning(None, Some(r)) == Some("room refresh failed: "@ + r),
        refresh_warning(Some(a), Some(r)) == Some(
            refresh_warning(Some(a), None)->0 + "; "@ + refresh_warning(None, Some(r))->0,
        ),
{
    assert(refresh_warning(Some(a), Some(r))->0 =~= refresh_warning(Some(a), None)->0 + "; "@
        + refresh_warning(None, Some(r))->0);
}

/// Lists that could not be read again stay as they were.
pub proof fn law_unread_lists_stay(
    before: App,
    after: App,
    accounts: Result<Vec<AccountDto>, String>,
    rooms: Result<Vec<RoomDto>, String>,
)
    requires
        lists_refreshed(before, after, accounts, rooms),
        accounts is Err,
        rooms is Err,
    ensures
        after == before,
{
}

/// The events by which the account reacted to an event are those that the event names under
/// the key.
pub proof fn law_own_reactions(
    pane: MessagePane,
    room: RoomKeyView,
    target: Seq<char>,
    key: Seq<char>,
    i: int,
)
    requires
        pane.events@.dom().contains(room),
        0 <= i < pane.events@[room]@.len(),
        pane.events@[room]@[i].event_id@ == target,
        forall|k: int| 0 <= k < i ==> (#[trigger] pane.events@[room]@[k]).event_id@ != target,
    ensures
        ({
            let reactions = pane.events@[room]@[i]@.reactions;
            &&& reactions is Some && reactions->0.dom().contains(key) ==> own_ids_on(
                pane,
                room,
                target,
                key,
            ) == reactions->0[key].my_event_ids
            &&& reactions is None || !reactions->0.dom().contains(key) ==> own_ids_on(
                pane,
                room,
                target,
                key,
            ).len() == 0
        }),
{
    lemma_stored_at(pane.events@[room]@, target, i);
}

/// Who the account is can be told by the first event that is known to be its own.
pub proof fn law_sender_by_own_event(events: Seq<EventView>, ids: Seq<Seq<char>>, i: int)
    requires
        0 <= i <= events.len(),
        i < events.len() ==> ids.contains(events[i].event_id),
        forall|k: int| 0 <= k < i ==> !ids.contains((#[trigger] events[k]).event_id),
    ensures
        i < events.len() ==> sender_of_any(events, ids) == Some(events[i].sender),
        i == events.len() ==> sender_of_any(events, ids) is None,
    decreases events.len(),
{
    if i > 0 {
        let rest = events.drop_first();
        assert forall|k: int| 0 <= k < i - 1 implies !ids.contains((#[trigger] rest[k]).event_id) by {
            assert(rest[k] == events[k + 1]);
        }
        assert(!ids.contains(events[0].event_id));
        law_sender_by_own_event(rest, ids, i - 1);
        assert(i < events.len() ==> rest[i - 1] == events[i]);
    }
}

/// A reaction changes the reactions of the event that it is to and nothing else.
pub proof fn law_reaction_changes_one_event(
    before: App,
    after: App,
    target: Seq<char>,
    key: Seq<char>,
    id: Seq<char>,
    i: int,
    j: int,
    other: RoomKeyView,
)
    requires
        before.reaction_added(after, target, key, id),
        before.room() is Some,
        before.messages.events@.dom().contains(room_key(before.room()->0@)),
        0 <= i < before.messages.events@[room_key(before.room()->0@)]@.len(),
        before.messages.events@[room_key(before.room()->0@)]@[i].event_id@ == target,
        forall|k: int|
            0 <= k < i ==> (#[trigger] before.messages.events@[room_key(
                before.room()->0@,
            )]@[k]).event_id@ != target,
    ensures
        ({
            let room = room_key(before.room()->0@);
            let was = before.messages.events@[room]@;
            let is = after.messages.events@[room]@;
            &&& is.len() == was.len()
            &&& is[i].event_id == was[i].event_id
            &&& is[i].body == was[i].body
            &&& is[i]@.reactions is Some
            &&& is[i]@.reactions->0.dom().contains(key)
            &&& is[i]@.reactions->0[key].my_event_ids.contains(id)
            &&& 0 <= j < was.len() && j != i ==> is[j] == was[j]
            &&& other != room && before.messages.events@.dom().contains(other)
                ==> after.messages.events@[other] == before.messages.events@[other]
            &&& after.rooms == before.rooms
            &&& after.status == before.status
        }),
{
    let room = room_key(before.room()->0@);
    lemma_stored_at(before.messages.events@[room]@, target, i);
    let was = before.messages.events@[room]@[i];
    let is = after.messages.events@[room]@[i];
    let ids = tally_of(was@.reactions, key).my_event_ids;
    assert(ids.push(id)[ids.len() as int] == id);
    assert(is@.reactions->0[key].my_event_ids == with_text(ids, id));
    assert(with_text(ids, id).contains(id));
}

/// The drafts of a frame are taken over one after the other, the last at the end.
pub proof fn law_drafts_in_turn(
    before: App,
    after: App,
    account_id: u128,
    entries: Seq<(String, Json)>,
    entry: (String, Json),
)
    ensures
        draft_entries_applied(before, after, account_id, Seq::empty()) ==> after == before,
        draft_entries_applied(before, after, account_id, seq![entry]) ==> draft_entry_applied(
            before,
            after,
            RoomKeyView { account_id, room_id: entry.0@ },
            entry.1@,
        ),
        draft_entries_applied(before, after, account_id, entries.push(entry)) ==> exists|middle: App|
            draft_entries_applied(before, middle, account_id, entries)
                && #[trigger] draft_entry_applied(
                middle,
                after,
                RoomKeyView { account_id, room_id: entry.0@ },
                entry.1@,
            ),
{
    reveal_with_fuel(draft_entries_applied, 2);
    assert(seq![entry].drop_last() =~= Seq::empty());
    assert(entries.push(entry).drop_last() =~= entries);
    if draft_entries_applied(before, after, account_id, entries.push(entry)) {
        let middle = choose|middle: App|
            #![trigger listed_entry_applied(middle, after, account_id, entry)]
            draft_entries_applied(before, middle, account_id, entries)
                && listed_entry_applied(middle, after, account_id, entry);
        assert(draft_entry_applied(
            middle,
            after,
            RoomKeyView { account_id, room_id: entry.0@ },
            entry.1@,
        ));
    }
}

/// The read marks of a frame are taken over one after the other, the last at the end.
pub proof fn law_marks_in_turn(
    before: App,
    after: App,
    account_id: u128,
    entries: Seq<(String, Json)>,
    entry: (String, Json),
)
    ensures
        marker_entries_applied(before, after, account_id, Seq::empty()) ==> after == before,
        marker_entries_applied(before, after, account_id, seq![entry]) ==> marker_entry_applied(
            before,
            after,
            RoomKeyView { account_id, room_id: entry.0@ },
            entry.1@,
        ),
        marker_entries_applied(before, after, account_id, entries.push(entry))
            ==> exists|middle: App|
            marker_entries_applied(before, middle, account_id, entries)
                && #[trigger] marker_entry_applied(
                middle,
                after,
                RoomKeyView { account_id, room_id: entry.0@ },
                entry.1@,
            ),
{
    reveal_with_fuel(marker_entries_applied, 2);
    assert(seq![entry].drop_last() =~= Seq::empty());
    assert(entries.push(entry).drop_last() =~= entries);
    if marker_entries_applied(before, after, account_id, entries.push(entry)) {
        let middle = choose|middle: App|
            #![trigger listed_marker_applied(middle, after, account_id, entry)]
            marker_entries_applied(before, middle, account_id, entries)
                && listed_marker_applied(middle, after, account_id, entry);
        assert(marker_entry_applied(
            middle,
            after,
            RoomKeyView { account_id, room_id: entry.0@ },
            entry.1@,
        ));
    }
}

/// A draft that the answer of the server does not list is out of date where it is of that
/// account and nothing protects it. Drafts of other accounts stay.
pub proof fn law_drafts_of_others_stay(
    app: App,
    account_id: u128,
    state: DeviceStateDto,
    key: RoomKeyView,
)
    ensures
        key.account_id != account_id ==> !app.device.is_stale(account_id, state, key),
        state.entries@.dom().contains(key.room_id) ==> !app.device.is_stale(account_id, state, key),
        is_protected(app.device, key) ==> !app.device.is_stale(account_id, state, key),
        key.account_id == account_id && !state.entries@.dom().contains(key.room_id)
            && !is_protected(app.device, key) ==> app.device.is_stale(account_id, state, key),
{
}

/// A timeline that could not be read leaves the messages as they are, and says so where the
/// user is not asked for anything.
pub proof fn law_unread_timeline(
    before: App,
    after: App,
    room: RoomDto,
    error: String,
    effects: TimelineEffects,
    now: int,
)
    requires
        before.timeline_taken(after, room, Err(error), effects, now),
    ensures
        after.messages == before.messages,
        after.rooms == before.rooms,
        before.mid_command() ==> after.status == before.status,
        !before.mid_command() ==> status_text(after.status@, false) == "timeline load failed: "@
            + error@,
        effects.read is None,
        !effects.relations,
{
}

/// A timeline that was read is said with its title. The names of the members and what the
/// events relate to are asked for.
pub proof fn law_read_timeline(
    before: App,
    after: App,
    room: RoomDto,
    page: TimelinePage,
    effects: TimelineEffects,
    now: int,
)
    requires
        before.timeline_taken(after, room, Ok(page), effects, now),
    ensures
        before.mid_command() ==> after.status == before.status,
        !before.mid_command() && page.next_cursor is None ==> status_text(after.status@, false)
            == "showing "@ + room_title(room@),
        !before.mid_command() && page.next_cursor is Some ==> status_text(after.status@, false)
            == "showing "@ + room_title(room@)
            + " (older history available later)"@,
        effects.relations,
        effects.names@ is Anew,
{
}

/// The first connection asks for nothing. A later one reads anew what devices share, once at a
/// time. Who typed before is forgotten each time.
pub proof fn law_connections(before: App, after: App, ask: bool)
    requires
        before.connection_made(after, ask),
    ensures
        after.startup.seen_first_connect,
        forall|key: RoomKeyView| !(#[trigger] after.ephemeral.typing@.dom().contains(key)),
        !before.startup.seen_first_connect ==> !ask && after.startup.device_state_inflight
            == before.startup.device_state_inflight,
        before.startup.seen_first_connect && before.session.wired
            && !before.startup.device_state_inflight ==> ask && after.startup.device_state_inflight,
        before.startup.seen_first_connect && before.startup.device_state_inflight ==> !ask
            && after.startup.device_state_again,
        after.messages == before.messages,
        after.rooms == before.rooms,
{
}

/// A frame is the echo of the client's own request where that has no flow yet and is of the
/// same account and device, or of the same user.
pub proof fn law_own_verification_request(app: App, account_id: u128, frame: VerificationFrameView)
    ensures
        flow_of(app) is None ==> !app.echoes_own_request(account_id, frame),
        flow_of(app) is Some && flow_of(app)->0.flow_id is Some ==> !app.echoes_own_request(
            account_id,
            frame,
        ),
        flow_of(app) is Some && flow_of(app)->0.account_id != account_id
            ==> !app.echoes_own_request(account_id, frame),
        flow_of(app) is Some && flow_of(app)->0.direction == VerificationDirection::Incoming
            ==> !app.echoes_own_request(account_id, frame),
        flow_of(app) is Some && flow_of(app)->0.flow_id is None && flow_of(app)->0.account_id
            == account_id && flow_of(app)->0.direction == VerificationDirection::Outgoing
            && frame.user_id.len() > 0 && flow_of(app)->0.user_id == frame.user_id
            ==> app.echoes_own_request(account_id, frame),
        flow_of(app) is Some && frame.device_id != Some(flow_of(app)->0.device_id)
            && flow_of(app)->0.user_id != frame.user_id ==> !app.echoes_own_request(
            account_id,
            frame,
        ),
{
}

/// A reply in a thread counts for that thread alone.
pub proof fn law_reply_counts_for_its_thread(
    before: ThreadState,
    after: ThreadState,
    room: RoomKeyView,
    root: Seq<char>,
    reply: EventView,
    other: RoomKeyView,
    thread: Seq<char>,
)
    requires
        thread_marked(before, after, room, root, reply),
    ensures
        other != room || thread != root ==> unread_at(after, other, thread)
            == unread_at(before, other, thread),
        unread_at(after, room, root) is Some,
        unread_at(after, room, root)->0.counted.contains(reply.event_id),
        unread_at(before, room, root) is None ==> unread_at(after, room, root)->0.unread_count == 1,
        ({
            let was = unread_at(before, room, root);
            let is = unread_at(after, room, root)->0;
            &&& was is Some && was->0.counted.contains(reply.event_id) ==> is == was->0
            &&& was is Some && !was->0.counted.contains(reply.event_id) && was->0.unread_count
                < usize::MAX ==> is.unread_count == was->0.unread_count + 1
            &&& was is Some && !was->0.counted.contains(reply.event_id) && reply.origin_ts
                >= was->0.latest_ts ==> is.latest_event_id == reply.event_id && is.latest_sender
                == reply.sender
            &&& was is Some && reply.origin_ts < was->0.latest_ts ==> is.latest_event_id
                == was->0.latest_event_id && is.latest_sender == was->0.latest_sender
        }),
{
}

} // verus!
