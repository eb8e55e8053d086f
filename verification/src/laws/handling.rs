//! What single steps of the client change, and what they leave.

use vstd::prelude::*;

use crate::api::client::{
    account_url, error_message_of, escaped, refusal, ApiErrorView, Method, Request,
};
use crate::api::dto::{DeviceStateDto, EventDto, EventView, RoomView};
use crate::api::live::next_backoff;
use crate::app::choice::{config_entry, room_key, RoomKey, RoomKeyView};
use crate::app::compose::{event_changed, rebodied};
use crate::app::drafts::DraftPut;
use crate::app::history::jump_begun;
use crate::app::inspect::event_asked;
use crate::app::layout_cache::line_count;
use crate::app::lifecycle::{
    login_text, offers_recovery, recovered_text, AccountPurpose, TaskView,
};
use crate::app::outcome::lemma_stored_at;
use crate::app::paging::Straddle;
use crate::app::panels::whereami_shown;
use crate::app::picture::fault_text;
use crate::app::reactions::{react_started, unreact_text};
use crate::app::read_markers::{
    current_put, if_told, marker_at, marker_reads_applied, receipt_at, ReadPutView,
};
use crate::app::render::{header_line, left_of};
use crate::app::room_target::still_to_type;
use crate::app::rooms::likely_dm;
use crate::app::selection::echo_id;
use crate::app::state::{
    App, DeviceState, LiveState, MessagePane, ModeView, OwnReactionView, PopupKind, ReadMarkerView,
};
use crate::app::status::status_text;
use crate::app::threads::is_own_event;
use crate::app::choice::event_position;
use crate::app::verification::{cancelled_text, flow_matches, VerificationFlowView};
use crate::app::words::{command_target, suffix_after, target_of_rest, user_action};
use crate::ids::id_text;
use crate::laws::completing::law_what_a_command_is_about;
use crate::order::{lemma_text_sorted, text_less, text_sorted};
use crate::text::{begins, begins_ignoring_case, decimal, is_blank, is_white, option_view, trim};

verus! {

/// An edit gives one message a new body. The rest of it, and all other messages, stay.
pub proof fn law_edit_changes_one_body(
    before: MessagePane,
    after: MessagePane,
    key: RoomKeyView,
    id: Seq<char>,
    body: Seq<char>,
    i: int,
    j: int,
    other: RoomKeyView,
)
    requires
        event_changed(
            before,
            after,
            key,
            id,
            |a: EventDto, b: EventDto| rebodied(a, b, body),
        ),
        before.events@.dom().contains(key),
        0 <= i < before.events@[key]@.len(),
        before.events@[key]@[i].event_id@ == id,
        forall|k: int| 0 <= k < i ==> (#[trigger] before.events@[key]@[k]).event_id@ != id,
    ensures
        after.events@[key]@.len() == before.events@[key]@.len(),
        option_view(after.events@[key]@[i].body) == Some(body),
        after.events@[key]@[i].event_id == before.events@[key]@[i].event_id,
        after.events@[key]@[i].sender == before.events@[key]@[i].sender,
        after.events@[key]@[i].redacted == before.events@[key]@[i].redacted,
        0 <= j < before.events@[key]@.len() && j != i ==> after.events@[key]@[j]
            == before.events@[key]@[j],
        other != key && before.events@.dom().contains(other) ==> after.events@[other]
            == before.events@[other],
        after.selection == before.selection,
        after.scroll == before.scroll,
{
    lemma_stored_at(before.events@[key]@, id, i);
}

/// A message that is not kept is not changed, nor is another in its place.
pub proof fn law_unkept_message_is_not_changed(
    before: MessagePane,
    after: MessagePane,
    key: RoomKeyView,
    id: Seq<char>,
    change: spec_fn(EventDto, EventDto) -> bool,
)
    requires
        event_changed(before, after, key, id, change),
        !before.events@.dom().contains(key) || forall|k: int|
            0 <= k < before.events@[key]@.len() ==> (#[trigger] before.events@[key]@[k]).event_id@
                != id,
    ensures
        after == before,
{
    if before.events@.dom().contains(key) {
        lemma_stored_at(before.events@[key]@, id, before.events@[key]@.len() as int);
    }
}

/// A selected room that is still shown stays selected, and the messages stay where they are.
/// Else the first room that is shown is selected, and its messages are shown from the bottom.
pub proof fn law_selection_among_the_shown(app: App)
    ensures
        ({
            let shown = app.rooms.visible(app.account_shown());
            let after = app.synced();
            &&& app.rooms.selected is Some && shown.contains(app.rooms.selected->0)
                ==> after.rooms.selected == app.rooms.selected && after.messages == app.messages
            &&& !(app.rooms.selected is Some && shown.contains(app.rooms.selected->0)) && shown.len()
                > 0 ==> after.rooms.selected == Some(shown[0])
            &&& shown.len() == 0 ==> after.rooms.selected is None
            &&& !(app.rooms.selected is Some && shown.contains(app.rooms.selected->0))
                ==> after.messages.selection is None && after.messages.scroll == usize::MAX
                && after.messages.events == app.messages.events
            &&& after.rooms.rooms == app.rooms.rooms
            &&& after.rooms.filter == app.rooms.filter
        }),
{
}

/// What is written is where the room is read up to now, not when the write was armed.
pub proof fn law_written_mark_is_the_present_one(
    device: DeviceState,
    key: RoomKeyView,
    armed: ReadMarkerView,
)
    ensures
        current_put(device, key, armed).room == key,
        marker_at(device, key) is Some ==> Some(current_put(device, key, armed).marker)
            == marker_at(device, key),
        marker_at(device, key) is None ==> current_put(device, key, armed).marker == armed,
        current_put(device, key, armed).receipt == receipt_at(device, key),
{
}

/// Nothing is written where requests cannot be made.
pub proof fn law_writes_need_a_connection(app: App, put: ReadPutView)
    ensures
        app.session.wired ==> if_told(app, put) == Some(put),
        !app.session.wired ==> if_told(app, put) is None,
{
}

/// The badges are set by the marks once all of them are read, and the rooms stay.
pub proof fn law_badges_follow_the_marks(
    before: App,
    after: App,
    reads: Seq<(u128, Result<DeviceStateDto, String>)>,
)
    requires
        marker_reads_applied(before, after, reads),
    ensures
        after.rooms.unread@ == (App { device: after.device, ..before }).badges_reconciled(
            before.rooms.unread@,
            before.rooms.rooms@.len() as int,
        ),
        after.rooms.rooms == before.rooms.rooms,
        after.rooms.selected == before.rooms.selected,
        after.messages == before.messages,
        after.status == before.status,
{
}

/// Accounts are listed for one operation at a time, and only where requests can be made.
pub proof fn law_one_operation_at_a_time(
    before: App,
    after: App,
    task: TaskView,
    purpose: AccountPurpose,
    target: Option<Seq<char>>,
)
    requires
        before.listing_started(after, task, purpose, target),
    ensures
        before.busy.lifecycle ==> task is Nothing && after.busy == before.busy,
        !before.busy.lifecycle && !before.session.wired ==> task is Nothing && after == before,
        !before.busy.lifecycle && before.session.wired ==> after.busy.lifecycle && task == (
        TaskView::ListAccounts { purpose, target }),
        after.accounts == before.accounts,
        after.mode == before.mode,
{
}

/// A jump looks round the moment that was asked for, in the selected room.
pub proof fn law_jump_begins(
    before: App,
    after: App,
    ts: i64,
    now: i64,
    search: Option<(RoomKey, Straddle)>,
)
    requires
        jump_begun(before, after, ts, now, search),
    ensures
        before.room() is None ==> search is None && status_text(after.status@, false)
            == "select a room before using /jump"@,
        before.room() is Some ==> search is Some && (search->0).0@ == room_key(before.room()->0@)
            && (search->0).1.pivot == ts && (search->0).1.now == now && (search->0).1.chosen is None,
        after.messages == before.messages,
{
}

/// An event is asked for by its id, as the account of the selected room sees it.
pub proof fn law_asked_event(
    before: App,
    after: App,
    id: Seq<char>,
    ending: Seq<char>,
    said: Seq<char>,
    request: Option<Request>,
)
    requires
        event_asked(before, after, id, ending, said, request),
    ensures
        before.room() is None ==> request is None && status_text(after.status@, false) == said,
        before.room() is Some ==> after == before && request is Some && request->0@.method
            == Method::Get && request->0@.url == account_url(
            before.client.base(),
            before.room()->0.account_id,
        ) + "/events/"@ + escaped(id) + ending && request->0@.query.len() == 0,
{
}

/// A login that changed nothing is told so, and offers no recovery. A verified device needs
/// none.
pub proof fn law_after_a_login(user: Seq<char>, verified: Option<bool>)
    ensures
        login_text(true, user) == "already logged in: "@ + user + " (no changes)"@,
        login_text(false, user) == "logged in: "@ + user,
        !offers_recovery(true, verified),
        !offers_recovery(false, Some(true)),
        offers_recovery(false, Some(false)),
        offers_recovery(false, None),
        recovered_text(user, Some(true)) == "recovered encryption keys"@ + ": "@ + (user + " ("@
            + "device verified"@ + ")"@),
{
}

/// An event is the account's own where its sender is the user of its account.
pub proof fn law_own_events(live: LiveState, event: EventView)
    ensures
        !live.own_senders@.dom().contains(event.account_id) ==> !is_own_event(live, event),
        live.own_senders@.dom().contains(event.account_id) ==> (is_own_event(live, event)
            <==> live.own_senders@[event.account_id]@ == event.sender),
{
}

/// What is left of a width is never nothing.
pub proof fn law_left_width(width: int, taken: int)
    ensures
        left_of(width, taken) >= 1,
        width > taken ==> left_of(width, taken) == width - taken,
        width <= taken ==> left_of(width, taken) == 1,
{
}

/// The header of the selected message is on the first line of its range.
pub proof fn law_header_of_the_selected(
    ranges: Seq<(usize, usize)>,
    ids: Seq<Seq<char>>,
    id: Seq<char>,
)
    ensures
        header_line(ranges, ids, None) is None,
        event_position(ids, id) >= ids.len() ==> header_line(ranges, ids, Some(id)) is None,
        event_position(ids, id) < ids.len() && event_position(ids, id) < ranges.len()
            ==> header_line(ranges, ids, Some(id)) == Some(
            ranges[event_position(ids, id)].0 as int,
        ),
{
}

/// There are as many lines as the last message ends after.
pub proof fn law_number_of_lines(ranges: Seq<(usize, usize)>)
    ensures
        ranges.len() == 0 ==> line_count(ranges) == 0,
        ranges.len() > 0 ==> line_count(ranges) == ranges[ranges.len() - 1].1,
{
}

/// A flow is of one account and has one id.
pub proof fn law_which_flow(flow: VerificationFlowView, account_id: u128, id: Seq<char>, r: Seq<char>)
    ensures
        flow_matches(flow, account_id, id) <==> flow.account_id == account_id && flow.flow_id
            == Some(id),
        cancelled_text(None) == "Verification cancelled"@,
        cancelled_text(Some(r)) == "Verification cancelled — "@ + r,
{
}

/// What follows a command is its target where white space stands between.
pub proof fn law_target_of_a_command(rest: Seq<char>)
    ensures
        target_of_rest(Seq::empty()) == Some(Seq::<char>::empty()),
        rest.len() > 0 && is_white(rest[0]) ==> target_of_rest(rest) == Some(trim(rest)),
        rest.len() > 0 && !is_white(rest[0]) ==> target_of_rest(rest) is None,
{
}

/// What is still to type of a value is what follows the part that was typed.
pub proof fn law_still_to_type(value: Seq<char>, prefix: Seq<char>)
    ensures
        suffix_after(prefix + value, prefix) == Some(value),
        value.len() > 0 ==> still_to_type(prefix + value, prefix) == value,
        !begins_ignoring_case(value, prefix) ==> still_to_type(value, prefix) == value,
        still_to_type(prefix, prefix) == prefix,
{
    let all = prefix + value;
    assert(all.take(prefix.len() as int) =~= prefix);
    assert(all.skip(prefix.len() as int) =~= value);
    assert(prefix.take(prefix.len() as int) =~= prefix);
    assert(prefix.skip(prefix.len() as int) =~= Seq::empty());
}

/// A room without a name and without an alias is likely a direct message.
pub proof fn law_likely_direct_message(room: RoomView)
    ensures
        room.name is None && room.canonical_alias is None ==> likely_dm(room),
        room.name is Some && !is_blank(room.name->0) ==> !likely_dm(room),
        room.canonical_alias is Some && !is_blank(room.canonical_alias->0) ==> !likely_dm(room),
        room.name is Some && is_blank(room.name->0) && room.canonical_alias is None ==> likely_dm(
            room,
        ),
{
}

/// The wait doubles up to half a minute.
pub proof fn law_wait_doubles(n: int)
    requires
        0 < n,
    ensures
        next_backoff(n) >= n || n > 30_000,
        next_backoff(n) <= 30_000,
        2 * n <= 30_000 ==> next_backoff(n) == 2 * n,
{
}

/// A room is written down by its account and its id.
pub proof fn law_written_room(key: RoomKeyView)
    ensures
        config_entry(key) == id_text(key.account_id) + ":"@ + key.room_id,
{
}

/// Where the user is can be shown only in a room.
pub proof fn law_where_the_user_is(before: App, after: App, now: int)
    requires
        whereami_shown(before, after, now),
    ensures
        before.room() is None ==> status_text(after.status@, false)
            == "select a room before using /whereami"@ && after.mode == before.mode,
        before.room() is Some ==> after.mode@ == ModeView::Popup(PopupKind::RoomInfo)
            && after.status == before.status,
        after.messages == before.messages,
{
}

/// Bytes of an encrypted image that begin like no image could not be decrypted.
pub proof fn law_told_image_faults(fault: Seq<char>, format: Seq<char>, url: Seq<char>)
    ensures
        fault_text(fault, format, false, url) == fault + " ("@ + format + ") - "@ + url,
        begins(format, "unknown"@) ==> fault_text(fault, format, true, url)
            == "encrypted media - server could not decrypt ("@ + url + ")"@,
        !begins(format, "unknown"@) ==> fault_text(fault, format, true, url) == fault_text(
            fault,
            format,
            false,
            url,
        ),
{
}

/// A reaction is asked for to a message that the server has confirmed.
pub proof fn law_reaction_is_asked_for(
    before: App,
    after: App,
    put: Option<DraftPut>,
)
    requires
        react_started(before, after, put),
    ensures
        before.target() is None ==> after.mode == before.mode && status_text(after.status@, false)
            == "select a displayed message before reacting"@,
        before.target() is Some && echo_id(before.target()->0.event_id) ==> after.mode
            == before.mode && put is None,
        before.target() is Some && !echo_id(before.target()->0.event_id) ==> after.mode@ == (
        ModeView::Reacting { event_id: before.target()->0.event_id }) && status_text(
            after.status@,
            false,
        ) == "react to message - type emoji, Enter to send"@,
{
}

/// The reaction that is to be withdrawn is told with its number.
pub proof fn law_told_withdrawal(choices: Seq<OwnReactionView>, i: int)
    requires
        0 <= i < choices.len(),
    ensures
        unreact_text(choices, i) == "["@ + decimal((i + 1) as nat) + "/"@ + decimal(choices.len())
            + "] withdraw "@ + choices[i].key + " - Tab/Shift-Tab to cycle, Enter to confirm"@,
{
}

/// A refusal is told with its status and what the server says.
pub proof fn law_told_refusal(status: u16, text: Seq<char>, refused: Option<Seq<char>>)
    ensures
        refusal(status, text, refused) == (ApiErrorView::Status {
            status,
            message: error_message_of(text, refused),
        }),
{
}

/// A command on a member is known by its name, and is about who follows it.
pub proof fn law_commands_on_members(rest: Seq<char>)
    ensures
        user_action("/invite"@ + seq![' '] + rest) == Some(("/invite"@, trim(seq![' '] + rest))),
        user_action("/kick"@ + seq![' '] + rest) == Some(("/kick"@, trim(seq![' '] + rest))),
        user_action("/ban"@ + seq![' '] + rest) == Some(("/ban"@, trim(seq![' '] + rest))),
        user_action("/unban"@ + seq![' '] + rest) == Some(("/unban"@, trim(seq![' '] + rest))),
{
    reveal_strlit("/invite");
    reveal_strlit("/kick");
    reveal_strlit("/ban");
    reveal_strlit("/unban");
    law_what_a_command_is_about("/invite"@, rest, 'x');
    law_what_a_command_is_about("/kick"@, rest, 'x');
    law_what_a_command_is_about("/ban"@, rest, 'x');
    law_what_a_command_is_about("/unban"@, rest, 'x');
    lemma_other_command("/kick"@ + seq![' '] + rest, "/invite"@);
    lemma_other_command("/ban"@ + seq![' '] + rest, "/invite"@);
    lemma_other_command("/ban"@ + seq![' '] + rest, "/kick"@);
    lemma_other_command("/unban"@ + seq![' '] + rest, "/invite"@);
    lemma_other_command("/unban"@ + seq![' '] + rest, "/kick"@);
    lemma_other_command("/unban"@ + seq![' '] + rest, "/ban"@);
}

proof fn lemma_other_command(input: Seq<char>, command: Seq<char>)
    requires
        input.len() > 1,
        command.len() > 1,
        input[1] != command[1],
    ensures
        command_target(input, command) is None,
{
    if input.len() >= command.len() {
        assert(input.take(command.len() as int)[1] != command[1]);
        assert(input.subrange(0, command.len() as int)[1] != command[1]);
    }
}

/// Texts in order are the same texts, and none comes before one that is less.
pub proof fn law_texts_in_order(texts: Seq<Seq<char>>, i: int, j: int)
    requires
        0 <= i < j < texts.len(),
    ensures
        text_sorted(texts).len() == texts.len(),
        text_sorted(texts).to_multiset() == texts.to_multiset(),
        !text_less(text_sorted(texts)[j], text_sorted(texts)[i]),
{
    lemma_text_sorted(texts);
}

} // verus!
