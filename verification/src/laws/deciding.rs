//! What the client decides by what it has: which room or account a command is about, what a
//! draft becomes, how the start goes on.

use vstd::prelude::*;

use crate::api::dto::{
    room_title, AccountView, BackupAction, EventView, FlowDto, FlowStage, RoomDto, RoomView,
};
use crate::app::bootstrap::{stage_label, stage_over};
use crate::app::choice::{
    filter_label, room_key, sort_label, RoomFilterView, RoomKey, RoomKeyView, RoomSort,
};
use crate::app::compose::event_added;
use crate::app::drafts::{draft_after_read, draft_of, leaves_line};
use crate::app::history::top_begun;
use crate::app::lifecycle::{
    backup_text, listing_text, recovery_prompt, verified_text, with_warning, AccountPurpose,
    TaskView,
};
use crate::app::outcome::{missing_text, purpose_followed, typed_command, verify_discovered};
use crate::app::paging::{earlier_of, TopWalk};
use crate::app::panels::whoami_shown;
use crate::app::reactions::{reaction_prepared, withdrawal_begun, Withdrawal};
use crate::app::read_markers::unread_after;
use crate::app::selection::echo_id;
use crate::app::state::{
    App, BootstrapStage, MessagePane, ModeView, OwnReaction, ReadMarkerView, RecoveryOrigin,
    Startup,
};
use crate::app::status::status_text;
use crate::app::switching::pin_target;
use crate::app::timeline::{has_part_ignoring_case, room_found};
use crate::app::verification::stage_of;
use crate::app::verify::{flow_of, flow_open};
use crate::json::JsonView;
use crate::text::is_blank;

verus! {

/// A pin without a name is of the selected room. A name that means no room, or more than one,
/// pins nothing.
pub proof fn law_room_to_pin(app: App, text: Seq<char>)
    ensures
        app.rooms.selected is Some ==> pin_target(app, None) == Ok::<usize, Seq<char>>(
            app.rooms.selected->0,
        ),
        app.rooms.selected is None ==> pin_target(app, None) == Err::<usize, Seq<char>>(
            "select a room to pin"@,
        ),
        ({
            let meant = app.rooms.resolved_room(app.account_shown(), text);
            &&& meant is Match ==> pin_target(app, Some(text)) == Ok::<usize, Seq<char>>(
                meant->Match_0,
            )
            &&& meant is Missing ==> pin_target(app, Some(text)) == Err::<usize, Seq<char>>(
                "room not found: "@ + text,
            )
            &&& meant is Ambiguous ==> pin_target(app, Some(text)) is Err
        }),
{
}

/// The line is the draft of the room wherever the user is not asked for something.
pub proof fn law_where_the_line_is_a_draft(mode: ModeView)
    ensures
        mode is Compose || mode is RoomList || mode is AccountList || mode is MessageList
            || mode is Search || mode is Popup ==> leaves_line(mode),
        mode is LoginUsername || mode is LoginPassword || mode is RecoveryKey || mode is Editing
            || mode is Reacting || mode is ConfirmDelete || mode is ConfirmLogout || mode is DateJump
            ==> !leaves_line(mode),
{
}

/// A draft that was written here after the question was asked stays. Else the draft is what the
/// server has, and is gone where it has none.
pub proof fn law_draft_after_a_read(before: Option<Seq<char>>, entry: Option<JsonView>)
    ensures
        draft_after_read(before, true, entry) == before,
        draft_after_read(before, false, None) is None,
        entry is Some && draft_of(entry->0) is Some ==> draft_after_read(before, false, entry)
            == draft_of(entry->0),
        entry is Some && draft_of(entry->0) is None ==> draft_after_read(before, false, entry)
            == before,
{
}

/// A room with a read mark is unread exactly where something came after the mark.
pub proof fn law_unread_by_its_mark(before: Option<usize>, marker: ReadMarkerView, activity: i64)
    ensures
        unread_after(before, None, activity) == before,
        unread_after(before, Some(marker), activity) is Some <==> activity > marker.origin_ts,
        activity > marker.origin_ts && before is Some ==> unread_after(
            before,
            Some(marker),
            activity,
        ) == before,
        activity > marker.origin_ts && before is None ==> unread_after(
            before,
            Some(marker),
            activity,
        ) == Some(1usize),
{
}

/// The emojis are compared once there are some and until the user confirmed them.
pub proof fn law_stages_of_a_verification(emoji: bool, reason: Option<Seq<char>>)
    ensures
        stage_of(FlowStage::Requested, emoji, reason) is Waiting,
        stage_of(FlowStage::Ready, emoji, reason) is Waiting,
        stage_of(FlowStage::KeysExchanged, true, reason) is Compare,
        stage_of(FlowStage::KeysExchanged, false, reason) is Waiting,
        stage_of(FlowStage::Confirmed, emoji, reason) is Confirming,
        stage_of(FlowStage::Done, emoji, reason) is Done,
        stage_of(FlowStage::Cancelled, emoji, reason) is Ended,
{
}

/// A request that is found opens the window only where none is open, and never on an error.
pub proof fn law_found_verification(
    before: App,
    after: App,
    tasks: Seq<TaskView>,
    account_id: u128,
    result: Result<Vec<FlowDto>, String>,
)
    requires
        verify_discovered(before, after, tasks, account_id, result),
    ensures
        flow_open(flow_of(before)) ==> after == before && tasks.len() == 0,
        result is Err ==> after == before && tasks.len() == 0,
        after.mode@ == before.mode@ || after.mode@ is Verification,
        after != before ==> after.mode@ is Verification && flow_of(after) is Some
            && flow_of(after)->0.account_id == account_id,
{
}

/// An account is deleted, and a key taken, only after the user was asked. Enabling the backup
/// takes a verified account.
pub proof fn law_purposes_ask(
    before: App,
    after: App,
    task: TaskView,
    purpose: AccountPurpose,
    target: Option<Seq<char>>,
    account: AccountView,
)
    requires
        purpose_followed(before, after, task, purpose, target, account),
    ensures
        purpose is Delete ==> task is Nothing && after.mode@ == (ModeView::ConfirmDelete {
            account,
        }) && status_text(after.status@, false) == "Permanently delete "@ + account.user_id
            + "? Type YES to confirm, or Esc to cancel"@,
        purpose is Recover ==> task is Nothing && after.mode@ == (ModeView::RecoveryKey {
            account,
            origin: RecoveryOrigin::Command,
        }),
        purpose is BackupEnable && account.verified == Some(true) ==> task is Nothing
            && after.mode@ == (ModeView::RecoveryKey {
            account,
            origin: RecoveryOrigin::BackupEnable,
        }),
        purpose is BackupEnable && account.verified != Some(true) ==> task is Nothing
            && after.mode@ is Compose,
        purpose is Logout && before.display.confirm_logout ==> task is Nothing && after.mode@ == (
        ModeView::ConfirmLogout { account }),
        purpose is Logout && !before.display.confirm_logout && before.session.wired ==> task == (
        TaskView::Logout { account_id: account.account_id, user_id: account.user_id }),
        after.accounts == before.accounts,
{
}

/// A command whose account is not found stands in the line again as it was typed.
pub proof fn law_command_typed_again(target: Seq<char>)
    requires
        target.len() > 0,
    ensures
        typed_command(AccountPurpose::Logout, Some(target)) == "/logout"@ + " "@ + target,
        typed_command(AccountPurpose::Recover, Some(target)) == "/recover"@ + " "@ + target,
        typed_command(AccountPurpose::BackupEnable, Some(target)) == "/backup enable"@ + " "@
            + target,
        typed_command(AccountPurpose::Delete, Some(target)) == "/delete"@ + " "@ + target,
        typed_command(AccountPurpose::Logout, None) == "/logout"@,
        typed_command(AccountPurpose::Delete, None) == "/delete"@,
        missing_text(AccountPurpose::Delete, Some(target)) == "no account matches: "@ + target,
        missing_text(AccountPurpose::Logout, Some(target)) == "no active account matches: "@
            + target,
        missing_text(AccountPurpose::Recover, None) == "no active accounts"@,
        missing_text(AccountPurpose::Delete, None) == "no accounts"@,
{
}

/// Who the user is can be told only in a room that says so.
pub proof fn law_who_the_user_is(before: App, after: App)
    requires
        whoami_shown(before, after),
    ensures
        before.room() is None ==> status_text(after.status@, false)
            == "select a room before using /whoami"@,
        before.room() is Some && before.room()->0.account_user_id is None ==> status_text(
            after.status@,
            false,
        ) == "current user is unavailable for this room"@,
        before.room() is Some && before.room()->0.account_user_id is Some ==> status_text(
            after.status@,
            false,
        ) == "Matrix ID: "@ + before.room()->0.account_user_id->0@ + "; Display Name: "@
            + before.own_name(before.room()->0, before.room()->0.account_user_id->0@),
        after.mode == before.mode,
        after.messages == before.messages,
{
}

/// The name of the user in a room is the one that the room has for them.
pub proof fn law_own_name(app: App, room: RoomDto, user: Seq<char>)
    ensures
        ({
            let key = room_key(room@);
            let all = app.rooms.display_names@;
            &&& !all.dom().contains(key) ==> app.own_name(room, user) == "unknown"@
            &&& all.dom().contains(key) && !all[key]@.dom().contains(user) ==> app.own_name(
                room,
                user,
            ) == "unknown"@
            &&& all.dom().contains(key) && all[key]@.dom().contains(user) && !is_blank(
                all[key]@[user]@,
            ) ==> app.own_name(room, user) == all[key]@[user]@
            &&& all.dom().contains(key) && all[key]@.dom().contains(user) && is_blank(
                all[key]@[user]@,
            ) ==> app.own_name(room, user) == "unknown"@
        }),
{
}

/// The names of the filters and orders.
pub proof fn law_names_of_filters(q: Seq<char>)
    ensures
        filter_label(RoomFilterView::All) == "All"@,
        filter_label(RoomFilterView::Dms) == "DMs"@,
        filter_label(RoomFilterView::Groups) == "Groups"@,
        filter_label(RoomFilterView::Unread) == "Unread"@,
        filter_label(RoomFilterView::Favorites) == "Favorites"@,
        filter_label(RoomFilterView::Name(q)) == "Filter: "@ + q,
        sort_label(RoomSort::RecentActivity) == "Recent"@,
        sort_label(RoomSort::OldestActivity) == "Oldest"@,
        sort_label(RoomSort::AlphaAsc) == "A–Z"@,
        sort_label(RoomSort::AlphaDesc) == "Z–A"@,
{
}

/// A room is found by its name, its alias, its topic or its id.
pub proof fn law_how_a_room_is_found(room: RoomView, part: Seq<char>)
    ensures
        has_part_ignoring_case(room.room_id, part) ==> room_found(room, part),
        room.name is Some && has_part_ignoring_case(room.name->0, part) ==> room_found(room, part),
        room.canonical_alias is Some && has_part_ignoring_case(room.canonical_alias->0, part)
            ==> room_found(room, part),
        room.topic is Some && has_part_ignoring_case(room.topic->0, part) ==> room_found(
            room,
            part,
        ),
        room.name is None && room.canonical_alias is None && room.topic is None
            && !has_part_ignoring_case(room.room_id, part) ==> !room_found(room, part),
{
}

/// The earlier of two moments, where both are known.
pub proof fn law_earlier_moment(x: i64, y: i64)
    ensures
        x <= y ==> earlier_of(Some(x), Some(y)) == Some(x),
        y <= x ==> earlier_of(Some(x), Some(y)) == Some(y),
        earlier_of(Some(x), None) == Some(x),
        earlier_of(None, Some(y)) == Some(y),
        earlier_of(None, None) is None,
{
}

/// A failure is of the flow on the screen where the account and the flow are the same.
pub proof fn law_where_a_failure_shows(app: App, account_id: u128, flow_id: Seq<char>)
    ensures
        flow_of(app) is None ==> !app.fails_here(account_id, None),
        flow_of(app) is Some && flow_of(app)->0.account_id != account_id ==> !app.fails_here(
            account_id,
            Some(flow_id),
        ),
        flow_of(app) is Some && flow_of(app)->0.flow_id != Some(flow_id) ==> !app.fails_here(
            account_id,
            Some(flow_id),
        ),
        flow_of(app) is Some && flow_of(app)->0.stage is Done ==> !app.fails_here(account_id, None),
        flow_of(app) is Some && flow_of(app)->0.account_id == account_id && flow_of(app)->0.stage
            is Waiting ==> app.fails_here(account_id, None),
        flow_of(app) is Some && flow_of(app)->0.account_id == account_id && flow_of(app)->0.flow_id
            == Some(flow_id) && flow_of(app)->0.stage is Compare ==> app.fails_here(
            account_id,
            Some(flow_id),
        ),
{
}

/// A stage that is over counts its own time and gives way to the next.
pub proof fn law_stages_of_the_start(s: Startup, next: BootstrapStage, now: u64)
    requires
        now >= s.stage_started,
    ensures
        stage_over(s, s.stage, next, now).stage == next,
        stage_over(s, s.stage, next, now).stage_started == now,
        s.stage is Accounts ==> stage_over(s, s.stage, next, now).times.accounts == Some(
            (now - s.stage_started) as u64,
        ) && stage_over(s, s.stage, next, now).times.rooms == s.times.rooms,
        s.stage is Rooms ==> stage_over(s, s.stage, next, now).times.rooms == Some(
            (now - s.stage_started) as u64,
        ) && stage_over(s, s.stage, next, now).times.accounts == s.times.accounts,
        s.stage is DeviceState ==> stage_over(s, s.stage, next, now).times.device_state == Some(
            (now - s.stage_started) as u64,
        ) && stage_over(s, s.stage, next, now).times.rooms == s.times.rooms,
        !(s.stage is Rooms) ==> stage_over(s, BootstrapStage::Rooms, next, now).times == s.times,
        stage_label(BootstrapStage::Accounts) == Some("connecting"@),
        stage_label(BootstrapStage::Rooms) == Some("loading rooms"@),
        stage_label(BootstrapStage::DeviceState) == Some("loading read state"@),
        stage_label(BootstrapStage::Done) is None,
{
}

/// A list of rooms that could not be read leaves the rooms as they are.
pub proof fn law_unread_rooms_stay(before: App, after: App, error: String, members: Seq<RoomKey>)
    requires
        before.rooms_taken(after, Err(error), members),
    ensures
        after.rooms == before.rooms,
        after.messages == before.messages,
        members.len() == 0,
        before.mid_command() ==> after.status == before.status,
        !before.mid_command() ==> status_text(after.status@, false) == "room refresh failed: "@
            + error@,
{
}

/// What became of a backup, and what is known of a device, in words.
pub proof fn law_told_backup(user: Seq<char>, w: Seq<char>)
    ensures
        backup_text(user, BackupAction::Joined) == "joined existing megolm backup: "@ + user,
        backup_text(user, BackupAction::Enabled) == "enabled megolm backup: "@ + user,
        backup_text(user, BackupAction::ExportPending) == "megolm backup export pending for "@
            + user + "; retry /backup enable"@,
        backup_text(user, BackupAction::Failed) == "megolm backup enable failed for "@ + user
            + "; retry /backup enable"@,
        backup_text(user, BackupAction::AlreadyUploading)
            == "already uploading megolm keys to backup: "@ + user,
        verified_text(Some(true)) == "device verified"@,
        verified_text(Some(false)) == "device remains unverified"@,
        verified_text(None) == "device verification unavailable"@,
        with_warning(user, None) == user,
        with_warning(user, Some(w)) == user + "; "@ + w,
{
}

/// What is said while the accounts are listed names what it is for.
pub proof fn law_said_while_listing(t: Seq<char>)
    requires
        t.len() > 0,
    ensures
        listing_text(AccountPurpose::Logout, None) == "logging out"@ + "…"@,
        listing_text(AccountPurpose::Delete, None) == "preparing to delete"@ + "…"@,
        listing_text(AccountPurpose::Logout, Some(t)) == "logging out"@ + " "@ + t + "…"@,
        listing_text(AccountPurpose::Recover, Some(t)) == "preparing recovery"@ + " for "@ + t
            + "…"@,
        listing_text(AccountPurpose::BackupEnable, Some(t)) == "preparing backup enable"@ + " for "@
            + t + "…"@,
        listing_text(AccountPurpose::Delete, Some(t)) == "preparing to delete"@ + " "@ + t + "…"@,
{
}

/// A key is asked for by its user, and what an empty line does is said.
pub proof fn law_asked_key(user: Seq<char>)
    ensures
        recovery_prompt(user, RecoveryOrigin::PostLogin) == "Recovery key for "@ + user
            + ": input is hidden; Enter submits, empty Enter or Esc skips"@,
        recovery_prompt(user, RecoveryOrigin::Command) == recovery_prompt(
            user,
            RecoveryOrigin::PostLogin,
        ),
        recovery_prompt(user, RecoveryOrigin::BackupEnable) == "Recovery key for "@ + user
            + ": input is hidden; Enter submits, empty Enter kicks upload only, Esc cancels"@,
{
}

/// The way back to the start of a room begins once, for the selected room.
pub proof fn law_way_to_the_start(before: App, after: App, walk: Option<(RoomKey, TopWalk)>)
    requires
        top_begun(before, after, walk),
    ensures
        before.room() is None ==> walk is None && status_text(after.status@, false)
            == "select a room before using /top"@,
        before.room() is Some && before.messages.loading_history ==> walk is None && after == before,
        before.room() is Some && !before.messages.loading_history ==> walk is Some && (walk->0).0@
            == room_key(before.room()->0@) && (walk->0).1.cursor is None
            && after.messages.loading_history && after.messages.events == before.messages.events
            && status_text(after.status@, false) == "Jumping to the start of "@ + room_title(
            before.room()->0@,
        ) + "…"@,
{
}

/// A message that is added stands at the end of its room. What was there stays, in all rooms.
pub proof fn law_added_at_the_end(
    before: MessagePane,
    after: MessagePane,
    key: RoomKeyView,
    event: EventView,
    i: int,
    other: RoomKeyView,
)
    requires
        event_added(before, after, key, event),
    ensures
        after.events@.dom().contains(key),
        after.events@[key]@.len() > 0,
        after.events@[key]@[after.events@[key]@.len() - 1]@ == event,
        before.events@.dom().contains(key) ==> after.events@[key]@.len()
            == before.events@[key]@.len() + 1,
        !before.events@.dom().contains(key) ==> after.events@[key]@.len() == 1,
        before.events@.dom().contains(key) && 0 <= i < before.events@[key]@.len()
            ==> after.events@[key]@[i] == before.events@[key]@[i],
        other != key && before.events@.dom().contains(other) ==> after.events@[other]
            == before.events@[other],
{
    if before.events@.dom().contains(key) && 0 <= i < before.events@[key]@.len() {
        assert(after.events@[key]@.drop_last()[i] == before.events@[key]@[i]);
    }
}

/// A reaction goes to the selected message with the emoji that was meant. A message that the
/// server has not confirmed cannot be reacted to.
pub proof fn law_what_a_reaction_goes_to(
    before: App,
    after: App,
    input: Seq<char>,
    meant: Option<String>,
    out: Result<(String, String), String>,
)
    requires
        reaction_prepared(before, after, input, meant, out),
    ensures
        after.target() is None ==> out is Err && out->Err_0@ == "no displayed messages"@,
        after.target() is Some && echo_id(after.target()->0.event_id) ==> out is Err,
        after.target() is Some && !echo_id(after.target()->0.event_id) && meant is Some ==> out is Ok
            && out->Ok_0.0@ == after.target()->0.event_id && out->Ok_0.1 == meant->0,
        after.target() is Some && !echo_id(after.target()->0.event_id) && meant is None ==> out
            is Err && out->Err_0@ == "unknown or ambiguous emoji: "@ + input,
        after.messages.events == before.messages.events,
        after.rooms == before.rooms,
{
}

/// A reaction that is taken back is of the selected room, and none of it is done yet.
pub proof fn law_withdrawal_begins(
    before: App,
    after: App,
    target: Seq<char>,
    reaction: OwnReaction,
    out: Option<Withdrawal>,
)
    requires
        withdrawal_begun(before, after, target, reaction, out),
    ensures
        before.room() is None ==> out is None && status_text(after.status@, false)
            == "no room selected"@,
        before.room() is Some ==> after == before && out is Some && out->0.room@ == room_key(
            before.room()->0@,
        ) && out->0.target_event_id@ == target && out->0.reaction == reaction && out->0.done == 0,
{
}

} // verus!
