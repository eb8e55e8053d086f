//! What becomes of what the user submits: a name, a password, a key, a confirmation, a page that
//! is asked for.

use vstd::arithmetic::div_mod::lemma_small_mod;
use vstd::prelude::*;

use crate::api::client::{event_url, Method, Request};
use crate::api::dto::{AccountDto, AccountView, TimelinePage};
use crate::api::event::text_of_event;
use crate::app::calendar::{day_label, day_of};
use crate::app::choice::{room_key, AccountSelection, RoomKey, RoomKeyView};
use crate::app::compose::{
    edit_begun, edit_over, redaction_asked, redaction_over, EventChange,
};
use crate::app::drafts::{held, DraftPut};
use crate::app::ephemeral::typing_pruned;
use crate::app::history::{jump_over, newer_asked, older_asked, PastEffects};
use crate::app::lifecycle::{
    key_given, password_given, username_given, words_of, LifecycleTask, TaskView,
};
use crate::app::outcome::{lemma_stored_at, login_selected, FinishView};
use crate::app::paging::{page_request, Straddle, TIMELINE_LIMIT};
use crate::app::selection::echo_id;
use crate::app::state::{App, ModeView, RecoveryOrigin};
use crate::app::status::status_text;
use crate::app::switching::{account_stepped, room_stepped};
use crate::app::targets::{homeserver_url, normal_user_id};
use crate::app::verification::StageView;
use crate::app::verify::{emojis_confirmed, flow_cancelled, flow_of};
use crate::laws::accounts::lemma_account_at;
use crate::laws::choosing::law_step_to_a_room;
use crate::laws::telling::law_position_among_the_shown;
use crate::text::{is_blank, option_view, trim, views};

verus! {

/// Older messages are asked for from where those that are kept begin, one page at a time.
pub proof fn law_older_messages_are_asked_for(
    before: App,
    after: App,
    request: Option<(RoomKey, Request)>,
)
    requires
        older_asked(before, after, request),
    ensures
        before.room() is None ==> request is None && after == before,
        before.messages.loading_history ==> request is None && after.messages == before.messages,
        before.room() is Some && !before.messages.history_cursors@.dom().contains(
            room_key(before.room()->0@),
        ) ==> request is None && status_text(after.status@, false)
            == "at beginning of Axon history"@,
        request is Some ==> {
            let key = room_key(before.room()->0@);
            &&& before.room() is Some
            &&& before.messages.history_cursors@.dom().contains(key)
            &&& (request->0).0@ == key
            &&& (request->0).1@ == page_request(
                before.client.base(),
                key,
                Some(before.messages.history_cursors@[key]@),
                None,
                TIMELINE_LIMIT,
            )
            &&& after.messages.loading_history
            &&& !before.messages.loading_history
        },
        after.messages.events == before.messages.events,
        after.rooms == before.rooms,
{
}

/// Newer messages are looked for after a jump, from the last message that is kept.
pub proof fn law_newer_messages_are_looked_for(
    before: App,
    after: App,
    now: i64,
    search: Option<(RoomKey, Straddle)>,
)
    requires
        newer_asked(before, after, now, search),
    ensures
        before.session.last_jump_ts is None ==> search is None && after == before,
        before.messages.loading_history ==> search is None && after == before,
        before.room() is None ==> search is None && after == before,
        search is Some ==> {
            let key = room_key(before.room()->0@);
            &&& before.room() is Some
            &&& before.events_of(key).len() > 0
            &&& (search->0).0@ == key
            &&& (search->0).1.pivot == before.events_of(key)[before.events_of(key).len()
                - 1].origin_ts
            &&& (search->0).1.now == now
            &&& after.messages.loading_history
        },
        after.messages.events == before.messages.events,
{
}

/// A jump that found nothing leaves the messages. One that found only what is later says so.
pub proof fn law_jump_is_over(
    before: App,
    after: App,
    key: RoomKey,
    ts: i64,
    page: Option<TimelinePage>,
    effects: PastEffects,
)
    requires
        jump_over(before, after, key, ts, page, effects),
    ensures
        page is None ==> !effects.shown && after.messages == before.messages && status_text(
            after.status@,
            false,
        ) == "no messages found near "@ + day_label(day_of(ts as int)),
        page is Some ==> (effects.shown <==> page->0.events@.len() > 0),
{
}

/// A login takes a user id and at most a server after it. What does not fit stays in the line.
pub proof fn law_name_at_login(before: App, after: App)
    requires
        username_given(before, after),
    ensures
        ({
            let words = words_of(before.input.buffer@);
            &&& words.len() > 2 ==> after.mode == before.mode && after.input.buffer@
                == before.input.buffer@
            &&& words.len() == 1 && normal_user_id(words[0]) is Some ==> after.mode@ == (
            ModeView::LoginPassword { username: normal_user_id(words[0])->0, homeserver: None })
            &&& words.len() == 2 && normal_user_id(words[0]) is Some ==> after.mode@ == (
            ModeView::LoginPassword {
                username: normal_user_id(words[0])->0,
                homeserver: Some(homeserver_url(words[1])),
            })
            &&& words.len() >= 1 && normal_user_id(words[0]) is None ==> after.mode == before.mode
                && after.input.buffer@ == before.input.buffer@
            &&& after.mode != before.mode ==> status_text(after.status@, false)
                == "Password: input is hidden; Enter submits, Esc cancels"@
        }),
        after.busy == before.busy,
{
}

/// A login is begun with the name and the password that were given. An empty password begins
/// none. The password does not stay in the line.
pub proof fn law_password_at_login(
    before: App,
    after: App,
    username: String,
    homeserver: Option<String>,
    task: LifecycleTask,
)
    requires
        password_given(before, after, username, homeserver, task),
    ensures
        before.input.buffer@.len() == 0 ==> task@ is Nothing && status_text(after.status@, false)
            == "password cannot be empty"@,
        before.input.buffer@.len() > 0 && before.session.wired ==> task@ is Login
            && task@->Login_username == username@ && task@->password == before.input.buffer@
            && task@->Login_homeserver == option_view(homeserver),
        !before.session.wired ==> task@ is Nothing,
        after.input.buffer@.len() == 0,
{
}

/// A recovery key is handed on as it was typed, and an empty one skips the recovery. For the
/// backup an empty one is none. The key does not stay in the line.
pub proof fn law_given_key(
    before: App,
    after: App,
    account: AccountDto,
    origin: RecoveryOrigin,
    task: LifecycleTask,
)
    requires
        key_given(before, after, account, origin, task),
    ensures
        ({
            let key = before.input.buffer@;
            &&& origin != RecoveryOrigin::BackupEnable && is_blank(key) ==> task@ is Nothing
                && after.mode@ is Compose
            &&& origin != RecoveryOrigin::BackupEnable && !is_blank(key) && before.session.wired
                ==> task@ == (TaskView::Recover {
                account_id: account.account_id,
                user_id: account@.user_id,
                recovery_key: key,
            })
            &&& origin == RecoveryOrigin::BackupEnable && is_blank(key) && before.session.wired
                ==> task@ == (TaskView::EnableBackup {
                account_id: account.account_id,
                user_id: account@.user_id,
                recovery_key: None,
            })
            &&& origin == RecoveryOrigin::BackupEnable && !is_blank(key) && before.session.wired
                ==> task@ == (TaskView::EnableBackup {
                account_id: account.account_id,
                user_id: account@.user_id,
                recovery_key: Some(trim(key)),
            })
            &&& !before.session.wired ==> task@ is Nothing
        }),
        after.input.buffer@.len() == 0,
{
}

/// The flow on the screen is confirmed under its own id and account. Without one nothing is
/// confirmed.
pub proof fn law_confirmed_emojis(before: App, after: App, task: LifecycleTask)
    requires
        emojis_confirmed(before, after, task),
    ensures
        flow_of(before) is None || flow_of(before)->0.flow_id is None ==> task@ is Nothing && after
            == before,
        flow_of(before) is Some && flow_of(before)->0.flow_id is Some ==> flow_of(after) is Some
            && flow_of(after)->0.stage is Confirming && flow_of(after)->0.flow_id == flow_of(
            before,
        )->0.flow_id,
        flow_of(before) is Some && flow_of(before)->0.flow_id is Some && before.session.wired
            ==> task@ == (TaskView::ConfirmVerification {
            account_id: flow_of(before)->0.account_id,
            flow_id: flow_of(before)->0.flow_id->0,
        }),
{
}

/// The flow on the screen is cancelled at once here, and on the server where that knows it.
pub proof fn law_cancelled_flow(before: App, after: App, task: LifecycleTask)
    requires
        flow_cancelled(before, after, task),
    ensures
        flow_of(before) is None ==> task@ is Nothing && after == before,
        flow_of(before) is Some ==> flow_of(after) is Some && flow_of(after)->0.stage
            == StageView::Ended("Verification cancelled"@),
        flow_of(before) is Some && flow_of(before)->0.flow_id is None ==> task@ is Nothing,
        flow_of(before) is Some && flow_of(before)->0.flow_id is Some && before.session.wired
            ==> task@ == (TaskView::CancelVerification {
            account_id: flow_of(before)->0.account_id,
            flow_id: flow_of(before)->0.flow_id->0,
        }),
{
}

/// A redaction marks the message as redacted. One that failed changes no message.
pub proof fn law_redaction_is_over(
    before: App,
    after: App,
    key: RoomKey,
    id: Seq<char>,
    result: Result<String, String>,
    i: int,
    j: int,
)
    requires
        redaction_over(before, after, key, id, result),
        before.messages.events@.dom().contains(key@),
        0 <= i < before.messages.events@[key@]@.len(),
        before.messages.events@[key@]@[i].event_id@ == id,
        forall|k: int|
            0 <= k < i ==> (#[trigger] before.messages.events@[key@]@[k]).event_id@ != id,
    ensures
        result is Ok ==> after.messages.events@[key@]@[i].redacted,
        result is Ok ==> after.messages.events@[key@]@[i].event_id
            == before.messages.events@[key@]@[i].event_id,
        result is Ok && 0 <= j < before.messages.events@[key@]@.len() && j != i
            ==> after.messages.events@[key@]@[j] == before.messages.events@[key@]@[j],
        result is Err ==> after.messages == before.messages && status_text(after.status@, false)
            == "redact failed: "@ + result->Err_0@,
{
    lemma_stored_at(before.messages.events@[key@]@, id, i);
}

/// An edit gives the message its new text. One that failed changes no message.
pub proof fn law_edit_is_over(
    before: App,
    after: App,
    key: RoomKey,
    id: Seq<char>,
    body: Seq<char>,
    result: Result<String, String>,
    i: int,
    j: int,
)
    requires
        edit_over(before, after, key, id, body, result),
        before.messages.events@.dom().contains(key@),
        0 <= i < before.messages.events@[key@]@.len(),
        before.messages.events@[key@]@[i].event_id@ == id,
        forall|k: int|
            0 <= k < i ==> (#[trigger] before.messages.events@[key@]@[k]).event_id@ != id,
    ensures
        result is Ok ==> option_view(after.messages.events@[key@]@[i].body) == Some(body),
        result is Ok ==> after.messages.events@[key@]@[i].redacted
            == before.messages.events@[key@]@[i].redacted,
        result is Ok && 0 <= j < before.messages.events@[key@]@.len() && j != i
            ==> after.messages.events@[key@]@[j] == before.messages.events@[key@]@[j],
        result is Err ==> after.messages == before.messages && status_text(after.status@, false)
            == "edit failed: "@ + result->Err_0@,
{
    lemma_stored_at(before.messages.events@[key@]@, id, i);
}

/// The next room of the list is selected, and after the last the first. A step back goes the
/// other way.
pub proof fn law_room_after_a_step(before: App, after: App, offset: isize, load: bool, i: int)
    requires
        room_stepped(before, after, offset, load),
        ({
            let shown = before.rooms.visible(before.account_shown());
            &&& 0 <= i < shown.len()
            &&& before.rooms.selected == Some(shown[i])
            &&& forall|k: int| 0 <= k < i ==> #[trigger] shown[k] != shown[i]
        }),
    ensures
        ({
            let shown = before.rooms.visible(before.account_shown());
            &&& load
            &&& offset == 1 && i + 1 < shown.len() ==> after.rooms.selected == Some(shown[i + 1])
            &&& offset == 1 && i + 1 == shown.len() ==> after.rooms.selected == Some(shown[0])
            &&& offset == -1 && i > 0 ==> after.rooms.selected == Some(shown[i - 1])
            &&& offset == -1 && i == 0 ==> after.rooms.selected == Some(shown[shown.len() - 1])
        }),
        after.rooms.rooms == before.rooms.rooms,
        after.messages == before.messages,
{
    law_position_among_the_shown(before, i);
    law_step_to_a_room(i, before.rooms.visible(before.account_shown()).len() as int);
}

/// Where no room is shown none is selected by a step.
pub proof fn law_no_room_to_step_to(before: App, after: App, offset: isize, load: bool)
    requires
        room_stepped(before, after, offset, load),
        before.rooms.visible(before.account_shown()).len() == 0,
    ensures
        !load,
        after.rooms == before.rooms,
        status_text(after.status@, false) == "no rooms to switch"@,
{
}

/// All accounts come before the first account, and after the last.
pub proof fn law_step_to_an_account(before: App, after: App, offset: isize, i: usize)
    requires
        account_stepped(before, after, offset),
        i < before.accounts.accounts@.len() < usize::MAX,
    ensures
        before.accounts.selected == AccountSelection::All && offset == 1 ==> after.accounts.selected
            == AccountSelection::Account(0),
        before.accounts.selected == AccountSelection::All && offset == -1
            ==> after.accounts.selected == AccountSelection::Account(
            (before.accounts.accounts@.len() - 1) as usize,
        ),
        before.accounts.selected == AccountSelection::Account(i) && offset == 1 && i + 1
            < before.accounts.accounts@.len() ==> after.accounts.selected
            == AccountSelection::Account((i + 1) as usize),
        before.accounts.selected == AccountSelection::Account(i) && offset == 1 && i + 1
            == before.accounts.accounts@.len() ==> after.accounts.selected == AccountSelection::All,
        before.accounts.selected == AccountSelection::Account(i) && offset == -1 && i > 0
            ==> after.accounts.selected == AccountSelection::Account((i - 1) as usize),
        before.accounts.selected == AccountSelection::Account(0) && offset == -1
            ==> after.accounts.selected == AccountSelection::All,
        after.accounts.accounts == before.accounts.accounts,
{
    let n = before.accounts.accounts@.len() as int;
    assert((-1int) % (1int + n) == n) by (nonlinear_arith)
        requires
            n > 0,
    ;
    assert((n + 1) % (1int + n) == 0) by (nonlinear_arith)
        requires
            n > 0,
    ;
    lemma_small_mod(0, (n + 1) as nat);
    lemma_small_mod(1, (n + 1) as nat);
    lemma_small_mod((i + 1) as nat, (n + 1) as nat);
    lemma_small_mod(i as nat, (n + 1) as nat);
    if i + 2 <= n {
        lemma_small_mod((i + 2) as nat, (n + 1) as nat);
    }
}

/// An edit begins with the text of the selected message in the line. A message that the server
/// has not confirmed cannot be edited.
pub proof fn law_edit_begins(before: App, after: App, put: Option<DraftPut>)
    requires
        edit_begun(before, after, put),
    ensures
        before.target() is None ==> after.mode == before.mode && status_text(after.status@, false)
            == "select a displayed message before editing"@,
        before.target() is Some && echo_id(before.target()->0.event_id) ==> after.mode
            == before.mode && put is None,
        before.target() is Some && !echo_id(before.target()->0.event_id) ==> {
            let event = before.target()->0;
            &&& after.mode@ == (ModeView::Editing { event_id: event.event_id })
            &&& after.input.buffer@ == text_of_event(event, event.sender)
        },
{
}

/// What is redacted is the selected message. Nothing changes before the server answers.
pub proof fn law_redaction_is_asked_for(before: App, after: App, change: Option<EventChange>)
    requires
        redaction_asked(before, after, change),
    ensures
        before.target() is None ==> change is None,
        before.target() is Some && echo_id(before.target()->0.event_id) ==> change is None,
        before.target() is Some && before.room() is Some && !echo_id(before.target()->0.event_id)
            ==> {
            &&& change is Some
            &&& change->0.event_id@ == before.target()->0.event_id
            &&& change->0.key@ == room_key(before.room()->0@)
            &&& change->0.request@.method == Method::Delete
            &&& change->0.request@.url == event_url(
                before.client.base(),
                room_key(before.room()->0@).account_id,
                room_key(before.room()->0@).room_id,
                before.target()->0.event_id,
            )
        },
        after.messages == before.messages,
{
}

/// A notice of typing holds until its time is over and no longer.
pub proof fn law_typing_ends(before: App, after: App, now: u64, key: RoomKeyView)
    requires
        typing_pruned(before, after, now),
    ensures
        after.ephemeral.typing@.dom().contains(key) <==> before.ephemeral.typing@.dom().contains(
            key,
        ) && before.ephemeral.typing@[key].expires_at > now,
        after.ephemeral.typing@.dom().contains(key) ==> after.ephemeral.typing@[key]
            == before.ephemeral.typing@[key],
        after.ephemeral.read == before.ephemeral.read,
        after.messages == before.messages,
{
    assert(held(after.ephemeral.typing@, key) is Some <==> after.ephemeral.typing@.dom().contains(
        key,
    ));
}

/// The account that was logged in is the selected one from then on.
pub proof fn law_logged_in_account_is_selected(
    before: App,
    after: App,
    account: AccountView,
    already_active: bool,
    load: bool,
    i: int,
)
    requires
        login_selected(before, after, FinishView::Login { account, already_active }, load),
        0 <= i < before.accounts.accounts@.len(),
        before.accounts.accounts@[i].account_id == account.account_id,
        forall|k: int|
            0 <= k < i ==> (#[trigger] before.accounts.accounts@[k]).account_id
                != account.account_id,
    ensures
        load,
        after.accounts.selected == AccountSelection::Account(i as usize),
        after.accounts.accounts == before.accounts.accounts,
{
    let accounts = views(before.accounts.accounts@);
    assert forall|k: int| 0 <= k < i implies (#[trigger] accounts[k]).account_id
        != account.account_id by {
        assert(before.accounts.accounts@[k].account_id != account.account_id);
    }
    lemma_account_at(accounts, account.account_id, i);
}

} // verus!
