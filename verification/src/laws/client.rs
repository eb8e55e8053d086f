//! What the client shows of its state, and what it asks the server.

use vstd::prelude::*;

use crate::api::client::{
    account_url, error_text, escaped_byte, event_url, room_url, ApiErrorView,
    AxonClient, Method,
};
use crate::app::choice::{AccountSelection, RoomFilter, RoomKeyView, RoomSort};
use crate::app::inspect::{event_line, shortened};
use crate::app::panels::within;
use crate::app::room_list::{filter_set, sort_set, RoomViewTokens};
use crate::app::state::{pinned_of, App};
use crate::app::status::{status_text, StatusView};
use crate::api::dto::EventView;
use crate::api::event::text_of_event;
use crate::laws::sending::sent_text;

verus! {

/// What is told of an event names it only while debugging. A diagnosis is told only then.
pub proof fn law_what_the_status_tells(text: Seq<char>, debug: Seq<char>, redacted: Seq<char>)
    ensures
        status_text(StatusView::Info(text), false) == text,
        status_text(StatusView::Info(text), true) == text,
        status_text(StatusView::Debug(text), true) == text,
        status_text(StatusView::Debug(text), false).len() == 0,
        status_text(StatusView::EventAction { debug, redacted }, true) == debug,
        status_text(StatusView::EventAction { debug, redacted }, false) == redacted,
{
}

/// The selected room is the one at its place, and there is none past the end of the list.
pub proof fn law_selected_room(app: App, i: usize)
    ensures
        app.rooms.selected == Some(i) && i < app.rooms.rooms@.len() ==> app.room() == Some(
            app.rooms.rooms@[i as int],
        ),
        app.rooms.selected == Some(i) && i >= app.rooms.rooms@.len() ==> app.room() is None,
        app.rooms.selected is None ==> app.room() is None,
{
}

/// The account that is shown is the selected one. All are shown where none is selected.
pub proof fn law_shown_account(app: App, i: usize)
    ensures
        app.accounts.selected == AccountSelection::All ==> app.account_shown() is None,
        app.accounts.selected == AccountSelection::Account(i) && i < app.accounts.accounts@.len()
            ==> app.account_shown() == Some(app.accounts.accounts@[i as int].account_id),
{
}

/// News do not overwrite the status while the user is asked for something or waits for an
/// operation.
pub proof fn law_when_news_wait(app: App)
    ensures
        app.busy.lifecycle || app.busy.media_send || app.busy.room_action ==> app.mid_command(),
        app.mode@ is LoginPassword || app.mode@ is RecoveryKey || app.mode@ is ConfirmDelete
            || app.mode@ is ConfirmLogout || app.mode@ is Editing || app.mode@ is Reacting
            ==> app.mid_command(),
        !app.busy.lifecycle && !app.busy.media_send && !app.busy.room_action && (app.mode@
            is Compose || app.mode@ is RoomList || app.mode@ is MessageList || app.mode@
            is AccountList) ==> !app.mid_command(),
{
}

/// A filter that is set is the one that is shown, and the selected room stays where it passes.
/// Else the first room that passes is selected.
pub proof fn law_filter_is_set(before: App, after: App, filter: RoomFilter, out: RoomViewTokens)
    requires
        filter_set(before, after, filter, out),
    ensures
        after.rooms.filter == filter,
        after.rooms.rooms == before.rooms.rooms,
        ({
            let shown = (crate::app::state::RoomsState { filter, ..before.rooms }).visible(
                before.account_shown(),
            );
            &&& before.rooms.selected is Some && shown.contains(before.rooms.selected->0)
                ==> after.rooms.selected == before.rooms.selected && after.messages
                == before.messages
            &&& !(before.rooms.selected is Some && shown.contains(before.rooms.selected->0))
                && shown.len() > 0 ==> after.rooms.selected == Some(shown[0])
            &&& shown.len() == 0 ==> after.rooms.selected is None
        }),
{
}

/// An order that is set is the one that the rooms stand in, and the selected room stays
/// selected.
pub proof fn law_order_is_set(before: App, after: App, sort: RoomSort, out: RoomViewTokens)
    requires
        sort_set(before, after, sort, out),
    ensures
        after.rooms.sort == sort,
        after.rooms.filter == before.rooms.filter,
        after.rooms.pinned == before.rooms.pinned,
        after.rooms.rooms@.len() == before.rooms.rooms@.len(),
{
    assert(crate::text::views(after.rooms.rooms@).len() == crate::text::views(
        before.rooms.rooms@,
    ).len());
}

/// The pinned rooms are those that were written down, in their order, without what cannot be
/// read.
pub proof fn law_pins_of_the_configuration(entries: Seq<Seq<char>>, entry: Seq<char>, key: RoomKeyView)
    ensures
        crate::app::choice::entry_key(entry) == Some(key) ==> pinned_of(entries.push(entry))
            == pinned_of(entries).push(key),
        crate::app::choice::entry_key(entry) is None ==> pinned_of(entries.push(entry))
            == pinned_of(entries),
        pinned_of(Seq::empty()).len() == 0,
{
    assert(entries.push(entry).drop_last() =~= entries);
}

/// A width stays within its bounds.
pub proof fn law_width_stays_in_bounds(n: int, low: int, high: int)
    requires
        low <= high,
    ensures
        low <= within(n, low, high) <= high,
        low <= n <= high ==> within(n, low, high) == n,
        n < low ==> within(n, low, high) == low,
        n > high ==> within(n, low, high) == high,
{
}

/// A long text is cut to the part that is shown.
pub proof fn law_shortened_text(text: Seq<char>)
    ensures
        text.len() <= 120 ==> shortened(text) == text,
        text.len() > 120 ==> shortened(text) == text.take(120),
{
}

/// An event is told with its time, its sender, its id and what it says.
pub proof fn law_told_event(event: EventView, sender: Seq<char>, time: Seq<char>)
    requires
        event.relates_to is None,
        event.redaction_event_id is None,
    ensures
        event_line(event, sender, time) == time + " "@ + sender + " "@ + event.event_id + " "@
            + shortened(text_of_event(event, sender)),
{
    let told = time + " "@ + sender + " "@ + event.event_id + " "@ + shortened(
        text_of_event(event, sender),
    );
    assert(event_line(event, sender, time) =~= told);
}

/// Letters, digits and four signs stand for themselves in an address. All other bytes are
/// written as a percent sign and two digits.
pub proof fn law_escaped_bytes(b: u8)
    ensures
        'a' as u8 <= b <= 'z' as u8 || 'A' as u8 <= b <= 'Z' as u8 || '0' as u8 <= b <= '9' as u8
            || b == '-' as u8 || b == '.' as u8 || b == '_' as u8 || b == '~' as u8
            ==> escaped_byte(b) == seq![b as char],
        b == ':' as u8 || b == '!' as u8 || b == '$' as u8 || b == '/' as u8 || b == '#' as u8 || b
            == '@' as u8 || b == '%' as u8 || b >= 128 ==> escaped_byte(b).len() == 3
            && escaped_byte(b)[0] == '%',
{
}

/// The address of an event is under that of its room, and that under the address of its
/// account.
pub proof fn law_addresses(
    base: Seq<char>,
    account_id: u128,
    room_id: Seq<char>,
    event_id: Seq<char>,
)
    ensures
        account_url(base, account_id) == base + "/v1/accounts/"@ + crate::ids::id_text(account_id),
        room_url(base, account_id, room_id) == account_url(base, account_id) + "/rooms/"@
            + crate::api::client::escaped(room_id),
        event_url(base, account_id, room_id, event_id) == room_url(base, account_id, room_id)
            + "/events/"@ + crate::api::client::escaped(event_id),
{
}

/// A reason of white space is no reason. The user whom it is about is named in any case.
pub proof fn law_moderation(
    base: Seq<char>,
    account_id: u128,
    room_id: Seq<char>,
    verb: Seq<char>,
    user_id: Seq<char>,
    reason: Seq<char>,
)
    ensures
        ({
            let request = AxonClient::moderation(
                base,
                account_id,
                room_id,
                verb,
                user_id,
                Some(reason),
            );
            &&& request.method == Method::Post
            &&& request.url == room_url(base, account_id, room_id) + "/"@ + verb
            &&& sent_text(request.body, "user_id"@) == Some(user_id)
            &&& crate::text::is_blank(reason) ==> sent_text(request.body, "reason"@) is None
            &&& !crate::text::is_blank(reason) ==> sent_text(request.body, "reason"@) == Some(
                reason,
            )
        }),
{
    reveal_strlit("user_id");
    reveal_strlit("reason");
    assert("user_id"@.len() == 7);
    assert("reason"@.len() == 6);
    reveal_with_fuel(crate::json::member_of, 3);
    let plain = seq![("user_id"@, crate::json::JsonView::Text(user_id))];
    assert(plain.drop_last() =~= Seq::empty());
    assert(plain.push(("reason"@, crate::json::JsonView::Text(reason))).drop_last() =~= plain);
}

/// What went wrong is told with what it was about.
pub proof fn law_errors_in_words(message: Seq<char>)
    ensures
        error_text(ApiErrorView::Json(message)) == "invalid API JSON: "@ + message,
        error_text(ApiErrorView::Url(message)) == "invalid base URL: "@ + message,
        error_text(ApiErrorView::Request(message)) == message,
{
}

} // verus!
