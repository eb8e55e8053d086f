//! What the client says of others and of itself, and what it offers.

use vstd::prelude::*;

use crate::api::dto::AccountView;
use crate::app::choice::{room_key, RoomFilterView, RoomKeyView};
use crate::app::clock::{clock_text, day_in_words, stamp_text};
use crate::app::commands::{is_answered_by_status, means_selected_room, Command};
use crate::app::completion::{member_found, members_among};
use crate::app::emoji::react_text;
use crate::app::ephemeral::{last_by, typing_text};
use crate::app::lifecycle::{key_or_none, skipped_text};
use crate::app::outcome::chosen_key;
use crate::app::panels::{in_accounts, in_rooms, takes_text};
use crate::app::reactions::unreact_failed_text;
use crate::app::room_list::name_seed;
use crate::app::state::{App, ModeView, RecoveryOrigin, TimeFormat};
use crate::app::status::{match_status_text, status_text};
use crate::app::switching::{account_rows, pin_text, row_label, rows_holding, search_settled};
use crate::app::upload::too_large_text;
use crate::app::words::{caption_of, looked_in};
use crate::laws::accounts::lemma_account_at;
use crate::order::text_sorted;
use crate::text::{decimal, has_part, is_blank, joined, lowercase, option_view, trim, views};

verus! {

/// The user of an account is the one that its own events name, else the one of the list of
/// accounts.
pub proof fn law_user_of_an_account(app: App, account_id: u128, i: int)
    requires
        0 <= i <= app.accounts.accounts@.len(),
        i < app.accounts.accounts@.len() ==> app.accounts.accounts@[i].account_id == account_id,
        forall|k: int|
            0 <= k < i ==> (#[trigger] app.accounts.accounts@[k]).account_id != account_id,
    ensures
        app.live.own_senders@.dom().contains(account_id) ==> app.account_user(account_id) == Some(
            app.live.own_senders@[account_id]@,
        ),
        !app.live.own_senders@.dom().contains(account_id) && i < app.accounts.accounts@.len()
            ==> app.account_user(account_id) == Some(app.accounts.accounts@[i].user_id@),
        !app.live.own_senders@.dom().contains(account_id) && i == app.accounts.accounts@.len()
            ==> app.account_user(account_id) is None,
{
    let accounts = views(app.accounts.accounts@);
    assert forall|k: int| 0 <= k < i implies (#[trigger] accounts[k]).account_id != account_id by {
        assert(app.accounts.accounts@[k].account_id != account_id);
    }
    lemma_account_at(accounts, account_id, i);
}

/// The readers are all users whose mark is far enough, by the names that they have in the
/// room.
pub proof fn law_names_of_readers(
    app: App,
    key: RoomKeyView,
    own: Seq<char>,
    entries: Seq<(String, String)>,
    ts: i64,
)
    ensures
        app.names_of_readers(key, own, entries, ts) == entries.filter(
            |e: (String, String)| app.has_read(key, own, e, ts),
        ).map_values(|e: (String, String)| app.called(key, e.0@)),
    decreases entries.len(),
{
    reveal(Seq::filter);
    let read = |e: (String, String)| app.has_read(key, own, e, ts);
    let name = |e: (String, String)| app.called(key, e.0@);
    if entries.len() > 0 {
        law_names_of_readers(app, key, own, entries.drop_last(), ts);
        let rest = entries.drop_last().filter(read);
        assert(rest.push(entries.last()).map_values(name) =~= rest.map_values(name).push(
            name(entries.last()),
        ));
    }
    assert(app.names_of_readers(key, own, entries, ts) =~= entries.filter(read).map_values(name));
}

/// Who has read is said only of the account's own messages, and only where someone has. The
/// names stand in order.
pub proof fn law_said_readers(app: App, key: RoomKeyView, own: Seq<char>)
    ensures
        app.receipt_line(key, None) is None,
        last_by(app.events_of(key), own) is None ==> app.receipt_line(key, Some(own)) is None,
        !app.ephemeral.read@.dom().contains(key) ==> app.receipt_line(key, Some(own)) is None,
        last_by(app.events_of(key), own) is Some && app.ephemeral.read@.dom().contains(key) ==> ({
            let ts = last_by(app.events_of(key), own)->0.origin_ts;
            let names = app.names_of_readers(key, own, app.ephemeral.read@[key].listed(), ts);
            &&& names.len() == 0 ==> app.receipt_line(key, Some(own)) is None
            &&& names.len() > 0 ==> app.receipt_line(key, Some(own)) == Some(
                "✓ read by "@ + joined(text_sorted(names), ", "@),
            )
        }),
{
}

/// Who is typing is said before who has read, with three spaces between. Nothing is said where
/// no room is selected.
pub proof fn law_said_of_others(app: App)
    ensures
        app.room() is None ==> app.others_line() is None,
        app.room() is Some ==> ({
            let key = room_key(app.room()->0@);
            let own = app.account_user(key.account_id);
            let typing = app.typing_line(key, own);
            let read = app.receipt_line(key, own);
            &&& typing is None ==> app.others_line() == read
            &&& read is None ==> app.others_line() == typing
            &&& typing is Some && read is Some ==> app.others_line() == Some(
                typing->0 + "   "@ + read->0,
            )
        }),
{
}

/// Nobody is typing in a room that no notice came of.
pub proof fn law_nobody_typing(app: App, key: RoomKeyView, own: Option<Seq<char>>)
    ensures
        !app.ephemeral.typing@.dom().contains(key) ==> app.typing_line(key, own) is None,
        app.ephemeral.typing@.dom().contains(key) ==> app.typing_line(key, own) == typing_text(
            app.names_of_others(key, views(app.ephemeral.typing@[key].user_ids@), own),
        ),
{
}

/// The time of an event is that of the user's clock. Where that is not known no time is made
/// up.
pub proof fn law_stamp_of_an_event(origin_ts: int, offset: i32, format: TimeFormat)
    requires
        0 <= origin_ts,
    ensures
        stamp_text(origin_ts, None, format).time == "--:--:--"@,
        stamp_text(origin_ts, None, format).day is None,
        stamp_text(origin_ts, None, format).date == "Unknown date"@,
        stamp_text(1_000 * origin_ts, Some(offset), format).time == clock_text(
            origin_ts + offset,
            format,
        ),
        stamp_text(1_000 * origin_ts, Some(offset), format).date == day_in_words(
            (origin_ts + offset) / 86_400,
        ),
{
}

/// A row of the account list has its number and its user. The first row is for all accounts.
pub proof fn law_rows_of_accounts(accounts: Seq<AccountView>, i: int)
    requires
        0 <= i < accounts.len(),
        accounts.len() < usize::MAX,
    ensures
        row_label(accounts, 0) == "0 All Accounts"@,
        row_label(accounts, i + 1) == decimal((i + 1) as nat) + " "@ + accounts[i].user_id,
{
}

/// The rows that a search finds are those whose label holds the text in any letter case.
pub proof fn law_found_rows(accounts: Seq<AccountView>, query: Seq<char>, row: usize)
    requires
        accounts.len() < usize::MAX,
    ensures
        account_rows(accounts, query).contains(row) <==> row <= accounts.len() && has_part(
            lowercase(row_label(accounts, row as int)),
            lowercase(query),
        ),
{
    lemma_rows(accounts, lowercase(query), 1int + accounts.len(), row);
}

proof fn lemma_rows(accounts: Seq<AccountView>, part: Seq<char>, n: int, row: usize)
    requires
        0 <= n <= accounts.len() + 1,
        accounts.len() < usize::MAX,
    ensures
        rows_holding(accounts, part, n).contains(row) <==> row < n && has_part(
            lowercase(row_label(accounts, row as int)),
            part,
        ),
    decreases n,
{
    if n > 0 {
        lemma_rows(accounts, part, n - 1, row);
        let before = rows_holding(accounts, part, n - 1);
        let last = (n - 1) as usize;
        assert(before.push(last)[before.len() as int] == last);
        if before.contains(row) {
            let k = choose|k: int| 0 <= k < before.len() && before[k] == row;
            assert(before.push(last)[k] == row);
        }
        if before.push(last).contains(row) && row != last {
            let k = choose|k: int| 0 <= k < before.push(last).len() && before.push(last)[k] == row;
            assert(before[k] == row);
        }
    }
}

/// A search is remembered as it was typed.
pub proof fn law_search_is_remembered(before: App, after: App, query: Seq<char>, text: Seq<char>)
    requires
        search_settled(before, after, query, text),
    ensures
        option_view(after.session.last_search) == Some(query),
        status_text(after.status@, false) == text,
        after.rooms == before.rooms,
        after.messages == before.messages,
        after.mode == before.mode,
{
}

/// The position of the selected room among those that are shown is where it stands there.
pub proof fn law_position_among_the_shown(app: App, i: int)
    requires
        ({
            let shown = app.rooms.visible(app.account_shown());
            &&& 0 <= i < shown.len()
            &&& app.rooms.selected == Some(shown[i])
            &&& forall|k: int| 0 <= k < i ==> #[trigger] shown[k] != shown[i]
        }),
    ensures
        app.shown_position() == i,
{
    let shown = app.rooms.visible(app.account_shown());
    assert(shown.contains(shown[i]));
    shown.index_of_first_ensures(shown[i]);
    let at = shown.index_of_first(shown[i])->0;
    if at < i {
        assert(shown[at] != shown[i]);
    }
}

/// The key of the selected room.
pub proof fn law_key_of_the_selected_room(app: App)
    ensures
        app.room() is None ==> chosen_key(app) is None,
        app.room() is Some ==> chosen_key(app) == Some(room_key(app.room()->0@)),
{
}

/// A pin that could not be written down is told with the reason.
pub proof fn law_said_pin(title: Seq<char>, e: Seq<char>)
    ensures
        pin_text(title, true, None) == "pinned "@ + title,
        pin_text(title, false, None) == "unpinned "@ + title,
        pin_text(title, true, Some(e)) == "pinned "@ + title + " (config save failed: "@ + e + ")"@,
        pin_text(title, false, Some(e)) == "unpinned "@ + title + " (config save failed: "@ + e
            + ")"@,
{
}

/// A recovery that the user left is told by how it began.
pub proof fn law_said_skipped_recovery(user: Seq<char>)
    ensures
        skipped_text(user, RecoveryOrigin::PostLogin) == "recovery skipped for "@ + user,
        skipped_text(user, RecoveryOrigin::Command) == "recovery cancelled for "@ + user,
        skipped_text(user, RecoveryOrigin::BackupEnable) == "backup enable cancelled for "@ + user,
{
}

/// A key of white space is none. The white space round another is not part of it.
pub proof fn law_typed_key(key: Seq<char>)
    ensures
        is_blank(key) ==> key_or_none(key) is None,
        !is_blank(key) ==> key_or_none(key) == Some(trim(key)),
{
}

/// A backup that is begun leaves the line empty, says so, and keeps other operations waiting
/// where requests can be made.
pub proof fn law_backup_begins(before: App, after: App, user: Seq<char>)
    requires
        before.backup_begun(after, user),
    ensures
        before.session.wired ==> after.busy.lifecycle,
        !before.session.wired ==> after.busy.lifecycle == before.busy.lifecycle,
        after.mode@ is Compose,
        status_text(after.status@, false) == "enabling megolm backup for "@ + user + "…"@,
        after.accounts == before.accounts,
{
}

/// A filter by name goes on from the name that it had. Other filters begin with nothing.
pub proof fn law_name_filter_goes_on(q: Seq<char>)
    ensures
        name_seed(RoomFilterView::Name(q)) == q,
        name_seed(RoomFilterView::All).len() == 0,
        name_seed(RoomFilterView::Unread).len() == 0,
        name_seed(RoomFilterView::Dms).len() == 0,
{
}

/// Which match of how many is told with both numbers.
pub proof fn law_said_match(n: nat, total: nat)
    ensures
        match_status_text(n, total) == "match "@ + decimal(n) + " of "@ + decimal(total),
{
}

/// A withdrawal that failed halfway tells how far it came.
pub proof fn law_said_withdrawal(done: nat, total: nat, error: Seq<char>)
    ensures
        unreact_failed_text(done, total, error) == "unreact failed after "@ + decimal(done) + "/"@
            + decimal(total) + " withdrawals: "@ + error,
{
}

/// A command on the selected room is one that pins or unpins and names no room.
pub proof fn law_commands_on_the_selected_room(command: Command)
    ensures
        means_selected_room(command) <==> command == Command::Pin(None) || command
            == Command::Unpin(None),
        is_answered_by_status(command) <==> !(command is Send || command is Empty
            || command is Quit),
{
}

/// What is typed goes into the line where the user writes or is asked for something.
pub proof fn law_where_text_goes(mode: ModeView)
    ensures
        mode is Compose || mode is LoginUsername || mode is LoginPassword || mode is RecoveryKey
            || mode is ConfirmDelete || mode is Editing || mode is Reacting || mode is DateJump
            <==> takes_text(mode),
        mode is AccountList ==> in_accounts(mode) && !in_rooms(mode),
        mode is RoomList ==> in_rooms(mode) && !in_accounts(mode),
        mode is Compose ==> !in_rooms(mode) && !in_accounts(mode),
        mode is MessageList ==> !in_rooms(mode) && !in_accounts(mode),
{
}

/// A caption of white space is none. The white space round another is not part of it.
pub proof fn law_caption(rest: Seq<char>)
    ensures
        caption_of(None) is None,
        is_blank(rest) ==> caption_of(Some(rest)) is None,
        !is_blank(rest) ==> caption_of(Some(rest)) == Some(trim(rest)),
{
}

/// A path that begins with a tilde is looked up in the home directory, and no path at hand.
pub proof fn law_where_files_are_looked_up(rest: Seq<char>)
    ensures
        looked_in(Seq::empty()) == (false, "."@),
        looked_in("~/"@ + rest) == (true, rest),
        rest.len() > 0 && rest[0] != '~' ==> looked_in(rest) == (false, rest),
{
    reveal_strlit("~/");
    let path = "~/"@ + rest;
    assert(path.len() == 2 + rest.len());
    assert(path.subrange(0, 2) =~= "~/"@);
    assert(path.take(2) =~= "~/"@);
    assert(path.skip(2) =~= rest);
    assert(path.subrange(2, path.len() as int) =~= rest);
    if rest.len() > 0 && rest[0] != '~' {
        assert("~/"@[0] == '~');
        if rest.len() >= 2 {
            assert(rest.take(2)[0] == rest[0]);
            assert(rest.subrange(0, 2)[0] == rest[0]);
        }
    }
}

/// The members that are offered are those that the query finds, in the order of the list.
pub proof fn law_offered_members(
    own: Option<Seq<char>>,
    names: Seq<(String, String)>,
    query: Seq<char>,
)
    ensures
        members_among(own, names, query) == names.filter(
            |e: (String, String)| member_found(own, e.0@, e.1@, query),
        ).map_values(|e: (String, String)| e.0@),
    decreases names.len(),
{
    reveal(Seq::filter);
    let found = |e: (String, String)| member_found(own, e.0@, e.1@, query);
    let id = |e: (String, String)| e.0@;
    if names.len() > 0 {
        law_offered_members(own, names.drop_last(), query);
        let rest = names.drop_last().filter(found);
        assert(rest.push(names.last()).map_values(id) =~= rest.map_values(id).push(
            id(names.last()),
        ));
    }
    assert(members_among(own, names, query) =~= names.filter(found).map_values(id));
}

/// One emoji that a line finds can be sent. Where none is found that is said.
pub proof fn law_said_emojis(line: Seq<char>, e: (Seq<char>, Seq<char>))
    ensures
        react_text(line, Seq::empty()) == "no emoji matches '"@ + line + "'"@,
        react_text(line, seq![e]) == e.0 + " "@ + e.1 + " - Enter to send"@,
{
}

/// A file that is too large is told with its size and the limit, in whole mebibytes.
pub proof fn law_said_too_large(filename: Seq<char>, size: u64)
    ensures
        too_large_text(filename, size) == filename + " is "@ + decimal((size / 1_048_576) as nat)
            + " MiB, over the "@ + decimal(100) + " MiB /send limit"@,
{
}

} // verus!
