//! What a line is completed to.

use vstd::prelude::*;

use crate::api::dto::{AccountView, RoomView};
use crate::app::completion::{
    accounts_found, command_completion, completed_with, cycle, path_offer,
    room_offer, rooms_matching, CompletionView, Slot,
};
use crate::app::emoji::named_among;
use crate::app::room_target::{completion_value, prefix_value};
use crate::app::rooms::localpart;
use crate::app::state::App;
use crate::app::targets::{begun, begun_of, completion_values, times, Eligible};
use crate::app::words::{
    alias_with_hash, beginning_with, command_prefix, command_target, commands_beginning,
    completed_path, completing_entries, incomplete_name, local_name, typed_dir, typed_name,
    DirEntryView, SlashCommand,
};
use crate::ids::id_text;
use crate::text::{
    ascii_lowercase, begins, begins_ignoring_case, has_part, has_white, is_white, lowercase, trim,
};

verus! {

/// What a command is about is what follows its name and a blank, without the white space at
/// its ends. A longer name is another command.
pub proof fn law_what_a_command_is_about(command: Seq<char>, rest: Seq<char>, c: char)
    requires
        !is_white(c),
    ensures
        command_target(command + seq![' '] + rest, command) == Some(trim(seq![' '] + rest)),
        command_target(command, command) == Some(Seq::<char>::empty()),
        command_target(command + seq![c] + rest, command) is None,
        rest.len() < command.len() ==> command_target(rest, command) is None,
{
    crate::laws::texts::law_after_a_beginning(command, seq![' '] + rest, rest);
    crate::laws::texts::law_after_a_beginning(command, seq![c] + rest, rest);
    crate::laws::texts::law_after_a_beginning(command, Seq::empty(), rest);
    assert(command + seq![' '] + rest =~= command + (seq![' '] + rest));
    assert(command + seq![c] + rest =~= command + (seq![c] + rest));
    assert(command + Seq::<char>::empty() =~= command);
    assert((seq![' '] + rest)[0] == ' ');
    assert((seq![c] + rest)[0] == c);
}

/// Each press of the key puts the next candidate behind the command, and round the list.
pub proof fn law_candidates_in_turn(
    stored: Option<usize>,
    query: Seq<char>,
    candidates: Seq<Seq<char>>,
    command: Seq<char>,
    verb: Seq<char>,
    none: Option<Seq<char>>,
)
    requires
        candidates.len() > 0,
        stored is Some ==> stored->0 < candidates.len(),
        candidates.len() <= usize::MAX,
    ensures
        ({
            let next = if stored is None {
                0
            } else if stored->0 + 1 == candidates.len() {
                0
            } else {
                stored->0 + 1
            };
            let c = cycle(stored, query, candidates, command, verb, none, false);
            &&& c.line == Some(command + " "@ + candidates[next])
            &&& c.slot == Some((query, next as usize))
        }),
        ({
            let next = if stored is None {
                candidates.len() - 1
            } else if stored->0 == 0 {
                candidates.len() - 1
            } else {
                stored->0 - 1
            };
            let c = cycle(stored, query, candidates, command, verb, none, true);
            &&& c.line == Some(command + " "@ + candidates[next])
            &&& c.slot == Some((query, next as usize))
        }),
{
    crate::laws::choosing::law_next_candidate(
        if stored is Some {
            stored->0
        } else {
            0
        },
        candidates.len() as int,
    );
}

/// Where nothing fits, the line stays as it is.
pub proof fn law_nothing_to_complete(
    stored: Option<usize>,
    query: Seq<char>,
    command: Seq<char>,
    verb: Seq<char>,
    none: Option<Seq<char>>,
    reverse: bool,
    before: App,
    after: App,
    slot: Slot,
)
    requires
        completed_with(
            before,
            after,
            slot,
            cycle(stored, query, Seq::empty(), command, verb, none, reverse),
        ),
    ensures
        after.input.buffer == before.input.buffer,
        after.input.cursor == before.input.cursor,
{
}

/// A line that was completed stands as it was offered, with the cursor at its end.
pub proof fn law_completed_line(before: App, after: App, slot: Slot, c: CompletionView)
    requires
        completed_with(before, after, slot, c),
        c.line is Some,
    ensures
        after.input.buffer@ == c.line->0,
        after.input.before() == c.line->0,
        after.rooms == before.rooms,
        after.mode == before.mode,
{
}

/// The accounts that a beginning may be completed to are those that may be used and whose
/// user name begins so, in the order of the list.
pub proof fn law_accounts_to_complete(accounts: Seq<AccountView>, which: Eligible, target: Seq<char>)
    ensures
        begun_of(accounts, which, target) == accounts.filter(
            |a: AccountView|
                crate::laws::accounts::may_be_used(a, which) && begun(a, target),
        ),
    decreases accounts.len(),
{
    reveal(Seq::filter);
    if accounts.len() > 0 {
        law_accounts_to_complete(accounts.drop_last(), which, target);
    }
}

/// A beginning without sign and colon is one of a user name.
pub proof fn law_beginning_of_a_user(account: AccountView, target: Seq<char>, local: Seq<char>)
    requires
        localpart(account.user_id) == Some(local),
        !target.contains('@'),
        !target.contains(':'),
        trim(target) == target,
    ensures
        begun(account, target) == (target.len() == 0 || begins(local, target)),
{
    if target.len() > 0 {
        assert(target.contains(target[0]));
        assert(crate::text::trim_start_char(target, '@') == target);
    }
}

/// An account is completed to its user, or to its id where another account has that user.
pub proof fn law_completed_account(accounts: Seq<AccountView>, i: int)
    requires
        0 <= i < accounts.len(),
    ensures
        (forall|k: int|
            0 <= k < accounts.len() && k != i ==> (#[trigger] accounts[k]).user_id
                != accounts[i].user_id) ==> completion_values(accounts)[i] == accounts[i].user_id,
        (exists|k: int|
            0 <= k < accounts.len() && k != i && (#[trigger] accounts[k]).user_id
                == accounts[i].user_id) ==> completion_values(accounts)[i] == id_text(
            accounts[i].account_id,
        ),
{
    let user = accounts[i].user_id;
    if forall|k: int|
        0 <= k < accounts.len() && k != i ==> (#[trigger] accounts[k]).user_id != user {
        lemma_once(accounts, user, i);
    } else {
        let k = choose|k: int|
            0 <= k < accounts.len() && k != i && (#[trigger] accounts[k]).user_id == user;
        lemma_twice(accounts, user, i, k);
    }
}

proof fn lemma_never(accounts: Seq<AccountView>, user: Seq<char>)
    requires
        forall|k: int| 0 <= k < accounts.len() ==> (#[trigger] accounts[k]).user_id != user,
    ensures
        times(accounts, user) == 0,
    decreases accounts.len(),
{
    if accounts.len() > 0 {
        let rest = accounts.drop_last();
        assert forall|k: int| 0 <= k < rest.len() implies (#[trigger] rest[k]).user_id != user by {
            assert(rest[k] == accounts[k]);
        }
        assert(accounts.last() == accounts[accounts.len() - 1]);
        lemma_never(rest, user);
    }
}

proof fn lemma_once(accounts: Seq<AccountView>, user: Seq<char>, i: int)
    requires
        0 <= i < accounts.len(),
        accounts[i].user_id == user,
        forall|k: int|
            0 <= k < accounts.len() && k != i ==> (#[trigger] accounts[k]).user_id != user,
    ensures
        times(accounts, user) == 1,
    decreases accounts.len(),
{
    let rest = accounts.drop_last();
    assert(accounts.last() == accounts[accounts.len() - 1]);
    assert forall|k: int| 0 <= k < rest.len() && k != i implies (#[trigger] rest[k]).user_id
        != user by {
        assert(rest[k] == accounts[k]);
    }
    if i == accounts.len() - 1 {
        lemma_never(rest, user);
    } else {
        lemma_once(rest, user, i);
    }
}

proof fn lemma_at_least(accounts: Seq<AccountView>, user: Seq<char>)
    ensures
        times(accounts, user) >= 0,
        (exists|k: int| 0 <= k < accounts.len() && (#[trigger] accounts[k]).user_id == user)
            ==> times(accounts, user) >= 1,
    decreases accounts.len(),
{
    if accounts.len() > 0 {
        let rest = accounts.drop_last();
        lemma_at_least(rest, user);
        assert(accounts.last() == accounts[accounts.len() - 1]);
        if exists|k: int| 0 <= k < accounts.len() && (#[trigger] accounts[k]).user_id == user {
            let k = choose|k: int| 0 <= k < accounts.len() && (#[trigger] accounts[k]).user_id == user;
            if k < rest.len() {
                assert(rest[k].user_id == user);
            }
        }
    }
}

proof fn lemma_twice(accounts: Seq<AccountView>, user: Seq<char>, i: int, k: int)
    requires
        0 <= i < accounts.len(),
        0 <= k < accounts.len(),
        i != k,
        accounts[i].user_id == user,
        accounts[k].user_id == user,
    ensures
        times(accounts, user) >= 2,
    decreases accounts.len(),
{
    let rest = accounts.drop_last();
    let last = accounts.len() - 1;
    if i < last && k < last {
        lemma_twice(rest, user, i, k);
        lemma_at_least(rest, user);
    } else {
        let other = if i == last {
            k
        } else {
            i
        };
        assert(rest[other].user_id == user);
        lemma_at_least(rest, user);
    }
}

/// The accounts that a part of a name finds, in the order of the list.
pub proof fn law_accounts_found(accounts: Seq<AccountView>, target: Seq<char>)
    ensures
        accounts_found(accounts, target) == accounts.filter(
            |a: AccountView|
                target.len() == 0 || has_part(lowercase(a.user_id), lowercase(target)) || (
                localpart(a.user_id) is Some && has_part(
                    lowercase(localpart(a.user_id)->0),
                    lowercase(target),
                )),
        ).map_values(|a: AccountView| a.user_id),
    decreases accounts.len(),
{
    reveal(Seq::filter);
    let found = |a: AccountView|
        target.len() == 0 || has_part(lowercase(a.user_id), lowercase(target)) || (localpart(
            a.user_id,
        ) is Some && has_part(lowercase(localpart(a.user_id)->0), lowercase(target)));
    let user = |a: AccountView| a.user_id;
    if accounts.len() > 0 {
        let rest = accounts.drop_last();
        law_accounts_found(rest, target);
        if found(accounts.last()) {
            assert(rest.filter(found).push(accounts.last()).map_values(user) =~= rest.filter(
                found,
            ).map_values(user).push(accounts.last().user_id));
        }
    } else {
        assert(accounts_found(accounts, target) =~= accounts.filter(found).map_values(user));
    }
}

/// A command is completed where only one begins so, with a blank behind it where it takes an
/// argument. Of several the user is told.
pub proof fn law_completed_command(commands: Seq<SlashCommand>, prefix: Seq<char>, i: int)
    requires
        0 <= i < commands.len(),
        begins(commands[i].name@, "/"@ + prefix),
        forall|k: int|
            0 <= k < commands.len() && k != i ==> !begins((#[trigger] commands[k]).name@, "/"@ + prefix),
    ensures
        commands[i].takes_argument ==> command_completion(
            commands_beginning(commands, prefix),
            prefix,
        ).0 == Some(commands[i].name@ + " "@),
        !commands[i].takes_argument ==> command_completion(
            commands_beginning(commands, prefix),
            prefix,
        ).0 == Some(commands[i].name@),
{
    lemma_only_command(commands, prefix, i);
}

proof fn lemma_only_command(commands: Seq<SlashCommand>, prefix: Seq<char>, i: int)
    requires
        0 <= i < commands.len(),
        begins(commands[i].name@, "/"@ + prefix),
        forall|k: int|
            0 <= k < commands.len() && k != i ==> !begins((#[trigger] commands[k]).name@, "/"@ + prefix),
    ensures
        commands_beginning(commands, prefix) == seq![commands[i]],
    decreases commands.len(),
{
    let rest = commands.drop_last();
    assert(commands.last() == commands[commands.len() - 1]);
    if i == commands.len() - 1 {
        assert forall|k: int| 0 <= k < rest.len() implies !begins(
            (#[trigger] rest[k]).name@,
            "/"@ + prefix,
        ) by {
            assert(rest[k] == commands[k]);
        }
        lemma_no_command(rest, prefix);
        assert(commands_beginning(commands, prefix) =~= seq![commands[i]]);
    } else {
        assert forall|k: int| 0 <= k < rest.len() && k != i implies !begins(
            (#[trigger] rest[k]).name@,
            "/"@ + prefix,
        ) by {
            assert(rest[k] == commands[k]);
        }
        lemma_only_command(rest, prefix, i);
    }
}

proof fn lemma_no_command(commands: Seq<SlashCommand>, prefix: Seq<char>)
    requires
        forall|k: int|
            0 <= k < commands.len() ==> !begins((#[trigger] commands[k]).name@, "/"@ + prefix),
    ensures
        commands_beginning(commands, prefix).len() == 0,
    decreases commands.len(),
{
    if commands.len() > 0 {
        let rest = commands.drop_last();
        assert(commands.last() == commands[commands.len() - 1]);
        assert forall|k: int| 0 <= k < rest.len() implies !begins(
            (#[trigger] rest[k]).name@,
            "/"@ + prefix,
        ) by {
            assert(rest[k] == commands[k]);
        }
        lemma_no_command(rest, prefix);
    }
}

/// A line is the beginning of a command where it begins with a slash and holds no blank.
pub proof fn law_beginning_of_a_command(rest: Seq<char>)
    ensures
        has_white(rest) ==> command_prefix("/"@ + rest) is None,
        !has_white(rest) ==> command_prefix("/"@ + rest) == Some(rest),
{
    reveal_strlit("/");
    let line = "/"@ + rest;
    assert(crate::text::trim_start(line) == line);
    crate::laws::texts::law_after_a_beginning("/"@, rest, rest);
}

/// The texts that begin so, in their order.
pub proof fn law_texts_that_begin_so(texts: Seq<Seq<char>>, prefix: Seq<char>)
    ensures
        beginning_with(texts, prefix) == texts.filter(|t: Seq<char>| begins(t, prefix)),
    decreases texts.len(),
{
    reveal(Seq::filter);
    if texts.len() > 0 {
        law_texts_that_begin_so(texts.drop_last(), prefix);
    }
}

/// Whether a field of a room begins with a text, the case aside.
pub open spec fn field_begins(field: Option<Seq<char>>, text: Seq<char>) -> bool {
    field is Some && begins(lowercase(field->0), lowercase(text))
}

/// A room is found by the beginning of its name, of its alias and of its id, in this order,
/// and is completed to what was found. An empty target finds every room.
pub proof fn law_room_found_by_its_beginning(room: RoomView, target: Seq<char>)
    requires
        trim(target) == target,
    ensures
        target.len() == 0 ==> prefix_value(room, target) == Some(completion_value(room)),
        target.len() > 0 && field_begins(room.name, target) ==> prefix_value(room, target)
            == room.name,
        target.len() > 0 && !field_begins(room.name, target) && field_begins(
            room.canonical_alias,
            target,
        ) ==> prefix_value(room, target) == room.canonical_alias,
        target.len() > 0 && !field_begins(room.name, target) && !field_begins(
            room.canonical_alias,
            target,
        ) && field_begins(Some(room.room_id), target) ==> prefix_value(room, target) == Some(
            room.room_id,
        ),
{
}

/// A room is completed to its alias, else to its name, else to its id.
pub proof fn law_what_a_room_is_completed_to(room: RoomView)
    ensures
        room.canonical_alias is Some ==> completion_value(room) == room.canonical_alias->0,
        room.canonical_alias is None && room.name is Some ==> completion_value(room)
            == room.name->0,
        room.canonical_alias is None && room.name is None ==> completion_value(room)
            == room.room_id,
{
}

/// The rooms that a target may be completed to, in the order of the list.
pub proof fn law_rooms_found(rooms: Seq<RoomView>, target: Seq<char>)
    ensures
        rooms_matching(rooms, target) == rooms.filter(
            |r: RoomView| prefix_value(r, target) is Some,
        ),
    decreases rooms.len(),
{
    reveal(Seq::filter);
    if rooms.len() > 0 {
        law_rooms_found(rooms.drop_last(), target);
    }
}

/// The only room that a target finds is written out. Where there is none, the line stays.
pub proof fn law_only_room_is_completed(found: Seq<RoomView>, target: Seq<char>, reverse: bool)
    ensures
        found.len() == 1 ==> room_offer(found, target, reverse).line == Some(
            "/room "@ + completion_value(found[0]),
        ),
        found.len() == 0 ==> room_offer(found, target, reverse).line is None,
{
}

/// Of several rooms as much is written out as they have in common, and never less than the
/// user typed.
pub proof fn law_common_beginning_of_rooms(
    found: Seq<RoomView>,
    target: Seq<char>,
    reverse: bool,
    rest: Seq<char>,
)
    requires
        found.len() > 1,
        room_offer(found, target, reverse).partial is Some,
        room_offer(found, target, reverse).line == Some("/room "@ + rest),
    ensures
        rest.len() > target.len(),
        begins_ignoring_case(rest, target),
{
    let prefixes = crate::app::completion::prefixes_of(found, target);
    let completed = crate::app::completion::advanced_ignoring_case(
        crate::app::words::common_prefix(prefixes),
        target,
    );
    let whole = "/room "@ + completed;
    assert(whole == "/room "@ + rest);
    assert(whole.skip("/room "@.len() as int) =~= completed);
    assert(("/room "@ + rest).skip("/room "@.len() as int) =~= rest);
}

/// A path is made of its directory and a name without a slash.
pub proof fn law_parts_of_a_path(partial: Seq<char>)
    ensures
        typed_dir(partial) + typed_name(partial) == partial,
        !typed_name(partial).contains('/'),
        typed_dir(partial).len() > 0 ==> typed_dir(partial).last() == '/',
{
    lemma_dir(partial);
    let n = crate::app::words::dir_len(partial);
    assert(partial.take(n) + partial.skip(n) =~= partial);
    let name = typed_name(partial);
    if name.contains('/') {
        let k = choose|k: int| 0 <= k < name.len() && name[k] == '/';
        assert(partial[n + k] == '/');
    }
}

proof fn lemma_dir(path: Seq<char>)
    ensures
        0 <= crate::app::words::dir_len(path) <= path.len(),
        crate::app::words::dir_len(path) > 0 ==> path[crate::app::words::dir_len(path) - 1] == '/',
        forall|i: int|
            crate::app::words::dir_len(path) <= i < path.len() ==> #[trigger] path[i] != '/',
    decreases path.len(),
{
    if path.len() > 0 && path.last() != '/' {
        let rest = path.drop_last();
        lemma_dir(rest);
        assert forall|i: int| crate::app::words::dir_len(path) <= i < path.len() implies
            #[trigger] path[i] != '/' by {
            if i < rest.len() {
                assert(rest[i] == path[i]);
            }
        }
    }
}

/// What a directory holds and begins so is offered, behind the directory that was typed, a
/// directory with a slash at its end.
pub proof fn law_entries_to_complete(dir: Seq<char>, name: Seq<char>, entries: Seq<DirEntryView>)
    ensures
        completing_entries(dir, name, entries) == entries.filter(
            |e: DirEntryView| begins(e.name, name),
        ).map_values(
            |e: DirEntryView|
                if e.is_dir {
                    dir + e.name + "/"@
                } else {
                    dir + e.name
                },
        ),
    decreases entries.len(),
{
    reveal(Seq::filter);
    let fits = |e: DirEntryView| begins(e.name, name);
    let path = |e: DirEntryView|
        if e.is_dir {
            dir + e.name + "/"@
        } else {
            dir + e.name
        };
    if entries.len() > 0 {
        let rest = entries.drop_last();
        let last = entries.last();
        law_entries_to_complete(dir, name, rest);
        assert(completed_path(dir, last) =~= path(last));
        if fits(last) {
            assert(rest.filter(fits).push(last).map_values(path) =~= rest.filter(fits).map_values(
                path,
            ).push(path(last)));
        }
    } else {
        assert(completing_entries(dir, name, entries) =~= entries.filter(fits).map_values(path));
    }
}

/// The only path that fits is written out.
pub proof fn law_only_path_is_completed(partial: Seq<char>, path: Seq<char>, reverse: bool)
    ensures
        path_offer(partial, seq![path], reverse).line == Some(
            "/send "@ + crate::app::words::escaped_path(path),
        ),
        path_offer(partial, Seq::empty(), reverse).line is None,
{
}

/// An alias may be typed without its number sign, and a room by its alias without its server.
pub proof fn law_short_forms_of_an_alias(name: Seq<char>, server: Seq<char>)
    requires
        name.len() > 0,
        !name.contains(':'),
        name[0] != '#',
        name[0] != '!',
        trim(name) == name,
        trim(name + ":"@ + server) == name + ":"@ + server,
        trim("#"@ + name) == "#"@ + name,
    ensures
        alias_with_hash(name + ":"@ + server) == Some("#"@ + (name + ":"@ + server)),
        local_name("#"@ + name + ":"@ + server) == Some(name),
        incomplete_name(name) == Some(name),
        incomplete_name("#"@ + name) == Some(name),
        alias_with_hash(name) is None,
{
    reveal_strlit(":");
    reveal_strlit("#");
    let alias = name + ":"@ + server;
    assert(alias[name.len() as int] == ':');
    assert(alias.contains(':'));
    let whole = "#"@ + name + ":"@ + server;
    assert(whole.skip(1) =~= alias);
    assert forall|k: int| 0 <= k < name.len() implies alias[k] != ':' by {
        assert(name.contains(name[k]));
    }
    crate::laws::accounts::lemma_split_at(alias, ':', name.len() as int);
    assert(alias.take(name.len() as int) =~= name);
    assert(crate::app::words::without_sigils(name) == name);
    let marked = "#"@ + name;
    assert(marked.skip(1) =~= name);
    reveal_with_fuel(crate::app::words::without_sigils, 2);
    assert(!marked.contains(':')) by {
        if marked.contains(':') {
            let k = choose|k: int| 0 <= k < marked.len() && marked[k] == ':';
            assert(name[k - 1] == ':');
        }
    }
}

/// The emojis whose names hold what was typed, the case aside, in the order of the table.
pub proof fn law_emojis_found(table: Seq<(Seq<char>, Seq<char>)>, query: Seq<char>)
    ensures
        named_among(table, query) == table.filter(
            |e: (Seq<char>, Seq<char>)|
                has_part(ascii_lowercase(e.1), ascii_lowercase(query)),
        ),
    decreases table.len(),
{
    reveal(Seq::filter);
    if table.len() > 0 {
        law_emojis_found(table.drop_last(), query);
    }
}

} // verus!
