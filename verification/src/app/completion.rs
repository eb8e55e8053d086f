//! Completion of what the user types, with the tab key.

use vstd::prelude::*;

use crate::api::dto::{AccountDto, AccountView, RoomDto, RoomView};
use crate::app::choice::{cycled, cycle_index, pick, picked, RoomKey};
use crate::app::emoji::{
    beyond, emoji_cycle_status, emoji_matches, emoji_text, emojis_named, first_few,
};
use crate::app::input::InputState;
use crate::app::room_target::{
    completion_value, matches_completion, prefix_value, room_completion_value,
    room_matching_prefix_value, still_to_type, text_still_to_type,
};
use crate::app::rooms::{account_localpart, localpart};
use crate::app::state::{App, RoomsState};
use crate::app::status::{Status, StatusView};
use crate::app::targets::{account_candidates, complete_account_target, Eligible};
use crate::app::words::{
    command_prefix, command_target, command_target_prefix, commands_beginning, common_prefix,
    completion_token, emoji_prefix, escaped_path, filter_argument_candidates, filter_target,
    filter_target_prefix, beginning_with, filter_words, longest_common_prefix,
    parse_leading_path_token, path_candidates, path_token, quote_path_for_send,
    react_command_emoji_prefix, room_action_user_target_prefix, room_target, room_target_prefix,
    send_path_candidates, send_path_completion_token, send_target_prefix, slash_command_candidates,
    slash_command_prefix, user_action, DirEntry, DirEntryView, SlashCommand,
};
use crate::keyed::KeyedMap;
use crate::order::{sort_texts, text_less};
use crate::text::{
    begins, begins_ignoring_case, cat2, cat3, cat4, cat5, decimal, decimal_usize, has_part,
    has_white, join, joined, lowercase, option_str, option_view, same_option, same_text,
    text_begins, text_begins_ignoring_case, text_has_part, text_has_white, to_lowercase, trim,
    trim_start, trim_start_char, trim_text, trim_text_start, trim_text_start_char, views,
};

verus! {

// ---------------------------------------------------------------------------
// What a completion does
// ---------------------------------------------------------------------------

/// The completions that go on from where they were.
#[derive(Debug, Clone, Copy, PartialEq, Eq, Structural)]
pub enum Slot {
    React,
    Logout,
    Recover,
    Backup,
    Delete,
    Account,
    Verify,
    Filter,
    Send,
}

pub open spec fn slot_of(input: InputState, slot: Slot) -> Option<(String, usize)> {
    match slot {
        Slot::React => input.react_command_completion,
        Slot::Logout => input.logout_command_completion,
        Slot::Recover => input.recover_command_completion,
        Slot::Backup => input.backup_command_completion,
        Slot::Delete => input.delete_command_completion,
        Slot::Account => input.account_command_completion,
        Slot::Verify => input.verify_command_completion,
        Slot::Filter => input.filter_command_completion,
        Slot::Send => input.send_command_completion,
    }
}

pub open spec fn with_slot(
    input: InputState,
    slot: Slot,
    value: Option<(String, usize)>,
) -> InputState {
    match slot {
        Slot::React => InputState { react_command_completion: value, ..input },
        Slot::Logout => InputState { logout_command_completion: value, ..input },
        Slot::Recover => InputState { recover_command_completion: value, ..input },
        Slot::Backup => InputState { backup_command_completion: value, ..input },
        Slot::Delete => InputState { delete_command_completion: value, ..input },
        Slot::Account => InputState { account_command_completion: value, ..input },
        Slot::Verify => InputState { verify_command_completion: value, ..input },
        Slot::Filter => InputState { filter_command_completion: value, ..input },
        Slot::Send => InputState { send_command_completion: value, ..input },
    }
}

/// What a completion does: the line it writes, what it goes on from, and what it
/// says. A line or a text that is absent stays as it is.
#[derive(Debug)]
pub struct Completion {
    pub line: Option<String>,
    pub slot: Option<(String, usize)>,
    pub status: Option<String>,
}

#[verifier::ext_equal]
pub struct CompletionView {
    pub line: Option<Seq<char>>,
    pub slot: Option<(Seq<char>, usize)>,
    pub status: Option<Seq<char>>,
}

pub open spec fn slot_view(slot: Option<(String, usize)>) -> Option<(Seq<char>, usize)> {
    match slot {
        Some((q, i)) => Some((q@, i)),
        None => None,
    }
}

impl View for Completion {
    type V = CompletionView;

    open spec fn view(&self) -> CompletionView {
        CompletionView {
            line: option_view(self.line),
            slot: slot_view(self.slot),
            status: option_view(self.status),
        }
    }
}

/// Whether the line is a new one, with the cursor at its end, or as it was.
pub open spec fn line_after(before: InputState, after: InputState, line: Option<Seq<char>>) -> bool {
    match line {
        Some(l) => after.buffer@ == l && after.ok() && after.before() == l,
        None => after.buffer == before.buffer && after.cursor == before.cursor,
    }
}

pub open spec fn status_after(before: Status, after: Status, text: Option<Seq<char>>) -> bool {
    match text {
        Some(t) => after@ == StatusView::Info(t),
        None => after == before,
    }
}

/// Whether a completion was carried out, and nothing else changed.
pub open spec fn completed_with(before: App, after: App, slot: Slot, c: CompletionView) -> bool {
    &&& after == (App { input: after.input, status: after.status, ..before })
    &&& after.input == with_slot(
        InputState { buffer: after.input.buffer, cursor: after.input.cursor, ..before.input },
        slot,
        slot_of(after.input, slot),
    )
    &&& slot_view(slot_of(after.input, slot)) == c.slot
    &&& line_after(before.input, after.input, c.line)
    &&& status_after(before.status, after.status, c.status)
}

impl InputState {
    fn put_slot(&mut self, slot: Slot, value: Option<(String, usize)>)
        ensures
            *final(self) == with_slot(*old(self), slot, value),
    {
        match slot {
            Slot::React => {
                self.react_command_completion = value;
            },
            Slot::Logout => {
                self.logout_command_completion = value;
            },
            Slot::Recover => {
                self.recover_command_completion = value;
            },
            Slot::Backup => {
                self.backup_command_completion = value;
            },
            Slot::Delete => {
                self.delete_command_completion = value;
            },
            Slot::Account => {
                self.account_command_completion = value;
            },
            Slot::Verify => {
                self.verify_command_completion = value;
            },
            Slot::Filter => {
                self.filter_command_completion = value;
            },
            Slot::Send => {
                self.send_command_completion = value;
            },
        }
    }

    fn slot(&self, slot: Slot) -> (out: &Option<(String, usize)>)
        ensures
            *out == slot_of(*self, slot),
    {
        match slot {
            Slot::React => &self.react_command_completion,
            Slot::Logout => &self.logout_command_completion,
            Slot::Recover => &self.recover_command_completion,
            Slot::Backup => &self.backup_command_completion,
            Slot::Delete => &self.delete_command_completion,
            Slot::Account => &self.account_command_completion,
            Slot::Verify => &self.verify_command_completion,
            Slot::Filter => &self.filter_command_completion,
            Slot::Send => &self.send_command_completion,
        }
    }
}

impl App {
    fn finish_completion(&mut self, slot: Slot, c: Completion)
        ensures
            completed_with(*old(self), *final(self), slot, c@),
    {
        if let Some(line) = c.line {
            self.input.set(line);
        }
        self.input.put_slot(slot, c.slot);
        if let Some(text) = c.status {
            self.status = Status::Info(text);
        }
    }
}

/// What a completion looks for: what it began with, or else the target.
pub open spec fn query_of(slot: Option<(String, usize)>, target: Seq<char>) -> Seq<char> {
    match slot {
        Some((q, _)) => q@,
        None => target,
    }
}

pub open spec fn stored_of(slot: Option<(String, usize)>) -> Option<usize> {
    match slot {
        Some((_, i)) => Some(i),
        None => None,
    }
}

fn query_text(slot: &Option<(String, usize)>, target: &str) -> (out: String)
    ensures
        out@ == query_of(*slot, target@),
{
    match slot {
        Some((q, _)) => q.clone(),
        None => target.to_owned(),
    }
}

fn stored_index(slot: &Option<(String, usize)>) -> (out: Option<usize>)
    ensures
        out == stored_of(*slot),
{
    match slot {
        Some((_, i)) => Some(*i),
        None => None,
    }
}

/// Which candidate of how many is picked.
pub open spec fn cycle_text(
    selected: int,
    total: nat,
    candidate: Seq<char>,
    verb: Seq<char>,
) -> Seq<char> {
    "["@ + decimal((selected + 1) as nat) + "/"@ + decimal(total) + "] "@ + candidate
        + " - Tab/Shift-Tab to cycle, Enter to "@ + verb
}

fn cycle_status(selected: usize, total: usize, candidate: &str, verb: &str) -> (out: String)
    requires
        selected < total,
    ensures
        out@ == cycle_text(selected as int, total as nat, candidate@, verb@),
{
    let n = decimal_usize(selected + 1);
    let m = decimal_usize(total);
    let head = cat5("[", n.as_str(), "/", m.as_str(), "] ");
    cat4(head.as_str(), candidate, " - Tab/Shift-Tab to cycle, Enter to ", verb)
}

/// A completion that goes round the candidates of a command.
pub open spec fn cycle(
    stored: Option<usize>,
    query: Seq<char>,
    candidates: Seq<Seq<char>>,
    command: Seq<char>,
    verb: Seq<char>,
    none: Option<Seq<char>>,
    reverse: bool,
) -> CompletionView {
    if candidates.len() == 0 {
        CompletionView { line: None, slot: None, status: none }
    } else {
        let at = picked(stored, candidates.len() as int, reverse);
        CompletionView {
            line: Some(command + " "@ + candidates[at]),
            slot: Some((query, at as usize)),
            status: Some(cycle_text(at, candidates.len(), candidates[at], verb)),
        }
    }
}

fn cycle_candidates(
    stored: Option<usize>,
    query: String,
    candidates: &Vec<String>,
    command: &str,
    verb: &str,
    none: Option<String>,
    reverse: bool,
) -> (out: Completion)
    ensures
        out@ == cycle(
            stored,
            query@,
            views(candidates@),
            command@,
            verb@,
            option_view(none),
            reverse,
        ),
{
    if candidates.len() == 0 {
        return Completion { line: None, slot: None, status: none };
    }
    let at: usize = pick(stored, candidates.len(), reverse);
    let candidate = candidates[at].as_str();
    Completion {
        line: Some(cat3(command, " ", candidate)),
        slot: Some((query, at)),
        status: Some(cycle_status(at, candidates.len(), candidate, verb)),
    }
}

// ---------------------------------------------------------------------------
// Accounts
// ---------------------------------------------------------------------------

/// What is said where no account is found.
pub open spec fn none_found(query: Seq<char>, none: Seq<char>, no_match: Seq<char>) -> Seq<char> {
    if query.len() == 0 {
        none
    } else {
        no_match + query
    }
}

fn none_found_text(query: &str, none: &str, no_match: &str) -> (out: String)
    ensures
        out@ == none_found(query@, none@, no_match@),
{
    if query.is_empty() {
        none.to_owned()
    } else {
        cat2(no_match, query)
    }
}

/// The completion of a command on an account.
pub open spec fn account_completion(
    accounts: Seq<AccountView>,
    which: Eligible,
    slot: Option<(String, usize)>,
    target: Seq<char>,
    command: Seq<char>,
    verb: Seq<char>,
    reverse: bool,
) -> CompletionView {
    let query = query_of(slot, target);
    let none = match which {
        Eligible::Active => none_found(
            query,
            "no active accounts"@,
            "no active account matches: "@,
        ),
        Eligible::NotDeleting => none_found(query, "no accounts"@, "no account matches: "@),
    };
    cycle(
        stored_of(slot),
        query,
        account_candidates(accounts, which, query),
        command,
        verb,
        Some(none),
        reverse,
    )
}

fn complete_account(
    accounts: &Vec<AccountDto>,
    which: Eligible,
    slot: &Option<(String, usize)>,
    target: &str,
    command: &str,
    verb: &str,
    reverse: bool,
) -> (out: Completion)
    ensures
        out@ == account_completion(
            views(accounts@),
            which,
            *slot,
            target@,
            command@,
            verb@,
            reverse,
        ),
{
    let query = query_text(slot, target);
    let candidates = complete_account_target(accounts, which, query.as_str());
    let none = match which {
        Eligible::Active => none_found_text(
            query.as_str(),
            "no active accounts",
            "no active account matches: ",
        ),
        Eligible::NotDeleting => none_found_text(
            query.as_str(),
            "no accounts",
            "no account matches: ",
        ),
    };
    cycle_candidates(
        stored_index(slot),
        query,
        &candidates,
        command,
        verb,
        Some(none),
        reverse,
    )
}

/// Whether a user id or its local part holds a text, whatever the case.
pub open spec fn user_found(user_id: Seq<char>, query: Seq<char>) -> bool {
    ||| has_part(lowercase(user_id), query)
    ||| localpart(user_id) is Some && has_part(lowercase(localpart(user_id)->0), query)
}

fn finds_user(user_id: &str, query: &str) -> (r: bool)
    ensures
        r == user_found(user_id@, query@),
{
    text_has_part(to_lowercase(user_id).as_str(), query) || match account_localpart(user_id) {
        Some(local) => text_has_part(to_lowercase(local).as_str(), query),
        None => false,
    }
}

/// The user ids of the accounts that a text finds.
pub open spec fn accounts_found(accounts: Seq<AccountView>, target: Seq<char>) -> Seq<Seq<char>>
    decreases accounts.len(),
{
    if accounts.len() == 0 {
        Seq::empty()
    } else {
        let before = accounts_found(accounts.drop_last(), target);
        let id = accounts.last().user_id;
        if target.len() == 0 || user_found(id, lowercase(target)) {
            before.push(id)
        } else {
            before
        }
    }
}

pub fn account_completion_candidates(accounts: &Vec<AccountDto>, target: &str) -> (out: Vec<String>)
    ensures
        views(out@) == accounts_found(views(accounts@), target@),
{
    let lower = to_lowercase(target);
    let ghost all = views(accounts@);
    let mut out: Vec<String> = Vec::new();
    let mut i: usize = 0;
    assert(views(out@) =~= Seq::<Seq<char>>::empty());
    while i < accounts.len()
        invariant
            i <= accounts.len(),
            all == views(accounts@),
            lower@ == lowercase(target@),
            views(out@) == accounts_found(all.take(i as int), target@),
        decreases accounts.len() - i,
    {
        let ghost before = views(out@);
        assert(all.take(i + 1).drop_last() =~= all.take(i as int));
        assert(all.take(i + 1).last() == accounts@[i as int]@);
        let id = &accounts[i].user_id;
        if target.is_empty() || finds_user(id.as_str(), lower.as_str()) {
            out.push(id.clone());
            assert(views(out@) =~= before.push(id@));
        }
        i = i + 1;
    }
    assert(all.take(i as int) =~= all);
    out
}

impl App {
    pub open spec fn logout_completion(self, target: Seq<char>, reverse: bool) -> CompletionView {
        account_completion(
            views(self.accounts.accounts@),
            Eligible::Active,
            self.input.logout_command_completion,
            target,
            "/logout"@,
            "log out"@,
            reverse,
        )
    }

    pub fn complete_logout_command_input(&mut self, reverse: bool) -> (handled: bool)
        ensures
            match command_target(old(self).input.buffer@, "/logout"@) {
                Some(target) => handled && completed_with(
                    *old(self),
                    *final(self),
                    Slot::Logout,
                    old(self).logout_completion(target, reverse),
                ),
                None => !handled && *final(self) == *old(self),
            },
    {
        let c = match command_target_prefix(self.input.buffer.as_str(), "/logout") {
            Some(target) => complete_account(
                &self.accounts.accounts,
                Eligible::Active,
                &self.input.logout_command_completion,
                target,
                "/logout",
                "log out",
                reverse,
            ),
            None => return false,
        };
        self.finish_completion(Slot::Logout, c);
        true
    }

    pub open spec fn recover_completion(self, target: Seq<char>, reverse: bool) -> CompletionView {
        account_completion(
            views(self.accounts.accounts@),
            Eligible::Active,
            self.input.recover_command_completion,
            target,
            "/recover"@,
            "recover"@,
            reverse,
        )
    }

    pub fn complete_recover_command_input(&mut self, reverse: bool) -> (handled: bool)
        ensures
            match command_target(old(self).input.buffer@, "/recover"@) {
                Some(target) => handled && completed_with(
                    *old(self),
                    *final(self),
                    Slot::Recover,
                    old(self).recover_completion(target, reverse),
                ),
                None => !handled && *final(self) == *old(self),
            },
    {
        let c = match command_target_prefix(self.input.buffer.as_str(), "/recover") {
            Some(target) => complete_account(
                &self.accounts.accounts,
                Eligible::Active,
                &self.input.recover_command_completion,
                target,
                "/recover",
                "recover",
                reverse,
            ),
            None => return false,
        };
        self.finish_completion(Slot::Recover, c);
        true
    }

    pub open spec fn delete_completion(self, target: Seq<char>, reverse: bool) -> CompletionView {
        account_completion(
            views(self.accounts.accounts@),
            Eligible::NotDeleting,
            self.input.delete_command_completion,
            target,
            "/delete"@,
            "delete"@,
            reverse,
        )
    }

    pub fn complete_delete_command_input(&mut self, reverse: bool) -> (handled: bool)
        ensures
            match command_target(old(self).input.buffer@, "/delete"@) {
                Some(target) => handled && completed_with(
                    *old(self),
                    *final(self),
                    Slot::Delete,
                    old(self).delete_completion(target, reverse),
                ),
                None => !handled && *final(self) == *old(self),
            },
    {
        let c = match command_target_prefix(self.input.buffer.as_str(), "/delete") {
            Some(target) => complete_account(
                &self.accounts.accounts,
                Eligible::NotDeleting,
                &self.input.delete_command_completion,
                target,
                "/delete",
                "delete",
                reverse,
            ),
            None => return false,
        };
        self.finish_completion(Slot::Delete, c);
        true
    }

    /// The completion of what follows `/backup`: the account of `/backup enable`,
    /// or the word `enable` itself.
    pub open spec fn backup_completion(self, reverse: bool) -> Option<CompletionView> {
        let line = self.input.buffer@;
        match command_target(line, "/backup enable"@) {
            Some(target) => Some(
                account_completion(
                    views(self.accounts.accounts@),
                    Eligible::Active,
                    self.input.backup_command_completion,
                    target,
                    "/backup enable"@,
                    "enable backup"@,
                    reverse,
                ),
            ),
            None => match command_target(line, "/backup"@) {
                Some(target) => if target.len() == 0 || (begins("enable"@, target) && !has_white(
                    target,
                )) {
                    Some(
                        CompletionView {
                            line: Some("/backup enable"@),
                            slot: None,
                            status: Some("completed subcommand: /backup enable"@),
                        },
                    )
                } else {
                    None
                },
                None => None,
            },
        }
    }

    pub fn complete_backup_command_input(&mut self, reverse: bool) -> (handled: bool)
        ensures
            match old(self).backup_completion(reverse) {
                Some(c) => handled && completed_with(*old(self), *final(self), Slot::Backup, c),
                None => !handled && *final(self) == *old(self),
            },
    {
        let line = self.input.buffer.as_str();
        let c = match command_target_prefix(line, "/backup enable") {
            Some(target) => complete_account(
                &self.accounts.accounts,
                Eligible::Active,
                &self.input.backup_command_completion,
                target,
                "/backup enable",
                "enable backup",
                reverse,
            ),
            None => match command_target_prefix(line, "/backup") {
                Some(target) => if target.is_empty() || (text_begins("enable", target)
                    && !text_has_white(target)) {
                    Completion {
                        line: Some("/backup enable".to_owned()),
                        slot: None,
                        status: Some("completed subcommand: /backup enable".to_owned()),
                    }
                } else {
                    return false;
                },
                None => return false,
            },
        };
        self.finish_completion(Slot::Backup, c);
        true
    }

    pub open spec fn selection_completion(self, target: Seq<char>, reverse: bool) -> CompletionView {
        let slot = self.input.account_command_completion;
        let query = query_of(slot, target);
        cycle(
            stored_of(slot),
            query,
            accounts_found(views(self.accounts.accounts@), query),
            "/account"@,
            "select"@,
            Some(none_found(query, "no accounts"@, "no account matches: "@)),
            reverse,
        )
    }

    pub fn complete_account_command_input(&mut self, reverse: bool) -> (handled: bool)
        ensures
            match command_target(old(self).input.buffer@, "/account"@) {
                Some(target) => handled && completed_with(
                    *old(self),
                    *final(self),
                    Slot::Account,
                    old(self).selection_completion(target, reverse),
                ),
                None => !handled && *final(self) == *old(self),
            },
    {
        let slot = &self.input.account_command_completion;
        let c = match command_target_prefix(self.input.buffer.as_str(), "/account") {
            Some(target) => {
                let query = query_text(slot, target);
                let candidates = account_completion_candidates(
                    &self.accounts.accounts,
                    query.as_str(),
                );
                let none = none_found_text(
                    query.as_str(),
                    "no accounts",
                    "no account matches: ",
                );
                cycle_candidates(
                    stored_index(slot),
                    query,
                    &candidates,
                    "/account",
                    "select",
                    Some(none),
                    reverse,
                )
            },
            None => return false,
        };
        self.finish_completion(Slot::Account, c);
        true
    }
}

// ---------------------------------------------------------------------------
// Members of the room
// ---------------------------------------------------------------------------

/// Whether a query finds a member of the room. The account itself is never found.
pub open spec fn member_found(
    own: Option<Seq<char>>,
    user_id: Seq<char>,
    display: Seq<char>,
    query: Seq<char>,
) -> bool {
    own != Some(user_id) && (query.len() == 0 || user_found(user_id, query) || has_part(
        lowercase(display),
        query,
    ))
}

/// The members that the first `n` entries give.
pub open spec fn members_among(
    own: Option<Seq<char>>,
    names: Seq<(String, String)>,
    query: Seq<char>,
) -> Seq<Seq<char>>
    decreases names.len(),
{
    if names.len() == 0 {
        Seq::empty()
    } else {
        let before = members_among(own, names.drop_last(), query);
        if member_found(own, names.last().0@, names.last().1@, query) {
            before.push(names.last().0@)
        } else {
            before
        }
    }
}

/// Whether a list holds the members that a query finds, in order, each once.
pub open spec fn lists_members(
    out: Seq<Seq<char>>,
    own: Option<Seq<char>>,
    names: Map<Seq<char>, String>,
    query: Seq<char>,
) -> bool {
    &&& forall|i: int, j: int|
        0 <= i < j < out.len() ==> text_less(#[trigger] out[i], #[trigger] out[j])
    &&& forall|u: Seq<char>| #[trigger]
        out.contains(u) <==> names.dom().contains(u) && member_found(own, u, names[u]@, query)
}

/// What a member is looked for by.
pub open spec fn member_query(target: Seq<char>) -> Seq<char> {
    lowercase(trim_start_char(trim(target), '@'))
}

proof fn lemma_members_among(own: Option<Seq<char>>, names: Seq<(String, String)>, query: Seq<char>)
    requires
        forall|i: int, j: int|
            0 <= i < j < names.len() ==> (#[trigger] names[i]).0@ != (#[trigger] names[j]).0@,
    ensures
        forall|u: Seq<char>| #[trigger]
            members_among(own, names, query).contains(u) <==> exists|i: int|
                0 <= i < names.len() && #[trigger] names[i].0@ == u && member_found(
                    own,
                    u,
                    names[i].1@,
                    query,
                ),
        members_among(own, names, query).no_duplicates(),
    decreases names.len(),
{
    if names.len() > 0 {
        let rest = names.drop_last();
        let before = members_among(own, rest, query);
        let all = members_among(own, names, query);
        assert forall|i: int, j: int| 0 <= i < j < rest.len() implies (#[trigger] rest[i]).0@ != (
        #[trigger] rest[j]).0@ by {
            assert(rest[i] == names[i] && rest[j] == names[j]);
        }
        lemma_members_among(own, rest, query);
        let last = names.last();
        assert forall|u: Seq<char>| #[trigger] all.contains(u) implies exists|i: int|
            0 <= i < names.len() && #[trigger] names[i].0@ == u && member_found(
                own,
                u,
                names[i].1@,
                query,
            ) by {
            let p = choose|p: int| 0 <= p < all.len() && all[p] == u;
            if p < before.len() {
                assert(before[p] == u);
                assert(before.contains(u));
                let i = choose|i: int|
                    0 <= i < rest.len() && #[trigger] rest[i].0@ == u && member_found(
                        own,
                        u,
                        rest[i].1@,
                        query,
                    );
                assert(names[i] == rest[i]);
            } else {
                assert(names[names.len() - 1].0@ == u);
            }
        }
        assert forall|u: Seq<char>|
            (exists|i: int|
                0 <= i < names.len() && #[trigger] names[i].0@ == u && member_found(
                    own,
                    u,
                    names[i].1@,
                    query,
                )) implies #[trigger] all.contains(u) by {
            let i = choose|i: int|
                0 <= i < names.len() && #[trigger] names[i].0@ == u && member_found(
                    own,
                    u,
                    names[i].1@,
                    query,
                );
            if i < rest.len() {
                assert(rest[i] == names[i]);
                assert(before.contains(u));
                let p = choose|p: int| 0 <= p < before.len() && before[p] == u;
                assert(all[p] == u);
            } else {
                assert(all.last() == u);
                assert(all[all.len() - 1] == u);
            }
        }
        assert(all.no_duplicates()) by {
            if before.contains(last.0@) {
                let i = choose|i: int| 0 <= i < rest.len() && #[trigger] rest[i].0@ == last.0@;
                assert(names[i] == rest[i]);
                assert(names[i].0@ != names[names.len() - 1].0@);
            }
            assert forall|i: int, j: int| 0 <= i < all.len() && 0 <= j < all.len() && i
                != j implies all[i] != all[j] by {
                if i < before.len() && j < before.len() {
                    assert(all[i] == before[i] && all[j] == before[j]);
                } else if i < before.len() {
                    assert(before[i] == all[i]);
                    assert(before.contains(all[i]));
                } else if j < before.len() {
                    assert(before[j] == all[j]);
                    assert(before.contains(all[j]));
                }
            }
        }
    }
}

fn find_members(own: Option<&str>, names: &KeyedMap<String, String>, query: &str) -> (out: Vec<
    String,
>)
    ensures
        lists_members(views(out@), crate::text::option_str_view(own), names@, query@),
{
    let ghost own_view = crate::text::option_str_view(own);
    let ghost listed = names.listed();
    let n: usize = names.count();
    proof {
        names.lemma_listed();
    }
    let mut found: Vec<String> = Vec::new();
    let mut i: usize = 0;
    assert(views(found@) =~= Seq::<Seq<char>>::empty());
    while i < n
        invariant
            i <= n,
            n == listed.len(),
            listed == names.listed(),
            own_view == crate::text::option_str_view(own),
            views(found@) == members_among(own_view, listed.take(i as int), query@),
        decreases n - i,
    {
        let ghost before = views(found@);
        assert(listed.take(i + 1).drop_last() =~= listed.take(i as int));
        let (user_id, display) = names.entry(i);
        assert(listed.take(i + 1).last() == listed[i as int]);
        let itself = same_option(own, Some(user_id.as_str()));
        if !itself && (query.is_empty() || finds_user(user_id.as_str(), query) || text_has_part(
            to_lowercase(display.as_str()).as_str(),
            query,
        )) {
            found.push(user_id.clone());
            assert(views(found@) =~= before.push(user_id@));
        }
        i = i + 1;
    }
    assert(listed.take(i as int) =~= listed);
    let ghost all = views(found@);
    let out = sort_texts(found);
    proof {
        lemma_members_among(own_view, listed, query@);
        let sorted = views(out@);
        crate::order::lemma_text_sorted(all);
        sorted.to_multiset_ensures();
        all.to_multiset_ensures();
        all.lemma_multiset_has_no_duplicates();
        assert(sorted.no_duplicates()) by {
            sorted.lemma_multiset_has_no_duplicates_conv();
        }
        assert forall|i: int, j: int| 0 <= i < j < sorted.len() implies text_less(
            #[trigger] sorted[i],
            #[trigger] sorted[j],
        ) by {
            crate::order::lemma_text_less_total(sorted[i], sorted[j]);
        }
        assert forall|u: Seq<char>| #[trigger]
            sorted.contains(u) <==> names@.dom().contains(u) && member_found(
                own_view,
                u,
                names@[u]@,
                query@,
            ) by {
            assert(sorted.to_multiset().count(u) == all.to_multiset().count(u));
            assert(sorted.contains(u) == all.contains(u));
            names.lemma_listed_key(u);
        }
    }
    out
}

impl RoomsState {
    /// Whether a list holds the members of the selected room that a target finds.
    pub open spec fn lists_room_members(self, out: Seq<Seq<char>>, target: Seq<char>) -> bool {
        match self.chosen() {
            Some(room) => {
                let key = crate::app::choice::room_key(room@);
                if self.display_names@.dom().contains(key) {
                    lists_members(
                        out,
                        room@.account_user_id,
                        self.display_names@[key]@,
                        member_query(target),
                    )
                } else {
                    out.len() == 0
                }
            },
            None => out.len() == 0,
        }
    }

    pub fn selected_room_user_candidates(&self, target: &str) -> (out: Vec<String>)
        ensures
            self.lists_room_members(views(out@), target@),
    {
        let at: usize = match self.selected {
            Some(i) => if i < self.rooms.len() {
                i
            } else {
                return Vec::new();
            },
            None => return Vec::new(),
        };
        let room = &self.rooms[at];
        let key = RoomKey::of(room);
        let names = match self.display_names.get(&key) {
            Some(names) => names,
            None => return Vec::new(),
        };
        let query = to_lowercase(trim_text_start_char(trim_text(target), '@'));
        find_members(option_str(&room.account_user_id), names, query.as_str())
    }
}

/// What is said where no member is found.
pub open spec fn no_member(query: Seq<char>) -> Seq<char> {
    if trim(query).len() == 0 {
        "no known users in this room yet"@
    } else {
        "no user matches: "@ + query
    }
}

fn no_member_text(query: &str) -> (out: String)
    ensures
        out@ == no_member(query@),
{
    if trim_text(query).is_empty() {
        "no known users in this room yet".to_owned()
    } else {
        cat2("no user matches: ", query)
    }
}

impl App {
    /// Whether a command on a member of the room was completed.
    pub open spec fn member_completed(
        self,
        after: App,
        target: Seq<char>,
        command: Seq<char>,
        verb: Seq<char>,
        reverse: bool,
    ) -> bool {
        let slot = self.input.verify_command_completion;
        let query = query_of(slot, target);
        exists|candidates: Seq<Seq<char>>|
            #![trigger self.rooms.lists_room_members(candidates, query)]
            self.rooms.lists_room_members(candidates, query) && completed_with(
                self,
                after,
                Slot::Verify,
                cycle(
                    stored_of(slot),
                    query,
                    candidates,
                    command,
                    verb,
                    Some(no_member(query)),
                    reverse,
                ),
            )
    }

    fn complete_member(&mut self, target: &str, command: &str, verb: &str, reverse: bool)
        ensures
            old(self).member_completed(*final(self), target@, command@, verb@, reverse),
    {
        let slot = &self.input.verify_command_completion;
        let query = query_text(slot, target);
        let candidates = self.rooms.selected_room_user_candidates(query.as_str());
        let none = no_member_text(query.as_str());
        let ghost shown = views(candidates@);
        let ghost q = query@;
        let c = cycle_candidates(
            stored_index(slot),
            query,
            &candidates,
            command,
            verb,
            Some(none),
            reverse,
        );
        assert(self.rooms.lists_room_members(shown, q));
        self.finish_completion(Slot::Verify, c);
    }

    pub fn complete_verify_command_input(&mut self, reverse: bool) -> (handled: bool)
        ensures
            match command_target(old(self).input.buffer@, "/verify"@) {
                Some(target) => handled && old(self).member_completed(
                    *final(self),
                    target,
                    "/verify"@,
                    "verify"@,
                    reverse,
                ),
                None => !handled && *final(self) == *old(self),
            },
    {
        let target = match command_target_prefix(self.input.buffer.as_str(), "/verify") {
            Some(target) => target.to_owned(),
            None => return false,
        };
        self.complete_member(target.as_str(), "/verify", "verify", reverse);
        true
    }

    pub fn complete_room_action_user_command_input(&mut self, reverse: bool) -> (handled: bool)
        ensures
            match user_action(old(self).input.buffer@) {
                Some((command, target)) => handled && if has_white(trim_start(target)) {
                    *final(self) == *old(self)
                } else {
                    old(self).member_completed(
                        *final(self),
                        trim_start(target),
                        command,
                        "run "@ + command,
                        reverse,
                    )
                },
                None => !handled && *final(self) == *old(self),
            },
    {
        let (command, target) = match room_action_user_target_prefix(self.input.buffer.as_str()) {
            Some((command, target)) => (command, trim_text_start(target).to_owned()),
            None => return false,
        };
        if text_has_white(target.as_str()) {
            return true;
        }
        let verb = cat2("run ", command);
        self.complete_member(target.as_str(), command, verb.as_str(), reverse);
        true
    }
}

// ---------------------------------------------------------------------------
// Filters, emojis and commands
// ---------------------------------------------------------------------------

fn owned(words: &Vec<&'static str>) -> (out: Vec<String>)
    ensures
        views(out@) == views(words@),
{
    let mut out: Vec<String> = Vec::new();
    let mut i: usize = 0;
    while i < words.len()
        invariant
            i <= words.len(),
            out.len() == i,
            forall|k: int| 0 <= k < i ==> (#[trigger] out@[k])@ == words@[k]@,
        decreases words.len() - i,
    {
        out.push(words[i].to_owned());
        i = i + 1;
    }
    assert(views(out@) =~= views(words@));
    out
}

impl App {
    pub open spec fn filter_completion(self, target: Seq<char>, reverse: bool) -> CompletionView {
        let slot = self.input.filter_command_completion;
        let query = query_of(slot, target);
        cycle(
            stored_of(slot),
            query,
            beginning_with(filter_words(), lowercase(query)),
            "/filter"@,
            "filter"@,
            None,
            reverse,
        )
    }

    pub fn complete_filter_command_input(&mut self, reverse: bool) -> (handled: bool)
        ensures
            match filter_target(old(self).input.buffer@) {
                Some(target) => handled && completed_with(
                    *old(self),
                    *final(self),
                    Slot::Filter,
                    old(self).filter_completion(target, reverse),
                ),
                None => !handled && *final(self) == *old(self),
            },
    {
        let slot = &self.input.filter_command_completion;
        let c = match filter_target_prefix(self.input.buffer.as_str()) {
            Some(target) => {
                let query = query_text(slot, target);
                let candidates = owned(&filter_argument_candidates(query.as_str()));
                cycle_candidates(
                    stored_index(slot),
                    query,
                    &candidates,
                    "/filter",
                    "filter",
                    None,
                    reverse,
                )
            },
            None => return false,
        };
        self.finish_completion(Slot::Filter, c);
        true
    }

    /// The completion of the emoji after `/react`.
    pub open spec fn emoji_completion(self, reverse: bool) -> Option<CompletionView> {
        let slot = self.input.react_command_completion;
        let query = match slot {
            Some((q, _)) => Some(q@),
            None => emoji_prefix(self.input.buffer@),
        };
        match query {
            None => None,
            Some(q) => {
                let matches = emojis_named(q);
                let at = picked(stored_of(slot), matches.len() as int, reverse);
                Some(
                    if matches.len() == 0 {
                        CompletionView {
                            line: None,
                            slot: None,
                            status: Some("no emoji matches '"@ + q + "'"@),
                        }
                    } else {
                        CompletionView {
                            line: Some("/react "@ + matches[at].0),
                            slot: Some((q, at as usize)),
                            status: Some(emoji_text(at, matches)),
                        }
                    },
                )
            },
        }
    }

    pub fn complete_react_command_input(&mut self, reverse: bool) -> (handled: bool)
        ensures
            match old(self).emoji_completion(reverse) {
                Some(c) => handled && completed_with(*old(self), *final(self), Slot::React, c),
                None => !handled && *final(self) == *old(self),
            },
    {
        let slot = &self.input.react_command_completion;
        let query = match slot {
            Some((q, _)) => q.clone(),
            None => match react_command_emoji_prefix(self.input.buffer.as_str()) {
                Some(q) => q.to_owned(),
                None => return false,
            },
        };
        let matches = emoji_matches(query.as_str());
        let c = if matches.len() == 0 {
            Completion {
                line: None,
                slot: None,
                status: Some(cat3("no emoji matches '", query.as_str(), "'")),
            }
        } else {
            let at: usize = pick(stored_index(slot), matches.len(), reverse);
            Completion {
                line: Some(cat2("/react ", matches[at].text)),
                slot: Some((query, at)),
                status: Some(emoji_cycle_status(at, &matches)),
            }
        };
        self.finish_completion(Slot::React, c);
        true
    }
}

/// The names of commands.
pub open spec fn command_names(commands: Seq<SlashCommand>) -> Seq<Seq<char>> {
    Seq::new(commands.len(), |i: int| commands[i].name@)
}

/// The line and the status that complete the name of a command.
pub open spec fn command_completion(
    candidates: Seq<SlashCommand>,
    prefix: Seq<char>,
) -> (Option<Seq<char>>, Seq<char>) {
    if candidates.len() == 0 {
        (None, "no command matches: /"@ + prefix)
    } else if candidates.len() == 1 {
        let command = candidates[0];
        let line = if command.takes_argument {
            command.name@ + " "@
        } else {
            command.name@
        };
        (Some(line), "completed command: "@ + command.name@)
    } else {
        (None, "command matches: "@ + joined(command_names(candidates), ", "@))
    }
}

/// Whether the line and the status are new, and nothing else changed.
pub open spec fn written(before: App, after: App, line: Option<Seq<char>>, status: Seq<char>) -> bool {
    &&& after == (App { input: after.input, status: after.status, ..before })
    &&& after.input == (InputState {
        buffer: after.input.buffer,
        cursor: after.input.cursor,
        ..before.input
    })
    &&& line_after(before.input, after.input, line)
    &&& after.status@ == StatusView::Info(status)
}

impl App {
    fn write_line(&mut self, line: Option<String>, status: String)
        ensures
            written(*old(self), *final(self), option_view(line), status@),
    {
        if let Some(l) = line {
            self.input.set(l);
        }
        self.status = Status::Info(status);
    }

    pub fn complete_command_input(&mut self, commands: &[SlashCommand]) -> (handled: bool)
        ensures
            match command_prefix(old(self).input.buffer@) {
                Some(prefix) => {
                    let c = command_completion(
                        commands_beginning(commands@, prefix),
                        prefix,
                    );
                    handled && written(*old(self), *final(self), c.0, c.1)
                },
                None => !handled && *final(self) == *old(self),
            },
    {
        let prefix = match slash_command_prefix(self.input.buffer.as_str()) {
            Some(p) => p,
            None => return false,
        };
        let candidates = slash_command_candidates(commands, prefix);
        if candidates.len() == 0 {
            let text = cat2("no command matches: /", prefix);
            self.write_line(None, text);
        } else if candidates.len() == 1 {
            let name = candidates[0].name;
            let line = if candidates[0].takes_argument {
                cat2(name, " ")
            } else {
                name.to_owned()
            };
            self.write_line(Some(line), cat2("completed command: ", name));
        } else {
            let mut names: Vec<String> = Vec::new();
            let mut i: usize = 0;
            while i < candidates.len()
                invariant
                    i <= candidates.len(),
                    names.len() == i,
                    forall|k: int| 0 <= k < i ==> (#[trigger] names@[k])@ == candidates@[k].name@,
                decreases candidates.len() - i,
            {
                names.push(candidates[i].name.to_owned());
                i = i + 1;
            }
            assert(views(names@) =~= command_names(candidates@));
            let list = join(names.as_slice(), ", ");
            self.write_line(None, cat2("command matches: ", list.as_str()));
        }
        true
    }
}

// ---------------------------------------------------------------------------
// Paths
// ---------------------------------------------------------------------------

/// Up to five texts of a list, and how many more there are.
pub open spec fn list_text(shown: Seq<Seq<char>>, more: int) -> Seq<char> {
    if more == 0 {
        joined(shown, ", "@)
    } else {
        joined(shown, ", "@) + ", +"@ + decimal(more as nat) + " more"@
    }
}

fn describe_list(shown: &Vec<String>, more: usize) -> (out: String)
    ensures
        out@ == list_text(views(shown@), more as int),
{
    let list = join(shown.as_slice(), ", ");
    if more == 0 {
        list
    } else {
        let n = decimal_usize(more);
        cat4(list.as_str(), ", +", n.as_str(), " more")
    }
}

fn copy_first_few(items: &Vec<String>) -> (out: Vec<String>)
    ensures
        views(out@) == first_few(views(items@)),
{
    let n: usize = if items.len() > 5 {
        5
    } else {
        items.len()
    };
    let mut out: Vec<String> = Vec::new();
    let mut i: usize = 0;
    while i < n
        invariant
            i <= n <= items.len(),
            out.len() == i,
            forall|k: int| 0 <= k < i ==> (#[trigger] out@[k])@ == items@[k]@,
        decreases n - i,
    {
        out.push(items[i].clone());
        i = i + 1;
    }
    assert(views(out@) =~= first_few(views(items@)));
    out
}

/// The completion that picks a path.
pub open spec fn path_picked(query: Seq<char>, at: int, candidates: Seq<Seq<char>>) -> CompletionView {
    CompletionView {
        line: Some("/send "@ + escaped_path(candidates[at])),
        slot: Some((query, at as usize)),
        status: Some(cycle_text(at, candidates.len(), candidates[at], "send"@)),
    }
}

fn pick_path(query: &str, at: usize, candidates: &Vec<String>) -> (out: Completion)
    requires
        at < candidates.len(),
    ensures
        out@ == path_picked(query@, at as int, views(candidates@)),
{
    let candidate = candidates[at].as_str();
    let quoted = quote_path_for_send(candidate);
    Completion {
        line: Some(cat2("/send ", quoted.as_str())),
        slot: Some((query.to_owned(), at)),
        status: Some(cycle_status(at, candidates.len(), candidate, "send")),
    }
}

/// What a shared beginning makes of what was typed.
pub open spec fn advanced(shared: Option<Seq<char>>, typed: Seq<char>) -> Seq<char> {
    match shared {
        Some(p) => if p.len() > typed.len() && begins(p, typed) {
            p
        } else {
            typed
        },
        None => typed,
    }
}

/// The completion of a path that is being typed.
pub open spec fn path_offer(
    partial: Seq<char>,
    candidates: Seq<Seq<char>>,
    reverse: bool,
) -> CompletionView {
    if candidates.len() == 0 {
        CompletionView { line: None, slot: None, status: Some("no path matches: "@ + partial) }
    } else if candidates.len() == 1 {
        CompletionView {
            line: Some("/send "@ + escaped_path(candidates[0])),
            slot: None,
            status: Some("completed path: "@ + candidates[0]),
        }
    } else {
        let completed = advanced(common_prefix(candidates), partial);
        if completed == partial {
            path_picked(
                partial,
                picked(None, candidates.len() as int, reverse),
                candidates,
            )
        } else {
            CompletionView {
                line: Some("/send "@ + escaped_path(completed)),
                slot: None,
                status: Some(
                    "path completions: "@ + list_text(
                        first_few(candidates),
                        beyond(candidates.len() as int, 5),
                    ),
                ),
            }
        }
    }
}

fn offer_path(partial: &str, candidates: &Vec<String>, reverse: bool) -> (out: Completion)
    ensures
        out@ == path_offer(partial@, views(candidates@), reverse),
{
    if candidates.len() == 0 {
        return Completion {
            line: None,
            slot: None,
            status: Some(cat2("no path matches: ", partial)),
        };
    }
    if candidates.len() == 1 {
        let only = candidates[0].as_str();
        let quoted = quote_path_for_send(only);
        return Completion {
            line: Some(cat2("/send ", quoted.as_str())),
            slot: None,
            status: Some(cat2("completed path: ", only)),
        };
    }
    let longer = match longest_common_prefix(candidates) {
        Some(p) => if p.as_str().unicode_len() > partial.unicode_len() && text_begins(
            p.as_str(),
            partial,
        ) {
            Some(p)
        } else {
            None
        },
        None => None,
    };
    match longer {
        None => pick_path(partial, pick(None, candidates.len(), reverse), candidates),
        Some(completed) => {
            let quoted = quote_path_for_send(completed.as_str());
            let more: usize = if candidates.len() > 5 {
                candidates.len() - 5
            } else {
                0
            };
            let list = describe_list(&copy_first_few(candidates), more);
            Completion {
                line: Some(cat2("/send ", quoted.as_str())),
                slot: None,
                status: Some(cat2("path completions: ", list.as_str())),
            }
        },
    }
}

impl App {
    /// The path whose directory is to be listed before it is completed.
    pub open spec fn path_to_list(self) -> Option<Seq<char>> {
        match self.input.send_command_completion {
            Some((query, _)) => Some(query@),
            None => match command_target(self.input.buffer@, "/send"@) {
                Some(target) => if completion_token(target) is Some {
                    Some(path_token(target).0)
                } else {
                    None
                },
                None => None,
            },
        }
    }

    pub fn send_path_to_list(&self) -> (out: Option<String>)
        ensures
            option_view(out) == self.path_to_list(),
    {
        match &self.input.send_command_completion {
            Some((query, _)) => Some(query.clone()),
            None => match send_target_prefix(self.input.buffer.as_str()) {
                Some(target) => if send_path_completion_token(target).is_some() {
                    let (path, _) = parse_leading_path_token(target);
                    Some(path)
                } else {
                    None
                },
                None => None,
            },
        }
    }

    /// The completion of the path after `/send`, given what its directory holds.
    /// Behind the path, in the caption, the line is left to the other completers.
    pub open spec fn send_completion(self, entries: Seq<DirEntryView>, reverse: bool) -> Option<
        CompletionView,
    > {
        match self.input.send_command_completion {
            Some((query, current)) => {
                let candidates = path_candidates(query@, entries);
                Some(
                    if candidates.len() == 0 {
                        CompletionView { line: None, slot: None, status: None }
                    } else {
                        path_picked(
                            query@,
                            cycled(current as int, candidates.len() as int, reverse),
                            candidates,
                        )
                    },
                )
            },
            None => match command_target(self.input.buffer@, "/send"@) {
                Some(target) => if completion_token(target) is None {
                    None
                } else {
                    Some(
                        path_offer(
                            path_token(target).0,
                            path_candidates(path_token(target).0, entries),
                            reverse,
                        ),
                    )
                },
                None => None,
            },
        }
    }

    pub fn complete_send_command_input(&mut self, entries: &Vec<DirEntry>, reverse: bool) -> (handled:
        bool)
        ensures
            match old(self).send_completion(views(entries@), reverse) {
                Some(c) => handled && completed_with(*old(self), *final(self), Slot::Send, c),
                None => !handled && *final(self) == *old(self),
            },
    {
        let c = match &self.input.send_command_completion {
            Some((query, current)) => {
                let candidates = send_path_candidates(query.as_str(), entries);
                if candidates.len() == 0 {
                    Completion { line: None, slot: None, status: None }
                } else {
                    let at: usize = cycle_index(*current, candidates.len(), reverse);
                    pick_path(query.as_str(), at, &candidates)
                }
            },
            None => match send_target_prefix(self.input.buffer.as_str()) {
                Some(target) => if send_path_completion_token(target).is_none() {
                    return false;
                } else {
                    let (partial, _) = parse_leading_path_token(target);
                    let candidates = send_path_candidates(partial.as_str(), entries);
                    offer_path(partial.as_str(), &candidates, reverse)
                },
                None => return false,
            },
        };
        self.finish_completion(Slot::Send, c);
        true
    }
}

// ---------------------------------------------------------------------------
// Rooms
// ---------------------------------------------------------------------------

/// The rooms that a target begins.
pub open spec fn rooms_matching(rooms: Seq<RoomView>, target: Seq<char>) -> Seq<RoomView>
    decreases rooms.len(),
{
    if rooms.len() == 0 {
        Seq::empty()
    } else {
        let before = rooms_matching(rooms.drop_last(), target);
        if matches_completion(rooms.last(), target) {
            before.push(rooms.last())
        } else {
            before
        }
    }
}

fn match_rooms<'a>(rooms: &Vec<&'a RoomDto>, target: &str) -> (out: Vec<&'a RoomDto>)
    ensures
        views(out@) == rooms_matching(views(rooms@), target@),
{
    let ghost all = views(rooms@);
    let mut out: Vec<&'a RoomDto> = Vec::new();
    let mut i: usize = 0;
    assert(views(out@) =~= Seq::<RoomView>::empty());
    while i < rooms.len()
        invariant
            i <= rooms.len(),
            all == views(rooms@),
            views(out@) == rooms_matching(all.take(i as int), target@),
        decreases rooms.len() - i,
    {
        let ghost before = views(out@);
        assert(all.take(i + 1).drop_last() =~= all.take(i as int));
        assert(all.take(i + 1).last() == rooms@[i as int]@);
        if room_matching_prefix_value(rooms[i], target).is_some() {
            out.push(rooms[i]);
            assert(views(out@) =~= before.push(rooms@[i as int]@));
        }
        i = i + 1;
    }
    assert(all.take(i as int) =~= all);
    out
}

/// How the rooms are written as targets.
pub open spec fn values_of(rooms: Seq<RoomView>) -> Seq<Seq<char>> {
    Seq::new(rooms.len(), |i: int| completion_value(rooms[i]))
}

fn completion_values_of(rooms: &Vec<&RoomDto>) -> (out: Vec<String>)
    ensures
        views(out@) == values_of(views(rooms@)),
{
    let mut out: Vec<String> = Vec::new();
    let mut i: usize = 0;
    while i < rooms.len()
        invariant
            i <= rooms.len(),
            out.len() == i,
            forall|k: int| 0 <= k < i ==> (#[trigger] out@[k])@ == completion_value(rooms@[k]@),
        decreases rooms.len() - i,
    {
        out.push(room_completion_value(rooms[i]).to_owned());
        i = i + 1;
    }
    assert(views(out@) =~= values_of(views(rooms@)));
    out
}

/// What of each room begins with the target.
pub open spec fn prefixes_of(rooms: Seq<RoomView>, target: Seq<char>) -> Seq<Seq<char>> {
    Seq::new(
        rooms.len(),
        |i: int|
            match prefix_value(rooms[i], target) {
                Some(v) => v,
                None => completion_value(rooms[i]),
            },
    )
}

fn prefix_values_of(rooms: &Vec<&RoomDto>, target: &str) -> (out: Vec<String>)
    ensures
        views(out@) == prefixes_of(views(rooms@), target@),
{
    let mut out: Vec<String> = Vec::new();
    let mut i: usize = 0;
    while i < rooms.len()
        invariant
            i <= rooms.len(),
            out.len() == i,
            forall|k: int|
                0 <= k < i ==> (#[trigger] out@[k])@ == prefixes_of(views(rooms@), target@)[k],
        decreases rooms.len() - i,
    {
        let value = match room_matching_prefix_value(rooms[i], target) {
            Some(v) => v,
            None => room_completion_value(rooms[i]),
        };
        out.push(value.to_owned());
        i = i + 1;
    }
    assert(views(out@) =~= prefixes_of(views(rooms@), target@));
    out
}

/// What tells a room from another of the same name: its alias, or its id where the
/// alias is the name shown.
pub open spec fn distinction(room: RoomView) -> Seq<char> {
    match room.canonical_alias {
        Some(alias) => if alias == completion_value(room) {
            room.room_id
        } else {
            alias
        },
        None => room.room_id,
    }
}

fn distinction_of(room: &RoomDto) -> (out: &str)
    ensures
        out@ == distinction(room@),
{
    match &room.canonical_alias {
        Some(alias) => if same_text(alias.as_str(), room_completion_value(room)) {
            room.room_id.as_str()
        } else {
            alias.as_str()
        },
        None => room.room_id.as_str(),
    }
}

/// What the completion of a room does. A line or a text that is absent stays as it
/// is.
#[derive(Debug)]
pub struct RoomCompletion {
    pub line: Option<String>,
    pub slot: Option<(String, usize)>,
    pub partial: Option<Vec<String>>,
    pub status: Option<String>,
}

#[verifier::ext_equal]
pub struct RoomCompletionView {
    pub line: Option<Seq<char>>,
    pub slot: Option<(Seq<char>, usize)>,
    pub partial: Option<Seq<Seq<char>>>,
    pub status: Option<Seq<char>>,
}

pub open spec fn list_view(list: Option<Vec<String>>) -> Option<Seq<Seq<char>>> {
    match list {
        Some(l) => Some(views(l@)),
        None => None,
    }
}

impl View for RoomCompletion {
    type V = RoomCompletionView;

    open spec fn view(&self) -> RoomCompletionView {
        RoomCompletionView {
            line: option_view(self.line),
            slot: slot_view(self.slot),
            partial: list_view(self.partial),
            status: option_view(self.status),
        }
    }
}

/// The completion that picks a room by its id.
pub open spec fn room_picked(query: Seq<char>, at: int, rooms: Seq<RoomView>) -> RoomCompletionView {
    RoomCompletionView {
        line: Some("/room "@ + rooms[at].room_id),
        slot: Some((query, at as usize)),
        partial: None,
        status: Some(
            "["@ + decimal((at + 1) as nat) + "/"@ + decimal(rooms.len()) + "] "@
                + completion_value(rooms[at]) + "  ·  "@ + distinction(rooms[at])
                + "  —  Tab/Shift-Tab to cycle, Enter to select"@,
        ),
    }
}

fn pick_room(query: &str, at: usize, rooms: &Vec<&RoomDto>) -> (out: RoomCompletion)
    requires
        at < rooms.len(),
    ensures
        out@ == room_picked(query@, at as int, views(rooms@)),
{
    let room = rooms[at];
    let n = decimal_usize(at + 1);
    let m = decimal_usize(rooms.len());
    let head = cat5("[", n.as_str(), "/", m.as_str(), "] ");
    let text = cat5(
        head.as_str(),
        room_completion_value(room),
        "  ·  ",
        distinction_of(room),
        "  —  Tab/Shift-Tab to cycle, Enter to select",
    );
    RoomCompletion {
        line: Some(cat2("/room ", room.room_id.as_str())),
        slot: Some((query.to_owned(), at)),
        partial: None,
        status: Some(text),
    }
}

/// What a shared beginning makes of what was typed, the case of ASCII letters
/// aside.
pub open spec fn advanced_ignoring_case(shared: Option<Seq<char>>, typed: Seq<char>) -> Seq<char> {
    match shared {
        Some(p) => if p.len() > typed.len() && begins_ignoring_case(p, typed) {
            p
        } else {
            typed
        },
        None => typed,
    }
}

pub open spec fn all_same(texts: Seq<Seq<char>>) -> bool {
    forall|i: int, j: int|
        0 <= i < texts.len() && 0 <= j < texts.len() ==> #[trigger] texts[i] == #[trigger] texts[j]
}

fn are_all_same(texts: &Vec<String>) -> (r: bool)
    ensures
        r == all_same(views(texts@)),
{
    let mut i: usize = 1;
    while i < texts.len()
        invariant
            1 <= i,
            texts.len() > 0 ==> i <= texts.len(),
            forall|k: int| 0 <= k < i && k < texts.len() ==> (#[trigger] texts@[k])@ == texts@[0]@,
        decreases texts.len() - i,
    {
        if !same_text(texts[i].as_str(), texts[0].as_str()) {
            assert(views(texts@)[i as int] != views(texts@)[0]);
            return false;
        }
        i = i + 1;
    }
    assert forall|i: int, j: int|
        0 <= i < views(texts@).len() && 0 <= j < views(texts@).len() implies #[trigger] views(
        texts@,
    )[i] == #[trigger] views(texts@)[j] by {
        assert(texts@[i]@ == texts@[0]@ && texts@[j]@ == texts@[0]@);
    }
    true
}

/// What of each value is still to be typed.
pub open spec fn all_to_type(values: Seq<Seq<char>>, prefix: Seq<char>) -> Seq<Seq<char>> {
    Seq::new(values.len(), |i: int| still_to_type(values[i], prefix))
}

fn list_to_type(values: &Vec<String>, prefix: &str) -> (out: Vec<String>)
    ensures
        views(out@) == all_to_type(first_few(views(values@)), prefix@),
{
    let few = copy_first_few(values);
    let mut out: Vec<String> = Vec::new();
    let mut i: usize = 0;
    while i < few.len()
        invariant
            i <= few.len(),
            out.len() == i,
            forall|k: int| 0 <= k < i ==> (#[trigger] out@[k])@ == still_to_type(few@[k]@, prefix@),
        decreases few.len() - i,
    {
        out.push(text_still_to_type(few[i].as_str(), prefix).to_owned());
        i = i + 1;
    }
    assert(views(out@) =~= all_to_type(views(few@), prefix@));
    out
}

/// The completion of a room that is being typed, among the rooms that it begins.
pub open spec fn room_offer(
    found: Seq<RoomView>,
    target: Seq<char>,
    reverse: bool,
) -> RoomCompletionView {
    let values = values_of(found);
    if found.len() == 0 {
        RoomCompletionView {
            line: None,
            slot: None,
            partial: None,
            status: Some("no room matches: "@ + target),
        }
    } else if found.len() == 1 {
        RoomCompletionView {
            line: Some("/room "@ + values[0]),
            slot: None,
            partial: None,
            status: Some("completed room: "@ + values[0]),
        }
    } else {
        let prefixes = prefixes_of(found, target);
        let completed = advanced_ignoring_case(common_prefix(prefixes), target);
        if completed == target && all_same(values) {
            room_picked(target, picked(None, found.len() as int, reverse), found)
        } else {
            let shown = all_to_type(
                first_few(
                    if completed == target {
                        values
                    } else {
                        prefixes
                    },
                ),
                completed,
            );
            RoomCompletionView {
                line: if completed == target {
                    None
                } else {
                    Some("/room "@ + completed)
                },
                slot: None,
                partial: Some(shown),
                status: Some(
                    "room completions: "@ + list_text(shown, beyond(found.len() as int, 5)),
                ),
            }
        }
    }
}

fn offer_room(found: &Vec<&RoomDto>, target: &str, reverse: bool) -> (out: RoomCompletion)
    ensures
        out@ == room_offer(views(found@), target@, reverse),
{
    let values = completion_values_of(found);
    if found.len() == 0 {
        return RoomCompletion {
            line: None,
            slot: None,
            partial: None,
            status: Some(cat2("no room matches: ", target)),
        };
    }
    assert(values@.len() == views(values@).len());
    if found.len() == 1 {
        let value = values[0].as_str();
        return RoomCompletion {
            line: Some(cat2("/room ", value)),
            slot: None,
            partial: None,
            status: Some(cat2("completed room: ", value)),
        };
    }
    let prefixes = prefix_values_of(found, target);
    let longer = match longest_common_prefix(&prefixes) {
        Some(p) => if p.as_str().unicode_len() > target.unicode_len() && text_begins_ignoring_case(
            p.as_str(),
            target,
        ) {
            Some(p)
        } else {
            None
        },
        None => None,
    };
    let more: usize = if found.len() > 5 {
        found.len() - 5
    } else {
        0
    };
    match longer {
        None => {
            if are_all_same(&values) {
                return pick_room(target, pick(None, found.len(), reverse), found);
            }
            let shown = list_to_type(&values, target);
            let list = describe_list(&shown, more);
            RoomCompletion {
                line: None,
                slot: None,
                partial: Some(shown),
                status: Some(cat2("room completions: ", list.as_str())),
            }
        },
        Some(completed) => {
            let shown = list_to_type(&prefixes, completed.as_str());
            let list = describe_list(&shown, more);
            RoomCompletion {
                line: Some(cat2("/room ", completed.as_str())),
                slot: None,
                partial: Some(shown),
                status: Some(cat2("room completions: ", list.as_str())),
            }
        },
    }
}

/// Whether the completion of a room was carried out, and nothing else changed.
pub open spec fn room_completed_with(before: App, after: App, c: RoomCompletionView) -> bool {
    &&& after == (App { input: after.input, status: after.status, ..before })
    &&& after.input == (InputState {
        buffer: after.input.buffer,
        cursor: after.input.cursor,
        room_command_completion: after.input.room_command_completion,
        partial_room_completions: after.input.partial_room_completions,
        ..before.input
    })
    &&& slot_view(after.input.room_command_completion) == c.slot
    &&& list_view(after.input.partial_room_completions) == c.partial
    &&& line_after(before.input, after.input, c.line)
    &&& status_after(before.status, after.status, c.status)
}

impl App {
    /// The completion of the room after `/room`: it goes on through rooms of one
    /// name where it did before.
    pub open spec fn room_completion(self, reverse: bool) -> Option<RoomCompletionView> {
        let rooms = self.rooms.to_complete(self.account_shown());
        match self.input.room_command_completion {
            Some((query, current)) => {
                let found = rooms_matching(rooms, query@);
                Some(
                    if found.len() == 0 {
                        RoomCompletionView {
                            line: None,
                            slot: None,
                            partial: list_view(self.input.partial_room_completions),
                            status: None,
                        }
                    } else {
                        room_picked(
                            query@,
                            cycled(current as int, found.len() as int, reverse),
                            found,
                        )
                    },
                )
            },
            None => match room_target(self.input.buffer@) {
                Some(target) => Some(room_offer(rooms_matching(rooms, target), target, reverse)),
                None => None,
            },
        }
    }

    fn finish_room_completion(&mut self, c: RoomCompletion)
        ensures
            room_completed_with(*old(self), *final(self), c@),
    {
        if let Some(line) = c.line {
            self.input.set(line);
        }
        self.input.room_command_completion = c.slot;
        self.input.partial_room_completions = c.partial;
        if let Some(text) = c.status {
            self.status = Status::Info(text);
        }
    }

    pub fn complete_room_input(&mut self, reverse: bool)
        ensures
            match old(self).room_completion(reverse) {
                Some(c) => room_completed_with(*old(self), *final(self), c),
                None => *final(self) == *old(self),
            },
    {
        let rooms = self.rooms.visible_rooms_for_completion(self.active_account_filter());
        let c = match &self.input.room_command_completion {
            Some((query, current)) => {
                let found = match_rooms(&rooms, query.as_str());
                if found.len() == 0 {
                    self.input.room_command_completion = None;
                    return ;
                }
                let at: usize = cycle_index(*current, found.len(), reverse);
                pick_room(query.as_str(), at, &found)
            },
            None => match room_target_prefix(self.input.buffer.as_str()) {
                Some(target) => {
                    let found = match_rooms(&rooms, target);
                    offer_room(&found, target, reverse)
                },
                None => return ,
            },
        };
        self.finish_room_completion(c);
    }
}

// ---------------------------------------------------------------------------
// All of them
// ---------------------------------------------------------------------------

/// The completer that answers to the line.
#[derive(Debug, Clone, Copy, PartialEq, Eq, Structural)]
pub enum Completer {
    React,
    Logout,
    Recover,
    Backup,
    Delete,
    Account,
    Verify,
    UserAction,
    Filter,
    Send,
    Command,
    Room,
}

impl App {
    /// The first completer that the line is for.
    pub open spec fn completer(self) -> Completer {
        let line = self.input.buffer@;
        if self.emoji_completion(false) is Some {
            Completer::React
        } else if command_target(line, "/logout"@) is Some {
            Completer::Logout
        } else if command_target(line, "/recover"@) is Some {
            Completer::Recover
        } else if self.backup_completion(false) is Some {
            Completer::Backup
        } else if command_target(line, "/delete"@) is Some {
            Completer::Delete
        } else if command_target(line, "/account"@) is Some {
            Completer::Account
        } else if command_target(line, "/verify"@) is Some {
            Completer::Verify
        } else if user_action(line) is Some {
            Completer::UserAction
        } else if filter_target(line) is Some {
            Completer::Filter
        } else if self.path_to_list() is Some {
            Completer::Send
        } else if command_prefix(line) is Some {
            Completer::Command
        } else {
            Completer::Room
        }
    }

    /// Whether the line was completed by the first completer that it is for.
    #[verifier::opaque]
    pub open spec fn completed(
        self,
        after: App,
        commands: Seq<SlashCommand>,
        entries: Seq<DirEntryView>,
        reverse: bool,
    ) -> bool {
        let line = self.input.buffer@;
        match self.completer() {
            Completer::React => completed_with(
                self,
                after,
                Slot::React,
                self.emoji_completion(reverse)->0,
            ),
            Completer::Logout => completed_with(
                self,
                after,
                Slot::Logout,
                self.logout_completion(command_target(line, "/logout"@)->0, reverse),
            ),
            Completer::Recover => completed_with(
                self,
                after,
                Slot::Recover,
                self.recover_completion(command_target(line, "/recover"@)->0, reverse),
            ),
            Completer::Backup => completed_with(
                self,
                after,
                Slot::Backup,
                self.backup_completion(reverse)->0,
            ),
            Completer::Delete => completed_with(
                self,
                after,
                Slot::Delete,
                self.delete_completion(command_target(line, "/delete"@)->0, reverse),
            ),
            Completer::Account => completed_with(
                self,
                after,
                Slot::Account,
                self.selection_completion(command_target(line, "/account"@)->0, reverse),
            ),
            Completer::Verify => self.member_completed(
                after,
                command_target(line, "/verify"@)->0,
                "/verify"@,
                "verify"@,
                reverse,
            ),
            Completer::UserAction => {
                let (command, target) = user_action(line)->0;
                if has_white(trim_start(target)) {
                    after == self
                } else {
                    self.member_completed(
                        after,
                        trim_start(target),
                        command,
                        "run "@ + command,
                        reverse,
                    )
                }
            },
            Completer::Filter => completed_with(
                self,
                after,
                Slot::Filter,
                self.filter_completion(filter_target(line)->0, reverse),
            ),
            Completer::Send => completed_with(
                self,
                after,
                Slot::Send,
                self.send_completion(entries, reverse)->0,
            ),
            Completer::Command => {
                let prefix = command_prefix(line)->0;
                let c = command_completion(commands_beginning(commands, prefix), prefix);
                written(self, after, c.0, c.1)
            },
            Completer::Room => match self.room_completion(reverse) {
                Some(c) => room_completed_with(self, after, c),
                None => after == self,
            },
        }
    }

    fn complete_input_in_direction(
        &mut self,
        commands: &[SlashCommand],
        entries: &Vec<DirEntry>,
        reverse: bool,
    )
        ensures
            old(self).completed(*final(self), commands@, views(entries@), reverse),
    {
        reveal(App::completed);
        if self.complete_react_command_input(reverse) {
            return ;
        }
        if self.complete_logout_command_input(reverse) {
            return ;
        }
        if self.complete_recover_command_input(reverse) {
            return ;
        }
        if self.complete_backup_command_input(reverse) {
            return ;
        }
        if self.complete_delete_command_input(reverse) {
            return ;
        }
        if self.complete_account_command_input(reverse) {
            return ;
        }
        if self.complete_verify_command_input(reverse) {
            return ;
        }
        if self.complete_room_action_user_command_input(reverse) {
            return ;
        }
        if self.complete_filter_command_input(reverse) {
            return ;
        }
        if self.complete_send_command_input(entries, reverse) {
            return ;
        }
        if self.complete_command_input(commands) {
            return ;
        }
        self.complete_room_input(reverse);
    }

    /// Completes the line. The entries are those of the directory that
    /// `send_path_to_list` names.
    pub fn complete_input(&mut self, commands: &[SlashCommand], entries: &Vec<DirEntry>)
        ensures
            old(self).completed(*final(self), commands@, views(entries@), false),
    {
        self.complete_input_in_direction(commands, entries, false);
    }

    pub fn complete_input_reverse(&mut self, commands: &[SlashCommand], entries: &Vec<DirEntry>)
        ensures
            old(self).completed(*final(self), commands@, views(entries@), true),
    {
        self.complete_input_in_direction(commands, entries, true);
    }
}

} // verus!
