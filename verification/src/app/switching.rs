//! Which room and which account the user looks at, and which rooms are pinned.

use vstd::prelude::*;

use crate::api::dto::{room_title, AccountDto, AccountView};
use crate::app::choice::{
    config_entry, first_not_before, last_before, law_stepped_room_in_list, next_match,
    next_match_index, relative_room_index, room_key, selection_at, selection_label, selection_row,
    stepped_room, AccountSelection, RoomKey, RoomKeyView,
};
use crate::app::lifecycle::said;
use crate::app::room_list::{index_position, resorted, selection_in_list};
use crate::app::room_target::{RoomTargetResolution, RoomTargetView};
use crate::app::rooms::{account_localpart, localpart};
use crate::app::state::{AccountsState, App, RoomsState, Session};
use crate::app::status::{match_status, match_status_text, Status, StatusView};
use crate::keyed::Key;
use crate::text::{
    cat2, cat4, has_part, join, joined, lowercase, number_of, option_str_view, option_view,
    parse_usize, same_ignoring_case, same_text, same_text_ignoring_case, text_has_part,
    to_lowercase, trim, trim_start_char, trim_text, trim_text_start_char, views,
};

verus! {

// ---------------------------------------------------------------------------
// Pinned rooms
// ---------------------------------------------------------------------------

/// The keys of a list but one.
pub open spec fn without_key(keys: Seq<RoomKeyView>, key: RoomKeyView) -> Seq<RoomKeyView>
    decreases keys.len(),
{
    if keys.len() == 0 {
        Seq::empty()
    } else {
        let before = without_key(keys.drop_last(), key);
        if keys.last() == key {
            before
        } else {
            before.push(keys.last())
        }
    }
}

fn drop_key(keys: &Vec<RoomKey>, key: &RoomKey) -> (out: Vec<RoomKey>)
    ensures
        views(out@) == without_key(views(keys@), key@),
{
    let ghost all = views(keys@);
    let mut out: Vec<RoomKey> = Vec::new();
    let mut i: usize = 0;
    assert(views(out@) =~= Seq::<RoomKeyView>::empty());
    while i < keys.len()
        invariant
            i <= keys.len(),
            all == views(keys@),
            views(out@) == without_key(all.take(i as int), key@),
        decreases keys.len() - i,
    {
        let ghost before = views(out@);
        assert(all.take(i + 1).drop_last() =~= all.take(i as int));
        assert(all.take(i + 1).last() == keys@[i as int]@);
        if !keys[i].same(key) {
            out.push(keys[i].duplicate());
            assert(views(out@) =~= before.push(keys@[i as int]@));
        }
        i = i + 1;
    }
    assert(all.take(i as int) =~= all);
    out
}

/// The room that a command is about, or what is said where there is none.
pub open spec fn pin_target(app: App, target: Option<Seq<char>>) -> Result<usize, Seq<char>> {
    match target {
        Some(text) => match app.rooms.resolved_room(app.account_shown(), text) {
            RoomTargetView::Match(i) => Ok(i),
            RoomTargetView::Ambiguous(options) => Err(
                "room name is ambiguous: "@ + joined(options, ", "@),
            ),
            RoomTargetView::Missing => Err("room not found: "@ + text),
        },
        None => match app.rooms.selected {
            Some(i) => Ok(i),
            None => Err("select a room to pin"@),
        },
    }
}

/// A change of the pinned rooms, to be kept in the configuration.
#[derive(Debug)]
pub struct PinChange {
    pub title: String,
    pub pinned: bool,
    pub entries: Vec<String>,
}

/// The pinned rooms as the configuration holds them.
pub open spec fn pin_entries(keys: Seq<RoomKeyView>) -> Seq<Seq<char>> {
    Seq::new(keys.len(), |i: int| config_entry(keys[i]))
}

impl RoomsState {
    fn config_entries(&self) -> (out: Vec<String>)
        ensures
            views(out@) == pin_entries(views(self.pinned@)),
    {
        let mut out: Vec<String> = Vec::new();
        let mut i: usize = 0;
        while i < self.pinned.len()
            invariant
                i <= self.pinned.len(),
                out.len() == i,
                forall|k: int|
                    0 <= k < i ==> (#[trigger] out@[k])@ == config_entry(self.pinned@[k]@),
            decreases self.pinned.len() - i,
        {
            out.push(self.pinned[i].to_config_entry());
            i = i + 1;
        }
        assert(views(out@) =~= pin_entries(views(self.pinned@)));
        out
    }
}

/// Whether the pinned rooms are others and the list is in its order again.
pub open spec fn repinned(before: App, after: App, pinned: Seq<RoomKeyView>) -> bool {
    &&& after == (App { rooms: after.rooms, ..before })
    &&& views(after.rooms.pinned@) == pinned
    &&& resorted(RoomsState { pinned: after.rooms.pinned, ..before.rooms }, after.rooms)
}

/// Whether a room was pinned.
pub open spec fn room_pinned(before: App, after: App, target: Option<Seq<char>>, change: Option<PinChange>) -> bool {
    match pin_target(before, target) {
        Err(text) => change is None && said(before, after, text),
        Ok(i) => {
            let room = before.rooms.rooms@[i as int]@;
            let pinned = seq![room_key(room)] + without_key(
                views(before.rooms.pinned@),
                room_key(room),
            );
            &&& repinned(before, after, pinned)
            &&& change matches Some(c) && c.title@ == room_title(room) && c.pinned && views(
                c.entries@,
            ) == pin_entries(pinned)
        },
    }
}

/// Whether a room was taken off the pinned ones.
pub open spec fn room_unpinned(before: App, after: App, target: Option<Seq<char>>, change: Option<PinChange>) -> bool {
    match pin_target(before, target) {
        Err(text) => change is None && said(before, after, text),
        Ok(i) => {
            let room = before.rooms.rooms@[i as int]@;
            let keys = views(before.rooms.pinned@);
            let pinned = without_key(keys, room_key(room));
            if !keys.contains(room_key(room)) {
                change is None && said(
                    before,
                    after,
                    room_title(room) + " is not pinned"@,
                )
            } else {
                &&& repinned(before, after, pinned)
                &&& change matches Some(c) && c.title@ == room_title(room) && !c.pinned
                    && views(c.entries@) == pin_entries(pinned)
            }
        },
    }
}

impl App {
    fn resolve_pin_room_index(&mut self, target: Option<&str>) -> (out: Option<usize>)
        requires
            target is None ==> selection_in_list(old(self).rooms),
        ensures
            match pin_target(*old(self), option_str_view(target)) {
                Ok(i) => out == Some(i) && *final(self) == *old(self) && i
                    < old(self).rooms.rooms@.len(),
                Err(text) => out is None && said(*old(self), *final(self), text),
            },
    {
        match target {
            Some(text) => match self.resolve_room_target(text) {
                RoomTargetResolution::Match(i) => Some(i),
                RoomTargetResolution::Ambiguous(options) => {
                    let list = join(options.as_slice(), ", ");
                    self.status = Status::Info(cat2("room name is ambiguous: ", list.as_str()));
                    None
                },
                RoomTargetResolution::Missing => {
                    self.status = Status::Info(cat2("room not found: ", text));
                    None
                },
            },
            None => {
                if self.rooms.selected.is_none() {
                    self.say("select a room to pin");
                }
                self.rooms.selected
            },
        }
    }

    /// Pins a room, at the top of the pinned ones.
    pub fn pin_room(&mut self, target: Option<&str>) -> (change: Option<PinChange>)
        requires
            target is None ==> selection_in_list(old(self).rooms),
        ensures
            room_pinned(*old(self), *final(self), option_str_view(target), change),
            selection_in_list(old(self).rooms) ==> selection_in_list(final(self).rooms),
    {
        let index: usize = match self.resolve_pin_room_index(target) {
            Some(i) => i,
            None => return None,
        };
        let key = RoomKey::of(&self.rooms.rooms[index]);
        let title = self.rooms.rooms[index].title().to_owned();
        let mut pinned = drop_key(&self.rooms.pinned, &key);
        let ghost others = views(pinned@);
        let ghost k = key@;
        pinned.insert(0, key);
        assert(views(pinned@) =~= seq![k] + others);
        self.rooms.pinned = pinned;
        self.rooms.resort();
        let entries = self.rooms.config_entries();
        Some(PinChange { title, pinned: true, entries })
    }

    /// Takes a room off the pinned ones.
    pub fn unpin_room(&mut self, target: Option<&str>) -> (change: Option<PinChange>)
        requires
            target is None ==> selection_in_list(old(self).rooms),
        ensures
            room_unpinned(*old(self), *final(self), option_str_view(target), change),
            selection_in_list(old(self).rooms) ==> selection_in_list(final(self).rooms),
    {
        let index: usize = match self.resolve_pin_room_index(target) {
            Some(i) => i,
            None => return None,
        };
        let key = RoomKey::of(&self.rooms.rooms[index]);
        let title = self.rooms.rooms[index].title().to_owned();
        if !self.rooms.is_pinned(&key) {
            self.status = Status::Info(cat2(title.as_str(), " is not pinned"));
            return None;
        }
        self.rooms.pinned = drop_key(&self.rooms.pinned, &key);
        self.rooms.resort();
        let entries = self.rooms.config_entries();
        Some(PinChange { title, pinned: false, entries })
    }

    /// Says that the pinned rooms changed, and whether the configuration could be
    /// written.
    pub fn note_pins_saved(&mut self, change: &PinChange, failure: Option<String>)
        ensures
            said(
                *old(self),
                *final(self),
                pin_text(change.title@, change.pinned, option_view(failure)),
            ),
    {
        let verb = if change.pinned {
            "pinned "
        } else {
            "unpinned "
        };
        self.status = match failure {
            Some(e) => {
                let mut text = cat4(verb, change.title.as_str(), " (config save failed: ", e.as_str());
                text.append(")");
                Status::Info(text)
            },
            None => Status::Info(cat2(verb, change.title.as_str())),
        };
    }
}

pub open spec fn pin_text(title: Seq<char>, pinned: bool, failure: Option<Seq<char>>) -> Seq<char> {
    let verb = if pinned {
        "pinned "@
    } else {
        "unpinned "@
    };
    match failure {
        Some(e) => verb + title + " (config save failed: "@ + e + ")"@,
        None => verb + title,
    }
}

proof fn lemma_without_key(keys: Seq<RoomKeyView>, key: RoomKeyView)
    ensures
        !without_key(keys, key).contains(key),
        !keys.contains(key) ==> without_key(keys, key) == keys,
    decreases keys.len(),
{
    if keys.len() > 0 {
        let rest = keys.drop_last();
        lemma_without_key(rest, key);
        let before = without_key(rest, key);
        if keys.last() != key {
            assert forall|i: int| 0 <= i < before.push(keys.last()).len() implies before.push(
                keys.last(),
            )[i] != key by {
                if i < before.len() {
                    assert(before[i] != key);
                }
            }
        }
        if !keys.contains(key) {
            assert(keys[keys.len() - 1] != key);
            assert(!rest.contains(key)) by {
                if rest.contains(key) {
                    let i = choose|i: int| 0 <= i < rest.len() && rest[i] == key;
                    assert(keys[i] == key);
                }
            }
            assert(rest.push(keys.last()) =~= keys);
        }
    }
}

/// A room that is pinned and unpinned leaves the other pinned rooms as they were.
pub proof fn law_unpin_undoes_pin(keys: Seq<RoomKeyView>, key: RoomKeyView)
    requires
        !keys.contains(key),
    ensures
        without_key(seq![key] + without_key(keys, key), key) == keys,
{
    lemma_without_key(keys, key);
    lemma_without_first(keys, key);
}

proof fn lemma_without_first(keys: Seq<RoomKeyView>, key: RoomKeyView)
    requires
        !keys.contains(key),
    ensures
        without_key(seq![key] + keys, key) == keys,
    decreases keys.len(),
{
    let all = seq![key] + keys;
    reveal_with_fuel(without_key, 2);
    if keys.len() == 0 {
        assert(all.drop_last() =~= Seq::<RoomKeyView>::empty());
        assert(keys =~= Seq::<RoomKeyView>::empty());
    } else {
        let rest = keys.drop_last();
        assert(keys[keys.len() - 1] != key);
        assert(!rest.contains(key)) by {
            if rest.contains(key) {
                let i = choose|i: int| 0 <= i < rest.len() && rest[i] == key;
                assert(keys[i] == key);
            }
        }
        lemma_without_first(rest, key);
        assert(all.drop_last() =~= seq![key] + rest);
        assert(rest.push(keys.last()) =~= keys);
    }
}

// ---------------------------------------------------------------------------
// Rooms
// ---------------------------------------------------------------------------

/// Whether a room was selected and nothing else changed.
pub open spec fn room_chosen(before: App, after: App, index: usize) -> bool {
    after == (App { rooms: RoomsState { selected: Some(index), ..before.rooms }, ..before })
}

/// Whether the room that a text means was selected.
pub open spec fn room_switched(before: App, after: App, target: Seq<char>, load: bool) -> bool {
    match before.rooms.resolved_room(before.account_shown(), target) {
        RoomTargetView::Match(i) => load && room_chosen(before, after, i),
        RoomTargetView::Ambiguous(options) => !load && said(
            before,
            after,
            "room name is ambiguous: "@ + joined(options, ", "@),
        ),
        RoomTargetView::Missing => !load && said(
            before,
            after,
            "room not found: "@ + target,
        ),
    }
}

/// Whether the room so many places on in the list was selected.
pub open spec fn room_stepped(before: App, after: App, offset: isize, load: bool) -> bool {
    let visible = before.rooms.visible(before.account_shown());
    if visible.len() == 0 {
        !load && said(before, after, "no rooms to switch"@)
    } else {
        let next = stepped_room(
            before.shown_position(),
            visible.len() as int,
            offset as int,
        );
        load && room_chosen(before, after, visible[next])
    }
}

impl App {
    /// Selects the room that a text means. The result says whether its timeline is to
    /// be loaded.
    pub fn switch_room(&mut self, target: &str) -> (load: bool)
        ensures
            room_switched(*old(self), *final(self), target@, load),
            selection_in_list(old(self).rooms) ==> selection_in_list(final(self).rooms),
    {
        match self.resolve_room_target(target) {
            RoomTargetResolution::Match(i) => {
                self.rooms.selected = Some(i);
                true
            },
            RoomTargetResolution::Ambiguous(options) => {
                let list = join(options.as_slice(), ", ");
                self.status = Status::Info(cat2("room name is ambiguous: ", list.as_str()));
                false
            },
            RoomTargetResolution::Missing => {
                self.status = Status::Info(cat2("room not found: ", target));
                false
            },
        }
    }

    /// The position of the selected room among those that are shown, or the first.
    pub open spec fn shown_position(self) -> int {
        let visible = self.rooms.visible(self.account_shown());
        match self.rooms.selected {
            Some(i) => if visible.contains(i) {
                visible.index_of_first(i)->0
            } else {
                0
            },
            None => 0,
        }
    }

    /// Selects the room some places further among those that are shown.
    pub fn switch_relative_room(&mut self, offset: isize) -> (load: bool)
        ensures
            room_stepped(*old(self), *final(self), offset, load),
            selection_in_list(old(self).rooms) ==> selection_in_list(final(self).rooms),
    {
        let visible = self.visible_room_indices();
        if visible.len() == 0 {
            self.say("no rooms to switch");
            return false;
        }
        let n: usize = visible.len();
        let current: usize = match self.rooms.selected {
            Some(i) => {
                let at: usize = index_position(&visible, i);
                proof {
                    visible@.index_of_first_ensures(i);
                    if at < n {
                        assert(visible@[at as int] == i);
                        assert(visible@.contains(i));
                    } else if visible@.contains(i) {
                        let k = choose|k: int| 0 <= k < visible@.len() && visible@[k] == i;
                        assert(visible@[k] != i);
                    }
                }
                if at < n {
                    at
                } else {
                    0
                }
            },
            None => 0,
        };
        assert(current == old(self).shown_position());
        let next: usize = relative_room_index(current, n, offset);
        proof {
            law_stepped_room_in_list(current as int, n as int, offset as int);
        }
        self.rooms.selected = Some(visible[next]);
        true
    }
}

// ---------------------------------------------------------------------------
// Accounts
// ---------------------------------------------------------------------------

/// The state with the lists narrowed to another account.
pub open spec fn narrowed(app: App, selection: AccountSelection) -> App {
    (App { accounts: AccountsState { selected: selection, ..app.accounts }, ..app }).synced()
}

/// Whether the lists were narrowed to another account, and it was said.
pub open spec fn account_chosen(before: App, after: App, selection: AccountSelection, text: Seq<char>) -> bool {
    said(narrowed(before, selection), after, text)
}

/// Whether the account so many rows on in the list was selected, round the list.
pub open spec fn account_stepped(before: App, after: App, offset: isize) -> bool {
    if before.accounts.accounts@.len() == 0 {
        after == before
    } else {
        after == narrowed(
            before,
            selection_at(
                (selection_row(before.accounts.selected) + offset) % (1int + before.accounts.accounts@.len()),
            ),
        )
    }
}

impl App {
    fn narrow_to(&mut self, selection: AccountSelection)
        ensures
            *final(self) == narrowed(*old(self), selection),
            selection_in_list(final(self).rooms),
    {
        self.accounts.selected = selection;
        self.sync_room_selection_to_account_filter();
    }

    /// Narrows the lists to the account some rows further, all accounts among them.
    pub fn cycle_account(&mut self, offset: isize)
        ensures
            account_stepped(*old(self), *final(self), offset),
            selection_in_list(old(self).rooms) ==> selection_in_list(final(self).rooms),
    {
        let n: usize = self.accounts.accounts.len();
        if n == 0 {
            return ;
        }
        let row: i128 = match self.accounts.selected {
            AccountSelection::All => 0,
            AccountSelection::Account(i) => i as i128 + 1,
        };
        let next: usize = turned(row, offset, n);
        self.narrow_to(AccountSelection::at(next));
    }
}

/// The row some places further round a list of `n` rows and one.
fn turned(row: i128, offset: isize, n: usize) -> (out: usize)
    requires
        0 <= row <= usize::MAX + 1,
    ensures
        out == (row + offset) % (n + 1),
        out <= n,
{
    let sum: i128 = row + offset as i128;
    let t: u128 = n as u128 + 1;
    if sum >= 0 {
        let r: u128 = (sum as u128) % t;
        r as usize
    } else {
        let m: u128 = (-sum) as u128;
        let r: u128 = m % t;
        let q: u128 = m / t;
        let out: u128 = if r == 0 {
            0
        } else {
            t - r
        };
        proof {
            vstd::arithmetic::div_mod::lemma_fundamental_div_mod(m as int, t as int);
            let back = if r == 0 {
                -(q as int)
            } else {
                -(q as int) - 1
            };
            assert(sum == back * t + out) by (nonlinear_arith)
                requires
                    m == t * q + r,
                    sum == -m,
                    r == 0 ==> back == -q && out == 0,
                    r != 0 ==> back == -q - 1 && out == t - r,
            ;
            vstd::arithmetic::div_mod::lemma_fundamental_div_mod_converse(
                sum as int,
                t as int,
                back,
                out as int,
            );
        }
        out as usize
    }
}

/// The label of a row of the account list.
pub open spec fn row_label(accounts: Seq<AccountView>, row: int) -> Seq<char> {
    selection_label(
        selection_at(row),
        if row == 0 {
            None
        } else {
            Some(accounts[row - 1].user_id)
        },
    )
}

/// The first `n` rows of the account list whose label holds a text.
pub open spec fn rows_holding(accounts: Seq<AccountView>, part: Seq<char>, n: int) -> Seq<usize>
    decreases n,
{
    if n <= 0 {
        Seq::empty()
    } else {
        let before = rows_holding(accounts, part, n - 1);
        if has_part(lowercase(row_label(accounts, n - 1)), part) {
            before.push((n - 1) as usize)
        } else {
            before
        }
    }
}

/// The rows of the account list whose label holds a text.
pub open spec fn account_rows(accounts: Seq<AccountView>, query: Seq<char>) -> Seq<usize> {
    rows_holding(accounts, lowercase(query), 1int + accounts.len())
}

impl AccountsState {
    fn account_search_matches(&self, query: &str) -> (out: Vec<usize>)
        requires
            self.accounts@.len() < usize::MAX,
        ensures
            out@ == account_rows(views(self.accounts@), query@),
            forall|k: int| 0 <= k < out@.len() ==> #[trigger] out@[k] <= self.accounts@.len(),
    {
        let ghost all = views(self.accounts@);
        let part = to_lowercase(query);
        let n: usize = self.accounts.len();
        let mut out: Vec<usize> = Vec::new();
        let mut row: usize = 0;
        while row <= n
            invariant
                row <= n + 1,
                n == self.accounts@.len(),
                n < usize::MAX,
                all == views(self.accounts@),
                part@ == lowercase(query@),
                out@ == rows_holding(all, part@, row as int),
                forall|k: int| 0 <= k < out@.len() ==> #[trigger] out@[k] <= n,
            decreases n + 1 - row,
        {
            let label = if row == 0 {
                AccountSelection::All.display_label(None)
            } else {
                assert(all[row - 1] == self.accounts@[row - 1]@);
                AccountSelection::Account(row - 1).display_label(
                    Some(self.accounts[row - 1].user_id.as_str()),
                )
            };
            let small = to_lowercase(label.as_str());
            if text_has_part(small.as_str(), part.as_str()) {
                out.push(row);
            }
            row = row + 1;
        }
        out
    }
}

impl App {
    /// Narrows the lists to the next account, or the one before, whose label holds a
    /// text.
    pub fn search_adjacent_account(&mut self, query: &str, forward: bool)
        requires
            old(self).accounts.accounts@.len() < usize::MAX,
            selection_row(old(self).accounts.selected) < usize::MAX,
        ensures
            ({
                let rows = account_rows(views(old(self).accounts.accounts@), query@);
                let current = selection_row(old(self).accounts.selected) as usize;
                if rows.len() == 0 {
                    said(*old(self), *final(self), "no more matches"@)
                } else {
                    match next_match(
                        rows,
                        Some(current),
                        forward,
                        old(self).display.search_wrap,
                    ) {
                        Some(row) => search_settled(
                            narrowed(*old(self), selection_at(row as int)),
                            *final(self),
                            query@,
                            match_status_text((rows.index_of(row) + 1) as nat, rows.len()),
                        ),
                        None => *final(self) == *old(self),
                    }
                }
            }),
            selection_in_list(old(self).rooms) ==> selection_in_list(final(self).rooms),
    {
        let rows = self.accounts.account_search_matches(query);
        if rows.len() == 0 {
            self.say("no more matches");
            return ;
        }
        let current: usize = self.accounts.selected.display_number();
        let found = next_match_index(
            rows.as_slice(),
            Some(current),
            forward,
            self.display.search_wrap,
        );
        if let Some(row) = found {
            self.narrow_to(AccountSelection::at(row));
            self.session.last_search = Some(query.to_owned());
            let at: usize = index_position(&rows, row);
            proof {
                lemma_next_match_listed(rows@, Some(current), forward, self.display.search_wrap);
                lemma_rows_ascend(
                    views(old(self).accounts.accounts@),
                    lowercase(query@),
                    1int + old(self).accounts.accounts@.len(),
                );
                let i = rows@.index_of(row);
                assert(rows@.contains(row));
                assert(0 <= i < rows@.len() && rows@[i] == row);
                if i < at {
                    assert(rows@[i] != row);
                }
                if at < i {
                    assert(rows@[at as int] < rows@[i]);
                }
            }
            let total: usize = rows.len();
            if at < total {
                self.status = match_status(at + 1, total);
            }
        }
    }

    /// Narrows the lists to the first account whose label holds a text. The result
    /// says whether there is one.
    pub fn commit_account_search(&mut self, query: String) -> (found: bool)
        requires
            old(self).accounts.accounts@.len() < usize::MAX,
        ensures
            ({
                let rows = account_rows(views(old(self).accounts.accounts@), query@);
                &&& found == (rows.len() > 0)
                &&& if rows.len() > 0 {
                    search_settled(
                        narrowed(*old(self), selection_at(rows[0] as int)),
                        *final(self),
                        query@,
                        match_status_text(1, rows.len()),
                    )
                } else {
                    search_settled(
                        *old(self),
                        *final(self),
                        query@,
                        "no account matches: "@ + query@,
                    )
                }
            }),
            selection_in_list(old(self).rooms) ==> selection_in_list(final(self).rooms),
    {
        let rows = self.accounts.account_search_matches(query.as_str());
        self.session.last_search = Some(query.clone());
        if rows.len() == 0 {
            self.status = Status::Info(cat2("no account matches: ", query.as_str()));
            return false;
        }
        let row: usize = rows[0];
        let total: usize = rows.len();
        self.narrow_to(AccountSelection::at(row));
        self.status = match_status(1, total);
        true
    }
}

/// Whether a search was remembered and its result said.
pub open spec fn search_settled(before: App, after: App, query: Seq<char>, text: Seq<char>) -> bool {
    &&& after == (App { session: after.session, status: after.status, ..before })
    &&& after.session == (Session { last_search: after.session.last_search, ..before.session })
    &&& option_view(after.session.last_search) == Some(query)
    &&& after.status@ == StatusView::Info(text)
}

proof fn lemma_rows_ascend(accounts: Seq<AccountView>, part: Seq<char>, n: int)
    requires
        0 <= n <= usize::MAX,
    ensures
        forall|i: int, j: int|
            #![trigger rows_holding(accounts, part, n)[i], rows_holding(accounts, part, n)[j]]
            0 <= i < j < rows_holding(accounts, part, n).len() ==> rows_holding(
                accounts,
                part,
                n,
            )[i] < rows_holding(accounts, part, n)[j],
        forall|i: int|
            0 <= i < rows_holding(accounts, part, n).len() ==> (#[trigger] rows_holding(
                accounts,
                part,
                n,
            )[i]) < n,
    decreases n,
{
    let list = rows_holding(accounts, part, n);
    if n > 0 {
        lemma_rows_ascend(accounts, part, n - 1);
        let before = rows_holding(accounts, part, n - 1);
        assert forall|i: int| 0 <= i < list.len() implies (#[trigger] list[i]) < n by {
            if i < before.len() {
                assert(before[i] < n - 1);
            }
        }
        assert forall|i: int, j: int|
            #![trigger list[i], list[j]]
            0 <= i < j < list.len() implies list[i] < list[j] by {
            if j < before.len() {
                assert(before[i] < before[j]);
            } else {
                assert(before[i] < n - 1);
            }
        }
    }
}

proof fn lemma_next_match_listed(
    matches: Seq<usize>,
    current: Option<usize>,
    forward: bool,
    wrap: bool,
)
    ensures
        next_match(matches, current, forward, wrap) is Some ==> matches.contains(
            next_match(matches, current, forward, wrap)->0,
        ),
{
    let found = next_match(matches, current, forward, wrap);
    if forward {
        lemma_first_listed(
            matches,
            match current {
                Some(i) => i + 1,
                None => 0,
            },
        );
        if matches.len() > 0 {
            assert(matches.contains(matches[0]));
        }
    } else {
        lemma_last_listed(
            matches,
            match current {
                Some(i) => i as int,
                None => 0,
            },
        );
        if matches.len() > 0 {
            assert(matches[matches.len() - 1] == matches.last());
        }
    }
}

proof fn lemma_first_listed(matches: Seq<usize>, bound: int)
    ensures
        first_not_before(matches, bound) is Some ==> matches.contains(
            first_not_before(matches, bound)->0,
        ),
    decreases matches.len(),
{
    if matches.len() > 0 {
        let rest = matches.drop_first();
        lemma_first_listed(rest, bound);
        if matches[0] >= bound {
            assert(matches.contains(matches[0]));
        } else if first_not_before(matches, bound) is Some {
            let v = first_not_before(rest, bound)->0;
            let i = choose|i: int| 0 <= i < rest.len() && rest[i] == v;
            assert(matches[i + 1] == v);
        }
    }
}

proof fn lemma_last_listed(matches: Seq<usize>, bound: int)
    ensures
        last_before(matches, bound) is Some ==> matches.contains(last_before(matches, bound)->0),
    decreases matches.len(),
{
    if matches.len() > 0 {
        let rest = matches.drop_last();
        lemma_last_listed(rest, bound);
        if matches.last() < bound {
            assert(matches[matches.len() - 1] == matches.last());
        } else if last_before(matches, bound) is Some {
            let v = last_before(rest, bound)->0;
            let i = choose|i: int| 0 <= i < rest.len() && rest[i] == v;
            assert(matches[i] == v);
        }
    }
}

/// How an account is looked for.
#[derive(Debug, Clone, Copy, PartialEq, Eq, Structural)]
pub enum AccountRule {
    Whole,
    Local,
    Part,
}

/// Whether a text means an account under a rule.
pub open spec fn account_meant(rule: AccountRule, account: AccountView, target: Seq<char>) -> bool {
    match rule {
        AccountRule::Whole => lowercase(account.user_id) == lowercase(target),
        AccountRule::Local => localpart(account.user_id) == Some(trim_start_char(target, '@')),
        AccountRule::Part => has_part(lowercase(account.user_id), lowercase(target)),
    }
}

/// The first `n` accounts that a text means under a rule.
pub open spec fn accounts_meant(
    rule: AccountRule,
    accounts: Seq<AccountView>,
    target: Seq<char>,
    n: int,
) -> Seq<usize>
    decreases n,
{
    if n <= 0 {
        Seq::empty()
    } else {
        let before = accounts_meant(rule, accounts, target, n - 1);
        if account_meant(rule, accounts[n - 1], target) {
            before.push((n - 1) as usize)
        } else {
            before
        }
    }
}

fn means_account(rule: AccountRule, account: &AccountDto, target: &str) -> (r: bool)
    ensures
        r == account_meant(rule, account@, target@),
{
    match rule {
        AccountRule::Whole => {
            let a = to_lowercase(account.user_id.as_str());
            let b = to_lowercase(target);
            same_text(a.as_str(), b.as_str())
        },
        AccountRule::Local => match account_localpart(account.user_id.as_str()) {
            Some(local) => same_text(local, trim_text_start_char(target, '@')),
            None => false,
        },
        AccountRule::Part => {
            let a = to_lowercase(account.user_id.as_str());
            let b = to_lowercase(target);
            text_has_part(a.as_str(), b.as_str())
        },
    }
}

impl AccountsState {
    fn find_meant(&self, rule: AccountRule, target: &str) -> (out: Vec<usize>)
        ensures
            out@ == accounts_meant(
                rule,
                views(self.accounts@),
                target@,
                self.accounts@.len() as int,
            ),
            forall|k: int| 0 <= k < out@.len() ==> #[trigger] out@[k] < self.accounts@.len(),
    {
        let ghost all = views(self.accounts@);
        let mut out: Vec<usize> = Vec::new();
        let mut i: usize = 0;
        while i < self.accounts.len()
            invariant
                i <= self.accounts.len(),
                all == views(self.accounts@),
                out@ == accounts_meant(rule, all, target@, i as int),
                forall|k: int| 0 <= k < out@.len() ==> #[trigger] out@[k] < i,
            decreases self.accounts.len() - i,
        {
            assert(all[i as int] == self.accounts@[i as int]@);
            if means_account(rule, &self.accounts[i], target) {
                out.push(i);
            }
            i = i + 1;
        }
        out
    }

    fn user_ids_of(&self, indices: &Vec<usize>) -> (out: Vec<String>)
        requires
            forall|k: int| 0 <= k < indices@.len() ==> #[trigger] indices@[k] < self.accounts@.len(),
        ensures
            views(out@) == user_ids_at(views(self.accounts@), indices@),
    {
        let mut out: Vec<String> = Vec::new();
        let mut i: usize = 0;
        while i < indices.len()
            invariant
                i <= indices.len(),
                forall|k: int|
                    0 <= k < indices@.len() ==> #[trigger] indices@[k] < self.accounts@.len(),
                out.len() == i,
                forall|k: int|
                    0 <= k < i ==> (#[trigger] out@[k])@ == self.accounts@[indices@[k] as int]@.user_id,
            decreases indices.len() - i,
        {
            assert(indices@[i as int] < self.accounts@.len());
            out.push(self.accounts[indices[i]].user_id.clone());
            i = i + 1;
        }
        assert(views(out@) =~= user_ids_at(views(self.accounts@), indices@));
        out
    }
}

pub open spec fn user_ids_at(accounts: Seq<AccountView>, indices: Seq<usize>) -> Seq<Seq<char>> {
    Seq::new(indices.len(), |i: int| accounts[indices[i] as int].user_id)
}

/// What a text means among the accounts.
pub enum AccountTarget {
    All,
    One(usize),
    OutOfRange,
    Ambiguous(Seq<usize>),
    Missing,
}

/// What a text means among the accounts: all of them, a row of the list, a user id,
/// the local part of one, or a part of one.
pub open spec fn account_target(accounts: Seq<AccountView>, target: Seq<char>) -> AccountTarget {
    let n = accounts.len() as int;
    let whole = accounts_meant(AccountRule::Whole, accounts, target, n);
    let local = accounts_meant(AccountRule::Local, accounts, target, n);
    let part = accounts_meant(AccountRule::Part, accounts, target, n);
    if same_ignoring_case(target, "all"@) || target == "0"@ {
        AccountTarget::All
    } else if number_of(target) is Some && number_of(target)->0 <= usize::MAX {
        if 1 <= number_of(target)->0 <= n {
            AccountTarget::One((number_of(target)->0 - 1) as usize)
        } else {
            AccountTarget::OutOfRange
        }
    } else if whole.len() == 1 {
        AccountTarget::One(whole[0])
    } else if local.len() == 1 {
        AccountTarget::One(local[0])
    } else if local.len() > 1 {
        AccountTarget::Ambiguous(local)
    } else if part.len() == 1 {
        AccountTarget::One(part[0])
    } else if part.len() > 1 {
        AccountTarget::Ambiguous(part)
    } else {
        AccountTarget::Missing
    }
}

/// Whether the lists were narrowed as a text says. The result says whether they were.
pub open spec fn account_switched(before: App, after: App, target: Seq<char>, done: bool) -> bool {
    let accounts = views(before.accounts.accounts@);
    match account_target(accounts, target) {
        AccountTarget::All => done && account_chosen(
            before,
            after,
            AccountSelection::All,
            "showing all accounts"@,
        ),
        AccountTarget::One(i) => done && i < accounts.len() && account_chosen(
            before,
            after,
            AccountSelection::Account(i),
            "account: "@ + accounts[i as int].user_id,
        ),
        AccountTarget::OutOfRange => !done && said(
            before,
            after,
            "account index out of range: "@ + target,
        ),
        AccountTarget::Ambiguous(list) => !done && said(
            before,
            after,
            "account is ambiguous: "@ + joined(user_ids_at(accounts, list), ", "@),
        ),
        AccountTarget::Missing => !done && said(before, after, "account not found: "@ + target),
    }
}

impl App {
    fn choose_account(&mut self, index: usize)
        requires
            index < old(self).accounts.accounts@.len(),
        ensures
            account_chosen(
                *old(self),
                *final(self),
                AccountSelection::Account(index),
                "account: "@ + old(self).accounts.accounts@[index as int]@.user_id,
            ),
            selection_in_list(final(self).rooms),
    {
        let text = cat2("account: ", self.accounts.accounts[index].user_id.as_str());
        self.narrow_to(AccountSelection::Account(index));
        self.status = Status::Info(text);
    }

    fn say_ambiguous(&mut self, found: &Vec<usize>)
        requires
            forall|k: int|
                0 <= k < found@.len() ==> #[trigger] found@[k] < old(self).accounts.accounts@.len(),
        ensures
            said(
                *old(self),
                *final(self),
                "account is ambiguous: "@ + joined(
                    user_ids_at(views(old(self).accounts.accounts@), found@),
                    ", "@,
                ),
            ),
    {
        let options = self.accounts.user_ids_of(found);
        let list = join(options.as_slice(), ", ");
        self.status = Status::Info(cat2("account is ambiguous: ", list.as_str()));
    }

    /// Narrows the lists to the account that a text means. The result says whether it
    /// means one.
    pub fn switch_account(&mut self, target: &str) -> (done: bool)
        ensures
            account_switched(*old(self), *final(self), trim(target@), done),
            selection_in_list(old(self).rooms) ==> selection_in_list(final(self).rooms),
    {
        let t = trim_text(target);
        let ghost all = views(self.accounts.accounts@);
        let n: usize = self.accounts.accounts.len();
        assert(all.len() == n);
        if same_text_ignoring_case(t, "all") || same_text(t, "0") {
            self.narrow_to(AccountSelection::All);
            self.say("showing all accounts");
            return true;
        }
        if let Some(k) = parse_usize(t) {
            if 1 <= k && k <= n {
                self.choose_account(k - 1);
                return true;
            }
            self.status = Status::Info(cat2("account index out of range: ", t));
            return false;
        }
        let whole = self.accounts.find_meant(AccountRule::Whole, t);
        if whole.len() == 1 {
            assert(whole@[0] < n);
            self.choose_account(whole[0]);
            return true;
        }
        let local = self.accounts.find_meant(AccountRule::Local, t);
        if local.len() == 1 {
            assert(local@[0] < n);
            self.choose_account(local[0]);
            return true;
        }
        if local.len() > 1 {
            self.say_ambiguous(&local);
            return false;
        }
        let part = self.accounts.find_meant(AccountRule::Part, t);
        if part.len() == 1 {
            assert(part@[0] < n);
            self.choose_account(part[0]);
            return true;
        }
        if part.len() > 1 {
            self.say_ambiguous(&part);
            return false;
        }
        self.status = Status::Info(cat2("account not found: ", t));
        false
    }
}

} // verus!
