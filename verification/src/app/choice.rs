//! What the user chooses from: filters, orders, accounts and list positions.

use vstd::prelude::*;

use crate::api::dto::{EventDto, RoomDto, RoomView};
use crate::ids::{format_id, id_text, lemma_id_text, parse_id, parsed_id};
use crate::keyed::Key;
use crate::text::{
    cat2, cat3, decimal, decimal_usize, lemma_find_char, lowercase, option_str_view, same_text,
    split_once, split_text_once, to_lowercase, trim, trim_text,
};

verus! {

// ---------------------------------------------------------------------------
// Rooms by key
// ---------------------------------------------------------------------------

/// A room of an account.
#[derive(Debug, PartialEq, Eq)]
pub struct RoomKey {
    pub account_id: u128,
    pub room_id: String,
}

#[verifier::ext_equal]
pub struct RoomKeyView {
    pub account_id: u128,
    pub room_id: Seq<char>,
}

impl View for RoomKey {
    type V = RoomKeyView;

    open spec fn view(&self) -> RoomKeyView {
        RoomKeyView { account_id: self.account_id, room_id: self.room_id@ }
    }
}

impl Key for RoomKey {
    fn same(&self, other: &RoomKey) -> (r: bool) {
        self.account_id == other.account_id && self.room_id == other.room_id
    }

    fn duplicate(&self) -> (r: RoomKey) {
        RoomKey { account_id: self.account_id, room_id: self.room_id.clone() }
    }
}

/// The key of a room.
pub open spec fn room_key(room: RoomView) -> RoomKeyView {
    RoomKeyView { account_id: room.account_id, room_id: room.room_id }
}

/// The text of a key in the configuration: the account, a colon and the room.
pub open spec fn config_entry(key: RoomKeyView) -> Seq<char> {
    id_text(key.account_id) + ":"@ + key.room_id
}

/// The key that an entry of the configuration holds. The account ends at the
/// first colon; the room may hold more of them and is never empty.
pub open spec fn entry_key(entry: Seq<char>) -> Option<RoomKeyView> {
    match split_once(entry, ':') {
        None => None,
        Some((account, room_id)) => match parsed_id(account) {
            None => None,
            Some(account_id) => if room_id.len() == 0 {
                None
            } else {
                Some(RoomKeyView { account_id, room_id })
            },
        },
    }
}

impl RoomKey {
    pub fn of(room: &RoomDto) -> (out: RoomKey)
        ensures
            out@ == room_key(room@),
    {
        RoomKey { account_id: room.account_id, room_id: room.room_id.clone() }
    }

    pub fn parse_config_entry(entry: &str) -> (out: Option<RoomKey>)
        ensures
            match out {
                Some(key) => entry_key(entry@) == Some(key@),
                None => entry_key(entry@) is None,
            },
            forall|key: RoomKeyView|
                entry@ == #[trigger] config_entry(key) && key.room_id.len() > 0 ==> out is Some
                    && out->0@ == key,
    {
        proof {
            assert forall|key: RoomKeyView| entry@ == #[trigger] config_entry(key) implies
                split_once(entry@, ':') == Some((id_text(key.account_id), key.room_id)) by {
                lemma_entry_split(key);
            }
        }
        let (account, room_id) = match split_text_once(entry, ':') {
            Some(parts) => parts,
            None => return None,
        };
        let account_id = match parse_id(account) {
            Some(id) => id,
            None => return None,
        };
        if room_id.is_empty() {
            return None;
        }
        Some(RoomKey { account_id, room_id: room_id.to_owned() })
    }

    pub fn to_config_entry(&self) -> (out: String)
        ensures
            out@ == config_entry(self@),
    {
        let account = format_id(self.account_id);
        cat3(account.as_str(), ":", self.room_id.as_str())
    }
}

/// The first colon of an entry ends its account.
proof fn lemma_entry_split(key: RoomKeyView)
    ensures
        split_once(config_entry(key), ':') == Some((id_text(key.account_id), key.room_id)),
{
    reveal_strlit(":");
    let entry = config_entry(key);
    lemma_id_text(key.account_id);
    assert forall|k: int| 0 <= k < 36 implies entry[k] != ':' by {
        assert(entry[k] == id_text(key.account_id)[k]);
    }
    lemma_find_char(entry, ':', 36);
    assert(entry.take(36) =~= id_text(key.account_id));
    assert(entry.skip(37) =~= key.room_id);
}

// ---------------------------------------------------------------------------
// Filters and orders of the room list
// ---------------------------------------------------------------------------

/// Which rooms the list shows.
#[derive(Debug, PartialEq, Eq)]
pub enum RoomFilter {
    All,
    Dms,
    Groups,
    Unread,
    Favorites,
    /// Rooms whose name, alias, topic or id holds the text, in small letters.
    Name(String),
}

pub enum RoomFilterView {
    All,
    Dms,
    Groups,
    Unread,
    Favorites,
    Name(Seq<char>),
}

impl View for RoomFilter {
    type V = RoomFilterView;

    open spec fn view(&self) -> RoomFilterView {
        match self {
            RoomFilter::All => RoomFilterView::All,
            RoomFilter::Dms => RoomFilterView::Dms,
            RoomFilter::Groups => RoomFilterView::Groups,
            RoomFilter::Unread => RoomFilterView::Unread,
            RoomFilter::Favorites => RoomFilterView::Favorites,
            RoomFilter::Name(q) => RoomFilterView::Name(q@),
        }
    }
}

/// The filter after one in the cycle. A name filter is not part of the cycle and
/// leads back to its start.
pub open spec fn next_filter(filter: RoomFilterView) -> RoomFilterView {
    match filter {
        RoomFilterView::All => RoomFilterView::Dms,
        RoomFilterView::Dms => RoomFilterView::Groups,
        RoomFilterView::Groups => RoomFilterView::Unread,
        RoomFilterView::Unread => RoomFilterView::Favorites,
        RoomFilterView::Favorites => RoomFilterView::All,
        RoomFilterView::Name(_) => RoomFilterView::All,
    }
}

pub open spec fn filter_label(filter: RoomFilterView) -> Seq<char> {
    match filter {
        RoomFilterView::All => "All"@,
        RoomFilterView::Dms => "DMs"@,
        RoomFilterView::Groups => "Groups"@,
        RoomFilterView::Unread => "Unread"@,
        RoomFilterView::Favorites => "Favorites"@,
        RoomFilterView::Name(q) => "Filter: "@ + q,
    }
}

/// The name of a filter in the configuration. A name filter is not kept.
pub open spec fn filter_token(filter: RoomFilterView) -> Seq<char> {
    match filter {
        RoomFilterView::All => "all"@,
        RoomFilterView::Name(_) => "all"@,
        RoomFilterView::Dms => "dms"@,
        RoomFilterView::Groups => "groups"@,
        RoomFilterView::Unread => "unread"@,
        RoomFilterView::Favorites => "favorites"@,
    }
}

/// The filter that a word in small letters names.
pub open spec fn filter_of_word(word: Seq<char>) -> RoomFilterView {
    if word.len() == 0 || word == "all"@ {
        RoomFilterView::All
    } else if word == "dms"@ || word == "dm"@ || word == "people"@ {
        RoomFilterView::Dms
    } else if word == "groups"@ || word == "group"@ || word == "rooms"@ {
        RoomFilterView::Groups
    } else if word == "unread"@ {
        RoomFilterView::Unread
    } else if word == "fav"@ || word == "favs"@ || word == "favorites"@ {
        RoomFilterView::Favorites
    } else {
        RoomFilterView::Name(word)
    }
}

impl RoomFilter {
    pub fn next(&self) -> (out: RoomFilter)
        ensures
            out@ == next_filter(self@),
    {
        match self {
            RoomFilter::All => RoomFilter::Dms,
            RoomFilter::Dms => RoomFilter::Groups,
            RoomFilter::Groups => RoomFilter::Unread,
            RoomFilter::Unread => RoomFilter::Favorites,
            RoomFilter::Favorites => RoomFilter::All,
            RoomFilter::Name(_) => RoomFilter::All,
        }
    }

    pub fn label(&self) -> (out: String)
        ensures
            out@ == filter_label(self@),
    {
        match self {
            RoomFilter::All => "All".to_owned(),
            RoomFilter::Dms => "DMs".to_owned(),
            RoomFilter::Groups => "Groups".to_owned(),
            RoomFilter::Unread => "Unread".to_owned(),
            RoomFilter::Favorites => "Favorites".to_owned(),
            RoomFilter::Name(q) => cat2("Filter: ", q.as_str()),
        }
    }

    pub fn as_config_str(&self) -> (out: &'static str)
        ensures
            out@ == filter_token(self@),
    {
        match self {
            RoomFilter::All => "all",
            RoomFilter::Name(_) => "all",
            RoomFilter::Dms => "dms",
            RoomFilter::Groups => "groups",
            RoomFilter::Unread => "unread",
            RoomFilter::Favorites => "favorites",
        }
    }

    /// The filter that a word in small letters names; any other word is a name.
    pub fn from_word(word: String) -> (out: RoomFilter)
        ensures
            out@ == filter_of_word(word@),
    {
        let w = word.as_str();
        if w.is_empty() || same_text(w, "all") {
            RoomFilter::All
        } else if same_text(w, "dms") || same_text(w, "dm") || same_text(w, "people") {
            RoomFilter::Dms
        } else if same_text(w, "groups") || same_text(w, "group") || same_text(w, "rooms") {
            RoomFilter::Groups
        } else if same_text(w, "unread") {
            RoomFilter::Unread
        } else if same_text(w, "fav") || same_text(w, "favs") || same_text(w, "favorites") {
            RoomFilter::Favorites
        } else {
            RoomFilter::Name(word)
        }
    }

    pub fn parse(s: &str) -> (out: RoomFilter)
        ensures
            out@ == filter_of_word(lowercase(trim(s@))),
    {
        RoomFilter::from_word(to_lowercase(trim_text(s)))
    }

    pub fn copy(&self) -> (out: RoomFilter)
        ensures
            out@ == self@,
    {
        match self {
            RoomFilter::All => RoomFilter::All,
            RoomFilter::Dms => RoomFilter::Dms,
            RoomFilter::Groups => RoomFilter::Groups,
            RoomFilter::Unread => RoomFilter::Unread,
            RoomFilter::Favorites => RoomFilter::Favorites,
            RoomFilter::Name(q) => RoomFilter::Name(q.clone()),
        }
    }
}

/// The cycle visits five filters and is then back where it was; from a name
/// filter it enters at the first.
pub proof fn law_filter_cycle(filter: RoomFilterView)
    ensures
        next_filter(filter) !is Name,
        filter !is Name ==> next_filter(
            next_filter(next_filter(next_filter(next_filter(filter)))),
        ) == filter,
{
}

/// The name of a filter in the configuration reads back as that filter; a name
/// filter comes back as no filter.
pub proof fn law_filter_token_reads_back(filter: RoomFilterView)
    ensures
        filter_of_word(filter_token(filter)) == if filter is Name {
            RoomFilterView::All
        } else {
            filter
        },
{
    reveal_strlit("all");
    reveal_strlit("dms");
    reveal_strlit("dm");
    reveal_strlit("people");
    reveal_strlit("groups");
    reveal_strlit("group");
    reveal_strlit("rooms");
    reveal_strlit("unread");
    reveal_strlit("fav");
    reveal_strlit("favs");
    reveal_strlit("favorites");
    assert("dms"@[0] == 'd');
    assert("groups"@[0] == 'g');
    assert("unread"@[0] == 'u');
    assert("favorites"@[0] == 'f');
    assert("all"@[0] == 'a');
    assert("people"@[0] == 'p');
    assert("rooms"@[0] == 'r');
    match filter {
        RoomFilterView::All => {},
        RoomFilterView::Dms => {
            assert("dms"@ != "all"@);
        },
        RoomFilterView::Groups => {
            assert("groups"@ != "people"@);
        },
        RoomFilterView::Unread => {
            assert("unread"@ != "people"@);
            assert("unread"@ != "groups"@);
        },
        RoomFilterView::Favorites => {},
        RoomFilterView::Name(_) => {},
    }
}

/// The order of the rooms that are not pinned.
#[derive(Debug, Clone, Copy, PartialEq, Eq, Structural)]
pub enum RoomSort {
    RecentActivity,
    OldestActivity,
    AlphaAsc,
    AlphaDesc,
}

pub open spec fn next_sort(sort: RoomSort) -> RoomSort {
    match sort {
        RoomSort::RecentActivity => RoomSort::OldestActivity,
        RoomSort::OldestActivity => RoomSort::AlphaAsc,
        RoomSort::AlphaAsc => RoomSort::AlphaDesc,
        RoomSort::AlphaDesc => RoomSort::RecentActivity,
    }
}

pub open spec fn sort_label(sort: RoomSort) -> Seq<char> {
    match sort {
        RoomSort::RecentActivity => "Recent"@,
        RoomSort::OldestActivity => "Oldest"@,
        RoomSort::AlphaAsc => "A–Z"@,
        RoomSort::AlphaDesc => "Z–A"@,
    }
}

pub open spec fn sort_token(sort: RoomSort) -> Seq<char> {
    match sort {
        RoomSort::RecentActivity => "recent"@,
        RoomSort::OldestActivity => "oldest"@,
        RoomSort::AlphaAsc => "az"@,
        RoomSort::AlphaDesc => "za"@,
    }
}

pub open spec fn sort_of_word(word: Seq<char>) -> RoomSort {
    if word == "oldest"@ {
        RoomSort::OldestActivity
    } else if word == "az"@ || word == "alpha"@ || word == "a-z"@ {
        RoomSort::AlphaAsc
    } else if word == "za"@ || word == "z-a"@ {
        RoomSort::AlphaDesc
    } else {
        RoomSort::RecentActivity
    }
}

impl RoomSort {
    pub fn next(self) -> (out: RoomSort)
        ensures
            out == next_sort(self),
    {
        match self {
            RoomSort::RecentActivity => RoomSort::OldestActivity,
            RoomSort::OldestActivity => RoomSort::AlphaAsc,
            RoomSort::AlphaAsc => RoomSort::AlphaDesc,
            RoomSort::AlphaDesc => RoomSort::RecentActivity,
        }
    }

    pub fn label(self) -> (out: &'static str)
        ensures
            out@ == sort_label(self),
    {
        match self {
            RoomSort::RecentActivity => "Recent",
            RoomSort::OldestActivity => "Oldest",
            RoomSort::AlphaAsc => "A–Z",
            RoomSort::AlphaDesc => "Z–A",
        }
    }

    pub fn as_config_str(self) -> (out: &'static str)
        ensures
            out@ == sort_token(self),
    {
        match self {
            RoomSort::RecentActivity => "recent",
            RoomSort::OldestActivity => "oldest",
            RoomSort::AlphaAsc => "az",
            RoomSort::AlphaDesc => "za",
        }
    }

    pub fn from_word(w: &str) -> (out: RoomSort)
        ensures
            out == sort_of_word(w@),
    {
        if same_text(w, "oldest") {
            RoomSort::OldestActivity
        } else if same_text(w, "az") || same_text(w, "alpha") || same_text(w, "a-z") {
            RoomSort::AlphaAsc
        } else if same_text(w, "za") || same_text(w, "z-a") {
            RoomSort::AlphaDesc
        } else {
            RoomSort::RecentActivity
        }
    }

    pub fn parse(s: &str) -> (out: RoomSort)
        ensures
            out == sort_of_word(lowercase(trim(s@))),
    {
        let w = to_lowercase(trim_text(s));
        RoomSort::from_word(w.as_str())
    }
}

/// The cycle visits the four orders and is then back where it was.
pub proof fn law_sort_cycle(sort: RoomSort)
    ensures
        next_sort(next_sort(next_sort(next_sort(sort)))) == sort,
        next_sort(sort) != sort,
        next_sort(next_sort(sort)) != sort,
{
}

/// The name of an order in the configuration reads back as that order.
pub proof fn law_sort_token_reads_back(sort: RoomSort)
    ensures
        sort_of_word(sort_token(sort)) == sort,
{
    reveal_strlit("recent");
    reveal_strlit("oldest");
    reveal_strlit("az");
    reveal_strlit("alpha");
    reveal_strlit("a-z");
    reveal_strlit("za");
    reveal_strlit("z-a");
    assert("az"@[0] == 'a');
    assert("za"@[0] == 'z');
    assert("recent"@[0] == 'r');
    assert("oldest"@[0] == 'o');
}

// ---------------------------------------------------------------------------
// Accounts
// ---------------------------------------------------------------------------

/// Which account the lists are narrowed to.
#[derive(Debug, Clone, Copy, PartialEq, Eq, Structural)]
pub enum AccountSelection {
    All,
    Account(usize),
}

/// The row of a selection in the account list.
pub open spec fn selection_row(selection: AccountSelection) -> int {
    match selection {
        AccountSelection::All => 0,
        AccountSelection::Account(index) => index + 1,
    }
}

/// The selection at a row of the account list.
pub open spec fn selection_at(row: int) -> AccountSelection {
    if row == 0 {
        AccountSelection::All
    } else {
        AccountSelection::Account((row - 1) as usize)
    }
}

pub open spec fn selection_label(
    selection: AccountSelection,
    user_id: Option<Seq<char>>,
) -> Seq<char> {
    match selection {
        AccountSelection::All => "0 All Accounts"@,
        AccountSelection::Account(index) => decimal((index + 1) as nat) + " "@ + match user_id {
            Some(u) => u,
            None => "?"@,
        },
    }
}

impl AccountSelection {
    pub fn display_number(self) -> (out: usize)
        requires
            selection_row(self) <= usize::MAX,
        ensures
            out == selection_row(self),
    {
        match self {
            AccountSelection::All => 0,
            AccountSelection::Account(index) => index + 1,
        }
    }

    pub fn display_label(self, user_id: Option<&str>) -> (out: String)
        requires
            selection_row(self) <= usize::MAX,
        ensures
            out@ == selection_label(self, option_str_view(user_id)),
    {
        match self {
            AccountSelection::All => "0 All Accounts".to_owned(),
            AccountSelection::Account(_) => {
                let n = decimal_usize(self.display_number());
                match user_id {
                    Some(u) => cat3(n.as_str(), " ", u),
                    None => cat3(n.as_str(), " ", "?"),
                }
            },
        }
    }

    pub fn at(row: usize) -> (out: AccountSelection)
        ensures
            out == selection_at(row as int),
    {
        if row == 0 {
            AccountSelection::All
        } else {
            AccountSelection::Account(row - 1)
        }
    }
}

// ---------------------------------------------------------------------------
// Positions in lists
// ---------------------------------------------------------------------------

/// The position `offset` away from `current` in a list of rooms. A step back
/// past the start goes to the last room, a step forward past the end goes round.
pub open spec fn stepped_room(current: int, len: int, offset: int) -> int {
    if len == 0 {
        0
    } else if offset < 0 {
        if current + offset >= 0 {
            current + offset
        } else {
            len - 1
        }
    } else {
        (current + offset) % len
    }
}

pub fn relative_room_index(current: usize, len: usize, offset: isize) -> (out: usize)
    ensures
        out == stepped_room(current as int, len as int, offset as int),
{
    if len == 0 {
        return 0;
    }
    if offset < 0 {
        let back: usize = (-(offset + 1)) as usize;
        if current > back {
            current - back - 1
        } else {
            len - 1
        }
    } else {
        let sum: u128 = current as u128 + offset as u128;
        let r: u128 = sum % (len as u128);
        r as usize
    }
}

/// A step from a position of a list stays in the list.
pub proof fn law_stepped_room_in_list(current: int, len: int, offset: int)
    requires
        0 <= current < len,
    ensures
        0 <= stepped_room(current, len, offset) < len,
{
    if offset >= 0 {
        vstd::arithmetic::div_mod::lemma_mod_bound(current + offset, len);
    }
}

/// The next position round a list, in one direction or the other.
pub open spec fn cycled(current: int, len: int, reverse: bool) -> int {
    if reverse {
        (current + len - 1) % len
    } else {
        (current + 1) % len
    }
}

pub fn cycle_index(current: usize, len: usize, reverse: bool) -> (out: usize)
    requires
        len > 0,
    ensures
        out == cycled(current as int, len as int, reverse),
        out < len,
{
    let c: usize = current % len;
    proof {
        let (x, n) = (current as int, len as int);
        vstd::arithmetic::div_mod::lemma_fundamental_div_mod(x, n);
        assert(n * (x / n) == (x / n) * n) by (nonlinear_arith);
        if reverse {
            if c == 0 {
                vstd::arithmetic::div_mod::lemma_fundamental_div_mod_converse(
                    x + n - 1,
                    n,
                    x / n,
                    n - 1,
                );
            } else {
                assert(n * (x / n + 1) == n * (x / n) + n) by (nonlinear_arith);
                vstd::arithmetic::div_mod::lemma_fundamental_div_mod_converse(
                    x + n - 1,
                    n,
                    x / n + 1,
                    c - 1,
                );
            }
        } else {
            if c + 1 == n {
                assert(n * (x / n + 1) == n * (x / n) + n) by (nonlinear_arith);
                vstd::arithmetic::div_mod::lemma_fundamental_div_mod_converse(
                    x + 1,
                    n,
                    x / n + 1,
                    0,
                );
            } else {
                vstd::arithmetic::div_mod::lemma_fundamental_div_mod_converse(
                    x + 1,
                    n,
                    x / n,
                    c + 1,
                );
            }
        }
    }
    if reverse {
        if c == 0 {
            len - 1
        } else {
            c - 1
        }
    } else if c == len - 1 {
        0
    } else {
        c + 1
    }
}

/// The position that a completion picks: the next one round the list, or an end
/// of it where none was picked before.
pub open spec fn picked(stored: Option<usize>, len: int, reverse: bool) -> int {
    match stored {
        Some(current) => cycled(current as int, len, reverse),
        None => if reverse {
            len - 1
        } else {
            0
        },
    }
}

pub fn pick(stored: Option<usize>, len: usize, reverse: bool) -> (out: usize)
    requires
        len > 0,
    ensures
        out == picked(stored, len as int, reverse),
        out < len,
{
    match stored {
        Some(current) => cycle_index(current, len, reverse),
        None => if reverse {
            len - 1
        } else {
            0
        },
    }
}

/// A step round a list and the step back lead to where they began.
pub proof fn law_cycle_undone(current: int, len: int, reverse: bool)
    requires
        0 <= current < len,
    ensures
        cycled(cycled(current, len, reverse), len, !reverse) == current,
{
    if reverse {
        if current == 0 {
            vstd::arithmetic::div_mod::lemma_small_mod((len - 1) as nat, len as nat);
            vstd::arithmetic::div_mod::lemma_mod_self_0(len);
        } else {
            vstd::arithmetic::div_mod::lemma_mod_add_multiples_vanish(current - 1, len);
            vstd::arithmetic::div_mod::lemma_small_mod((current - 1) as nat, len as nat);
            vstd::arithmetic::div_mod::lemma_small_mod(current as nat, len as nat);
        }
    } else {
        if current == len - 1 {
            vstd::arithmetic::div_mod::lemma_mod_self_0(len);
            vstd::arithmetic::div_mod::lemma_small_mod((len - 1) as nat, len as nat);
        } else {
            vstd::arithmetic::div_mod::lemma_small_mod((current + 1) as nat, len as nat);
            vstd::arithmetic::div_mod::lemma_mod_add_multiples_vanish(current, len);
            vstd::arithmetic::div_mod::lemma_small_mod(current as nat, len as nat);
        }
    }
}

/// The first position from `from` on whose match is not before `bound`.
pub open spec fn first_not_before(matches: Seq<usize>, bound: int) -> Option<usize>
    decreases matches.len(),
{
    if matches.len() == 0 {
        None
    } else if matches[0] >= bound {
        Some(matches[0])
    } else {
        first_not_before(matches.drop_first(), bound)
    }
}

/// The last match that is before `bound`.
pub open spec fn last_before(matches: Seq<usize>, bound: int) -> Option<usize>
    decreases matches.len(),
{
    if matches.len() == 0 {
        None
    } else if matches.last() < bound {
        Some(matches.last())
    } else {
        last_before(matches.drop_last(), bound)
    }
}

/// The next match after `current`, or the one before it. With `wrap` the search
/// goes on at the other end.
pub open spec fn next_match(
    matches: Seq<usize>,
    current: Option<usize>,
    forward: bool,
    wrap: bool,
) -> Option<usize> {
    if forward {
        let found = first_not_before(
            matches,
            match current {
                Some(i) => i + 1,
                None => 0,
            },
        );
        if found is Some || !wrap || matches.len() == 0 {
            found
        } else {
            Some(matches[0])
        }
    } else {
        let found = last_before(
            matches,
            match current {
                Some(i) => i as int,
                None => 0,
            },
        );
        if found is Some || !wrap || matches.len() == 0 {
            found
        } else {
            Some(matches.last())
        }
    }
}

pub fn next_match_index(
    matches: &[usize],
    current: Option<usize>,
    forward: bool,
    wrap: bool,
) -> (out: Option<usize>)
    requires
        current is Some && forward ==> current->0 < usize::MAX,
    ensures
        out == next_match(matches@, current, forward, wrap),
{
    if forward {
        let after: usize = match current {
            Some(i) => i + 1,
            None => 0,
        };
        let mut i: usize = 0;
        assert(matches@.skip(0) =~= matches@);
        while i < matches.len()
            invariant
                i <= matches.len(),
                first_not_before(matches@, after as int) == first_not_before(
                    matches@.skip(i as int),
                    after as int,
                ),
                forward,
                after as int == match current {
                    Some(i) => i + 1,
                    None => 0,
                },
            decreases matches.len() - i,
        {
            assert(matches@.skip(i as int)[0] == matches@[i as int]);
            assert(matches@.skip(i as int).drop_first() =~= matches@.skip(i + 1));
            if matches[i] >= after {
                return Some(matches[i]);
            }
            i = i + 1;
        }
        if !wrap || matches.len() == 0 {
            None
        } else {
            Some(matches[0])
        }
    } else {
        let before: usize = match current {
            Some(i) => i,
            None => 0,
        };
        let mut i: usize = matches.len();
        assert(matches@.take(i as int) =~= matches@);
        while i > 0
            invariant
                i <= matches.len(),
                last_before(matches@, before as int) == last_before(
                    matches@.take(i as int),
                    before as int,
                ),
                !forward,
                before as int == match current {
                    Some(i) => i as int,
                    None => 0,
                },
            decreases i,
        {
            i = i - 1;
            assert(matches@.take(i + 1).last() == matches@[i as int]);
            assert(matches@.take(i + 1).drop_last() =~= matches@.take(i as int));
            if matches[i] < before {
                return Some(matches[i]);
            }
        }
        if !wrap || matches.len() == 0 {
            None
        } else {
            Some(matches[matches.len() - 1])
        }
    }
}

/// A search that finds anything gives one of the matches; with `wrap` it finds
/// something wherever there is a match.
pub proof fn law_next_match(
    matches: Seq<usize>,
    current: Option<usize>,
    forward: bool,
    wrap: bool,
)
    ensures
        next_match(matches, current, forward, wrap) is Some ==> matches.contains(
            next_match(matches, current, forward, wrap)->0,
        ),
        wrap && matches.len() > 0 ==> next_match(matches, current, forward, wrap) is Some,
{
    let after = match current {
        Some(i) => i + 1,
        None => 0,
    };
    let before = match current {
        Some(i) => i as int,
        None => 0,
    };
    lemma_first_not_before(matches, after);
    lemma_last_before(matches, before);
    if matches.len() > 0 {
        assert(matches.contains(matches[0]));
        assert(matches.contains(matches.last()));
    }
}

proof fn lemma_first_not_before(matches: Seq<usize>, bound: int)
    ensures
        first_not_before(matches, bound) is Some ==> matches.contains(
            first_not_before(matches, bound)->0,
        ),
    decreases matches.len(),
{
    if matches.len() > 0 {
        if matches[0] >= bound {
            assert(matches.contains(matches[0]));
        } else {
            lemma_first_not_before(matches.drop_first(), bound);
            if first_not_before(matches.drop_first(), bound) is Some {
                let v = first_not_before(matches.drop_first(), bound)->0;
                let i = choose|i: int|
                    0 <= i < matches.drop_first().len() && matches.drop_first()[i] == v;
                assert(matches[i + 1] == v);
            }
        }
    }
}

proof fn lemma_last_before(matches: Seq<usize>, bound: int)
    ensures
        last_before(matches, bound) is Some ==> matches.contains(last_before(matches, bound)->0),
    decreases matches.len(),
{
    if matches.len() > 0 {
        if matches.last() < bound {
            assert(matches.contains(matches.last()));
        } else {
            lemma_last_before(matches.drop_last(), bound);
            if last_before(matches.drop_last(), bound) is Some {
                let v = last_before(matches.drop_last(), bound)->0;
                let i = choose|i: int|
                    0 <= i < matches.drop_last().len() && matches.drop_last()[i] == v;
                assert(matches[i] == v);
            }
        }
    }
}

/// The position of an event in a list, or the length of the list.
pub open spec fn event_position(ids: Seq<Seq<char>>, id: Seq<char>) -> int
    decreases ids.len(),
{
    if ids.len() == 0 {
        0
    } else if ids[0] == id {
        0
    } else {
        1 + event_position(ids.drop_first(), id)
    }
}

/// The ids of the events of a list.
pub open spec fn event_ids(events: Seq<&EventDto>) -> Seq<Seq<char>> {
    Seq::new(events.len(), |i: int| events[i].event_id@)
}

proof fn lemma_event_position(ids: Seq<Seq<char>>, id: Seq<char>, at: int)
    requires
        0 <= at <= ids.len(),
        forall|k: int| 0 <= k < at ==> ids[k] != id,
        at < ids.len() ==> ids[at] == id,
    ensures
        event_position(ids, id) == at,
    decreases ids.len(),
{
    if ids.len() > 0 && at > 0 {
        assert(ids[0] != id);
        lemma_event_position(ids.drop_first(), id, at - 1);
    }
}

pub fn find_event(events: &[&EventDto], id: &str) -> (at: usize)
    ensures
        at <= events.len(),
        at as int == event_position(event_ids(events@), id@),
{
    let ghost ids = event_ids(events@);
    let mut i: usize = 0;
    while i < events.len()
        invariant
            i <= events.len(),
            ids == event_ids(events@),
            forall|k: int| 0 <= k < i ==> ids[k] != id@,
        decreases events.len() - i,
    {
        if same_text(events[i].event_id.as_str(), id) {
            proof {
                lemma_event_position(ids, id@, i as int);
            }
            return i;
        }
        i = i + 1;
    }
    proof {
        lemma_event_position(ids, id@, i as int);
    }
    i
}

/// The position to select, `offset` away from the selected message and within
/// the list. Without a selected message it is the last one going back, else the
/// first.
pub open spec fn message_target(ids: Seq<Seq<char>>, selected: Option<Seq<char>>, offset: int) -> int {
    let n = ids.len() as int;
    if n == 0 {
        0
    } else if selected is None || event_position(ids, selected->0) >= n {
        if offset < 0 {
            n - 1
        } else {
            0
        }
    } else {
        let at = event_position(ids, selected->0) + offset;
        if at < 0 {
            0
        } else if at >= n {
            n - 1
        } else {
            at
        }
    }
}

pub fn selected_message_target_index(
    events: &[&EventDto],
    selected_message: Option<&str>,
    offset: isize,
) -> (out: usize)
    ensures
        out == message_target(event_ids(events@), option_str_view(selected_message), offset as int),
{
    if events.len() == 0 {
        return 0;
    }
    let last: usize = events.len() - 1;
    let current: usize = match selected_message {
        Some(id) => find_event(events, id),
        None => events.len(),
    };
    if current >= events.len() {
        return if offset < 0 {
            last
        } else {
            0
        };
    }
    if offset < 0 {
        let back: usize = (-(offset + 1)) as usize;
        if current > back {
            current - back - 1
        } else {
            0
        }
    } else {
        let ahead: usize = offset as usize;
        if ahead > last - current {
            last
        } else {
            current + ahead
        }
    }
}

/// The indices of `list` that are equal to the single one there is.
pub fn single_match(indices: Vec<usize>) -> (out: Option<usize>)
    ensures
        out == (if indices@.len() == 1 {
            Some(indices@[0])
        } else {
            None
        }),
{
    if indices.len() == 1 {
        Some(indices[0])
    } else {
        None
    }
}

} // verus!
