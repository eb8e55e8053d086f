//! Showing, selecting and pinning rooms.

use vstd::prelude::*;

use crate::api::dto::{RoomDto, RoomView};
use crate::app::choice::{
    filter_label, filter_token, next_filter, next_sort, room_key, sort_label, sort_token,
    RoomFilter, RoomFilterView, RoomKey, RoomKeyView, RoomSort,
};
use crate::app::rooms::{
    is_likely_dm, likely_dm, list_title, room_list_title_from_cache, rooms_sorted,
    sort_rooms_by_pin_with_title,
};
use crate::app::state::{App, MessagePane, Mode, ModeView, RoomsState, SearchKind};
use crate::app::status::{Status, StatusView};
use crate::app::timeline::{
    contains_ascii_case_insensitive, has_part_ignoring_case, room_found, room_matches_search,
};
use crate::keyed::Key;
use crate::text::{cat2, lowercase, to_lowercase, views};

verus! {

/// The position of a room in a list, or the length of the list.
pub open spec fn room_position(rooms: Seq<RoomView>, key: RoomKeyView) -> int
    decreases rooms.len(),
{
    if rooms.len() == 0 {
        0
    } else if room_key(rooms[0]) == key {
        0
    } else {
        1 + room_position(rooms.drop_first(), key)
    }
}

proof fn lemma_room_position(rooms: Seq<RoomView>, key: RoomKeyView, at: int)
    requires
        0 <= at <= rooms.len(),
        forall|k: int| 0 <= k < at ==> room_key(#[trigger] rooms[k]) != key,
        at < rooms.len() ==> room_key(rooms[at]) == key,
    ensures
        room_position(rooms, key) == at,
    decreases rooms.len(),
{
    if rooms.len() > 0 && at > 0 {
        assert(room_key(rooms[0]) != key);
        let rest = rooms.drop_first();
        assert forall|k: int| 0 <= k < at - 1 implies room_key(#[trigger] rest[k]) != key by {
            assert(rest[k] == rooms[k + 1]);
        }
        lemma_room_position(rest, key, at - 1);
    }
}

pub fn find_room(rooms: &Vec<RoomDto>, key: &RoomKey) -> (at: usize)
    ensures
        at <= rooms.len(),
        at as int == room_position(views(rooms@), key@),
        at < rooms.len() ==> room_key(rooms@[at as int]@) == key@,
        at == rooms.len() ==> forall|k: int|
            0 <= k < rooms.len() ==> room_key(#[trigger] rooms@[k]@) != key@,
{
    let ghost all = views(rooms@);
    let mut i: usize = 0;
    while i < rooms.len()
        invariant
            i <= rooms.len(),
            all == views(rooms@),
            forall|k: int| 0 <= k < i ==> room_key(#[trigger] all[k]) != key@,
            forall|k: int| 0 <= k < i ==> room_key(#[trigger] rooms@[k]@) != key@,
        decreases rooms.len() - i,
    {
        assert(all[i as int] == rooms@[i as int]@);
        if RoomKey::of(&rooms[i]).same(key) {
            proof {
                lemma_room_position(all, key@, i as int);
            }
            return i;
        }
        i = i + 1;
    }
    proof {
        lemma_room_position(all, key@, i as int);
    }
    i
}

/// The names of the order and of the filter, to be kept in the configuration.
#[derive(Debug, Clone, Copy)]
pub struct RoomViewTokens {
    pub sort: &'static str,
    pub filter: &'static str,
}

impl RoomsState {
    pub fn list_title_of(&self, room: &RoomDto) -> (out: String)
        ensures
            out@ == list_title(self.titles@, room@),
    {
        room_list_title_from_cache(&self.titles, room)
    }

    pub fn is_pinned(&self, key: &RoomKey) -> (r: bool)
        ensures
            r == views(self.pinned@).contains(key@),
    {
        let ghost all = views(self.pinned@);
        let mut i: usize = 0;
        while i < self.pinned.len()
            invariant
                i <= self.pinned.len(),
                all == views(self.pinned@),
                forall|k: int| 0 <= k < i ==> all[k] != key@,
            decreases self.pinned.len() - i,
        {
            assert(all[i as int] == self.pinned@[i as int]@);
            if self.pinned[i].same(key) {
                return true;
            }
            i = i + 1;
        }
        false
    }

    /// Whether a room passes the filter.
    pub open spec fn passes(self, room: RoomView) -> bool {
        match self.filter@ {
            RoomFilterView::All => true,
            RoomFilterView::Dms => likely_dm(room),
            RoomFilterView::Groups => !likely_dm(room),
            RoomFilterView::Unread => self.unread@.contains_key(room_key(room))
                && self.unread@[room_key(room)] > 0,
            RoomFilterView::Favorites => views(self.pinned@).contains(room_key(room)),
            RoomFilterView::Name(q) => room_found(room, q) || has_part_ignoring_case(
                list_title(self.titles@, room),
                q,
            ),
        }
    }

    pub fn room_passes_filter(&self, room: &RoomDto) -> (r: bool)
        ensures
            r == self.passes(room@),
    {
        match &self.filter {
            RoomFilter::All => true,
            RoomFilter::Dms => is_likely_dm(room),
            RoomFilter::Groups => !is_likely_dm(room),
            RoomFilter::Unread => match self.unread.get(&RoomKey::of(room)) {
                Some(n) => *n > 0,
                None => false,
            },
            RoomFilter::Favorites => self.is_pinned(&RoomKey::of(room)),
            RoomFilter::Name(q) => {
                let title = self.list_title_of(room);
                room_matches_search(room, q.as_str()) || contains_ascii_case_insensitive(
                    title.as_str(),
                    q.as_str(),
                )
            },
        }
    }

    /// Whether the list shows the room at a position: it is of the account, and
    /// it is selected or passes the filter.
    pub open spec fn room_shown(self, account: Option<u128>, i: int) -> bool {
        let room = self.rooms@[i]@;
        &&& account is None || account->0 == room.account_id
        &&& self.selected == Some(i as usize) || self.passes(room)
    }

    /// The positions among the first `n` that the list shows.
    pub open spec fn shown_among(self, account: Option<u128>, n: int) -> Seq<usize>
        decreases n,
    {
        if n <= 0 {
            Seq::empty()
        } else if self.room_shown(account, n - 1) {
            self.shown_among(account, n - 1).push((n - 1) as usize)
        } else {
            self.shown_among(account, n - 1)
        }
    }

    /// The positions that the list shows.
    #[verifier::opaque]
    pub open spec fn visible(self, account: Option<u128>) -> Seq<usize> {
        self.shown_among(account, self.rooms@.len() as int)
    }

    pub fn visible_indices(&self, account: Option<u128>) -> (out: Vec<usize>)
        ensures
            out@ == self.visible(account),
            forall|k: int| 0 <= k < out@.len() ==> #[trigger] out@[k] < self.rooms@.len(),
    {
        reveal(RoomsState::visible);
        let mut out: Vec<usize> = Vec::new();
        let mut i: usize = 0;
        while i < self.rooms.len()
            invariant
                i <= self.rooms.len(),
                out@ == self.shown_among(account, i as int),
                forall|k: int| 0 <= k < out@.len() ==> #[trigger] out@[k] < i,
            decreases self.rooms.len() - i,
        {
            let room = &self.rooms[i];
            let of_account = match account {
                Some(id) => id == room.account_id,
                None => true,
            };
            let chosen = match self.selected {
                Some(s) => s == i,
                None => false,
            };
            if of_account && (chosen || self.room_passes_filter(room)) {
                out.push(i);
            }
            i = i + 1;
        }
        out
    }

    /// Whether the selected room is shown.
    pub open spec fn selection_shown(self, account: Option<u128>) -> bool {
        self.selected is Some && self.visible(account).contains(self.selected->0)
    }

    /// The room to select: the selected one where it is shown, else the first.
    pub open spec fn kept_or_first(self, account: Option<u128>) -> Option<usize> {
        if self.selection_shown(account) {
            self.selected
        } else if self.visible(account).len() > 0 {
            Some(self.visible(account)[0])
        } else {
            None
        }
    }

    /// Keeps the selection among the rooms that are shown. Says whether it had
    /// to change it.
    pub fn keep_selection_shown(&mut self, account: Option<u128>) -> (changed: bool)
        ensures
            changed == !old(self).selection_shown(account),
            *final(self) == (RoomsState {
                selected: old(self).kept_or_first(account),
                ..*old(self)
            }),
            selection_in_list(*final(self)),
    {
        let visible = self.visible_indices(account);
        let shown = match self.selected {
            Some(s) => contains_index(&visible, s),
            None => false,
        };
        if shown {
            return false;
        }
        self.selected = if visible.len() > 0 {
            Some(visible[0])
        } else {
            None
        };
        true
    }

    fn view_tokens(&self) -> (out: RoomViewTokens)
        ensures
            out.sort@ == sort_token(self.sort),
            out.filter@ == filter_token(self.filter@),
    {
        RoomViewTokens { sort: self.sort.as_config_str(), filter: self.filter.as_config_str() }
    }

    /// The titles of the rooms in the list.
    pub open spec fn list_titles(self) -> Seq<Seq<char>> {
        Seq::new(self.rooms@.len(), |i: int| list_title(self.titles@, self.rooms@[i]@))
    }

    fn title_list(&self) -> (out: Vec<String>)
        ensures
            out@.len() == self.rooms@.len(),
            views(out@) == self.list_titles(),
    {
        let mut out: Vec<String> = Vec::new();
        let mut i: usize = 0;
        while i < self.rooms.len()
            invariant
                i <= self.rooms.len(),
                out.len() == i,
                forall|k: int|
                    0 <= k < i ==> (#[trigger] out@[k])@ == list_title(
                        self.titles@,
                        self.rooms@[k]@,
                    ),
            decreases self.rooms.len() - i,
        {
            out.push(self.list_title_of(&self.rooms[i]));
            i = i + 1;
        }
        assert(views(out@) =~= self.list_titles());
        out
    }

    /// Sorts the rooms again. The selected room stays selected.
    pub fn resort(&mut self)
        ensures
            resorted(*old(self), *final(self)),
            selection_in_list(*old(self)) ==> selection_in_list(*final(self)),
    {
        let chosen = match self.selected {
            Some(i) => if i < self.rooms.len() {
                Some(RoomKey::of(&self.rooms[i]))
            } else {
                None
            },
            None => None,
        };
        let titles = self.title_list();
        let sort = self.sort;
        sort_rooms_by_pin_with_title(
            &mut self.rooms,
            self.pinned.as_slice(),
            sort,
            titles.as_slice(),
        );
        if let Some(key) = chosen {
            let at: usize = find_room(&self.rooms, &key);
            self.selected = if at < self.rooms.len() {
                Some(at)
            } else {
                None
            };
        }
    }
}

/// Whether the selected room is in the list, where one is selected.
pub open spec fn selection_in_list(rooms: RoomsState) -> bool {
    rooms.selected is Some ==> rooms.selected->0 < rooms.rooms@.len()
}

proof fn lemma_position_is_nat(rooms: Seq<RoomView>, key: RoomKeyView)
    ensures
        0 <= room_position(rooms, key) <= rooms.len(),
    decreases rooms.len(),
{
    if rooms.len() > 0 {
        lemma_position_is_nat(rooms.drop_first(), key);
    }
}

/// Where the selection is kept among the rooms that are shown, the selected room is in
/// the list.
pub proof fn law_kept_selection_in_list(rooms: RoomsState, account: Option<u128>)
    ensures
        rooms.kept_or_first(account) is Some ==> rooms.kept_or_first(account)->0
            < rooms.rooms@.len(),
        forall|k: int|
            0 <= k < rooms.visible(account).len() ==> #[trigger] rooms.visible(account)[k]
                < rooms.rooms@.len(),
{
    reveal(RoomsState::visible);
    rooms.lemma_shown_bound(account, rooms.rooms@.len() as int);
}

/// Sorting the list again keeps the selected room in it.
pub proof fn law_resorted_in_list(before: RoomsState, after: RoomsState)
    requires
        resorted(before, after),
        selection_in_list(before),
    ensures
        selection_in_list(after),
{
    let n = after.rooms.len();
    assert(views(after.rooms@).len() == n);
    if before.chosen() is Some {
        lemma_position_is_nat(views(after.rooms@), room_key(before.chosen()->0@));
    }
}

/// Whether `after` is the room list `before` in its order, the same room
/// selected.
pub open spec fn resorted(before: RoomsState, after: RoomsState) -> bool {
    &&& rooms_sorted(
        views(after.rooms@),
        views(before.rooms@),
        before.list_titles(),
        views(before.pinned@),
        before.sort,
    )
    &&& after == (RoomsState { rooms: after.rooms, selected: after.selected, ..before })
    &&& after.selected == (if before.chosen() is Some {
        reselected(views(after.rooms@), room_key(before.chosen()->0@))
    } else {
        before.selected
    })
}

/// Whether a filter was set.
pub open spec fn filter_set(before: App, after: App, filter: RoomFilter, out: RoomViewTokens) -> bool {
    &&& after == (App {
        status: after.status,
        ..(App { rooms: RoomsState { filter, ..before.rooms }, ..before }).synced()
    })
    &&& after.status@ == StatusView::Info("filter: "@ + filter_label(filter@))
    &&& out.sort@ == sort_token(before.rooms.sort)
    &&& out.filter@ == filter_token(filter@)
}

/// Whether an order was set.
pub open spec fn sort_set(before: App, after: App, sort: RoomSort, out: RoomViewTokens) -> bool {
    &&& after == (App {
        status: after.status,
        rooms: after.rooms,
        ..before
    })
    &&& resorted((RoomsState { sort, ..before.rooms }), after.rooms)
    &&& after.status@ == StatusView::Info("sort: "@ + sort_label(sort))
    &&& out.sort@ == sort_token(sort)
    &&& out.filter@ == filter_token(before.rooms.filter@)
}

impl App {
    pub fn room_list_title(&self, room: &RoomDto) -> (out: String)
        ensures
            out@ == list_title(self.rooms.titles@, room@),
    {
        self.rooms.list_title_of(room)
    }

    pub fn is_room_pinned(&self, key: &RoomKey) -> (r: bool)
        ensures
            r == views(self.rooms.pinned@).contains(key@),
    {
        self.rooms.is_pinned(key)
    }

    pub fn visible_room_indices(&self) -> (out: Vec<usize>)
        ensures
            out@ == self.rooms.visible(self.account_shown()),
            forall|k: int| 0 <= k < out@.len() ==> #[trigger] out@[k] < self.rooms.rooms@.len(),
    {
        self.rooms.visible_indices(self.active_account_filter())
    }

    /// What `sync_room_selection_to_account_filter` makes of a state: the
    /// selection is kept among the rooms that are shown; where that changes it,
    /// the pane starts at its bottom.
    pub open spec fn synced(self) -> App {
        let account = self.account_shown();
        App {
            rooms: RoomsState { selected: self.rooms.kept_or_first(account), ..self.rooms },
            messages: if self.rooms.selection_shown(account) {
                self.messages
            } else {
                MessagePane { selection: None, scroll: usize::MAX, ..self.messages }
            },
            ..self
        }
    }

    pub fn sync_room_selection_to_account_filter(&mut self)
        ensures
            *final(self) == old(self).synced(),
            selection_in_list(final(self).rooms),
    {
        let account = self.active_account_filter();
        if self.rooms.keep_selection_shown(account) {
            self.messages.selection = None;
            self.messages.scroll = usize::MAX;
        }
    }

    /// Sets the filter. What comes back is to be kept in the configuration.
    pub fn set_room_filter(&mut self, filter: RoomFilter) -> (out: RoomViewTokens)
        ensures
            filter_set(*old(self), *final(self), filter, out),
            selection_in_list(final(self).rooms),
    {
        self.rooms.filter = filter;
        self.sync_room_selection_to_account_filter();
        let label = self.rooms.filter.label();
        self.status = Status::Info(cat2("filter: ", label.as_str()));
        self.rooms.view_tokens()
    }

    /// To the unread rooms, or back to all where they are shown already.
    pub fn toggle_unread_filter(&mut self) -> (out: RoomViewTokens)
        ensures
            final(self).rooms.filter@ == (if old(self).rooms.filter@ is Unread {
                RoomFilterView::All
            } else {
                RoomFilterView::Unread
            }),
            *final(self) == (App {
                status: final(self).status,
                ..(App {
                    rooms: RoomsState { filter: final(self).rooms.filter, ..old(self).rooms },
                    ..*old(self)
                }).synced()
            }),
            final(self).status@ == StatusView::Info(
                "filter: "@ + filter_label(final(self).rooms.filter@),
            ),
            out.sort@ == sort_token(old(self).rooms.sort),
            out.filter@ == filter_token(final(self).rooms.filter@),
            selection_in_list(final(self).rooms),
    {
        let next = match &self.rooms.filter {
            RoomFilter::Unread => RoomFilter::All,
            _ => RoomFilter::Unread,
        };
        self.set_room_filter(next)
    }

    pub fn cycle_room_filter(&mut self) -> (out: RoomViewTokens)
        ensures
            final(self).rooms.filter@ == next_filter(old(self).rooms.filter@),
            *final(self) == (App {
                status: final(self).status,
                ..(App {
                    rooms: RoomsState { filter: final(self).rooms.filter, ..old(self).rooms },
                    ..*old(self)
                }).synced()
            }),
            final(self).status@ == StatusView::Info(
                "filter: "@ + filter_label(final(self).rooms.filter@),
            ),
            out.filter@ == filter_token(final(self).rooms.filter@),
            out.sort@ == sort_token(old(self).rooms.sort),
            selection_in_list(final(self).rooms),
    {
        let next = self.rooms.filter.next();
        self.set_room_filter(next)
    }

    /// Narrows the list by name while the user types.
    pub fn update_room_name_filter(&mut self, query: &str)
        ensures
            final(self).rooms.filter@ == RoomFilterView::Name(lowercase(query@)),
            *final(self) == (App {
                rooms: RoomsState { filter: final(self).rooms.filter, ..old(self).rooms },
                ..*old(self)
            }).synced(),
            selection_in_list(final(self).rooms),
    {
        self.rooms.filter = RoomFilter::Name(to_lowercase(query));
        self.sync_room_selection_to_account_filter();
    }

    /// Begins to narrow the list by name. The filter is remembered; the name
    /// that is already there is where the user goes on.
    pub fn begin_room_name_filter(&mut self)
        ensures
            final(self).rooms.filter_before_input is Some,
            final(self).rooms.filter_before_input->0@ == old(self).rooms.filter@,
            final(self).mode@ == ModeView::Search(
                SearchKind::RoomNameFilter,
                name_seed(old(self).rooms.filter@),
            ),
            final(self).rooms.filter@ == RoomFilterView::Name(
                lowercase(name_seed(old(self).rooms.filter@)),
            ),
            *final(self) == (App {
                mode: final(self).mode,
                ..(App {
                    rooms: RoomsState {
                        filter: final(self).rooms.filter,
                        filter_before_input: final(self).rooms.filter_before_input,
                        ..old(self).rooms
                    },
                    ..*old(self)
                }).synced()
            }),
            selection_in_list(final(self).rooms),
    {
        let seed = match &self.rooms.filter {
            RoomFilter::Name(q) => q.clone(),
            _ => String::new(),
        };
        assert(seed@ =~= name_seed(self.rooms.filter@));
        self.rooms.filter_before_input = Some(self.rooms.filter.copy());
        self.update_room_name_filter(seed.as_str());
        self.mode = Mode::Search(SearchKind::RoomNameFilter, seed);
    }

    /// Gives narrowing by name up and takes the filter back that was there.
    pub fn cancel_room_name_filter(&mut self)
        ensures
            final(self).rooms.filter == (match old(self).rooms.filter_before_input {
                Some(f) => f,
                None => RoomFilter::All,
            }),
            *final(self) == (App {
                rooms: RoomsState {
                    filter: final(self).rooms.filter,
                    filter_before_input: None,
                    ..old(self).rooms
                },
                ..*old(self)
            }).synced(),
            selection_in_list(final(self).rooms),
    {
        let restored = match self.rooms.filter_before_input.take() {
            Some(f) => f,
            None => RoomFilter::All,
        };
        self.rooms.filter = restored;
        self.sync_room_selection_to_account_filter();
    }

    pub fn set_room_sort(&mut self, sort: RoomSort) -> (out: RoomViewTokens)
        ensures
            sort_set(*old(self), *final(self), sort, out),
            selection_in_list(old(self).rooms) ==> selection_in_list(final(self).rooms),
    {
        self.rooms.sort = sort;
        self.rooms.resort();
        self.status = Status::Info(cat2("sort: ", self.rooms.sort.label()));
        self.rooms.view_tokens()
    }

    pub fn cycle_room_sort(&mut self) -> (out: RoomViewTokens)
        ensures
            *final(self) == (App {
                status: final(self).status,
                rooms: final(self).rooms,
                ..*old(self)
            }),
            resorted(
                (RoomsState { sort: next_sort(old(self).rooms.sort), ..old(self).rooms }),
                final(self).rooms,
            ),
            final(self).status@ == StatusView::Info("sort: "@ + sort_label(final(self).rooms.sort)),
            out.sort@ == sort_token(final(self).rooms.sort),
            out.filter@ == filter_token(old(self).rooms.filter@),
            selection_in_list(old(self).rooms) ==> selection_in_list(final(self).rooms),
    {
        let next = self.rooms.sort.next();
        self.set_room_sort(next)
    }

    /// What is said where the order and the filter could not be kept.
    pub fn room_view_not_saved(&mut self, reason: &str)
        ensures
            *final(self) == (App { status: final(self).status, ..*old(self) }),
            final(self).status@ == StatusView::Info("config save failed: "@ + reason@),
    {
        self.status = Status::Info(cat2("config save failed: ", reason));
    }
}

/// What the user goes on typing when a name filter is begun.
pub open spec fn name_seed(filter: RoomFilterView) -> Seq<char> {
    match filter {
        RoomFilterView::Name(q) => q,
        _ => Seq::empty(),
    }
}

/// The position of a room that is to be selected again.
pub open spec fn reselected(rooms: Seq<RoomView>, key: RoomKeyView) -> Option<usize> {
    if room_position(rooms, key) < rooms.len() {
        Some(room_position(rooms, key) as usize)
    } else {
        None
    }
}

pub fn contains_index(list: &Vec<usize>, index: usize) -> (r: bool)
    ensures
        r == list@.contains(index),
{
    let mut i: usize = 0;
    while i < list.len()
        invariant
            i <= list.len(),
            forall|k: int| 0 <= k < i ==> list@[k] != index,
        decreases list.len() - i,
    {
        if list[i] == index {
            return true;
        }
        i = i + 1;
    }
    false
}

/// The position of an index in a list, or the length of the list.
pub fn index_position(list: &Vec<usize>, index: usize) -> (at: usize)
    ensures
        at <= list@.len(),
        at < list@.len() ==> list@[at as int] == index,
        forall|k: int| 0 <= k < at ==> list@[k] != index,
{
    let mut i: usize = 0;
    while i < list.len()
        invariant
            i <= list.len(),
            forall|k: int| 0 <= k < i ==> list@[k] != index,
        decreases list.len() - i,
    {
        if list[i] == index {
            return i;
        }
        i = i + 1;
    }
    i
}

pub proof fn lemma_shown_among(rooms: RoomsState, account: Option<u128>, n: int, k: int)
    requires
        0 <= k < n <= rooms.rooms@.len(),
        rooms.room_shown(account, k),
    ensures
        rooms.shown_among(account, n).contains(k as usize),
    decreases n,
{
    let all = rooms.shown_among(account, n);
    if k == n - 1 {
        assert(all.last() == k as usize);
    } else {
        lemma_shown_among(rooms, account, n - 1, k);
        let before = rooms.shown_among(account, n - 1);
        let i = choose|i: int| 0 <= i < before.len() && before[i] == k as usize;
        assert(all[i] == k as usize);
    }
}

/// A selected room of the shown account stays in the list whatever the filter.
pub proof fn law_selected_room_stays_shown(rooms: RoomsState, account: Option<u128>, i: usize)
    requires
        rooms.selected == Some(i),
        i < rooms.rooms@.len(),
        account is None || account->0 == rooms.rooms@[i as int].account_id,
    ensures
        rooms.visible(account).contains(i),
        rooms.kept_or_first(account) == Some(i),
{
    reveal(RoomsState::visible);
    lemma_shown_among(rooms, account, rooms.rooms@.len() as int, i as int);
}

pub proof fn lemma_shown_are_of_account(rooms: RoomsState, account: Option<u128>, n: int, k: int)
    requires
        0 <= n <= rooms.rooms@.len(),
        rooms.rooms@.len() <= usize::MAX,
        0 <= k < rooms.shown_among(account, n).len(),
    ensures
        rooms.shown_among(account, n)[k] < n,
        rooms.room_shown(account, rooms.shown_among(account, n)[k] as int),
    decreases n,
{
    if n > 0 {
        let before = rooms.shown_among(account, n - 1);
        if k < before.len() {
            lemma_shown_are_of_account(rooms, account, n - 1, k);
        }
    }
}

/// Every room that is shown is of the shown account, and is selected or passes
/// the filter.
pub proof fn law_shown_rooms(rooms: RoomsState, account: Option<u128>, k: int)
    requires
        rooms.rooms@.len() <= usize::MAX,
        0 <= k < rooms.visible(account).len(),
    ensures
        rooms.visible(account)[k] < rooms.rooms@.len(),
        rooms.room_shown(account, rooms.visible(account)[k] as int),
{
    reveal(RoomsState::visible);
    lemma_shown_are_of_account(rooms, account, rooms.rooms@.len() as int, k);
}

} // verus!
