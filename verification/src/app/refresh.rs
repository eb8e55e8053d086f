//! What a new list of rooms or accounts changes.

use vstd::prelude::*;

use crate::api::dto::{AccountDto, MemberDto, RoomDto, RoomView};
use crate::app::accounts::{accounts_kept, find_account, inactive_of, kept_selection};
use crate::app::choice::{room_key, AccountSelection, RoomKey, RoomKeyView};
use crate::app::room_list::{find_room, reselected, room_position, selection_in_list};
use crate::app::rooms::{
    dm_title_from_members, is_likely_dm, likely_dm, list_title, room_list_title_from_cache,
    rooms_sorted, sort_rooms_by_pin_with_title, titled_by_members, ROOM_TITLE_DEFAULT_PAGE, ROOM_TITLE_LOOKAHEAD,
};
use crate::app::state::{App, DeviceState, LiveState, MessagePane, RoomsState, ThreadState};
use crate::app::status::{Status, StatusView};
use crate::keyed::KeyedMap;
use crate::text::{
    cat3, decimal, decimal_usize, option_str, option_str_view, option_view, views,
};

verus! {

// ---------------------------------------------------------------------------
// Rooms
// ---------------------------------------------------------------------------

/// The rooms of a list whose accounts are not known to be inactive.
pub open spec fn rooms_kept(rooms: Seq<RoomView>, inactive: Seq<u128>) -> Seq<RoomView>
    decreases rooms.len(),
{
    if rooms.len() == 0 {
        Seq::empty()
    } else {
        let before = rooms_kept(rooms.drop_last(), inactive);
        if inactive.contains(rooms.last().account_id) {
            before
        } else {
            before.push(rooms.last())
        }
    }
}

/// The titles of rooms in the list.
pub open spec fn titles_for(titles: Map<RoomKeyView, String>, rooms: Seq<RoomView>) -> Seq<
    Seq<char>,
> {
    Seq::new(rooms.len(), |i: int| list_title(titles, rooms[i]))
}

/// The rooms of a list that another list lacks.
pub open spec fn keys_gone(before: Seq<RoomView>, after: Seq<RoomView>) -> Seq<RoomKeyView>
    decreases before.len(),
{
    if before.len() == 0 {
        Seq::empty()
    } else {
        let gone = keys_gone(before.drop_last(), after);
        if room_position(after, room_key(before.last())) == after.len() {
            gone.push(room_key(before.last()))
        } else {
            gone
        }
    }
}

/// The position at which a new list selects a room: that of the room that was
/// selected, or else the position that was, where the list has it.
pub open spec fn reselected_in(before: RoomsState, after: Seq<RoomView>) -> Option<usize> {
    let kept = match before.chosen() {
        Some(room) => reselected(after, room_key(room@)),
        None => None,
    };
    if kept is Some {
        kept
    } else if before.selected is Some && before.selected->0 < after.len() {
        before.selected
    } else {
        None
    }
}

impl RoomsState {
    fn replace_rooms(&mut self, rooms: Vec<RoomDto>) -> (gone: Vec<RoomKey>)
        ensures
            rooms_sorted(
                views(final(self).rooms@),
                views(rooms@),
                titles_for(old(self).titles@, views(rooms@)),
                views(old(self).pinned@),
                old(self).sort,
            ),
            views(gone@) == keys_gone(views(old(self).rooms@), views(final(self).rooms@)),
            *final(self) == (RoomsState {
                rooms: final(self).rooms,
                selected: reselected_in(*old(self), views(final(self).rooms@)),
                ..*old(self)
            }),
    {
        let mut titles: Vec<String> = Vec::new();
        let mut i: usize = 0;
        while i < rooms.len()
            invariant
                i <= rooms.len(),
                titles.len() == i,
                forall|k: int|
                    0 <= k < i ==> (#[trigger] titles@[k])@ == list_title(
                        self.titles@,
                        rooms@[k]@,
                    ),
            decreases rooms.len() - i,
        {
            titles.push(room_list_title_from_cache(&self.titles, &rooms[i]));
            i = i + 1;
        }
        assert(views(titles@) =~= titles_for(self.titles@, views(rooms@)));
        let mut sorted = rooms;
        sort_rooms_by_pin_with_title(
            &mut sorted,
            self.pinned.as_slice(),
            self.sort,
            titles.as_slice(),
        );
        let chosen = match self.selected {
            Some(s) => if s < self.rooms.len() {
                Some(RoomKey::of(&self.rooms[s]))
            } else {
                None
            },
            None => None,
        };
        let ghost all = views(self.rooms@);
        let mut gone: Vec<RoomKey> = Vec::new();
        let mut j: usize = 0;
        assert(views(gone@) =~= Seq::<RoomKeyView>::empty());
        while j < self.rooms.len()
            invariant
                j <= self.rooms.len(),
                all == views(self.rooms@),
                views(gone@) == keys_gone(all.take(j as int), views(sorted@)),
            decreases self.rooms.len() - j,
        {
            let ghost before = views(gone@);
            assert(all.take(j + 1).drop_last() =~= all.take(j as int));
            assert(all.take(j + 1).last() == self.rooms@[j as int]@);
            let key = RoomKey::of(&self.rooms[j]);
            if find_room(&sorted, &key) == sorted.len() {
                let ghost k = key@;
                gone.push(key);
                assert(views(gone@) =~= before.push(k));
            }
            j = j + 1;
        }
        assert(all.take(j as int) =~= all);
        let kept = match &chosen {
            Some(key) => {
                let at: usize = find_room(&sorted, key);
                if at < sorted.len() {
                    Some(at)
                } else {
                    None
                }
            },
            None => None,
        };
        let selected = if kept.is_some() {
            kept
        } else {
            match self.selected {
                Some(s) => if s < sorted.len() {
                    Some(s)
                } else {
                    None
                },
                None => None,
            }
        };
        self.rooms = sorted;
        self.selected = selected;
        gone
    }
}

proof fn lemma_set_of_push(keys: Seq<RoomKeyView>, key: RoomKeyView)
    ensures
        keys.push(key).to_set() == keys.to_set().insert(key),
{
    let more = keys.push(key);
    assert forall|k: RoomKeyView| #[trigger] more.to_set().contains(k) <==> keys.to_set().insert(
        key,
    ).contains(k) by {
        if keys.contains(k) {
            let p = choose|p: int| 0 <= p < keys.len() && keys[p] == k;
            assert(more[p] == k);
        }
        if more.contains(k) {
            let p = choose|p: int| 0 <= p < more.len() && more[p] == k;
            if p < keys.len() {
                assert(keys[p] == k);
            }
        }
        assert(more[keys.len() as int] == key);
    }
    assert(more.to_set() =~= keys.to_set().insert(key));
}

/// Takes keys out of a map.
pub fn remove_all<V>(map: &mut KeyedMap<RoomKey, V>, gone: &Vec<RoomKey>)
    ensures
        final(map)@ == old(map)@.remove_keys(views(gone@).to_set()),
{
    let mut i: usize = 0;
    let ghost all = views(gone@);
    assert(map@.remove_keys(all.take(0).to_set()) =~= map@);
    while i < gone.len()
        invariant
            i <= gone.len(),
            all == views(gone@),
            map@ == old(map)@.remove_keys(all.take(i as int).to_set()),
        decreases gone.len() - i,
    {
        let _ = map.remove(&gone[i]);
        proof {
            assert(all.take(i + 1) =~= all.take(i as int).push(gone@[i as int]@));
            lemma_set_of_push(all.take(i as int), gone@[i as int]@);
            assert(map@ =~= old(map)@.remove_keys(all.take(i + 1).to_set()));
        }
        i = i + 1;
    }
    assert(all.take(i as int) =~= all);
}

/// Whether everything that was known of rooms that are gone was forgotten, and
/// nothing else.
pub open spec fn pruned(before: App, after: App, gone: Set<RoomKeyView>) -> bool {
    &&& after.rooms == (RoomsState {
        display_names: after.rooms.display_names,
        unread: after.rooms.unread,
        titles: after.rooms.titles,
        without_title: after.rooms.without_title,
        ..before.rooms
    })
    &&& after.rooms.display_names@ == before.rooms.display_names@.remove_keys(gone)
    &&& after.rooms.unread@ == before.rooms.unread@.remove_keys(gone)
    &&& after.rooms.titles@ == before.rooms.titles@.remove_keys(gone)
    &&& after.rooms.without_title@ == before.rooms.without_title@.remove_keys(gone)
    &&& after.messages == (MessagePane {
        events: after.messages.events,
        history_cursors: after.messages.history_cursors,
        ..before.messages
    })
    &&& after.messages.events@ == before.messages.events@.remove_keys(gone)
    &&& after.messages.history_cursors@ == before.messages.history_cursors@.remove_keys(gone)
    &&& after.threads == (ThreadState {
        summaries: after.threads.summaries,
        unread: after.threads.unread,
        ..before.threads
    })
    &&& after.threads.summaries@ == before.threads.summaries@.remove_keys(gone)
    &&& after.threads.unread@ == before.threads.unread@.remove_keys(gone)
    &&& after.device == (DeviceState {
        drafts_written_since_fetch: after.device.drafts_written_since_fetch,
        ..before.device
    })
    &&& after.device.drafts_written_since_fetch@
        == before.device.drafts_written_since_fetch@.remove_keys(gone)
    &&& after == (App {
        rooms: after.rooms,
        messages: after.messages,
        threads: after.threads,
        device: after.device,
        ..before
    })
}

impl App {
    fn prune_room_caches(&mut self, gone: &Vec<RoomKey>)
        ensures
            pruned(*old(self), *final(self), views(gone@).to_set()),
    {
        remove_all(&mut self.rooms.display_names, gone);
        remove_all(&mut self.rooms.unread, gone);
        remove_all(&mut self.rooms.titles, gone);
        remove_all(&mut self.messages.events, gone);
        remove_all(&mut self.messages.history_cursors, gone);
        remove_all(&mut self.threads.summaries, gone);
        remove_all(&mut self.rooms.without_title, gone);
        remove_all(&mut self.device.drafts_written_since_fetch, gone);
        remove_all(&mut self.threads.unread, gone);
    }
}

/// The user ids of the accounts, as the rooms tell them.
pub open spec fn senders_of(
    known: Map<u128, Seq<char>>,
    rooms: Seq<RoomView>,
) -> Map<u128, Seq<char>>
    decreases rooms.len(),
{
    if rooms.len() == 0 {
        known
    } else {
        let before = senders_of(known, rooms.drop_last());
        match rooms.last().account_user_id {
            Some(user_id) => before.insert(rooms.last().account_id, user_id),
            None => before,
        }
    }
}

/// The texts that a map holds.
pub open spec fn texts<K>(map: Map<K, String>) -> Map<K, Seq<char>> {
    map.map_values(|s: String| s@)
}

impl App {
    pub fn seed_own_senders_from_rooms(&mut self)
        ensures
            *final(self) == (App { live: final(self).live, ..*old(self) }),
            final(self).live == (LiveState {
                own_senders: final(self).live.own_senders,
                ..old(self).live
            }),
            texts(final(self).live.own_senders@) == senders_of(
                texts(old(self).live.own_senders@),
                views(old(self).rooms.rooms@),
            ),
    {
        let ghost all = views(self.rooms.rooms@);
        let ghost known = texts(self.live.own_senders@);
        let mut i: usize = 0;
        while i < self.rooms.rooms.len()
            invariant
                i <= self.rooms.rooms.len(),
                all == views(self.rooms.rooms@),
                *self == (App { live: self.live, ..*old(self) }),
                self.live == (LiveState { own_senders: self.live.own_senders, ..old(self).live }),
                texts(self.live.own_senders@) == senders_of(known, all.take(i as int)),
            decreases self.rooms.rooms.len() - i,
        {
            assert(all.take(i + 1).drop_last() =~= all.take(i as int));
            assert(all.take(i + 1).last() == self.rooms.rooms@[i as int]@);
            let ghost before = texts(self.live.own_senders@);
            match &self.rooms.rooms[i].account_user_id {
                Some(user_id) => {
                    let id = self.rooms.rooms[i].account_id;
                    self.live.own_senders.insert(id, user_id.clone());
                    assert(texts(self.live.own_senders@) =~= before.insert(id, user_id@));
                },
                None => {},
            }
            i = i + 1;
        }
        assert(all.take(i as int) =~= all);
    }
}

// ---------------------------------------------------------------------------
// Titles
// ---------------------------------------------------------------------------

/// The part of the list whose titles are fetched: the window and a few rows
/// beyond it.
pub open spec fn title_window(scroll: int, page_size: int, len: int) -> (int, int) {
    let page = if page_size == 0 {
        ROOM_TITLE_DEFAULT_PAGE as int
    } else {
        page_size
    };
    let reach = scroll + page + ROOM_TITLE_LOOKAHEAD;
    let end = if reach < len {
        reach
    } else {
        len
    };
    let start = if scroll < ROOM_TITLE_LOOKAHEAD {
        0
    } else {
        scroll - ROOM_TITLE_LOOKAHEAD
    };
    (if start < end {
        start
    } else {
        end
    }, end)
}

impl RoomsState {
    /// Whether a title is to be made of the members of a room.
    pub open spec fn wants_title(self, room: RoomView) -> bool {
        likely_dm(room) && !self.titles@.dom().contains(room_key(room))
            && !self.without_title@.dom().contains(room_key(room))
    }

    /// The rooms at positions of the list that want a title.
    pub open spec fn wanting_titles(self, positions: Seq<usize>) -> Seq<RoomKeyView>
        decreases positions.len(),
    {
        if positions.len() == 0 {
            Seq::empty()
        } else {
            let before = self.wanting_titles(positions.drop_last());
            let room = self.rooms@[positions.last() as int]@;
            if self.wants_title(room) {
                before.push(room_key(room))
            } else {
                before
            }
        }
    }

    /// The rooms on the screen, or near it, whose members are to be fetched.
    pub open spec fn titles_to_fetch(self, account: Option<u128>) -> Seq<RoomKeyView> {
        let visible = self.visible(account);
        let (start, end) = title_window(
            self.scroll as int,
            self.page_size as int,
            visible.len() as int,
        );
        self.wanting_titles(visible.subrange(start, end))
    }

    pub fn sweep_titles(&self, account: Option<u128>) -> (out: Vec<RoomKey>)
        ensures
            views(out@) == self.titles_to_fetch(account),
    {
        let visible = self.visible_indices(account);
        let page: usize = if self.page_size == 0 {
            ROOM_TITLE_DEFAULT_PAGE
        } else {
            self.page_size
        };
        let reach: u128 = self.scroll as u128 + page as u128 + ROOM_TITLE_LOOKAHEAD as u128;
        let end: usize = if reach < visible.len() as u128 {
            self.scroll + page + ROOM_TITLE_LOOKAHEAD
        } else {
            visible.len()
        };
        let from: usize = if self.scroll < ROOM_TITLE_LOOKAHEAD {
            0
        } else {
            self.scroll - ROOM_TITLE_LOOKAHEAD
        };
        let start: usize = if from < end {
            from
        } else {
            end
        };
        let ghost window = visible@.subrange(start as int, end as int);
        let mut out: Vec<RoomKey> = Vec::new();
        let mut i: usize = start;
        assert(views(out@) =~= Seq::<RoomKeyView>::empty());
        while i < end
            invariant
                start <= i <= end <= visible.len(),
                window == visible@.subrange(start as int, end as int),
                forall|k: int| 0 <= k < visible@.len() ==> #[trigger] visible@[k] < self.rooms@.len(),
                views(out@) == self.wanting_titles(window.take(i - start)),
            decreases end - i,
        {
            let ghost before = views(out@);
            let at: usize = visible[i];
            let room = &self.rooms[at];
            assert(window.take(i - start + 1).drop_last() =~= window.take(i - start));
            assert(window.take(i - start + 1).last() == at);
            let key = RoomKey::of(room);
            if is_likely_dm(room) && !self.titles.contains_key(&key)
                && !self.without_title.contains_key(&key) {
                let ghost k = key@;
                out.push(key);
                assert(views(out@) =~= before.push(k));
            }
            i = i + 1;
        }
        assert(window.take(end - start) =~= window);
        out
    }
}

/// The members of a room that were read. There are none where the read failed.
#[derive(Debug)]
pub struct MembersOutcome {
    pub room_key: RoomKey,
    pub members: Option<Vec<MemberDto>>,
}

/// The user that an account is in a room as, where the room is listed and names it.
pub open spec fn own_user_in(rooms: Seq<RoomView>, key: RoomKeyView) -> Option<Seq<char>> {
    if room_position(rooms, key) < rooms.len() {
        rooms[room_position(rooms, key)].account_user_id
    } else {
        None
    }
}

/// Whether the title that members give a room is kept, or it is noted that they give
/// none.
pub open spec fn title_settled(
    before: RoomsState,
    after: RoomsState,
    key: RoomKeyView,
    title: Option<Seq<char>>,
) -> bool {
    &&& after == (RoomsState {
        titles: after.titles,
        without_title: after.without_title,
        ..before
    })
    &&& match title {
        Some(t) => {
            &&& after.titles@ == before.titles@.insert(key, after.titles@[key])
            &&& after.titles@[key]@ == t
            &&& after.without_title@ == before.without_title@.remove(key)
        },
        None => {
            &&& after.titles@ == before.titles@
            &&& after.without_title@ == before.without_title@.insert(key, ())
        },
    }
}

impl App {
    /// Takes over the members of a room. The title that they give is kept, and it is
    /// noted where they give none, so that the room is not asked for again. A read that
    /// failed says nothing.
    pub fn apply_members_outcome(&mut self, outcome: MembersOutcome)
        ensures
            match outcome.members {
                Some(members) => {
                    &&& *final(self) == (App { rooms: final(self).rooms, ..*old(self) })
                    &&& exists|title: Option<Seq<char>>|
                        {
                            &&& titled_by_members(
                                title,
                                own_user_in(views(old(self).rooms.rooms@), outcome.room_key@),
                                views(members@),
                            )
                            &&& #[trigger] title_settled(
                                old(self).rooms,
                                final(self).rooms,
                                outcome.room_key@,
                                title,
                            )
                        }
                },
                None => *final(self) == *old(self),
            },
    {
        let key = outcome.room_key;
        let members = match outcome.members {
            Some(members) => members,
            None => return ,
        };
        let ghost k = key@;
        let at: usize = find_room(&self.rooms.rooms, &key);
        assert(views(self.rooms.rooms@).len() == self.rooms.rooms@.len());
        let own = if at < self.rooms.rooms.len() {
            option_str(&self.rooms.rooms[at].account_user_id)
        } else {
            None
        };
        assert(option_str_view(own) == own_user_in(views(self.rooms.rooms@), k));
        let title = dm_title_from_members(own, members.as_slice());
        let ghost found = option_view(title);
        match title {
            Some(t) => {
                let _ = self.rooms.without_title.remove(&key);
                self.rooms.titles.insert(key, t);
            },
            None => {
                self.rooms.without_title.insert(key, ());
            },
        }
        assert(title_settled(old(self).rooms, self.rooms, k, found));
    }
}

/// A room whose members were read is not asked for again, whether they give a title or
/// not.
pub proof fn law_title_is_asked_once(
    before: RoomsState,
    after: RoomsState,
    room: RoomView,
    title: Option<Seq<char>>,
)
    requires
        title_settled(before, after, room_key(room), title),
    ensures
        !after.wants_title(room),
{
}

// ---------------------------------------------------------------------------
// The refresh
// ---------------------------------------------------------------------------

/// What is said of a new list of rooms.
pub open spec fn refresh_text(count: nat, kept: bool) -> Seq<char> {
    if count == 0 {
        "no rooms returned by Axon"@
    } else if kept {
        "refreshed "@ + decimal(count) + " rooms"@
    } else {
        "loaded "@ + decimal(count) + " rooms"@
    }
}

fn describe_refresh(count: usize, kept: bool) -> (out: String)
    ensures
        out@ == refresh_text(count as nat, kept),
{
    let n = decimal_usize(count);
    if count == 0 {
        "no rooms returned by Axon".to_owned()
    } else if kept {
        cat3("refreshed ", n.as_str(), " rooms")
    } else {
        cat3("loaded ", n.as_str(), " rooms")
    }
}

/// Whether a state holds a new list of rooms: those of accounts that are not known
/// to be inactive, in their order; what was known of rooms that are gone is
/// forgotten; the room that was selected stays so where it is still shown.
pub open spec fn rooms_refreshed(before: App, after: App, rooms: Seq<RoomView>) -> bool {
    let kept = rooms_kept(rooms, before.accounts.inactive_ids@);
    let gone = keys_gone(views(before.rooms.rooms@), views(after.rooms.rooms@)).to_set();
    let listed = RoomsState {
        rooms: after.rooms.rooms,
        selected: reselected_in(before.rooms, views(after.rooms.rooms@)),
        ..before.rooms
    };
    let account = before.account_shown();
    let middle = RoomsState { selected: listed.selected, ..after.rooms };
    &&& rooms_sorted(
        views(after.rooms.rooms@),
        kept,
        titles_for(before.rooms.titles@, kept),
        views(before.rooms.pinned@),
        before.rooms.sort,
    )
    &&& pruned(
        App { rooms: listed, ..before },
        App { rooms: middle, live: before.live, status: before.status, ..after },
        gone,
    )
    &&& after.live == (LiveState { own_senders: after.live.own_senders, ..before.live })
    &&& texts(after.live.own_senders@) == senders_of(
        texts(before.live.own_senders@),
        views(after.rooms.rooms@),
    )
    &&& after.rooms.selected == middle.kept_or_first(account)
    &&& if before.mid_command() {
        after.status == before.status
    } else {
        after.status@ == StatusView::Info(
            refresh_text(after.rooms.rooms@.len(), middle.selection_shown(account)),
        )
    }
}

impl App {
    fn keep_active_rooms(&self, rooms: Vec<RoomDto>) -> (out: Vec<RoomDto>)
        ensures
            views(out@) == rooms_kept(views(rooms@), self.accounts.inactive_ids@),
    {
        let ghost all = views(rooms@);
        let ghost given = rooms@;
        let mut rest = rooms;
        let mut taken: Vec<RoomDto> = Vec::new();
        assert(given.take(given.len() as int) =~= given);
        while rest.len() > 0
            invariant
                rest.len() + taken.len() == given.len(),
                rest@ == given.take(rest.len() as int),
                forall|k: int|
                    0 <= k < taken@.len() ==> #[trigger] taken@[k] == given[given.len() - 1 - k],
            decreases rest.len(),
        {
            let room = rest.remove(rest.len() - 1);
            taken.push(room);
        }
        let mut out: Vec<RoomDto> = Vec::new();
        assert(views(out@) =~= Seq::<RoomView>::empty());
        while taken.len() > 0
            invariant
                taken.len() <= given.len(),
                all == views(given),
                forall|k: int|
                    0 <= k < taken@.len() ==> #[trigger] taken@[k] == given[given.len() - 1 - k],
                views(out@) == rooms_kept(
                    all.take(given.len() - taken.len()),
                    self.accounts.inactive_ids@,
                ),
            decreases taken.len(),
        {
            let ghost n = given.len() - taken.len();
            let ghost before = views(out@);
            assert(all.take(n + 1).drop_last() =~= all.take(n));
            let room = taken.remove(taken.len() - 1);
            assert(room == given[n]);
            assert(all.take(n + 1).last() == room@);
            if !self.is_known_inactive_account(room.account_id) {
                let ghost v = room@;
                out.push(room);
                assert(views(out@) =~= before.push(v));
            }
        }
        assert(all.take(given.len() as int) =~= all);
        out
    }

    /// Takes over a new list of rooms. The result names the rooms whose members
    /// are to be fetched for their titles.
    pub fn apply_room_refresh(&mut self, rooms: Vec<RoomDto>) -> (fetch: Vec<RoomKey>)
        ensures
            rooms_refreshed(*old(self), *final(self), views(rooms@)),
            selection_in_list(final(self).rooms),
            views(fetch@) == final(self).rooms.titles_to_fetch(old(self).account_shown()),
    {
        let account = self.active_account_filter();
        let busy = self.is_mid_command();
        let kept = self.keep_active_rooms(rooms);
        let gone = self.rooms.replace_rooms(kept);
        self.prune_room_caches(&gone);
        self.seed_own_senders_from_rooms();
        let ghost middle = self.rooms;
        let changed = self.rooms.keep_selection_shown(account);
        if !busy {
            let text = describe_refresh(self.rooms.rooms.len(), !changed);
            self.status = Status::Info(text);
        }
        assert(middle == (RoomsState { selected: middle.selected, ..self.rooms }));
        self.rooms.sweep_titles(account)
    }

    pub fn sweep_visible_room_titles(&self) -> (out: Vec<RoomKey>)
        ensures
            views(out@) == self.rooms.titles_to_fetch(self.account_shown()),
    {
        self.rooms.sweep_titles(self.active_account_filter())
    }

    /// Takes over a new list of accounts. The account that the client was started
    /// for is selected, unless the user selected another.
    pub fn apply_account_refresh(&mut self, accounts: Vec<AccountDto>)
        ensures
            *final(self) == (App { accounts: final(self).accounts, ..*old(self) }),
            final(self).accounts.client_visible == accounts,
            final(self).accounts.inactive_ids@ == inactive_of(views(accounts@)),
            views(final(self).accounts.accounts@) == accounts_kept(
                views(accounts@),
                old(self).account_filter,
            ),
            final(self).accounts.scroll == old(self).accounts.scroll,
            final(self).accounts.page_size == old(self).accounts.page_size,
            final(self).accounts.selected == ({
                let shown = views(final(self).accounts.accounts@);
                let kept = kept_selection(old(self).account_shown(), shown);
                if kept == AccountSelection::All {
                    kept_selection(old(self).account_filter, shown)
                } else {
                    kept
                }
            }),
    {
        self.set_accounts(accounts);
        if self.accounts.selected == AccountSelection::All {
            if let Some(id) = self.account_filter {
                let at: usize = find_account(&self.accounts.accounts, id);
                if at < self.accounts.accounts.len() {
                    self.accounts.selected = AccountSelection::Account(at);
                }
            }
        }
    }
}

} // verus!
