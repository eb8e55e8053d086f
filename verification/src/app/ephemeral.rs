//! What others are doing: who is typing, and who has read what.
//!
//! Notices of typing are never kept: each is dropped after a while, and all of them
//! when the connection is made again, since the notice that ends one may be lost.

use vstd::prelude::*;

use crate::api::dto::{EphemeralPassthroughDto, EventDto, EventView};
use crate::app::accounts::{account_position, find_account};
use crate::app::choice::{room_key, RoomKey, RoomKeyView};
use crate::app::drafts::held;
use crate::app::reactions::with_text;
use crate::app::refresh::{remove_all, texts};
use crate::app::state::{App, EphemeralState, TypingEntry};
use crate::json::{Json, JsonView};
use crate::keyed::{Key, KeyedMap};
use crate::order::{sort_texts, text_sorted};
use crate::text::{cat2, cat4, cat5, decimal, decimal_usize, is_blank, is_listed, join, joined, option_str, option_str_view, option_view, same_text, text_is_blank, views};

verus! {

/// Milliseconds that a notice of typing is shown for at most.
pub const TYPING_TTL: u64 = 30_000;

// ---------------------------------------------------------------------------
// Notices
// ---------------------------------------------------------------------------

/// The texts of a list, each once; none where not all of it are texts.
pub open spec fn texts_once(items: Seq<JsonView>) -> Option<Seq<Seq<char>>>
    decreases items.len(),
{
    if items.len() == 0 {
        Some(Seq::empty())
    } else {
        match (texts_once(items.drop_last()), items.last().text()) {
            (Some(list), Some(t)) => Some(with_text(list, t)),
            _ => None,
        }
    }
}

/// The users that a notice says are typing; none where it says it in another way.
pub open spec fn typing_users(content: JsonView) -> Option<Seq<Seq<char>>> {
    match content.get("user_ids"@) {
        Some(JsonView::Array(items)) => texts_once(items),
        _ => None,
    }
}

pub open spec fn texts_view(list: Option<Vec<String>>) -> Option<Seq<Seq<char>>> {
    match list {
        Some(v) => Some(views(v@)),
        None => None,
    }
}

proof fn lemma_none_stays(items: Seq<JsonView>, n: int)
    requires
        0 <= n <= items.len(),
        texts_once(items.take(n)) is None,
    ensures
        texts_once(items) is None,
    decreases items.len(),
{
    if n == items.len() {
        assert(items.take(n) =~= items);
    } else {
        assert(items.drop_last().take(n) =~= items.take(n));
        lemma_none_stays(items.drop_last(), n);
    }
}

pub fn parse_typing(content: &Json) -> (out: Option<Vec<String>>)
    ensures
        texts_view(out) == typing_users(content@),
{
    let list = match content.get("user_ids") {
        Some(j) => j,
        None => return None,
    };
    match list {
        Json::Array(items) => {
            let ghost all = list@->Array_0;
            let mut users: Vec<String> = Vec::new();
            let mut i: usize = 0;
            assert(views(users@) =~= Seq::<Seq<char>>::empty());
            assert(all.take(0) =~= Seq::<JsonView>::empty());
            while i < items.len()
                invariant
                    i <= items.len(),
                    *list == Json::Array(*items),
                    all == list@->Array_0,
                    all.len() == items@.len(),
                    typing_users(content@) == texts_once(all),
                    texts_once(all.take(i as int)) == Some(views(users@)),
                decreases items.len() - i,
            {
                let ghost before = views(users@);
                assert(all.take(i + 1).drop_last() =~= all.take(i as int));
                assert(all.take(i + 1).last() == items@[i as int]@);
                match items[i].text() {
                    Some(user) => {
                        if !is_listed(users.as_slice(), user) {
                            users.push(user.to_owned());
                            assert(views(users@) =~= before.push(user@));
                        }
                    },
                    None => {
                        proof {
                            assert(texts_once(all.take(i + 1)) is None);
                            lemma_none_stays(all, i + 1);
                        }
                        return None;
                    },
                }
                i = i + 1;
            }
            assert(all.take(i as int) =~= all);
            Some(users)
        },
        _ => None,
    }
}

/// The users that read an event, as a receipt says it. What a user reads in private is
/// left out.
pub open spec fn readers_of(event: (Seq<char>, JsonView)) -> Seq<(Seq<char>, Seq<char>)> {
    match event.1.get("m.read"@) {
        Some(JsonView::Object(readers)) => Seq::new(
            readers.len(),
            |i: int| (event.0, readers[i].0),
        ),
        _ => Seq::empty(),
    }
}

/// Events and the users that read them.
pub open spec fn reads_in(members: Seq<(Seq<char>, JsonView)>) -> Seq<(Seq<char>, Seq<char>)>
    decreases members.len(),
{
    if members.len() == 0 {
        Seq::empty()
    } else {
        reads_in(members.drop_last()) + readers_of(members.last())
    }
}

pub open spec fn public_reads(content: JsonView) -> Seq<(Seq<char>, Seq<char>)> {
    match content {
        JsonView::Object(members) => reads_in(members),
        _ => Seq::empty(),
    }
}

pub open spec fn pair_views(pairs: Seq<(String, String)>) -> Seq<(Seq<char>, Seq<char>)> {
    Seq::new(pairs.len(), |i: int| (pairs[i].0@, pairs[i].1@))
}

fn push_readers(pairs: &mut Vec<(String, String)>, event_id: &String, receipts: &Json)
    ensures
        pair_views(final(pairs)@) == pair_views(old(pairs)@) + readers_of((event_id@, receipts@)),
{
    let ghost start = pair_views(pairs@);
    let found = match receipts.get("m.read") {
        Some(j) => j,
        None => {
            assert(start + Seq::<(Seq<char>, Seq<char>)>::empty() =~= start);
            return ;
        },
    };
    match found {
        Json::Object(readers) => {
            let ghost all = readers_of((event_id@, receipts@));
            let mut i: usize = 0;
            assert(start + all.take(0) =~= start);
            while i < readers.len()
                invariant
                    i <= readers.len(),
                    *found == Json::Object(*readers),
                    receipts@.get("m.read"@) == Some(found@),
                    all == readers_of((event_id@, receipts@)),
                    all.len() == readers@.len(),
                    pair_views(pairs@) == start + all.take(i as int),
                decreases readers.len() - i,
            {
                let ghost before = pairs@;
                pairs.push((event_id.clone(), readers[i].0.clone()));
                assert(all[i as int] == (event_id@, readers@[i as int].0@));
                assert(pair_views(pairs@) =~= pair_views(before).push(all[i as int]));
                assert(start + all.take(i + 1) =~= (start + all.take(i as int)).push(
                    all[i as int],
                ));
                i = i + 1;
            }
            assert(all.take(i as int) =~= all);
        },
        _ => {
            assert(start + Seq::<(Seq<char>, Seq<char>)>::empty() =~= start);
        },
    }
}

pub fn parse_public_reads(content: &Json) -> (out: Vec<(String, String)>)
    ensures
        pair_views(out@) == public_reads(content@),
{
    let mut pairs: Vec<(String, String)> = Vec::new();
    assert(pair_views(pairs@) =~= Seq::<(Seq<char>, Seq<char>)>::empty());
    match content {
        Json::Object(members) => {
            let ghost all = content@->Object_0;
            let mut i: usize = 0;
            assert(all.take(0) =~= Seq::<(Seq<char>, JsonView)>::empty());
            while i < members.len()
                invariant
                    i <= members.len(),
                    *content == Json::Object(*members),
                    all == content@->Object_0,
                    all.len() == members@.len(),
                    pair_views(pairs@) == reads_in(all.take(i as int)),
                decreases members.len() - i,
            {
                assert(all.take(i + 1).drop_last() =~= all.take(i as int));
                assert(all.take(i + 1).last() == (members@[i as int].0@, members@[i as int].1@));
                push_readers(&mut pairs, &members[i].0, &members[i].1);
                i = i + 1;
            }
            assert(all.take(i as int) =~= all);
        },
        _ => {},
    }
    pairs
}

/// By user, the newest event that the user read, after reads were taken over.
pub open spec fn with_reads(
    known: Map<Seq<char>, Seq<char>>,
    pairs: Seq<(Seq<char>, Seq<char>)>,
) -> Map<Seq<char>, Seq<char>>
    decreases pairs.len(),
{
    if pairs.len() == 0 {
        known
    } else {
        with_reads(known, pairs.drop_last()).insert(pairs.last().1, pairs.last().0)
    }
}

/// By user, the newest event that the user read in a room.
pub open spec fn read_at(ephemeral: EphemeralState, key: RoomKeyView) -> Map<Seq<char>, Seq<char>> {
    match held(ephemeral.read@, key) {
        Some(map) => texts(map@),
        None => Map::empty(),
    }
}

/// Whether a notice was taken over.
pub open spec fn notice_taken(
    before: EphemeralState,
    after: EphemeralState,
    key: RoomKeyView,
    event_type: Seq<char>,
    content: JsonView,
    now: int,
) -> bool {
    if event_type == "m.typing"@ {
        &&& after == (EphemeralState { typing: after.typing, ..before })
        &&& match typing_users(content) {
            None => after.typing == before.typing,
            Some(users) => if users.len() == 0 {
                after.typing@ == before.typing@.remove(key)
            } else {
                &&& after.typing@ == before.typing@.insert(key, after.typing@[key])
                &&& views(after.typing@[key].user_ids@) == users
                &&& after.typing@[key].expires_at == now + TYPING_TTL
            },
        }
    } else if event_type == "m.receipt"@ {
        let pairs = public_reads(content);
        &&& after == (EphemeralState { read: after.read, ..before })
        &&& if pairs.len() == 0 {
            after.read == before.read
        } else {
            &&& after.read@ == before.read@.insert(key, after.read@[key])
            &&& read_at(after, key) == with_reads(read_at(before, key), pairs)
        }
    } else {
        after == before
    }
}

impl EphemeralState {
    fn take_reads(&mut self, room: RoomKey, pairs: Vec<(String, String)>)
        requires
            pairs@.len() > 0,
        ensures
            *final(self) == (EphemeralState { read: final(self).read, ..*old(self) }),
            final(self).read@ == old(self).read@.insert(room@, final(self).read@[room@]),
            read_at(*final(self), room@) == with_reads(
                read_at(*old(self), room@),
                pair_views(pairs@),
            ),
    {
        let ghost known = read_at(*self, room@);
        let ghost all = pair_views(pairs@);
        let mut map: KeyedMap<String, String> = match self.read.remove(&room) {
            Some(map) => map,
            None => KeyedMap::new(),
        };
        assert(texts(map@) =~= known);
        let mut i: usize = 0;
        assert(all.take(0) =~= Seq::<(Seq<char>, Seq<char>)>::empty());
        while i < pairs.len()
            invariant
                i <= pairs.len(),
                all == pair_views(pairs@),
                texts(map@) == with_reads(known, all.take(i as int)),
            decreases pairs.len() - i,
        {
            let ghost before = texts(map@);
            assert(all.take(i + 1).drop_last() =~= all.take(i as int));
            assert(all.take(i + 1).last() == all[i as int]);
            let user = pairs[i].1.clone();
            let event = pairs[i].0.clone();
            let ghost (u, e) = (user@, event@);
            map.insert(user, event);
            assert(texts(map@) =~= before.insert(u, e));
            i = i + 1;
        }
        assert(all.take(i as int) =~= all);
        let ghost r = room@;
        self.read.insert(room, map);
        assert(self.read@ =~= old(self).read@.insert(r, self.read@[r]));
    }
}

/// Whether the notices of typing that are over were dropped.
pub open spec fn typing_pruned(before: App, after: App, now: u64) -> bool {
    &&& after == (App {
        ephemeral: EphemeralState {
            typing: after.ephemeral.typing,
            ..before.ephemeral
        },
        ..before
    })
    &&& forall|key: RoomKeyView| #[trigger]
        held(after.ephemeral.typing@, key) == (match held(
            before.ephemeral.typing@,
            key,
        ) {
            Some(entry) => if entry.expires_at > now {
                Some(entry)
            } else {
                None
            },
            None => None,
        })
}

impl App {
    /// Takes over a notice of what others do in a room. One without a room, or of a
    /// kind that the client does not know, is left alone.
    pub fn handle_ephemeral_frame(
        &mut self,
        account_id: u128,
        payload: EphemeralPassthroughDto,
        now: u64,
    )
        requires
            now + TYPING_TTL <= u64::MAX,
        ensures
            *final(self) == (App { ephemeral: final(self).ephemeral, ..*old(self) }),
            match payload.room_id {
                None => final(self).ephemeral == old(self).ephemeral,
                Some(room_id) => notice_taken(
                    old(self).ephemeral,
                    final(self).ephemeral,
                    RoomKeyView { account_id, room_id: room_id@ },
                    payload.event_type@,
                    payload.content@,
                    now as int,
                ),
            },
    {
        let room_id = match payload.room_id {
            Some(id) => id,
            None => return ,
        };
        let room = RoomKey { account_id, room_id };
        proof {
            reveal_strlit("m.typing");
            reveal_strlit("m.receipt");
            assert("m.typing"@.len() != "m.receipt"@.len());
        }
        if same_text(payload.event_type.as_str(), "m.typing") {
            let users = match parse_typing(&payload.content) {
                Some(users) => users,
                None => return ,
            };
            assert(views(users@).len() == users@.len());
            if users.len() == 0 {
                let _ = self.ephemeral.typing.remove(&room);
            } else {
                self.ephemeral.typing.insert(
                    room,
                    TypingEntry { user_ids: users, expires_at: now + TYPING_TTL },
                );
            }
        } else if same_text(payload.event_type.as_str(), "m.receipt") {
            let pairs = parse_public_reads(&payload.content);
            assert(pair_views(pairs@).len() == pairs@.len());
            if pairs.len() > 0 {
                self.ephemeral.take_reads(room, pairs);
            }
        }
    }

    /// Drops the notices of typing whose time is over.
    pub fn prune_typing(&mut self, now: u64)
        ensures
            typing_pruned(*old(self), *final(self), now),
    {
        let n: usize = self.ephemeral.typing.count();
        let ghost listed = self.ephemeral.typing.listed();
        let ghost before = self.ephemeral.typing@;
        let mut gone: Vec<RoomKey> = Vec::new();
        let mut i: usize = 0;
        while i < n
            invariant
                i <= n,
                n == listed.len(),
                listed == self.ephemeral.typing.listed(),
                before == self.ephemeral.typing@,
                forall|k: int|
                    0 <= k < gone@.len() ==> before.dom().contains((#[trigger] gone@[k])@)
                        && before[gone@[k]@].expires_at <= now,
                forall|j: int|
                    0 <= j < i && (#[trigger] listed[j]).1.expires_at <= now ==> views(
                        gone@,
                    ).contains(listed[j].0@),
            decreases n - i,
        {
            let ghost known = gone@;
            let (key, entry) = self.ephemeral.typing.entry(i);
            if entry.expires_at <= now {
                gone.push(key.duplicate());
                assert(views(gone@)[known.len() as int] == key@);
            }
            assert forall|j: int|
                0 <= j < i + 1 && (#[trigger] listed[j]).1.expires_at <= now implies views(
                gone@,
            ).contains(listed[j].0@) by {
                if j < i {
                    assert(views(known).contains(listed[j].0@));
                    let k = choose|k: int|
                        0 <= k < views(known).len() && views(known)[k] == listed[j].0@;
                    assert(views(gone@)[k] == listed[j].0@);
                }
            }
            i = i + 1;
        }
        proof {
            assert forall|key: RoomKeyView| #![auto]
                views(gone@).to_set().contains(key) == (before.dom().contains(key)
                    && before[key].expires_at <= now) by {
                self.ephemeral.typing.lemma_listed_key(key);
                if views(gone@).contains(key) {
                    let k = choose|k: int| 0 <= k < views(gone@).len() && views(gone@)[k] == key;
                    assert(gone@[k]@ == key);
                }
                if before.dom().contains(key) && before[key].expires_at <= now {
                    let j = choose|j: int|
                        0 <= j < listed.len() && (#[trigger] listed[j]).0@ == key;
                    assert(listed[j].1 == before[key]);
                    assert(views(gone@).contains(key));
                }
            }
        }
        remove_all(&mut self.ephemeral.typing, &gone);
    }

    /// Drops every notice of typing, for a connection that was made again.
    pub fn clear_typing_overlays(&mut self)
        ensures
            *final(self) == (App {
                ephemeral: EphemeralState {
                    typing: final(self).ephemeral.typing,
                    ..old(self).ephemeral
                },
                ..*old(self)
            }),
            final(self).ephemeral.typing@ == Map::<RoomKeyView, TypingEntry>::empty(),
    {
        self.ephemeral.typing.clear();
    }
}

// ---------------------------------------------------------------------------
// The status line
// ---------------------------------------------------------------------------

impl App {
    /// The user of an account.
    pub open spec fn account_user(self, account_id: u128) -> Option<Seq<char>> {
        match held(self.live.own_senders@, account_id) {
            Some(user) => Some(user@),
            None => {
                let accounts = views(self.accounts.accounts@);
                let at = account_position(accounts, account_id);
                if at < accounts.len() {
                    Some(accounts[at].user_id)
                } else {
                    None
                }
            },
        }
    }

    fn own_user_id(&self, account_id: u128) -> (out: Option<String>)
        ensures
            option_view(out) == self.account_user(account_id),
    {
        if let Some(user) = self.live.own_senders.get(&account_id) {
            return Some(user.clone());
        }
        let at: usize = find_account(&self.accounts.accounts, account_id);
        if at < self.accounts.accounts.len() {
            assert(views(self.accounts.accounts@)[at as int] == self.accounts.accounts@[at as int]@);
            Some(self.accounts.accounts[at].user_id.clone())
        } else {
            None
        }
    }

    /// What a user is called in a room: the display name, else the id.
    pub open spec fn called(self, key: RoomKeyView, user: Seq<char>) -> Seq<char> {
        match held(self.rooms.display_names@, key) {
            Some(names) => match held(names@, user) {
                Some(name) => if is_blank(name@) {
                    user
                } else {
                    name@
                },
                None => user,
            },
            None => user,
        }
    }

    fn ephemeral_display_name(&self, room: &RoomKey, user: &String) -> (out: String)
        ensures
            out@ == self.called(room@, user@),
    {
        match self.rooms.display_names.get(room) {
            Some(names) => match names.get(user) {
                Some(name) => if text_is_blank(name.as_str()) {
                    user.clone()
                } else {
                    name.clone()
                },
                None => user.clone(),
            },
            None => user.clone(),
        }
    }

    /// The names of the users of a list but the account's own.
    pub open spec fn names_of_others(
        self,
        key: RoomKeyView,
        users: Seq<Seq<char>>,
        own: Option<Seq<char>>,
    ) -> Seq<Seq<char>>
        decreases users.len(),
    {
        if users.len() == 0 {
            Seq::empty()
        } else {
            let before = self.names_of_others(key, users.drop_last(), own);
            if own == Some(users.last()) {
                before
            } else {
                before.push(self.called(key, users.last()))
            }
        }
    }
}

/// What is said of users that are typing.
pub open spec fn typing_text(names: Seq<Seq<char>>) -> Option<Seq<char>> {
    if names.len() == 0 {
        None
    } else if names.len() == 1 {
        Some(names[0] + " is typing…"@)
    } else if names.len() == 2 {
        Some(names[0] + " and "@ + names[1] + " are typing…"@)
    } else {
        Some(
            names[0] + ", "@ + names[1] + ", and "@ + decimal((names.len() - 2) as nat)
                + " more are typing…"@,
        )
    }
}

/// The newest event of a list that a user sent.
pub open spec fn last_by(events: Seq<EventView>, sender: Seq<char>) -> Option<EventView>
    decreases events.len(),
{
    if events.len() == 0 {
        None
    } else if events.last().sender == sender {
        Some(events.last())
    } else {
        last_by(events.drop_last(), sender)
    }
}

/// The date of the last event of a list that has an id.
pub open spec fn date_of(events: Seq<EventView>, id: Seq<char>) -> Option<i64>
    decreases events.len(),
{
    if events.len() == 0 {
        None
    } else if events.last().event_id == id {
        Some(events.last().origin_ts)
    } else {
        date_of(events.drop_last(), id)
    }
}

fn find_last_by(events: &Vec<EventDto>, sender: &str) -> (out: Option<i64>)
    ensures
        out == (match last_by(views(events@), sender@) {
            Some(e) => Some(e.origin_ts),
            None => None,
        }),
{
    let ghost all = views(events@);
    let mut n: usize = events.len();
    assert(all.take(n as int) =~= all);
    while n > 0
        invariant
            n <= events.len(),
            all == views(events@),
            last_by(all.take(n as int), sender@) == last_by(all, sender@),
        decreases n,
    {
        assert(all.take(n as int).drop_last() =~= all.take(n - 1));
        assert(all.take(n as int).last() == events@[n - 1]@);
        if same_text(events[n - 1].sender.as_str(), sender) {
            return Some(events[n - 1].origin_ts);
        }
        n = n - 1;
    }
    None
}

fn find_date(events: &Vec<EventDto>, id: &str) -> (out: Option<i64>)
    ensures
        out == date_of(views(events@), id@),
{
    let ghost all = views(events@);
    let mut n: usize = events.len();
    assert(all.take(n as int) =~= all);
    while n > 0
        invariant
            n <= events.len(),
            all == views(events@),
            date_of(all.take(n as int), id@) == date_of(all, id@),
        decreases n,
    {
        assert(all.take(n as int).drop_last() =~= all.take(n - 1));
        assert(all.take(n as int).last() == events@[n - 1]@);
        if same_text(events[n - 1].event_id.as_str(), id) {
            return Some(events[n - 1].origin_ts);
        }
        n = n - 1;
    }
    None
}

impl App {
    /// Who is typing in a room.
    pub open spec fn typing_line(self, key: RoomKeyView, own: Option<Seq<char>>) -> Option<Seq<char>> {
        match held(self.ephemeral.typing@, key) {
            Some(entry) => typing_text(
                self.names_of_others(key, views(entry.user_ids@), own),
            ),
            None => None,
        }
    }

    fn typing_indicator(&self, room: &RoomKey, own: Option<&str>) -> (out: Option<String>)
        ensures
            option_view(out) == self.typing_line(room@, option_str_view(own)),
    {
        let entry = match self.ephemeral.typing.get(room) {
            Some(entry) => entry,
            None => return None,
        };
        let ghost all = views(entry.user_ids@);
        let ghost me = option_str_view(own);
        let mut names: Vec<String> = Vec::new();
        let mut i: usize = 0;
        assert(views(names@) =~= Seq::<Seq<char>>::empty());
        while i < entry.user_ids.len()
            invariant
                i <= entry.user_ids.len(),
                all == views(entry.user_ids@),
                me == option_str_view(own),
                views(names@) == self.names_of_others(room@, all.take(i as int), me),
            decreases entry.user_ids.len() - i,
        {
            let ghost before = views(names@);
            assert(all.take(i + 1).drop_last() =~= all.take(i as int));
            assert(all.take(i + 1).last() == entry.user_ids@[i as int]@);
            let is_own = match own {
                Some(user) => same_text(user, entry.user_ids[i].as_str()),
                None => false,
            };
            if !is_own {
                let name = self.ephemeral_display_name(room, &entry.user_ids[i]);
                let ghost v = name@;
                names.push(name);
                assert(views(names@) =~= before.push(v));
            }
            i = i + 1;
        }
        assert(all.take(i as int) =~= all);
        assert(views(names@).len() == names@.len());
        if names.len() == 0 {
            None
        } else if names.len() == 1 {
            Some(cat2(names[0].as_str(), " is typing…"))
        } else if names.len() == 2 {
            Some(cat4(names[0].as_str(), " and ", names[1].as_str(), " are typing…"))
        } else {
            let more = decimal_usize(names.len() - 2);
            let mut text = cat5(
                names[0].as_str(),
                ", ",
                names[1].as_str(),
                ", and ",
                more.as_str(),
            );
            text.append(" more are typing…");
            Some(text)
        }
    }

    /// Whether a user has read up to a date, as far as the events that are kept tell.
    pub open spec fn has_read(
        self,
        key: RoomKeyView,
        own: Seq<char>,
        entry: (String, String),
        ts: i64,
    ) -> bool {
        entry.0@ != own && match date_of(self.events_of(key), entry.1@) {
            Some(at) => at >= ts,
            None => false,
        }
    }

    /// The names of the users of a list that have read up to a date.
    pub open spec fn names_of_readers(
        self,
        key: RoomKeyView,
        own: Seq<char>,
        entries: Seq<(String, String)>,
        ts: i64,
    ) -> Seq<Seq<char>>
        decreases entries.len(),
    {
        if entries.len() == 0 {
            Seq::empty()
        } else {
            let before = self.names_of_readers(key, own, entries.drop_last(), ts);
            if self.has_read(key, own, entries.last(), ts) {
                before.push(self.called(key, entries.last().0@))
            } else {
                before
            }
        }
    }

    /// Who has read the newest message of the account in a room, in the order of the
    /// names.
    pub open spec fn receipt_line(self, key: RoomKeyView, own: Option<Seq<char>>) -> Option<Seq<char>> {
        match own {
            None => None,
            Some(user) => match (last_by(self.events_of(key), user), held(
                self.ephemeral.read@,
                key,
            )) {
                (Some(event), Some(map)) => {
                    let names = self.names_of_readers(key, user, map.listed(), event.origin_ts);
                    if names.len() == 0 {
                        None
                    } else {
                        Some("✓ read by "@ + joined(text_sorted(names), ", "@))
                    }
                },
                _ => None,
            },
        }
    }

    fn receipt_indicator(&self, room: &RoomKey, own: Option<&str>) -> (out: Option<String>)
        ensures
            option_view(out) == self.receipt_line(room@, option_str_view(own)),
    {
        let user = match own {
            Some(user) => user,
            None => return None,
        };
        let events = match self.messages.events.get(room) {
            Some(events) => events,
            None => {
                assert(last_by(self.events_of(room@), user@) is None);
                return None;
            },
        };
        let ts: i64 = match find_last_by(events, user) {
            Some(ts) => ts,
            None => return None,
        };
        let map = match self.ephemeral.read.get(room) {
            Some(map) => map,
            None => return None,
        };
        let n: usize = map.count();
        let ghost listed = map.listed();
        let mut names: Vec<String> = Vec::new();
        let mut i: usize = 0;
        assert(views(names@) =~= Seq::<Seq<char>>::empty());
        while i < n
            invariant
                i <= n,
                n == listed.len(),
                listed == map.listed(),
                views(events@) == self.events_of(room@),
                views(names@) == self.names_of_readers(room@, user@, listed.take(i as int), ts),
            decreases n - i,
        {
            let ghost before = views(names@);
            assert(listed.take(i + 1).drop_last() =~= listed.take(i as int));
            assert(listed.take(i + 1).last() == listed[i as int]);
            let (reader, event_id) = map.entry(i);
            if !same_text(reader.as_str(), user) {
                let seen = match find_date(events, event_id.as_str()) {
                    Some(at) => at >= ts,
                    None => false,
                };
                if seen {
                    let name = self.ephemeral_display_name(room, reader);
                    let ghost v = name@;
                    names.push(name);
                    assert(views(names@) =~= before.push(v));
                }
            }
            i = i + 1;
        }
        assert(listed.take(i as int) =~= listed);
        assert(views(names@).len() == names@.len());
        if names.len() == 0 {
            return None;
        }
        let sorted = sort_texts(names);
        let list = join(sorted.as_slice(), ", ");
        Some(cat2("✓ read by ", list.as_str()))
    }

    /// What is said of others in the selected room.
    pub open spec fn others_line(self) -> Option<Seq<char>> {
        match self.room() {
            None => None,
            Some(room) => {
                let key = room_key(room@);
                let own = self.account_user(key.account_id);
                match (self.typing_line(key, own), self.receipt_line(key, own)) {
                    (Some(a), Some(b)) => Some(a + "   "@ + b),
                    (Some(a), None) => Some(a),
                    (None, b) => b,
                }
            },
        }
    }

    pub fn ephemeral_status_line(&self) -> (out: Option<String>)
        ensures
            option_view(out) == self.others_line(),
    {
        let room = match self.selected_room() {
            Some(room) => RoomKey::of(room),
            None => return None,
        };
        let own = self.own_user_id(room.account_id);
        let typing = self.typing_indicator(&room, option_str(&own));
        let seen = self.receipt_indicator(&room, option_str(&own));
        match (typing, seen) {
            (Some(a), Some(b)) => Some(crate::text::cat3(a.as_str(), "   ", b.as_str())),
            (Some(a), None) => Some(a),
            (None, b) => b,
        }
    }
}

/// The account itself is never among those that are typing.
pub proof fn law_own_typing_is_not_shown(app: App, key: RoomKeyView, own: Seq<char>)
    ensures
        app.names_of_others(key, seq![own], Some(own)) == Seq::<Seq<char>>::empty(),
{
    reveal_with_fuel(App::names_of_others, 2);
    assert(seq![own].drop_last() =~= Seq::<Seq<char>>::empty());
}

} // verus!
