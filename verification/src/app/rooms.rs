//! The room list: what a room is called, in what order rooms stand, and which of
//! them are shown.

use vstd::prelude::*;

use crate::api::dto::{room_title, MemberDto, MemberView, RoomDto, RoomView};
use crate::app::choice::{room_key, RoomKey, RoomKeyView, RoomSort};
use crate::keyed::{Key, KeyedMap};
use crate::order::{
    chars_less, each_once, sorted_positions, text_less, lemma_text_less_total,
    lemma_text_less_transitive, SortKey, TextKey,
};
use crate::text::{
    cat2, chars_of, decimal, decimal_usize, is_blank, join, joined, lowercase, option_str_view,
    option_view, same_text, split_once, split_text_once, strip_char_prefix, text_is_blank,
    to_lowercase, trim, trim_text, views, without_prefix,
};

verus! {

/// Rows beyond the window of the room list whose titles are fetched too.
pub const ROOM_TITLE_LOOKAHEAD: usize = 8;

/// The height of the window before it was measured.
pub const ROOM_TITLE_DEFAULT_PAGE: usize = 32;

// ---------------------------------------------------------------------------
// What a room is called
// ---------------------------------------------------------------------------

pub open spec fn option_blank(s: Option<Seq<char>>) -> bool {
    s is None || is_blank(s->0)
}

fn option_is_blank(s: &Option<String>) -> (r: bool)
    ensures
        r == option_blank(option_view(*s)),
{
    match s {
        Some(t) => text_is_blank(t.as_str()),
        None => true,
    }
}

/// Whether a room has neither a name nor an alias, as direct messages do.
pub open spec fn likely_dm(room: RoomView) -> bool {
    option_blank(room.name) && option_blank(room.canonical_alias)
}

pub fn is_likely_dm(room: &RoomDto) -> (r: bool)
    ensures
        r == likely_dm(room@),
{
    option_is_blank(&room.name) && option_is_blank(&room.canonical_alias)
}

/// The title of a room in the list. An unnamed room goes by the title that was
/// made of its members, where there is one.
pub open spec fn list_title(titles: Map<RoomKeyView, String>, room: RoomView) -> Seq<char> {
    if likely_dm(room) && titles.contains_key(room_key(room)) {
        titles[room_key(room)]@
    } else {
        room_title(room)
    }
}

pub fn room_list_title_from_cache(titles: &KeyedMap<RoomKey, String>, room: &RoomDto) -> (out:
    String)
    ensures
        out@ == list_title(titles@, room@),
{
    if is_likely_dm(room) {
        if let Some(title) = titles.get(&RoomKey::of(room)) {
            return title.clone();
        }
    }
    room.title().to_owned()
}

/// The part of a user id between the at sign and the colon.
pub open spec fn localpart(user_id: Seq<char>) -> Option<Seq<char>> {
    match without_prefix(user_id, seq!['@']) {
        None => None,
        Some(rest) => match split_once(rest, ':') {
            Some((local, _)) => Some(local),
            None => None,
        },
    }
}

pub fn account_localpart(user_id: &str) -> (out: Option<&str>)
    ensures
        option_str_view(out) == localpart(user_id@),
{
    match strip_char_prefix(user_id, '@') {
        None => None,
        Some(rest) => match split_text_once(rest, ':') {
            Some((local, _)) => Some(local),
            None => None,
        },
    }
}

/// What a member is called: the display name, else the local part of the user
/// id, else the user id.
pub open spec fn member_name(member: MemberView) -> Seq<char> {
    if member.display_name is Some && !is_blank(member.display_name->0) {
        trim(member.display_name->0)
    } else {
        match localpart(member.user_id) {
            Some(local) => "@"@ + local,
            None => member.user_id,
        }
    }
}

pub fn member_display(member: &MemberDto) -> (out: String)
    ensures
        out@ == member_name(member@),
{
    if let Some(name) = &member.display_name {
        let name = trim_text(name.as_str());
        if !name.is_empty() {
            return name.to_owned();
        }
    }
    match account_localpart(member.user_id.as_str()) {
        Some(local) => cat2("@", local),
        None => member.user_id.clone(),
    }
}

/// The members but the account itself.
pub open spec fn others_of(members: Seq<MemberView>, own: Option<Seq<char>>) -> Seq<MemberView>
    decreases members.len(),
{
    if members.len() == 0 {
        Seq::empty()
    } else {
        let before = others_of(members.drop_last(), own);
        if own == Some(members.last().user_id) {
            before
        } else {
            before.push(members.last())
        }
    }
}

/// The members in the order of their user ids, those with the same id as they
/// came.
pub open spec fn by_user_id(sorted: Seq<MemberView>, members: Seq<MemberView>) -> bool {
    exists|order: Seq<usize>| #[trigger]
        user_order(order, members) && sorted == Seq::new(
            members.len(),
            |i: int| members[order[i] as int],
        )
}

/// Whether `order` sorts members by their user ids.
pub open spec fn user_order(order: Seq<usize>, members: Seq<MemberView>) -> bool {
    &&& each_once(order, members.len() as int)
    &&& forall|i: int, j: int|
        #![trigger order[i], order[j]]
        0 <= i < j < order.len() ==> {
            let (a, b) = (members[order[i] as int].user_id, members[order[j] as int].user_id);
            text_less(a, b) || (a == b && order[i] < order[j])
        }
}

/// The title made of members in order: the first three names and how many more
/// there are.
pub open spec fn title_of_members(sorted: Seq<MemberView>) -> Seq<char> {
    let shown = if sorted.len() <= 3 {
        sorted.len()
    } else {
        3
    };
    let names = joined(Seq::new(shown, |i: int| member_name(sorted[i])), ", "@);
    if sorted.len() > 3 {
        names + ", +"@ + decimal((sorted.len() - 3) as nat)
    } else {
        names
    }
}

/// Whether a title is the one that members give an unnamed room: it names them without
/// the account's own user, and there is none where there is no one else.
pub open spec fn titled_by_members(
    title: Option<Seq<char>>,
    own: Option<Seq<char>>,
    members: Seq<MemberView>,
) -> bool {
    let others = others_of(members, own);
    match title {
        Some(t) => others.len() > 0 && exists|sorted: Seq<MemberView>| #[trigger]
            by_user_id(sorted, others) && t == title_of_members(sorted),
        None => others.len() == 0,
    }
}

/// The title of an unnamed room, made of its members without the account's own
/// user; none where there is no one else.
pub fn dm_title_from_members(self_user: Option<&str>, members: &[MemberDto]) -> (out: Option<String>)
    ensures
        titled_by_members(option_view(out), option_str_view(self_user), views(members@)),
{
    let ghost all = views(members@);
    let ghost own = option_str_view(self_user);
    let mut others: Vec<&MemberDto> = Vec::new();
    let mut keys: Vec<TextKey> = Vec::new();
    let mut i: usize = 0;
    assert(views(others@) =~= Seq::<MemberView>::empty());
    while i < members.len()
        invariant
            i <= members.len(),
            all == views(members@),
            own == option_str_view(self_user),
            views(others@) == others_of(all.take(i as int), own),
            keys.len() == others.len(),
            forall|k: int|
                0 <= k < keys.len() ==> (#[trigger] keys@[k]).chars@ == others@[k]@.user_id,
        decreases members.len() - i,
    {
        let ghost before = views(others@);
        assert(all.take(i + 1).drop_last() =~= all.take(i as int));
        assert(all.take(i + 1).last() == members@[i as int]@);
        let is_own = match self_user {
            Some(u) => same_text(u, members[i].user_id.as_str()),
            None => false,
        };
        if !is_own {
            others.push(&members[i]);
            keys.push(TextKey { chars: chars_of(members[i].user_id.as_str()) });
            assert(views(others@) =~= before.push(members@[i as int]@));
        }
        i = i + 1;
    }
    assert(all.take(i as int) =~= all);
    if others.len() == 0 {
        return None;
    }
    let order = sorted_positions(&keys);
    let ghost list = views(others@);
    let ghost sorted = Seq::new(list.len(), |i: int| list[order@[i] as int]);
    proof {
        assert forall|i: int, j: int|
            #![trigger order@[i], order@[j]]
            0 <= i < j < order@.len() implies {
            let (a, b) = (list[order@[i] as int].user_id, list[order@[j] as int].user_id);
            text_less(a, b) || (a == b && order@[i] < order@[j])
        } by {
            let (x, y) = (keys@[order@[i] as int].chars@, keys@[order@[j] as int].chars@);
            lemma_text_less_total(x, y);
        }
        assert(user_order(order@, list));
        assert(by_user_id(sorted, list));
    }
    let shown: usize = if others.len() <= 3 {
        others.len()
    } else {
        3
    };
    let mut names: Vec<String> = Vec::new();
    let mut k: usize = 0;
    while k < shown
        invariant
            k <= shown <= order.len(),
            order.len() == others.len(),
            each_once(order@, others@.len() as int),
            list == views(others@),
            sorted == Seq::new(list.len(), |i: int| list[order@[i] as int]),
            names.len() == k,
            forall|i: int| 0 <= i < k ==> (#[trigger] names@[i])@ == member_name(sorted[i]),
        decreases shown - k,
    {
        let name = member_display(others[order[k]]);
        names.push(name);
        k = k + 1;
    }
    assert(views(names@) =~= Seq::new(shown as nat, |i: int| member_name(sorted[i])));
    let mut title = join(names.as_slice(), ", ");
    if others.len() > 3 {
        let more = decimal_usize(others.len() - 3);
        title.append(", +");
        title.append(more.as_str());
    }
    Some(title)
}

// ---------------------------------------------------------------------------
// The order of rooms
// ---------------------------------------------------------------------------

/// What a room is sorted by.
pub struct RoomSortKey {
    pub sort: RoomSort,
    pub rank: usize,
    pub ts: i64,
    pub title: Vec<char>,
}

/// Whether a room goes before another of the same rank.
pub open spec fn unpinned_before(
    sort: RoomSort,
    ts_a: i64,
    title_a: Seq<char>,
    ts_b: i64,
    title_b: Seq<char>,
) -> bool {
    match sort {
        RoomSort::RecentActivity => ts_a > ts_b,
        RoomSort::OldestActivity => ts_a < ts_b,
        RoomSort::AlphaAsc => text_less(title_a, title_b),
        RoomSort::AlphaDesc => text_less(title_b, title_a),
    }
}

/// Keys of different orders are never sorted together; the number makes the
/// order of keys total all the same.
pub open spec fn sort_number(sort: RoomSort) -> int {
    match sort {
        RoomSort::RecentActivity => 0,
        RoomSort::OldestActivity => 1,
        RoomSort::AlphaAsc => 2,
        RoomSort::AlphaDesc => 3,
    }
}

fn number_of_sort(sort: RoomSort) -> (n: u8)
    ensures
        n == sort_number(sort),
{
    match sort {
        RoomSort::RecentActivity => 0,
        RoomSort::OldestActivity => 1,
        RoomSort::AlphaAsc => 2,
        RoomSort::AlphaDesc => 3,
    }
}

impl SortKey for RoomSortKey {
    open spec fn before(&self, other: &RoomSortKey) -> bool {
        if self.sort != other.sort {
            sort_number(self.sort) < sort_number(other.sort)
        } else {
            self.rank < other.rank || (self.rank == other.rank && unpinned_before(
                self.sort,
                self.ts,
                self.title@,
                other.ts,
                other.title@,
            ))
        }
    }

    fn comes_before(&self, other: &RoomSortKey) -> (r: bool) {
        if self.sort != other.sort {
            return number_of_sort(self.sort) < number_of_sort(other.sort);
        }
        if self.rank != other.rank {
            return self.rank < other.rank;
        }
        match self.sort {
            RoomSort::RecentActivity => self.ts > other.ts,
            RoomSort::OldestActivity => self.ts < other.ts,
            RoomSort::AlphaAsc => chars_less(self.title.as_slice(), other.title.as_slice()),
            RoomSort::AlphaDesc => chars_less(other.title.as_slice(), self.title.as_slice()),
        }
    }

    proof fn asymmetric(&self, other: &RoomSortKey) {
        lemma_text_less_total(self.title@, other.title@);
    }

    proof fn transitive(&self, other: &RoomSortKey, third: &RoomSortKey) {
        let (a, b, c) = (self.title@, other.title@, third.title@);
        lemma_text_less_total(a, b);
        lemma_text_less_total(b, c);
        lemma_text_less_total(a, c);
        if text_less(a, b) && text_less(b, c) {
            lemma_text_less_transitive(a, b, c);
        }
        if text_less(c, b) && text_less(b, a) {
            lemma_text_less_transitive(c, b, a);
        }
    }
}

/// The rank of a room among the pinned ones, or the largest number.
pub open spec fn pin_rank(pinned: Seq<RoomKeyView>, key: RoomKeyView) -> int
    decreases pinned.len(),
{
    if pinned.len() == 0 {
        usize::MAX as int
    } else if pinned.last() == key {
        pinned.len() - 1
    } else {
        pin_rank(pinned.drop_last(), key)
    }
}

fn rank_of(pinned: &[RoomKey], key: &RoomKey) -> (rank: usize)
    ensures
        rank == pin_rank(views(pinned@), key@),
{
    let ghost all = views(pinned@);
    let mut i: usize = pinned.len();
    assert(all.take(i as int) =~= all);
    while i > 0
        invariant
            i <= pinned.len(),
            all == views(pinned@),
            pin_rank(all, key@) == pin_rank(all.take(i as int), key@),
        decreases i,
    {
        i = i - 1;
        assert(all.take(i + 1).last() == pinned@[i as int]@);
        assert(all.take(i + 1).drop_last() =~= all.take(i as int));
        if pinned[i].same(key) {
            return i;
        }
    }
    usize::MAX
}

/// Whether the room at position `a` of a list goes before the one at `b`. Pinned
/// rooms go first, in the order in which they are pinned; the others as `sort`
/// says, their titles in small letters; rooms that are equal as far as that goes
/// keep their order.
pub open spec fn room_goes_first(
    rooms: Seq<RoomView>,
    titles: Seq<Seq<char>>,
    pinned: Seq<RoomKeyView>,
    sort: RoomSort,
    a: int,
    b: int,
) -> bool {
    let (rank_a, rank_b) = (pin_rank(pinned, room_key(rooms[a])), pin_rank(
        pinned,
        room_key(rooms[b]),
    ));
    let ahead = |x: int, y: int|
        unpinned_before(
            sort,
            rooms[x].last_activity_ts,
            lowercase(titles[x]),
            rooms[y].last_activity_ts,
            lowercase(titles[y]),
        );
    rank_a < rank_b || (rank_a == rank_b && (ahead(a, b) || (!ahead(b, a) && a < b)))
}

/// Whether `order` is the order of the rooms.
pub open spec fn orders_rooms(
    order: Seq<usize>,
    rooms: Seq<RoomView>,
    titles: Seq<Seq<char>>,
    pinned: Seq<RoomKeyView>,
    sort: RoomSort,
) -> bool {
    &&& each_once(order, rooms.len() as int)
    &&& forall|i: int, j: int|
        #![trigger order[i], order[j]]
        0 <= i < j < order.len() ==> room_goes_first(
            rooms,
            titles,
            pinned,
            sort,
            order[i] as int,
            order[j] as int,
        )
}

/// Whether `sorted` holds the rooms in their order.
pub open spec fn rooms_sorted(
    sorted: Seq<RoomView>,
    rooms: Seq<RoomView>,
    titles: Seq<Seq<char>>,
    pinned: Seq<RoomKeyView>,
    sort: RoomSort,
) -> bool {
    exists|order: Seq<usize>| #[trigger]
        orders_rooms(order, rooms, titles, pinned, sort) && sorted == Seq::new(
            rooms.len(),
            |i: int| rooms[order[i] as int],
        )
}

/// Puts rooms in their order, by the titles that stand beside them.
pub fn sort_rooms_by_pin_with_title(
    rooms: &mut Vec<RoomDto>,
    pinned: &[RoomKey],
    sort: RoomSort,
    titles: &[String],
)
    requires
        titles@.len() == old(rooms)@.len(),
    ensures
        rooms_sorted(views(final(rooms)@), views(old(rooms)@), views(titles@), views(pinned@), sort),
{
    let ghost list = views(rooms@);
    let ghost names = views(titles@);
    let ghost pins = views(pinned@);
    let mut keys: Vec<RoomSortKey> = Vec::new();
    let mut i: usize = 0;
    while i < rooms.len()
        invariant
            i <= rooms.len(),
            titles.len() == rooms.len(),
            list == views(rooms@),
            names == views(titles@),
            pins == views(pinned@),
            rooms@ == old(rooms)@,
            keys.len() == i,
            forall|k: int|
                0 <= k < i ==> {
                    let key = #[trigger] keys@[k];
                    &&& key.sort == sort
                    &&& key.rank == pin_rank(pins, room_key(list[k]))
                    &&& key.ts == list[k].last_activity_ts
                    &&& key.title@ == lowercase(names[k])
                },
        decreases rooms.len() - i,
    {
        let title = to_lowercase(titles[i].as_str());
        keys.push(
            RoomSortKey {
                sort,
                rank: rank_of(pinned, &RoomKey::of(&rooms[i])),
                ts: rooms[i].last_activity_ts,
                title: chars_of(title.as_str()),
            },
        );
        i = i + 1;
    }
    let order = sorted_positions(&keys);
    let mut sorted: Vec<RoomDto> = Vec::new();
    let mut k: usize = 0;
    while k < order.len()
        invariant
            k <= order.len(),
            order.len() == rooms.len(),
            each_once(order@, rooms@.len() as int),
            list == views(rooms@),
            sorted.len() == k,
            forall|i: int| 0 <= i < k ==> (#[trigger] sorted@[i])@ == list[order@[i] as int],
        decreases order.len() - k,
    {
        sorted.push(rooms[order[k]].copy());
        k = k + 1;
    }
    proof {
        assert(orders_rooms(order@, list, names, pins, sort)) by {
            assert forall|i: int, j: int|
                #![trigger order@[i], order@[j]]
                0 <= i < j < order@.len() implies room_goes_first(
                list,
                names,
                pins,
                sort,
                order@[i] as int,
                order@[j] as int,
            ) by {
                let (a, b) = (order@[i] as int, order@[j] as int);
                assert(crate::order::goes_first(keys@, a, b));
                assert(keys@[a].rank == pin_rank(pins, room_key(list[a])));
                assert(keys@[b].rank == pin_rank(pins, room_key(list[b])));
            }
        }
        assert(views(sorted@) =~= Seq::new(list.len(), |i: int| list[order@[i] as int]));
    }
    *rooms = sorted;
}

/// Puts rooms in their order, by their own titles.
pub fn sort_rooms_by_pin(rooms: &mut Vec<RoomDto>, pinned: &[RoomKey], sort: RoomSort)
    ensures
        rooms_sorted(
            views(final(rooms)@),
            views(old(rooms)@),
            Seq::new(old(rooms)@.len(), |i: int| room_title(old(rooms)@[i]@)),
            views(pinned@),
            sort,
        ),
{
    let mut titles: Vec<String> = Vec::new();
    let mut i: usize = 0;
    while i < rooms.len()
        invariant
            i <= rooms.len(),
            rooms@ == old(rooms)@,
            titles.len() == i,
            forall|k: int| 0 <= k < i ==> (#[trigger] titles@[k])@ == room_title(rooms@[k]@),
        decreases rooms.len() - i,
    {
        titles.push(rooms[i].title().to_owned());
        i = i + 1;
    }
    assert(views(titles@) =~= Seq::new(rooms@.len(), |i: int| room_title(rooms@[i]@)));
    sort_rooms_by_pin_with_title(rooms, pinned, sort, titles.as_slice());
}

proof fn lemma_pin_rank(pinned: Seq<RoomKeyView>, key: RoomKeyView)
    ensures
        pinned.contains(key) ==> 0 <= pin_rank(pinned, key) < pinned.len() && pinned[pin_rank(
            pinned,
            key,
        )] == key,
        !pinned.contains(key) ==> pin_rank(pinned, key) == usize::MAX,
    decreases pinned.len(),
{
    if pinned.len() > 0 {
        lemma_pin_rank(pinned.drop_last(), key);
        if pinned.last() == key {
            assert(pinned.contains(key));
        } else if pinned.contains(key) {
            let i = choose|i: int| 0 <= i < pinned.len() && pinned[i] == key;
            assert(pinned.drop_last()[i] == key);
        } else if pinned.drop_last().contains(key) {
            let i = choose|i: int|
                0 <= i < pinned.drop_last().len() && pinned.drop_last()[i] == key;
            assert(pinned[i] == key);
        }
    }
}

/// In a sorted list every pinned room stands before every room that is not, and
/// among pinned rooms the order of the rooms does not depend on how the others
/// are sorted.
pub proof fn law_pinned_rooms_first(
    order: Seq<usize>,
    rooms: Seq<RoomView>,
    titles: Seq<Seq<char>>,
    pinned: Seq<RoomKeyView>,
    sort: RoomSort,
    i: int,
    j: int,
)
    requires
        orders_rooms(order, rooms, titles, pinned, sort),
        pinned.len() <= usize::MAX,
        0 <= i < order.len(),
        0 <= j < order.len(),
        pinned.contains(room_key(rooms[order[i] as int])),
        !pinned.contains(room_key(rooms[order[j] as int])) || pin_rank(
            pinned,
            room_key(rooms[order[i] as int]),
        ) < pin_rank(pinned, room_key(rooms[order[j] as int])),
    ensures
        i < j,
{
    lemma_pin_rank(pinned, room_key(rooms[order[i] as int]));
    lemma_pin_rank(pinned, room_key(rooms[order[j] as int]));
    if j < i {
        assert(room_goes_first(rooms, titles, pinned, sort, order[j] as int, order[i] as int));
    }
}

/// Keeps the newest of the older events, those next to the ones that are there.
pub fn keep_adjacent_older_tail<T>(events: &mut Vec<T>, spare: usize)
    ensures
        final(events)@ == (if old(events)@.len() > spare {
            old(events)@.skip(old(events)@.len() - spare)
        } else {
            old(events)@
        }),
{
    if events.len() > spare {
        let drop_count: usize = events.len() - spare;
        let tail = events.split_off(drop_count);
        assert(tail@ =~= old(events)@.skip(drop_count as int));
        *events = tail;
    }
}

} // verus!
