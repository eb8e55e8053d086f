//! Which room the user means, and how its name is completed.

use vstd::prelude::*;

use crate::api::dto::{RoomDto, RoomView};
use crate::app::state::{App, RoomsState};
use crate::app::words::{
    alias_with_hash, case_insensitive_suffix, incomplete_matrix_room_name, incomplete_name,
    local_name, matrix_room_local_name, room_alias_with_hash, suffix_after,
};
use crate::text::{
    begins, lowercase, number_of, option_str, option_str_view, parse_usize, same_ignoring_case,
    same_option, same_text, same_text_ignoring_case, text_begins, to_lowercase, trim, trim_text,
    views,
};

verus! {

/// How a room is written as a target.
pub open spec fn completion_value(room: RoomView) -> Seq<char> {
    match room.canonical_alias {
        Some(alias) => alias,
        None => match room.name {
            Some(name) => name,
            None => room.room_id,
        },
    }
}

pub fn room_completion_value(room: &RoomDto) -> (out: &str)
    ensures
        out@ == completion_value(room@),
{
    match &room.canonical_alias {
        Some(alias) => alias.as_str(),
        None => match &room.name {
            Some(name) => name.as_str(),
            None => room.room_id.as_str(),
        },
    }
}

/// Whether a text begins with another, whatever the case.
pub open spec fn starts(field: Seq<char>, target: Seq<char>) -> bool {
    begins(lowercase(field), lowercase(target))
}

fn text_starts(field: &str, target: &str) -> (r: bool)
    ensures
        r == starts(field@, target@),
{
    text_begins(to_lowercase(field).as_str(), to_lowercase(target).as_str())
}

pub open spec fn option_starts(field: Option<Seq<char>>, target: Seq<char>) -> bool {
    field is Some && starts(field->0, target)
}

pub open spec fn option_local(field: Option<Seq<char>>) -> Option<Seq<char>> {
    match field {
        Some(f) => local_name(f),
        None => None,
    }
}

/// What of a room begins with a target: its name, its alias or its id; the alias
/// without its number sign; or the part before the server of the alias or the id.
pub open spec fn prefix_value(room: RoomView, target: Seq<char>) -> Option<Seq<char>> {
    let t = trim(target);
    if t.len() == 0 {
        Some(completion_value(room))
    } else if option_starts(room.name, t) {
        room.name
    } else if option_starts(room.canonical_alias, t) {
        room.canonical_alias
    } else if starts(room.room_id, t) {
        Some(room.room_id)
    } else if alias_with_hash(t) is Some && option_starts(
        room.canonical_alias,
        alias_with_hash(t)->0,
    ) {
        room.canonical_alias
    } else {
        match incomplete_name(t) {
            Some(local) => if option_starts(option_local(room.canonical_alias), local) {
                option_local(room.canonical_alias)
            } else if option_starts(local_name(room.room_id), local) {
                local_name(room.room_id)
            } else {
                None
            },
            None => None,
        }
    }
}

fn alias_local(room: &RoomDto) -> (out: Option<&str>)
    ensures
        option_str_view(out) == option_local(room@.canonical_alias),
{
    match &room.canonical_alias {
        Some(a) => matrix_room_local_name(a.as_str()),
        None => None,
    }
}

fn option_text_starts(field: Option<&str>, target: &str) -> (r: bool)
    ensures
        r == option_starts(option_str_view(field), target@),
{
    match field {
        Some(f) => text_starts(f, target),
        None => false,
    }
}

pub fn room_matching_prefix_value<'a>(room: &'a RoomDto, target: &str) -> (out: Option<&'a str>)
    ensures
        option_str_view(out) == prefix_value(room@, target@),
{
    let t = trim_text(target);
    if t.is_empty() {
        return Some(room_completion_value(room));
    }
    let name = option_str(&room.name);
    if option_text_starts(name, t) {
        return name;
    }
    let alias = option_str(&room.canonical_alias);
    if option_text_starts(alias, t) {
        return alias;
    }
    if text_starts(room.room_id.as_str(), t) {
        return Some(room.room_id.as_str());
    }
    if let Some(hashed) = room_alias_with_hash(t) {
        if option_text_starts(alias, hashed.as_str()) {
            return alias;
        }
    }
    match incomplete_matrix_room_name(t) {
        Some(local) => {
            let of_alias = alias_local(room);
            if option_text_starts(of_alias, local) {
                return of_alias;
            }
            let of_id = matrix_room_local_name(room.room_id.as_str());
            if option_text_starts(of_id, local) {
                return of_id;
            }
            None
        },
        None => None,
    }
}

pub open spec fn matches_completion(room: RoomView, target: Seq<char>) -> bool {
    prefix_value(room, target) is Some
}

pub fn room_matches_completion(room: &RoomDto, target: &str) -> (r: bool)
    ensures
        r == matches_completion(room@, target@),
{
    room_matching_prefix_value(room, target).is_some()
}

// ---------------------------------------------------------------------------
// The rooms to complete from
// ---------------------------------------------------------------------------

/// The rooms at positions of the list.
pub open spec fn rooms_at(rooms: Seq<RoomDto>, positions: Seq<usize>) -> Seq<RoomView> {
    Seq::new(positions.len(), |i: int| rooms[positions[i] as int]@)
}

/// The position of the first room of an id, or the length of the list.
pub open spec fn id_position(rooms: Seq<RoomView>, id: Seq<char>) -> int
    decreases rooms.len(),
{
    if rooms.len() == 0 {
        0
    } else if rooms[0].room_id == id {
        0
    } else {
        1 + id_position(rooms.drop_first(), id)
    }
}

/// How good the value is that a room is shown by: its alias before its name, and that
/// before its id.
pub open spec fn shown_rank(room: RoomView) -> int {
    if room.canonical_alias is Some {
        2
    } else if room.name is Some {
        1
    } else {
        0
    }
}

fn rank_of(room: &RoomDto) -> (out: u8)
    ensures
        out == shown_rank(room@),
{
    if room.canonical_alias.is_some() {
        2
    } else if room.name.is_some() {
        1
    } else {
        0
    }
}

/// The rooms of a list, each once though several accounts are in it: an entry that is
/// shown by a better value replaces one that is shown by a worse.
pub open spec fn merged(rooms: Seq<RoomView>) -> Seq<RoomView>
    decreases rooms.len(),
{
    if rooms.len() == 0 {
        Seq::empty()
    } else {
        let before = merged(rooms.drop_last());
        let room = rooms.last();
        let at = id_position(before, room.room_id);
        if at == before.len() {
            before.push(room)
        } else if shown_rank(before[at]) < shown_rank(room) {
            before.update(at, room)
        } else {
            before
        }
    }
}

proof fn lemma_id_position(rooms: Seq<RoomView>, id: Seq<char>, at: int)
    requires
        0 <= at <= rooms.len(),
        forall|k: int| 0 <= k < at ==> (#[trigger] rooms[k]).room_id != id,
        at < rooms.len() ==> rooms[at].room_id == id,
    ensures
        id_position(rooms, id) == at,
    decreases at,
{
    if at > 0 {
        assert(rooms[0].room_id != id);
        assert forall|k: int| 0 <= k < at - 1 implies (#[trigger] rooms.drop_first()[k]).room_id
            != id by {
            assert(rooms.drop_first()[k] == rooms[k + 1]);
        }
        lemma_id_position(rooms.drop_first(), id, at - 1);
    }
}

proof fn lemma_id_position_is(rooms: Seq<RoomView>, id: Seq<char>)
    ensures
        0 <= id_position(rooms, id) <= rooms.len(),
        id_position(rooms, id) < rooms.len() ==> rooms[id_position(rooms, id)].room_id == id,
        forall|k: int|
            0 <= k < id_position(rooms, id) ==> (#[trigger] rooms[k]).room_id != id,
    decreases rooms.len(),
{
    if rooms.len() > 0 && rooms[0].room_id != id {
        lemma_id_position_is(rooms.drop_first(), id);
        assert forall|k: int| 0 <= k < id_position(rooms, id) implies (#[trigger] rooms[k]).room_id
            != id by {
            if k > 0 {
                assert(rooms[k] == rooms.drop_first()[k - 1]);
            }
        }
    }
}

fn find_id(rooms: &Vec<&RoomDto>, id: &str) -> (at: usize)
    ensures
        at == id_position(views(rooms@), id@),
        at <= rooms.len(),
{
    let mut i: usize = 0;
    while i < rooms.len()
        invariant
            i <= rooms.len(),
            forall|k: int| 0 <= k < i ==> (#[trigger] views(rooms@)[k]).room_id != id@,
        decreases rooms.len() - i,
    {
        if same_text(rooms[i].room_id.as_str(), id) {
            proof {
                lemma_id_position(views(rooms@), id@, i as int);
            }
            return i;
        }
        i = i + 1;
    }
    proof {
        lemma_id_position(views(rooms@), id@, i as int);
    }
    i
}

impl RoomsState {
    /// The rooms that the list shows, each once.
    pub open spec fn to_complete(self, account: Option<u128>) -> Seq<RoomView> {
        merged(rooms_at(self.rooms@, self.visible(account)))
    }

    pub fn visible_rooms_for_completion(&self, account: Option<u128>) -> (out: Vec<&RoomDto>)
        ensures
            views(out@) == self.to_complete(account),
    {
        let visible = self.visible_indices(account);
        let ghost all = rooms_at(self.rooms@, visible@);
        let mut out: Vec<&RoomDto> = Vec::new();
        let mut i: usize = 0;
        assert(views(out@) =~= Seq::<RoomView>::empty());
        while i < visible.len()
            invariant
                i <= visible.len(),
                forall|k: int| 0 <= k < visible@.len() ==> #[trigger] visible@[k] < self.rooms@.len(),
                all == rooms_at(self.rooms@, visible@),
                views(out@) == merged(all.take(i as int)),
            decreases visible.len() - i,
        {
            let ghost before = views(out@);
            assert(all.take(i + 1).drop_last() =~= all.take(i as int));
            let room = &self.rooms[visible[i]];
            assert(all.take(i + 1).last() == room@);
            let at: usize = find_id(&out, room.room_id.as_str());
            if at == out.len() {
                out.push(room);
                assert(views(out@) =~= before.push(room@));
            } else if rank_of(out[at]) < rank_of(room) {
                out.set(at, room);
                assert(views(out@) =~= before.update(at as int, room@));
            }
            i = i + 1;
        }
        assert(all.take(i as int) =~= all);
        out
    }
}

proof fn lemma_merged_once(rooms: Seq<RoomView>)
    ensures
        forall|i: int, j: int|
            0 <= i < j < merged(rooms).len() ==> (#[trigger] merged(rooms)[i]).room_id != (
            #[trigger] merged(rooms)[j]).room_id,
        forall|k: int|
            0 <= k < rooms.len() ==> id_position(merged(rooms), (#[trigger] rooms[k]).room_id)
                < merged(rooms).len(),
    decreases rooms.len(),
{
    if rooms.len() > 0 {
        let before = merged(rooms.drop_last());
        let after = merged(rooms);
        let room = rooms.last();
        lemma_merged_once(rooms.drop_last());
        lemma_id_position_is(before, room.room_id);
        let at = id_position(before, room.room_id);
        assert forall|k: int| 0 <= k < rooms.len() implies id_position(
            after,
            (#[trigger] rooms[k]).room_id,
        ) < after.len() by {
            let id = rooms[k].room_id;
            lemma_id_position_is(after, id);
            if k < rooms.len() - 1 {
                assert(rooms.drop_last()[k] == rooms[k]);
                lemma_id_position_is(before, id);
                let p = id_position(before, id);
                assert(after[p].room_id == id);
            } else {
                assert(after[at].room_id == id);
            }
        }
    }
}

proof fn lemma_merged_best(rooms: Seq<RoomView>, k: int, p: int)
    requires
        0 <= k < rooms.len(),
        0 <= p < merged(rooms).len(),
        merged(rooms)[p].room_id == rooms[k].room_id,
    ensures
        shown_rank(rooms[k]) <= shown_rank(merged(rooms)[p]),
    decreases rooms.len(),
{
    let before = merged(rooms.drop_last());
    let room = rooms.last();
    let at = id_position(before, room.room_id);
    lemma_merged_once(rooms);
    lemma_merged_once(rooms.drop_last());
    lemma_id_position_is(before, room.room_id);
    if k < rooms.len() - 1 {
        let id = rooms[k].room_id;
        assert(rooms.drop_last()[k] == rooms[k]);
        lemma_id_position_is(before, id);
        let q = id_position(before, id);
        assert(merged(rooms)[q].room_id == id);
        assert(p == q);
        lemma_merged_best(rooms.drop_last(), k, q);
    } else {
        assert(merged(rooms)[at].room_id == room.room_id);
        assert(p == at);
    }
}

/// Of the entries with one id, the one to complete from is shown by the best value: no
/// entry that the list shows has a better one.
pub proof fn law_best_value_is_kept(rooms: RoomsState, account: Option<u128>, k: int, p: int)
    requires
        0 <= k < rooms.visible(account).len(),
        0 <= p < rooms.to_complete(account).len(),
        rooms.to_complete(account)[p].room_id
            == rooms.rooms@[rooms.visible(account)[k] as int]@.room_id,
    ensures
        shown_rank(rooms.rooms@[rooms.visible(account)[k] as int]@) <= shown_rank(
            rooms.to_complete(account)[p],
        ),
{
    lemma_merged_best(rooms_at(rooms.rooms@, rooms.visible(account)), k, p);
}

/// The rooms to complete from name each room once, and leave out none that the
/// list shows.
pub proof fn law_rooms_to_complete(rooms: RoomsState, account: Option<u128>, i: int, j: int, k: int)
    ensures
        0 <= i < j < rooms.to_complete(account).len() ==> rooms.to_complete(account)[i].room_id
            != rooms.to_complete(account)[j].room_id,
        0 <= k < rooms.visible(account).len() ==> exists|p: int|
            0 <= p < rooms.to_complete(account).len() && (#[trigger] rooms.to_complete(
                account,
            )[p]).room_id == rooms.rooms@[rooms.visible(account)[k] as int]@.room_id,
{
    let all = rooms_at(rooms.rooms@, rooms.visible(account));
    lemma_merged_once(all);
    if 0 <= k < rooms.visible(account).len() {
        let id = all[k].room_id;
        lemma_id_position_is(merged(all), id);
        assert(merged(all)[id_position(merged(all), id)].room_id == id);
    }
}

// ---------------------------------------------------------------------------
// Resolution
// ---------------------------------------------------------------------------

/// What a room target means.
#[derive(Debug)]
pub enum RoomTargetResolution {
    Match(usize),
    Ambiguous(Vec<String>),
    Missing,
}

pub enum RoomTargetView {
    Match(usize),
    Ambiguous(Seq<Seq<char>>),
    Missing,
}

impl View for RoomTargetResolution {
    type V = RoomTargetView;

    open spec fn view(&self) -> RoomTargetView {
        match self {
            RoomTargetResolution::Match(i) => RoomTargetView::Match(*i),
            RoomTargetResolution::Ambiguous(options) => RoomTargetView::Ambiguous(views(options@)),
            RoomTargetResolution::Missing => RoomTargetView::Missing,
        }
    }
}

/// The ways in which a target can mean a room, tried one after the other.
#[derive(Debug, Clone, Copy, PartialEq, Eq, Structural)]
pub enum MatchRule {
    Exact,
    Alias,
    Local,
    Prefix,
}

/// Whether a target means a room under a rule.
pub open spec fn meant(rule: MatchRule, room: RoomView, target: Seq<char>) -> bool {
    match rule {
        MatchRule::Exact => room.room_id == target || room.canonical_alias == Some(target) || (
        room.name is Some && lowercase(room.name->0) == lowercase(target)),
        MatchRule::Alias => alias_with_hash(target) is Some && room.canonical_alias
            == alias_with_hash(target),
        MatchRule::Local => match incomplete_name(target) {
            Some(local) => {
                ||| option_local(room.canonical_alias) is Some && same_ignoring_case(
                    option_local(room.canonical_alias)->0,
                    local,
                )
                ||| local_name(room.room_id) is Some && same_ignoring_case(
                    local_name(room.room_id)->0,
                    local,
                )
            },
            None => false,
        },
        MatchRule::Prefix => matches_completion(room, target),
    }
}

fn is_meant(rule: MatchRule, room: &RoomDto, target: &str) -> (r: bool)
    ensures
        r == meant(rule, room@, target@),
{
    match rule {
        MatchRule::Exact => same_text(room.room_id.as_str(), target) || same_option(
            option_str(&room.canonical_alias),
            Some(target),
        ) || match &room.name {
            Some(n) => same_text(
                to_lowercase(n.as_str()).as_str(),
                to_lowercase(target).as_str(),
            ),
            None => false,
        },
        MatchRule::Alias => match room_alias_with_hash(target) {
            Some(alias) => same_option(option_str(&room.canonical_alias), Some(alias.as_str())),
            None => false,
        },
        MatchRule::Local => match incomplete_matrix_room_name(target) {
            Some(local) => {
                let of_alias = match alias_local(room) {
                    Some(l) => same_text_ignoring_case(l, local),
                    None => false,
                };
                of_alias || match matrix_room_local_name(room.room_id.as_str()) {
                    Some(l) => same_text_ignoring_case(l, local),
                    None => false,
                }
            },
            None => false,
        },
        MatchRule::Prefix => room_matches_completion(room, target),
    }
}

/// The positions of a list whose rooms a target means under a rule.
pub open spec fn meant_of(
    rooms: Seq<RoomDto>,
    visible: Seq<usize>,
    rule: MatchRule,
    target: Seq<char>,
) -> Seq<usize>
    decreases visible.len(),
{
    if visible.len() == 0 {
        Seq::empty()
    } else {
        let before = meant_of(rooms, visible.drop_last(), rule, target);
        if meant(rule, rooms[visible.last() as int]@, target) {
            before.push(visible.last())
        } else {
            before
        }
    }
}

/// How a room is offered where a target means several: what of it is still to be
/// typed, or else its whole value.
pub open spec fn option_text(room: RoomView, target: Seq<char>) -> Seq<char> {
    let value = match prefix_value(room, target) {
        Some(v) => v,
        None => completion_value(room),
    };
    still_to_type(value, target)
}

/// What of a value follows a beginning, or the value where nothing does.
pub open spec fn still_to_type(value: Seq<char>, prefix: Seq<char>) -> Seq<char> {
    match suffix_after(value, prefix) {
        Some(s) => if s.len() == 0 {
            value
        } else {
            s
        },
        None => value,
    }
}

pub fn text_still_to_type<'a>(value: &'a str, prefix: &str) -> (out: &'a str)
    ensures
        out@ == still_to_type(value@, prefix@),
{
    match case_insensitive_suffix(value, prefix) {
        Some(s) => if s.is_empty() {
            value
        } else {
            s
        },
        None => value,
    }
}

/// What the rooms that a target means come to.
pub open spec fn classified_rooms(
    rooms: Seq<RoomDto>,
    target: Seq<char>,
    found: Seq<usize>,
) -> Option<RoomTargetView> {
    if found.len() == 0 {
        None
    } else if found.len() == 1 {
        Some(RoomTargetView::Match(found[0]))
    } else {
        Some(
            RoomTargetView::Ambiguous(
                Seq::new(found.len(), |i: int| option_text(rooms[found[i] as int]@, target)),
            ),
        )
    }
}

/// The first result that is there.
pub open spec fn first_of(
    a: Option<RoomTargetView>,
    b: Option<RoomTargetView>,
) -> Option<RoomTargetView> {
    match a {
        Some(x) => Some(x),
        None => b,
    }
}

impl RoomsState {
    pub open spec fn resolved_by(
        self,
        account: Option<u128>,
        rule: MatchRule,
        target: Seq<char>,
    ) -> Option<RoomTargetView> {
        classified_rooms(
            self.rooms@,
            target,
            meant_of(self.rooms@, self.visible(account), rule, target),
        )
    }

    /// What a target means: a number is a place in the list; else the rules are
    /// tried in turn.
    pub open spec fn resolved_room(self, account: Option<u128>, target: Seq<char>) -> RoomTargetView {
        let t = trim(target);
        if number_of(t) is Some && number_of(t)->0 <= usize::MAX {
            let n = number_of(t)->0;
            if 1 <= n <= self.visible(account).len() {
                RoomTargetView::Match(self.visible(account)[n - 1])
            } else {
                RoomTargetView::Missing
            }
        } else {
            match first_of(
                self.resolved_by(account, MatchRule::Exact, t),
                first_of(
                    self.resolved_by(account, MatchRule::Alias, t),
                    first_of(
                        self.resolved_by(account, MatchRule::Local, t),
                        self.resolved_by(account, MatchRule::Prefix, t),
                    ),
                ),
            ) {
                Some(r) => r,
                None => RoomTargetView::Missing,
            }
        }
    }

    fn resolve_by(
        &self,
        visible: &Vec<usize>,
        rule: MatchRule,
        target: &str,
    ) -> (out: Option<RoomTargetResolution>)
        requires
            forall|k: int| 0 <= k < visible@.len() ==> #[trigger] visible@[k] < self.rooms@.len(),
        ensures
            match out {
                Some(r) => classified_rooms(
                    self.rooms@,
                    target@,
                    meant_of(self.rooms@, visible@, rule, target@),
                ) == Some(r@),
                None => classified_rooms(
                    self.rooms@,
                    target@,
                    meant_of(self.rooms@, visible@, rule, target@),
                ) is None,
            },
    {
        let mut found: Vec<usize> = Vec::new();
        let mut i: usize = 0;
        while i < visible.len()
            invariant
                i <= visible.len(),
                forall|k: int| 0 <= k < visible@.len() ==> #[trigger] visible@[k] < self.rooms@.len(),
                forall|k: int| 0 <= k < found@.len() ==> #[trigger] found@[k] < self.rooms@.len(),
                found@ == meant_of(self.rooms@, visible@.take(i as int), rule, target@),
            decreases visible.len() - i,
        {
            assert(visible@.take(i + 1).drop_last() =~= visible@.take(i as int));
            let at: usize = visible[i];
            if is_meant(rule, &self.rooms[at], target) {
                found.push(at);
            }
            i = i + 1;
        }
        assert(visible@.take(i as int) =~= visible@);
        if found.len() == 0 {
            None
        } else if found.len() == 1 {
            Some(RoomTargetResolution::Match(found[0]))
        } else {
            let mut options: Vec<String> = Vec::new();
            let mut k: usize = 0;
            while k < found.len()
                invariant
                    k <= found.len(),
                    forall|k: int| 0 <= k < found@.len() ==> #[trigger] found@[k] < self.rooms@.len(),
                    options.len() == k,
                    forall|j: int|
                        0 <= j < k ==> (#[trigger] options@[j])@ == option_text(
                            self.rooms@[found@[j] as int]@,
                            target@,
                        ),
                decreases found.len() - k,
            {
                let room = &self.rooms[found[k]];
                let value = match room_matching_prefix_value(room, target) {
                    Some(v) => v,
                    None => room_completion_value(room),
                };
                options.push(text_still_to_type(value, target).to_owned());
                k = k + 1;
            }
            assert(views(options@) =~= Seq::new(
                found@.len(),
                |i: int| option_text(self.rooms@[found@[i] as int]@, target@),
            ));
            Some(RoomTargetResolution::Ambiguous(options))
        }
    }

    pub fn resolve_room_target_in_account(&self, target: &str, account: Option<u128>) -> (out:
        RoomTargetResolution)
        ensures
            out@ == self.resolved_room(account, target@),
            out matches RoomTargetResolution::Match(i) ==> i < self.rooms@.len(),
    {
        let t = trim_text(target);
        let visible = self.visible_indices(account);
        if let Some(n) = parse_usize(t) {
            if n >= 1 && n <= visible.len() {
                return RoomTargetResolution::Match(visible[n - 1]);
            }
            return RoomTargetResolution::Missing;
        }
        proof {
            self.lemma_meant_in_list(account, MatchRule::Exact, t@);
            self.lemma_meant_in_list(account, MatchRule::Alias, t@);
            self.lemma_meant_in_list(account, MatchRule::Local, t@);
            self.lemma_meant_in_list(account, MatchRule::Prefix, t@);
        }
        if let Some(r) = self.resolve_by(&visible, MatchRule::Exact, t) {
            return r;
        }
        if let Some(r) = self.resolve_by(&visible, MatchRule::Alias, t) {
            return r;
        }
        if let Some(r) = self.resolve_by(&visible, MatchRule::Local, t) {
            return r;
        }
        match self.resolve_by(&visible, MatchRule::Prefix, t) {
            Some(r) => r,
            None => RoomTargetResolution::Missing,
        }
    }

    proof fn lemma_meant_in_list(&self, account: Option<u128>, rule: MatchRule, target: Seq<char>)
        requires
            forall|k: int|
                0 <= k < self.visible(account).len() ==> #[trigger] self.visible(account)[k]
                    < self.rooms@.len(),
        ensures
            forall|k: int|
                0 <= k < meant_of(self.rooms@, self.visible(account), rule, target).len() ==> (
                #[trigger] meant_of(self.rooms@, self.visible(account), rule, target)[k])
                    < self.rooms@.len(),
    {
        lemma_meant_bound(self.rooms@, self.visible(account), rule, target);
    }
}

proof fn lemma_meant_bound(
    rooms: Seq<RoomDto>,
    visible: Seq<usize>,
    rule: MatchRule,
    target: Seq<char>,
)
    requires
        forall|k: int| 0 <= k < visible.len() ==> #[trigger] visible[k] < rooms.len(),
    ensures
        forall|k: int|
            0 <= k < meant_of(rooms, visible, rule, target).len() ==> (#[trigger] meant_of(
                rooms,
                visible,
                rule,
                target,
            )[k]) < rooms.len() && visible.contains(meant_of(rooms, visible, rule, target)[k]),
    decreases visible.len(),
{
    if visible.len() > 0 {
        lemma_meant_bound(rooms, visible.drop_last(), rule, target);
        let before = meant_of(rooms, visible.drop_last(), rule, target);
        let all = meant_of(rooms, visible, rule, target);
        assert forall|k: int| 0 <= k < all.len() implies (#[trigger] all[k]) < rooms.len()
            && visible.contains(all[k]) by {
            if k < before.len() {
                assert(all[k] == before[k]);
                let p = choose|p: int|
                    0 <= p < visible.drop_last().len() && visible.drop_last()[p] == before[k];
                assert(visible[p] == all[k]);
            } else {
                assert(all[k] == visible.last());
                assert(visible[visible.len() - 1] == all[k]);
            }
        }
    }
}

/// A target never means a room that the list does not show.
pub proof fn law_resolved_room_is_shown(rooms: RoomsState, account: Option<u128>, target: Seq<char>)
    ensures
        rooms.resolved_room(account, target) matches RoomTargetView::Match(i) ==> rooms.visible(
            account,
        ).contains(i),
{
    let t = trim(target);
    reveal(RoomsState::visible);
    rooms.lemma_shown_bound(account, rooms.rooms@.len() as int);
    lemma_meant_bound(rooms.rooms@, rooms.visible(account), MatchRule::Exact, t);
    lemma_meant_bound(rooms.rooms@, rooms.visible(account), MatchRule::Alias, t);
    lemma_meant_bound(rooms.rooms@, rooms.visible(account), MatchRule::Local, t);
    lemma_meant_bound(rooms.rooms@, rooms.visible(account), MatchRule::Prefix, t);
}

impl RoomsState {
    pub proof fn lemma_shown_bound(self, account: Option<u128>, n: int)
        requires
            n <= self.rooms@.len(),
        ensures
            forall|k: int|
                0 <= k < self.shown_among(account, n).len() ==> #[trigger] self.shown_among(
                    account,
                    n,
                )[k] < self.rooms@.len(),
        decreases n,
    {
        if n > 0 {
            self.lemma_shown_bound(account, n - 1);
            let before = self.shown_among(account, n - 1);
            assert forall|k: int| 0 <= k < self.shown_among(account, n).len() implies (
            #[trigger] self.shown_among(account, n)[k]) < self.rooms@.len() by {
                if k < before.len() {
                    assert(self.shown_among(account, n)[k] == before[k]);
                } else {
                    assert(self.rooms@.len() == self.rooms.len());
                }
            }
        }
    }
}

impl App {
    pub fn resolve_room_target(&self, target: &str) -> (out: RoomTargetResolution)
        ensures
            out@ == self.rooms.resolved_room(self.account_shown(), target@),
            out matches RoomTargetResolution::Match(i) ==> i < self.rooms.rooms@.len(),
    {
        self.rooms.resolve_room_target_in_account(target, self.active_account_filter())
    }
}

} // verus!
