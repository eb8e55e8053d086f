//! Reactions: how they are counted, shown, added and withdrawn.

use vstd::prelude::*;

use crate::api::client::{
    bare, event_url, AxonClient, Method, Request, MESSAGE_MUTATION_TIMEOUT,
};
use crate::api::dto::{map_option_view, map_views, EventDto, EventView, ReactionTally, TallyView};
use crate::app::choice::{room_key, RoomKey, RoomKeyView};
use crate::app::compose::{acting, event_changed};
use crate::app::drafts::{put_view, DraftPut};
use crate::app::lifecycle::{line_taken, said};
use crate::app::outcome::{find_stored, kept_at};
use crate::app::selection::{echo_id, is_local_echo};
use crate::app::state::{
    pending_echo_text, App, MessagePane, Mode, ModeView, OwnReaction, OwnReactionView,
};
use crate::app::status::{Status, StatusView};
use crate::keyed::{keys_once, KeyedMap};
use crate::order::{
    chars_less, each_once, goes_first, lemma_each_once_holds, lemma_text_less_total,
    lemma_text_less_transitive, sorted_positions, text_less, SortKey, TextKey,
};
use crate::text::{cat2, cat3, cat5, chars_of, decimal, decimal_usize, is_listed, option_str, option_str_view, option_view, same_text, views};

verus! {

// ---------------------------------------------------------------------------
// Counting
// ---------------------------------------------------------------------------

/// Whether a reaction adds to the count. A user counts once. The account's own
/// reaction may have been counted before its user was known; it does not count
/// again when it is.
pub open spec fn adds_one(t: TallyView, sender: Option<Seq<char>>, own: bool) -> bool {
    match sender {
        Some(user) => !t.senders.contains(user) && !(own && t.me),
        None => own && !t.me && t.my_event_ids.len() == 0,
    }
}

/// `list` and one more text, where it is not there.
pub open spec fn with_text(list: Seq<Seq<char>>, text: Seq<char>) -> Seq<Seq<char>> {
    if list.contains(text) {
        list
    } else {
        list.push(text)
    }
}

/// A tally after a reaction was recorded.
pub open spec fn recorded(
    t: TallyView,
    sender: Option<Seq<char>>,
    event_id: Option<Seq<char>>,
    own: bool,
) -> TallyView {
    TallyView {
        count: if adds_one(t, sender, own) {
            (t.count + 1) as i64
        } else {
            t.count
        },
        me: t.me || own,
        senders: match sender {
            Some(user) => with_text(t.senders, user),
            None => t.senders,
        },
        my_event_ids: match event_id {
            Some(id) => if own {
                with_text(t.my_event_ids, id)
            } else {
                t.my_event_ids
            },
            None => t.my_event_ids,
        },
    }
}

/// Records the reaction of one user in a tally. The same reaction again changes
/// nothing.
pub fn record_reaction(
    tally: &mut ReactionTally,
    sender: Option<&str>,
    reaction_event_id: Option<&str>,
    is_own: bool,
)
    requires
        adds_one(old(tally)@, option_str_view(sender), is_own) ==> old(tally).count < i64::MAX,
    ensures
        final(tally)@ == recorded(
            old(tally)@,
            option_str_view(sender),
            option_str_view(reaction_event_id),
            is_own,
        ),
{
    let ghost users = views(tally.senders@);
    match sender {
        Some(user) => {
            if !is_listed(tally.senders.as_slice(), user) {
                tally.senders.push(user.to_owned());
                assert(views(tally.senders@) =~= users.push(user@));
                if !(is_own && tally.me) {
                    tally.count = tally.count + 1;
                }
            }
        },
        None => {
            assert(views(tally.my_event_ids@).len() == tally.my_event_ids@.len());
            if is_own && !tally.me && tally.my_event_ids.len() == 0 {
                tally.count = tally.count + 1;
            }
        },
    }
    if is_own {
        tally.me = true;
        if let Some(id) = reaction_event_id {
            if !is_listed(tally.my_event_ids.as_slice(), id) {
                let ghost ids = views(tally.my_event_ids@);
                tally.my_event_ids.push(id.to_owned());
                assert(views(tally.my_event_ids@) =~= ids.push(id@));
            }
        }
    }
}

/// The same reaction recorded twice counts as once.
pub proof fn law_recorded_once(
    t: TallyView,
    sender: Option<Seq<char>>,
    event_id: Option<Seq<char>>,
    own: bool,
)
    ensures
        ({
            let once = recorded(t, sender, event_id, own);
            recorded(once, sender, event_id, own) == once
        }),
{
    let once = recorded(t, sender, event_id, own);
    if let Some(user) = sender {
        assert(once.senders.contains(user)) by {
            if !t.senders.contains(user) {
                assert(once.senders[t.senders.len() as int] == user);
            }
        }
    }
    if let Some(id) = event_id {
        if own {
            assert(once.my_event_ids.contains(id)) by {
                if !t.my_event_ids.contains(id) {
                    assert(once.my_event_ids[t.my_event_ids.len() as int] == id);
                }
            }
        }
    }
}

/// The account's own reaction counts once, whether its user was known first or only
/// later.
pub proof fn law_own_reaction_counts_once(t: TallyView, user: Seq<char>, id: Seq<char>)
    requires
        !t.me,
        t.my_event_ids.len() == 0,
        !t.senders.contains(user),
        t.count < i64::MAX,
    ensures
        recorded(recorded(t, None, Some(id), true), Some(user), Some(id), true).count == t.count + 1,
        recorded(recorded(t, Some(user), Some(id), true), None, Some(id), true).count == t.count + 1,
{
}

/// The reactions of different users count in any order.
pub proof fn law_order_of_users(t: TallyView, a: Seq<char>, b: Seq<char>)
    requires
        t.count + 2 <= i64::MAX,
    ensures
        recorded(recorded(t, Some(a), None, false), Some(b), None, false).count == recorded(
            recorded(t, Some(b), None, false),
            Some(a),
            None,
            false,
        ).count,
{
    let ta = recorded(t, Some(a), None, false);
    let tb = recorded(t, Some(b), None, false);
    assert(ta.senders.contains(b) == (t.senders.contains(b) || a == b)) by {
        lemma_with_text(t.senders, a, b);
    }
    assert(tb.senders.contains(a) == (t.senders.contains(a) || a == b)) by {
        lemma_with_text(t.senders, b, a);
    }
}

proof fn lemma_with_text(list: Seq<Seq<char>>, text: Seq<char>, other: Seq<char>)
    ensures
        with_text(list, text).contains(other) == (list.contains(other) || text == other),
{
    let more = with_text(list, text);
    if list.contains(other) {
        let i = choose|i: int| 0 <= i < list.len() && list[i] == other;
        assert(more[i] == other);
    }
    if !list.contains(text) && text == other {
        assert(more[list.len() as int] == other);
    }
    if more.contains(other) && !list.contains(other) {
        let i = choose|i: int| 0 <= i < more.len() && more[i] == other;
        if i < list.len() {
            assert(list[i] == other);
        }
    }
}

// ---------------------------------------------------------------------------
// Withdrawing
// ---------------------------------------------------------------------------

/// The texts of a list that are not among others.
pub open spec fn without_texts(list: Seq<Seq<char>>, gone: Seq<Seq<char>>) -> Seq<Seq<char>>
    decreases list.len(),
{
    if list.len() == 0 {
        Seq::empty()
    } else {
        let before = without_texts(list.drop_last(), gone);
        if gone.contains(list.last()) {
            before
        } else {
            before.push(list.last())
        }
    }
}

/// One less, as far as numbers go.
pub open spec fn one_less(n: i64) -> i64 {
    if n == i64::MIN {
        n
    } else {
        (n - 1) as i64
    }
}

/// A tally after events of the account were withdrawn. With the last of them the
/// account's part of the count goes.
pub open spec fn withdrawn_from(t: TallyView, own: Option<Seq<char>>, gone: Seq<Seq<char>>) -> TallyView {
    let left = without_texts(t.my_event_ids, gone);
    if left.len() == 0 && t.me {
        TallyView {
            count: one_less(t.count),
            me: false,
            senders: match own {
                Some(user) => without_texts(t.senders, seq![user]),
                None => t.senders,
            },
            my_event_ids: left,
        }
    } else {
        TallyView { my_event_ids: left, ..t }
    }
}

fn keep_others(list: &Vec<String>, gone: &[String]) -> (out: Vec<String>)
    ensures
        views(out@) == without_texts(views(list@), views(gone@)),
{
    let ghost all = views(list@);
    let mut out: Vec<String> = Vec::new();
    let mut i: usize = 0;
    assert(views(out@) =~= Seq::<Seq<char>>::empty());
    while i < list.len()
        invariant
            i <= list.len(),
            all == views(list@),
            views(out@) == without_texts(all.take(i as int), views(gone@)),
        decreases list.len() - i,
    {
        let ghost before = views(out@);
        assert(all.take(i + 1).drop_last() =~= all.take(i as int));
        assert(all.take(i + 1).last() == list@[i as int]@);
        if !is_listed(gone, list[i].as_str()) {
            out.push(list[i].clone());
            assert(views(out@) =~= before.push(list@[i as int]@));
        }
        i = i + 1;
    }
    assert(all.take(i as int) =~= all);
    out
}

fn withdraw_from(tally: &mut ReactionTally, own: &Option<String>, gone: &[String])
    ensures
        final(tally)@ == withdrawn_from(old(tally)@, option_view(*own), views(gone@)),
{
    tally.my_event_ids = keep_others(&tally.my_event_ids, gone);
    assert(views(tally.my_event_ids@).len() == tally.my_event_ids@.len());
    if tally.my_event_ids.len() == 0 && tally.me {
        tally.me = false;
        if tally.count > i64::MIN {
            tally.count = tally.count - 1;
        }
        if let Some(user) = own {
            let one: Vec<String> = vec![user.clone()];
            assert(views(one@) =~= seq![user@]);
            tally.senders = keep_others(&tally.senders, one.as_slice());
        }
    }
}

proof fn lemma_without_push(list: Seq<Seq<char>>, text: Seq<char>)
    requires
        !list.contains(text),
    ensures
        without_texts(list, seq![text]) == list,
        without_texts(list.push(text), seq![text]) == list,
    decreases list.len(),
{
    let gone = seq![text];
    assert(gone[0] == text);
    assert(list.push(text).drop_last() =~= list);
    if list.len() > 0 {
        let rest = list.drop_last();
        assert(!rest.contains(text)) by {
            if rest.contains(text) {
                let i = choose|i: int| 0 <= i < rest.len() && rest[i] == text;
                assert(list[i] == text);
            }
        }
        lemma_without_push(rest, text);
        assert(list[list.len() - 1] != text);
        assert(rest.push(list.last()) =~= list);
    }
}

/// A reaction of the account that is withdrawn leaves the tally as it was.
pub proof fn law_withdrawal_undoes(t: TallyView, user: Seq<char>, id: Seq<char>)
    requires
        !t.me,
        t.my_event_ids.len() == 0,
        !t.senders.contains(user),
        i64::MIN <= t.count < i64::MAX,
    ensures
        withdrawn_from(recorded(t, Some(user), Some(id), true), Some(user), seq![id]) == t,
{
    let once = recorded(t, Some(user), Some(id), true);
    assert(t.my_event_ids =~= Seq::<Seq<char>>::empty());
    lemma_without_push(t.my_event_ids, id);
    lemma_without_push(t.senders, user);
    assert(once.my_event_ids =~= t.my_event_ids.push(id));
}

/// The reactions of an event after a withdrawal. A reaction that nobody is left with
/// goes, and with the last one all.
pub open spec fn reactions_left(
    reactions: Option<Map<Seq<char>, TallyView>>,
    key: Seq<char>,
    own: Option<Seq<char>>,
    gone: Seq<Seq<char>>,
) -> Option<Map<Seq<char>, TallyView>> {
    match reactions {
        None => None,
        Some(m) => {
            let left = if m.dom().contains(key) {
                let t = withdrawn_from(m[key], own, gone);
                if t.count <= 0 {
                    m.remove(key)
                } else {
                    m.insert(key, t)
                }
            } else {
                m
            };
            if left == Map::<Seq<char>, TallyView>::empty() {
                None
            } else {
                Some(left)
            }
        },
    }
}

/// Whether an event has other reactions and is otherwise the same.
pub open spec fn rereacted(
    before: EventDto,
    after: EventDto,
    reactions: Option<Map<Seq<char>, TallyView>>,
) -> bool {
    after == (EventDto { reactions: after.reactions, ..before }) && map_option_view(after.reactions)
        == reactions
}

fn withdraw_on(
    reactions: Option<KeyedMap<String, ReactionTally>>,
    key: &String,
    own: &Option<String>,
    gone: &[String],
) -> (out: Option<KeyedMap<String, ReactionTally>>)
    ensures
        map_option_view(out) == reactions_left(
            map_option_view(reactions),
            key@,
            option_view(*own),
            views(gone@),
        ),
{
    let mut map = match reactions {
        Some(map) => map,
        None => return None,
    };
    let ghost all = map_views(map@);
    match map.remove(key) {
        Some(tally) => {
            let mut t = tally;
            withdraw_from(&mut t, own, gone);
            if t.count > 0 {
                let ghost v = t@;
                map.insert(key.clone(), t);
                assert(map_views(map@) =~= all.insert(key@, v));
            } else {
                assert(map_views(map@) =~= all.remove(key@));
            }
        },
        None => {
            assert(map_views(map@) =~= all);
        },
    }
    let ghost left = map_views(map@);
    if map.is_empty() {
        assert(left =~= Map::<Seq<char>, TallyView>::empty());
        None
    } else {
        proof {
            if left == Map::<Seq<char>, TallyView>::empty() {
                assert(map@ =~= Map::<Seq<char>, ReactionTally>::empty()) by {
                    assert forall|k: Seq<char>| !map@.dom().contains(k) by {
                        assert(left.dom().contains(k) == map@.dom().contains(k));
                    }
                }
            }
        }
        Some(map)
    }
}

impl App {
    /// Whether the account's reaction was taken off an event of the selected room.
    pub open spec fn reaction_removed(
        self,
        after: App,
        target: Seq<char>,
        key: Seq<char>,
        gone: Seq<Seq<char>>,
    ) -> bool {
        match self.room() {
            Some(room) => if gone.len() == 0 {
                after == self
            } else {
                &&& after == (App { messages: after.messages, ..self })
                &&& event_changed(
                    self.messages,
                    after.messages,
                    room_key(room@),
                    target,
                    |a: EventDto, b: EventDto|
                        rereacted(
                            a,
                            b,
                            reactions_left(
                                map_option_view(a.reactions),
                                key,
                                self.own_user(room@),
                                gone,
                            ),
                        ),
                )
            },
            None => after == self,
        }
    }

    /// Takes the account's withdrawn reactions off an event before the server tells
    /// its new tally.
    pub fn remove_local_reaction(&mut self, target_event_id: &str, key: &str, withdrawn: &[String])
        ensures
            old(self).reaction_removed(*final(self), target_event_id@, key@, views(withdrawn@)),
    {
        assert(views(withdrawn@).len() == withdrawn@.len());
        if withdrawn.len() == 0 {
            return ;
        }
        let (room, own) = match self.selected_room() {
            Some(room) => (RoomKey::of(room), self.own_user_id_for(room)),
            None => return ,
        };
        let key_text = key.to_owned();
        let ghost before = self.messages.events@;
        if let Some((rest, at, event)) = self.messages.take_event(&room, target_event_id) {
            let ghost original = event;
            let mut changed = event;
            let mut reactions: Option<KeyedMap<String, ReactionTally>> = None;
            core::mem::swap(&mut reactions, &mut changed.reactions);
            changed.reactions = withdraw_on(reactions, &key_text, &own, withdrawn);
            let ghost now = changed;
            let ghost list = rest@;
            self.messages.put_event(&room, rest, at, changed);
            proof {
                assert(before[room@]@ == list.insert(at as int, original));
                assert(list.insert(at as int, now) =~= list.insert(at as int, original).update(
                    at as int,
                    now,
                ));
                assert(self.messages.events@.dom() =~= before.dom());
                assert(self.messages.events@[room@]@[at as int] == now);
            }
        }
    }
}

// ---------------------------------------------------------------------------
// Adding
// ---------------------------------------------------------------------------

/// The tally of a reaction that nobody has.
pub open spec fn empty_tally() -> TallyView {
    TallyView { count: 0, me: false, senders: Seq::empty(), my_event_ids: Seq::empty() }
}

/// The tally of a reaction.
pub open spec fn tally_of(reactions: Option<Map<Seq<char>, TallyView>>, key: Seq<char>) -> TallyView {
    match reactions {
        Some(m) => if m.dom().contains(key) {
            m[key]
        } else {
            empty_tally()
        },
        None => empty_tally(),
    }
}

/// The reactions of an event with one tally replaced.
pub open spec fn with_tally(
    reactions: Option<Map<Seq<char>, TallyView>>,
    key: Seq<char>,
    t: TallyView,
) -> Option<Map<Seq<char>, TallyView>> {
    match reactions {
        Some(m) => Some(m.insert(key, t)),
        None => Some(Map::<Seq<char>, TallyView>::empty().insert(key, t)),
    }
}

/// A tally after a reaction came. One that the account added itself was counted when
/// it was.
pub open spec fn arrived_on(t: TallyView, sender: Seq<char>, event_id: Seq<char>, own: bool) -> TallyView {
    if t.my_event_ids.contains(event_id) {
        t
    } else {
        recorded(t, Some(sender), Some(event_id), own)
    }
}

/// The sender of the first event that has one of the ids.
pub open spec fn sender_of_any(events: Seq<EventView>, ids: Seq<Seq<char>>) -> Option<Seq<char>>
    decreases events.len(),
{
    if events.len() == 0 {
        None
    } else if ids.contains(events[0].event_id) {
        Some(events[0].sender)
    } else {
        sender_of_any(events.drop_first(), ids)
    }
}

/// The event of a room with an id.
pub open spec fn kept_event(pane: MessagePane, key: RoomKeyView, id: Seq<char>) -> Option<EventDto> {
    match kept_at(pane.events@, key, id) {
        Some(at) => Some(pane.events@[key]@[at]),
        None => None,
    }
}

/// The events that the account reacted to an event with.
pub open spec fn own_ids_on(
    pane: MessagePane,
    room: RoomKeyView,
    target: Seq<char>,
    key: Seq<char>,
) -> Seq<Seq<char>> {
    match kept_event(pane, room, target) {
        Some(event) => tally_of(event@.reactions, key).my_event_ids,
        None => Seq::empty(),
    }
}

/// Whether there is room for one more in a tally.
pub open spec fn countable(
    pane: MessagePane,
    room: RoomKeyView,
    target: Seq<char>,
    key: Seq<char>,
) -> bool {
    match kept_event(pane, room, target) {
        Some(event) => tally_of(event@.reactions, key).count < i64::MAX,
        None => true,
    }
}

impl MessagePane {
    /// Whether there is room for one more in a tally.
    pub fn counts_one_more(&self, room: &RoomKey, target: &str, key: &str) -> (r: bool)
        ensures
            r == countable(*self, room@, target@, key@),
    {
        let events = match self.events.get(room) {
            Some(events) => events,
            None => return true,
        };
        let at: usize = find_stored(events, target);
        if at >= events.len() {
            return true;
        }
        let event = &events[at];
        match &event.reactions {
            None => true,
            Some(tallies) => match tallies.get(&key.to_owned()) {
                Some(t) => {
                    assert(event@.reactions->0.dom().contains(key@));
                    t.count < i64::MAX
                },
                None => true,
            },
        }
    }
}

fn take_tally(reactions: &mut KeyedMap<String, ReactionTally>, key: &String) -> (t: ReactionTally)
    ensures
        final(reactions)@ == old(reactions)@.remove(key@),
        t@ == tally_of(Some(map_views(old(reactions)@)), key@),
{
    match reactions.remove(key) {
        Some(t) => t,
        None => {
            let t = ReactionTally {
                count: 0,
                me: false,
                senders: Vec::new(),
                my_event_ids: Vec::new(),
            };
            assert(views(t.senders@) =~= Seq::<Seq<char>>::empty());
            assert(views(t.my_event_ids@) =~= Seq::<Seq<char>>::empty());
            t
        },
    }
}

fn react_on(
    reactions: Option<KeyedMap<String, ReactionTally>>,
    key: &String,
    sender: Option<&str>,
    event_id: &str,
    own: bool,
    echo: bool,
) -> (out: Option<KeyedMap<String, ReactionTally>>)
    requires
        tally_of(map_option_view(reactions), key@).count < i64::MAX,
    ensures
        map_option_view(out) == ({
            let t = tally_of(map_option_view(reactions), key@);
            let after = if echo && t.my_event_ids.contains(event_id@) {
                t
            } else {
                recorded(t, option_str_view(sender), Some(event_id@), own)
            };
            with_tally(map_option_view(reactions), key@, after)
        }),
{
    let ghost before = map_option_view(reactions);
    let mut map: KeyedMap<String, ReactionTally> = match reactions {
        Some(map) => map,
        None => KeyedMap::new(),
    };
    let ghost all = map_views(map@);
    assert(before is None ==> all =~= Map::<Seq<char>, TallyView>::empty());
    assert(tally_of(before, key@) == tally_of(Some(all), key@));
    let mut t = take_tally(&mut map, key);
    if !(echo && is_listed(t.my_event_ids.as_slice(), event_id)) {
        record_reaction(&mut t, sender, Some(event_id), own);
    }
    let ghost v = t@;
    map.insert(key.clone(), t);
    assert(map_views(map@) =~= all.insert(key@, v));
    Some(map)
}

impl App {
    fn own_user_id_from_reaction_rows(&self, room: &RoomKey, ids: &[String]) -> (out: Option<String>)
        ensures
            option_view(out) == sender_of_any(self.events_of(room@), views(ids@)),
    {
        let events = match self.messages.events.get(room) {
            Some(events) => events,
            None => return None,
        };
        let ghost all = views(events@);
        let mut i: usize = 0;
        assert(all.skip(0) =~= all);
        while i < events.len()
            invariant
                i <= events.len(),
                all == views(events@),
                all == self.events_of(room@),
                sender_of_any(all, views(ids@)) == sender_of_any(all.skip(i as int), views(ids@)),
            decreases events.len() - i,
        {
            assert(all.skip(i as int)[0] == events@[i as int]@);
            assert(all.skip(i as int).drop_first() =~= all.skip(i + 1));
            if is_listed(ids, events[i].event_id.as_str()) {
                return Some(events[i].sender.clone());
            }
            i = i + 1;
        }
        assert(all.skip(i as int).len() == 0);
        None
    }

    fn own_reaction_ids(&self, room: &RoomKey, target_event_id: &str, key: &str) -> (out: Vec<String>)
        ensures
            views(out@) == own_ids_on(self.messages, room@, target_event_id@, key@),
    {
        let none: Vec<String> = Vec::new();
        assert(views(none@) =~= Seq::<Seq<char>>::empty());
        let events = match self.messages.events.get(room) {
            Some(events) => events,
            None => return none,
        };
        let at: usize = find_stored(events, target_event_id);
        if at == events.len() {
            return none;
        }
        let reactions = match &events[at].reactions {
            Some(r) => r,
            None => return none,
        };
        match reactions.get(&key.to_owned()) {
            Some(tally) => {
                let mut out: Vec<String> = Vec::new();
                let mut i: usize = 0;
                let ghost all = views(tally.my_event_ids@);
                assert(views(out@) =~= all.take(0));
                while i < tally.my_event_ids.len()
                    invariant
                        i <= tally.my_event_ids.len(),
                        all == views(tally.my_event_ids@),
                        views(out@) == all.take(i as int),
                    decreases tally.my_event_ids.len() - i,
                {
                    let ghost before = views(out@);
                    out.push(tally.my_event_ids[i].clone());
                    assert(views(out@) =~= before.push(all[i as int]));
                    assert(all.take(i + 1) =~= all.take(i as int).push(all[i as int]));
                    i = i + 1;
                }
                assert(all.take(i as int) =~= all);
                out
            },
            None => none,
        }
    }

    /// The account's user: as it is known, else as a reaction that is the account's
    /// names it.
    pub open spec fn own_or_named(
        self,
        own: Option<Seq<char>>,
        room: RoomKeyView,
        ids: Seq<Seq<char>>,
    ) -> Option<Seq<char>> {
        match own {
            Some(user) => Some(user),
            None => sender_of_any(self.events_of(room), ids),
        }
    }

    /// Adds the account's reaction to an event of the selected room before the server
    /// tells its new tally.
    pub fn apply_local_reaction(&mut self, target_event_id: &str, key: &str, reaction_event_id: String)
        requires
            old(self).room() is Some ==> countable(
                old(self).messages,
                room_key(old(self).room()->0@),
                target_event_id@,
                key@,
            ),
        ensures
            old(self).reaction_added(
                *final(self),
                target_event_id@,
                key@,
                reaction_event_id@,
            ),
    {
        let (room, own) = match self.selected_room() {
            Some(room) => (RoomKey::of(room), self.own_user_id_for(room)),
            None => return ,
        };
        let ids: Vec<String> = vec![reaction_event_id.clone()];
        assert(views(ids@) =~= seq![reaction_event_id@]);
        let own = match own {
            Some(user) => Some(user),
            None => self.own_user_id_from_reaction_rows(&room, ids.as_slice()),
        };
        let key_text = key.to_owned();
        let ghost before = self.messages.events@;
        if let Some((rest, at, event)) = self.messages.take_event(&room, target_event_id) {
            let ghost original = event;
            let mut changed = event;
            let mut reactions: Option<KeyedMap<String, ReactionTally>> = None;
            core::mem::swap(&mut reactions, &mut changed.reactions);
            changed.reactions = react_on(
                reactions,
                &key_text,
                option_str(&own),
                reaction_event_id.as_str(),
                true,
                false,
            );
            let ghost now = changed;
            let ghost list = rest@;
            self.messages.put_event(&room, rest, at, changed);
            proof {
                assert(before[room@]@ == list.insert(at as int, original));
                assert(list.insert(at as int, now) =~= list.insert(at as int, original).update(
                    at as int,
                    now,
                ));
                assert(self.messages.events@.dom() =~= before.dom());
                assert(self.messages.events@[room@]@[at as int] == now);
            }
        }
    }

    /// Whether the account's reaction was added to an event of the selected room.
    pub open spec fn reaction_added(
        self,
        after: App,
        target: Seq<char>,
        key: Seq<char>,
        id: Seq<char>,
    ) -> bool {
        match self.room() {
            Some(room) => {
                let own = self.own_or_named(self.own_user(room@), room_key(room@), seq![id]);
                &&& after == (App { messages: after.messages, ..self })
                &&& event_changed(
                    self.messages,
                    after.messages,
                    room_key(room@),
                    target,
                    |a: EventDto, b: EventDto|
                        rereacted(
                            a,
                            b,
                            with_tally(
                                map_option_view(a.reactions),
                                key,
                                recorded(
                                    tally_of(map_option_view(a.reactions), key),
                                    own,
                                    Some(id),
                                    true,
                                ),
                            ),
                        ),
                )
            },
            None => after == self,
        }
    }

    /// Adds a reaction that came with the live events to the event that it is on.
    pub fn apply_remote_reaction(
        &mut self,
        room: &RoomKey,
        reaction_event_id: &str,
        target_event_id: &str,
        key: &str,
        sender: &str,
        own_user_id: Option<&str>,
    )
        requires
            countable(old(self).messages, room@, target_event_id@, key@),
        ensures
            *final(self) == (App { messages: final(self).messages, ..*old(self) }),
            ({
                let own = old(self).own_or_named(
                    option_str_view(own_user_id),
                    room@,
                    own_ids_on(old(self).messages, room@, target_event_id@, key@),
                );
                event_changed(
                    old(self).messages,
                    final(self).messages,
                    room@,
                    target_event_id@,
                    |a: EventDto, b: EventDto|
                        rereacted(
                            a,
                            b,
                            with_tally(
                                map_option_view(a.reactions),
                                key@,
                                arrived_on(
                                    tally_of(map_option_view(a.reactions), key@),
                                    sender@,
                                    reaction_event_id@,
                                    own == Some(sender@),
                                ),
                            ),
                        ),
                )
            }),
    {
        let named: Option<String> = match own_user_id {
            Some(user) => Some(user.to_owned()),
            None => {
                let mine = self.own_reaction_ids(room, target_event_id, key);
                self.own_user_id_from_reaction_rows(room, mine.as_slice())
            },
        };
        let is_own = match &named {
            Some(user) => same_text(user.as_str(), sender),
            None => false,
        };
        let key_text = key.to_owned();
        let ghost before = self.messages.events@;
        if let Some((rest, at, event)) = self.messages.take_event(room, target_event_id) {
            let ghost original = event;
            let mut changed = event;
            let mut reactions: Option<KeyedMap<String, ReactionTally>> = None;
            core::mem::swap(&mut reactions, &mut changed.reactions);
            changed.reactions = react_on(
                reactions,
                &key_text,
                Some(sender),
                reaction_event_id,
                is_own,
                true,
            );
            let ghost now = changed;
            let ghost list = rest@;
            self.messages.put_event(room, rest, at, changed);
            proof {
                assert(before[room@]@ == list.insert(at as int, original));
                assert(list.insert(at as int, now) =~= list.insert(at as int, original).update(
                    at as int,
                    now,
                ));
                assert(self.messages.events@.dom() =~= before.dom());
                assert(self.messages.events@[room@]@[at as int] == now);
            }
        }
    }
}

/// The live copy of a reaction that the account added does not count again.
pub proof fn law_own_copy_is_dropped(
    t: TallyView,
    own: Option<Seq<char>>,
    sender: Seq<char>,
    id: Seq<char>,
    is_own: bool,
)
    ensures
        ({
            let added = recorded(t, own, Some(id), true);
            arrived_on(added, sender, id, is_own) == added
        }),
{
    let added = recorded(t, own, Some(id), true);
    assert(added.my_event_ids.contains(id)) by {
        if !t.my_event_ids.contains(id) {
            assert(added.my_event_ids[t.my_event_ids.len() as int] == id);
        }
    }
}

// ---------------------------------------------------------------------------
// Showing
// ---------------------------------------------------------------------------

/// Which tallies are looked for: those that the account can withdraw, or those that
/// count anyone.
pub open spec fn wanted(t: TallyView, own: bool) -> bool {
    if own {
        t.me && t.my_event_ids.len() > 0
    } else {
        t.count > 0
    }
}

fn is_wanted(t: &ReactionTally, own: bool) -> (r: bool)
    ensures
        r == wanted(t@, own),
{
    assert(views(t.my_event_ids@).len() == t.my_event_ids@.len());
    if own {
        t.me && t.my_event_ids.len() > 0
    } else {
        t.count > 0
    }
}

/// Whether positions are those of the wanted tallies of a list, each once.
pub open spec fn wanted_positions(
    positions: Seq<usize>,
    listed: Seq<(String, ReactionTally)>,
    n: int,
    own: bool,
) -> bool {
    &&& forall|i: int|
        0 <= i < positions.len() ==> (#[trigger] positions[i]) < n && wanted(
            listed[positions[i] as int].1@,
            own,
        )
    &&& forall|i: int, j: int|
        #![trigger positions[i], positions[j]]
        0 <= i < j < positions.len() ==> positions[i] != positions[j]
    &&& forall|k: int|
        0 <= k < n && wanted((#[trigger] listed[k]).1@, own) ==> exists|i: int|
            0 <= i < positions.len() && #[trigger] positions[i] == k
}

fn find_wanted(reactions: &KeyedMap<String, ReactionTally>, own: bool) -> (out: Vec<usize>)
    ensures
        wanted_positions(out@, reactions.listed(), reactions.listed().len() as int, own),
        keys_once(reactions.listed()),
{
    let n: usize = reactions.count();
    let ghost listed = reactions.listed();
    let mut out: Vec<usize> = Vec::new();
    let mut i: usize = 0;
    while i < n
        invariant
            i <= n,
            n == listed.len(),
            listed == reactions.listed(),
            wanted_positions(out@, listed, i as int, own),
        decreases n - i,
    {
        let (_, tally) = reactions.entry(i);
        let ghost before = out@;
        if is_wanted(tally, own) {
            out.push(i);
            assert(out@[before.len() as int] == i);
        }
        assert forall|k: int| 0 <= k < i + 1 && wanted((#[trigger] listed[k]).1@, own) implies exists|
            j: int,
        |
            0 <= j < out@.len() && #[trigger] out@[j] == k by {
            if k < i {
                let j = choose|j: int| 0 <= j < before.len() && #[trigger] before[j] == k;
                assert(out@[j] == k);
            }
        }
        i = i + 1;
    }
    out
}

/// The account's reactions on an event that can be withdrawn: each once, in the order
/// of their keys.
pub open spec fn own_choices(choices: Seq<OwnReactionView>, reactions: Map<Seq<char>, TallyView>) -> bool {
    &&& forall|i: int, j: int|
        #![trigger choices[i], choices[j]]
        0 <= i < j < choices.len() ==> text_less(choices[i].key, choices[j].key)
    &&& forall|i: int|
        0 <= i < choices.len() ==> {
            let c = #[trigger] choices[i];
            &&& reactions.dom().contains(c.key)
            &&& wanted(reactions[c.key], true)
            &&& c.event_ids == reactions[c.key].my_event_ids
        }
    &&& forall|k: Seq<char>| #[trigger]
        reactions.dom().contains(k) && wanted(reactions[k], true) ==> exists|i: int|
            0 <= i < choices.len() && (#[trigger] choices[i]).key == k
}

fn copy_texts(list: &Vec<String>) -> (out: Vec<String>)
    ensures
        views(out@) == views(list@),
{
    let mut out: Vec<String> = Vec::new();
    let mut i: usize = 0;
    let ghost all = views(list@);
    assert(views(out@) =~= all.take(0));
    while i < list.len()
        invariant
            i <= list.len(),
            all == views(list@),
            views(out@) == all.take(i as int),
        decreases list.len() - i,
    {
        let ghost before = views(out@);
        out.push(list[i].clone());
        assert(views(out@) =~= before.push(all[i as int]));
        assert(all.take(i + 1) =~= all.take(i as int).push(all[i as int]));
        i = i + 1;
    }
    assert(all.take(i as int) =~= all);
    out
}

fn sorted_choices(reactions: &KeyedMap<String, ReactionTally>) -> (out: Vec<OwnReaction>)
    ensures
        own_choices(views(out@), map_views(reactions@)),
{
    let found = find_wanted(reactions, true);
    let ghost listed = reactions.listed();
    let ghost map = map_views(reactions@);
    proof {
        reactions.lemma_listed();
    }
    let mut keys: Vec<TextKey> = Vec::new();
    let mut i: usize = 0;
    while i < found.len()
        invariant
            i <= found.len(),
            listed == reactions.listed(),
            wanted_positions(found@, listed, listed.len() as int, true),
            keys.len() == i,
            forall|k: int|
                0 <= k < i ==> (#[trigger] keys@[k]).chars@ == listed[found@[k] as int].0@,
        decreases found.len() - i,
    {
        assert(found@[i as int] < listed.len());
        let (key, _) = reactions.entry(found[i]);
        keys.push(TextKey { chars: chars_of(key.as_str()) });
        i = i + 1;
    }
    let order = sorted_positions(&keys);
    let mut out: Vec<OwnReaction> = Vec::new();
    let mut j: usize = 0;
    while j < order.len()
        invariant
            j <= order.len(),
            order.len() == found.len(),
            each_once(order@, found@.len() as int),
            listed == reactions.listed(),
            wanted_positions(found@, listed, listed.len() as int, true),
            out.len() == j,
            forall|k: int|
                0 <= k < j ==> {
                    let entry = listed[found@[order@[k] as int] as int];
                    &&& (#[trigger] out@[k]).key == entry.0
                    &&& views(out@[k].event_ids@) == entry.1@.my_event_ids
                },
        decreases order.len() - j,
    {
        let at: usize = order[j];
        assert(found@[at as int] < listed.len());
        let (key, tally) = reactions.entry(found[at]);
        out.push(OwnReaction { key: key.clone(), event_ids: copy_texts(&tally.my_event_ids) });
        j = j + 1;
    }
    proof {
        let choices = views(out@);
        assert forall|i: int, j: int|
            #![trigger choices[i], choices[j]]
            0 <= i < j < choices.len() implies text_less(choices[i].key, choices[j].key) by {
            let (a, b) = (order@[i] as int, order@[j] as int);
            assert(goes_first(keys@, a, b));
            lemma_text_less_total(keys@[a].chars@, keys@[b].chars@);
            assert(found@[a] != found@[b]);
            assert(listed[found@[a] as int].0@ != listed[found@[b] as int].0@);
            assert(choices[i] == out@[i]@ && choices[j] == out@[j]@);
        }
        assert forall|i: int| 0 <= i < choices.len() implies {
            let c = #[trigger] choices[i];
            &&& map.dom().contains(c.key)
            &&& wanted(map[c.key], true)
            &&& c.event_ids == map[c.key].my_event_ids
        } by {
            assert(choices[i] == out@[i]@);
            let p = found@[order@[i] as int] as int;
            assert(wanted(listed[p].1@, true));
            assert(reactions@.contains_key(listed[p].0@));
        }
        assert forall|k: Seq<char>| #[trigger]
            map.dom().contains(k) && wanted(map[k], true) implies exists|i: int|
            0 <= i < choices.len() && (#[trigger] choices[i]).key == k by {
            reactions.lemma_listed_key(k);
            let p = choose|p: int| 0 <= p < listed.len() && (#[trigger] listed[p]).0@ == k;
            assert(wanted(listed[p].1@, true));
            let f = choose|f: int| 0 <= f < found@.len() && #[trigger] found@[f] == p;
            lemma_each_once_holds(order@, found@.len() as int, f);
            let i = choose|i: int| 0 <= i < found@.len() && #[trigger] order@[i] == f;
            assert(out@[i].key == listed[p].0);
            assert(choices[i].key == k);
        }
    }
    out
}

impl App {
    /// The account's reactions on an event of the selected room.
    pub open spec fn choices_on(self, target: Seq<char>, choices: Seq<OwnReactionView>) -> bool {
        match self.room() {
            Some(room) => match kept_event(self.messages, room_key(room@), target) {
                Some(event) => match map_option_view(event.reactions) {
                    Some(m) => own_choices(choices, m),
                    None => choices.len() == 0,
                },
                None => choices.len() == 0,
            },
            None => choices.len() == 0,
        }
    }

    pub fn own_reactions_for(&self, target_event_id: &str) -> (out: Vec<OwnReaction>)
        ensures
            self.choices_on(target_event_id@, views(out@)),
    {
        let room = match self.selected_room() {
            Some(room) => RoomKey::of(room),
            None => return Vec::new(),
        };
        let events = match self.messages.events.get(&room) {
            Some(events) => events,
            None => return Vec::new(),
        };
        let at: usize = find_stored(events, target_event_id);
        if at == events.len() {
            return Vec::new();
        }
        match &events[at].reactions {
            Some(reactions) => sorted_choices(reactions),
            None => Vec::new(),
        }
    }
}

/// The line that names one of several reactions to withdraw.
pub open spec fn unreact_text(choices: Seq<OwnReactionView>, selected: int) -> Seq<char> {
    "["@ + decimal((selected + 1) as nat) + "/"@ + decimal(choices.len()) + "] withdraw "@
        + choices[selected].key + " - Tab/Shift-Tab to cycle, Enter to confirm"@
}

pub fn unreact_selection_status(choices: &[OwnReaction], selected: usize) -> (out: Status)
    requires
        selected < choices@.len(),
    ensures
        out@ == StatusView::Info(unreact_text(views(choices@), selected as int)),
{
    let total: usize = choices.len();
    let n = decimal_usize(selected + 1);
    let m = decimal_usize(total);
    assert(views(choices@).len() == choices@.len());
    let mut text = cat5("[", n.as_str(), "/", m.as_str(), "] withdraw ");
    text.append(choices[selected].key.as_str());
    text.append(" - Tab/Shift-Tab to cycle, Enter to confirm");
    Status::Info(text)
}

/// Whether a reaction of the selected message is to be withdrawn, or the user chooses one.
pub open spec fn unreact_started(before: App, after: App, withdraw: Option<(String, OwnReaction)>) -> bool {
    match before.target() {
        None => withdraw is None && said(
            before,
            after,
            "select a displayed message before unreacting"@,
        ),
        Some(event) => exists|choices: Seq<OwnReactionView>| #[trigger]
            before.choices_on(event.event_id, choices) && if choices.len() == 0 {
                withdraw is None && said(
                    before,
                    after,
                    "you have no reactions on this message"@,
                )
            } else if choices.len() == 1 {
                &&& after == before
                &&& withdraw matches Some((id, r)) && id@ == event.event_id && r@
                    == choices[0]
            } else {
                &&& withdraw is None
                &&& after == (App {
                    mode: after.mode,
                    status: after.status,
                    ..before
                })
                &&& after.mode@ == (ModeView::Unreacting {
                    target_event_id: event.event_id,
                    choices,
                    selected: 0,
                })
                &&& after.status@ == StatusView::Info(unreact_text(choices, 0))
            },
    }
}

impl App {
    /// Begins to withdraw a reaction from the selected message: at once where there is
    /// one, else the user chooses.
    pub fn start_unreact_from_selected_message(&mut self) -> (withdraw: Option<(String, OwnReaction)>)
        ensures
            unreact_started(*old(self), *final(self), withdraw),
    {
        let target = match self.selected_message_id() {
            Some(id) => id.to_owned(),
            None => {
                self.say("select a displayed message before unreacting");
                return None;
            },
        };
        let mut choices = self.own_reactions_for(target.as_str());
        let ghost all = views(choices@);
        assert(all.len() == choices@.len());
        assert(self.choices_on(target@, all));
        if choices.len() == 0 {
            self.say("you have no reactions on this message");
            return None;
        }
        if choices.len() == 1 {
            let only = choices.remove(0);
            assert(only@ == all[0]);
            return Some((target, only));
        }
        self.status = unreact_selection_status(choices.as_slice(), 0);
        self.mode = Mode::Unreacting { target_event_id: target, choices, selected: 0 };
        None
    }
}

/// A withdrawal under way: the events of a reaction are removed one by one.
#[derive(Debug)]
pub struct Withdrawal {
    pub room: RoomKey,
    pub target_event_id: String,
    pub reaction: OwnReaction,
    /// How many were removed.
    pub done: usize,
}

impl Withdrawal {
    pub open spec fn ok(self) -> bool {
        self.done <= self.reaction.event_ids@.len()
    }

    /// The request that removes the next event, or none where all were removed.
    pub fn next_request(&self, client: &AxonClient) -> (out: Option<Request>)
        requires
            self.ok(),
        ensures
            match out {
                Some(r) => self.done < self.reaction.event_ids@.len() && r@ == bare(
                    Method::Delete,
                    event_url(
                        client.base(),
                        self.room@.account_id,
                        self.room@.room_id,
                        self.reaction.event_ids@[self.done as int]@,
                    ),
                    MESSAGE_MUTATION_TIMEOUT,
                ),
                None => self.done == self.reaction.event_ids@.len(),
            },
    {
        if self.done < self.reaction.event_ids.len() {
            Some(
                client.redact_event(
                    self.room.account_id,
                    self.room.room_id.as_str(),
                    self.reaction.event_ids[self.done].as_str(),
                    None,
                ),
            )
        } else {
            None
        }
    }

    /// One more event was removed.
    pub fn note_removed(&mut self)
        requires
            old(self).done < old(self).reaction.event_ids@.len(),
        ensures
            *final(self) == (Withdrawal { done: (old(self).done + 1) as usize, ..*old(self) }),
            final(self).ok(),
    {
        let total: usize = self.reaction.event_ids.len();
        if self.done < total {
            self.done = self.done + 1;
        }
    }
}

/// What is said of a withdrawal that failed halfway.
pub open spec fn unreact_failed_text(done: nat, total: nat, error: Seq<char>) -> Seq<char> {
    "unreact failed after "@ + decimal(done) + "/"@ + decimal(total) + " withdrawals: "@ + error
}

/// Whether a reaction is to be withdrawn.
pub open spec fn withdrawal_begun(before: App, after: App, target_event_id: Seq<char>, reaction: OwnReaction, out: Option<Withdrawal>) -> bool {
    match before.room() {
        None => out is None && said(before, after, "no room selected"@),
        Some(room) => {
            &&& after == before
            &&& out matches Some(w) && w.room@ == room_key(room@) && w.target_event_id@
                == target_event_id && w.reaction == reaction && w.done == 0 && w.ok()
        },
    }
}

/// Whether the user is asked for a reaction to the selected message.
pub open spec fn react_started(before: App, after: App, put: Option<DraftPut>) -> bool {
    match before.target() {
        None => put is None && said(
            before,
            after,
            "select a displayed message before reacting"@,
        ),
        Some(event) => if echo_id(event.event_id) {
            put is None && said(before, after, pending_echo_text())
        } else {
            &&& before.draft_flushed(
                App {
                    input: before.input,
                    mode: before.mode,
                    status: before.status,
                    ..after
                },
                put_view(put),
            )
            &&& line_taken(
                (crate::app::input::InputState { react_tab: None, ..before.input }),
                after.input,
            )
            &&& after.mode@ == (ModeView::Reacting { event_id: event.event_id })
            &&& acting(
                after.status@,
                "react to "@ + event.event_id + " - type emoji, Enter to send"@,
                "react to message - type emoji, Enter to send"@,
            )
        },
    }
}

/// Whether a reaction and its message were found.
pub open spec fn reaction_prepared(before: App, after: App, input: Seq<char>, meant: Option<String>, out: Result<(String, String), String>) -> bool {
    &&& after == (App { messages: after.messages, ..before })
    &&& after.messages == (MessagePane {
        selection: after.messages.selection,
        ..before.messages
    })
    &&& option_view(after.messages.selection) == before.id_to_use()
    &&& match after.target() {
        None => out matches Err(e) && e@ == "no displayed messages"@,
        Some(event) => if echo_id(event.event_id) {
            out matches Err(e) && e@ == pending_echo_text()
        } else {
            match meant {
                Some(key) => out matches Ok((id, k)) && id@ == event.event_id && k == key,
                None => out matches Err(e) && e@ == "unknown or ambiguous emoji: "@ + input,
            }
        },
    }
}

/// Whether a reaction is to be sent.
pub open spec fn reaction_asked(before: App, after: App, event_id: Seq<char>, key: Seq<char>, request: Option<Request>) -> bool {
    if key.len() == 0 {
        request is None && said(before, after, "reaction key cannot be empty"@)
    } else {
        match before.room() {
            None => request is None && said(before, after, "no room selected"@),
            Some(room) => {
                &&& after == before
                &&& request matches Some(r) && r@ == bare(
                    Method::Post,
                    event_url(
                        before.client.base(),
                        room@.account_id,
                        room@.room_id,
                        event_id,
                    ) + "/reactions"@,
                    MESSAGE_MUTATION_TIMEOUT,
                ).with_json(seq![("key"@, crate::json::JsonView::Text(key))])
            },
        }
    }
}

impl App {
    /// Begins to withdraw a reaction in the selected room.
    pub fn withdraw_reaction(&mut self, target_event_id: &str, reaction: OwnReaction) -> (out: Option<
        Withdrawal,
    >)
        ensures
            withdrawal_begun(*old(self), *final(self), target_event_id@, reaction, out),
    {
        match self.selected_room() {
            Some(room) => Some(
                Withdrawal {
                    room: RoomKey::of(room),
                    target_event_id: target_event_id.to_owned(),
                    reaction,
                    done: 0,
                },
            ),
            None => {
                self.say("no room selected");
                None
            },
        }
    }

    /// Ends a withdrawal. What was removed is taken off the event, also where the rest
    /// failed.
    pub fn finish_withdrawal(&mut self, withdrawal: Withdrawal, failure: Option<String>)
        requires
            withdrawal.ok(),
        ensures
            old(self).reaction_removed(
                App { status: old(self).status, ..*final(self) },
                withdrawal.target_event_id@,
                withdrawal.reaction.key@,
                views(withdrawal.reaction.event_ids@).take(withdrawal.done as int),
            ),
            match failure {
                Some(e) => final(self).status@ == StatusView::Info(
                    unreact_failed_text(
                        withdrawal.done as nat,
                        withdrawal.reaction.event_ids@.len(),
                        e@,
                    ),
                ),
                None => acting(
                    final(self).status@,
                    "withdrew reaction "@ + withdrawal.reaction.key@,
                    "withdrew reaction"@,
                ),
            },
    {
        let total: usize = withdrawal.reaction.event_ids.len();
        let gone = vstd::slice::slice_subrange(
            withdrawal.reaction.event_ids.as_slice(),
            0,
            withdrawal.done,
        );
        assert(views(gone@) =~= views(withdrawal.reaction.event_ids@).take(withdrawal.done as int));
        self.remove_local_reaction(
            withdrawal.target_event_id.as_str(),
            withdrawal.reaction.key.as_str(),
            gone,
        );
        match failure {
            Some(e) => {
                let n = decimal_usize(withdrawal.done);
                let m = decimal_usize(total);
                let mut text = cat5(
                    "unreact failed after ",
                    n.as_str(),
                    "/",
                    m.as_str(),
                    " withdrawals: ",
                );
                text.append(e.as_str());
                self.status = Status::Info(text);
            },
            None => {
                self.status = Status::EventAction {
                    debug: cat2("withdrew reaction ", withdrawal.reaction.key.as_str()),
                    redacted: "withdrew reaction",
                };
            },
        }
    }

    /// Asks for a reaction to the selected message. The draft that the line held is
    /// written first.
    pub fn start_react_to_selected_message(&mut self) -> (put: Option<DraftPut>)
        ensures
            react_started(*old(self), *final(self), put),
    {
        let event_id = match self.selected_message_event() {
            Some(event) => event.event_id.clone(),
            None => {
                self.say("select a displayed message before reacting");
                return None;
            },
        };
        if is_local_echo(event_id.as_str()) {
            self.say("message not yet confirmed by server — please wait a moment and try again");
            return None;
        }
        let put = self.flush_pending_draft_now();
        self.input.clear();
        self.input.react_tab = None;
        let debug = cat3("react to ", event_id.as_str(), " - type emoji, Enter to send");
        self.mode = Mode::Reacting { event_id };
        self.status = Status::EventAction {
            debug,
            redacted: "react to message - type emoji, Enter to send",
        };
        put
    }

    /// The message that a reaction goes to, and the reaction: the one that the typed
    /// text stands for, where it stands for one.
    pub fn prepare_reaction(&mut self, input: &str, meant: Option<String>) -> (out: Result<
        (String, String),
        String,
    >)
        ensures
            reaction_prepared(*old(self), *final(self), input@, meant, out),
    {
        self.select_most_recent_message_if_needed();
        let id = match self.selected_message_id() {
            Some(id) => id.to_owned(),
            None => return Err("no displayed messages".to_owned()),
        };
        if is_local_echo(id.as_str()) {
            return Err(
                "message not yet confirmed by server — please wait a moment and try again".to_owned(),
            );
        }
        match meant {
            Some(key) => Ok((id, key)),
            None => Err(cat2("unknown or ambiguous emoji: ", input)),
        }
    }

    /// Asks for a reaction to an event of the selected room.
    pub fn send_react(&mut self, event_id: &str, key: &str) -> (request: Option<Request>)
        ensures
            reaction_asked(*old(self), *final(self), event_id@, key@, request),
    {
        if key.is_empty() {
            self.say("reaction key cannot be empty");
            return None;
        }
        let room = match self.selected_room() {
            Some(room) => RoomKey::of(room),
            None => {
                self.say("no room selected");
                return None;
            },
        };
        Some(self.client.react(room.account_id, room.room_id.as_str(), event_id, key))
    }

    /// Takes over the reply to a reaction: the id of its event, or what went wrong.
    pub fn apply_react(&mut self, event_id: &str, key: &str, result: Result<String, String>)
        requires
            old(self).room() is Some ==> countable(
                old(self).messages,
                room_key(old(self).room()->0@),
                event_id@,
                key@,
            ),
        ensures
            match result {
                Ok(id) => {
                    &&& old(self).reaction_added(
                        App { status: old(self).status, ..*final(self) },
                        event_id@,
                        key@,
                        id@,
                    )
                    &&& acting(final(self).status@, "reacted: "@ + id@, "reacted"@)
                },
                Err(e) => said(*old(self), *final(self), "react failed: "@ + e@),
            },
    {
        match result {
            Ok(id) => {
                let debug = cat2("reacted: ", id.as_str());
                self.apply_local_reaction(event_id, key, id);
                self.status = Status::EventAction { debug, redacted: "reacted" };
            },
            Err(e) => {
                self.status = Status::Info(cat2("react failed: ", e.as_str()));
            },
        }
    }
}

// ---------------------------------------------------------------------------
// Badges
// ---------------------------------------------------------------------------

/// A badge, ordered by how many it counts.
pub struct BadgeKey {
    pub count: usize,
    pub chars: Vec<char>,
}

/// Whether a badge stands before another: the larger count, else the smaller key.
pub open spec fn badge_before(count_a: usize, key_a: Seq<char>, count_b: usize, key_b: Seq<char>) -> bool {
    count_a > count_b || (count_a == count_b && text_less(key_a, key_b))
}

impl SortKey for BadgeKey {
    open spec fn before(&self, other: &BadgeKey) -> bool {
        badge_before(self.count, self.chars@, other.count, other.chars@)
    }

    fn comes_before(&self, other: &BadgeKey) -> (r: bool) {
        self.count > other.count || (self.count == other.count && chars_less(
            self.chars.as_slice(),
            other.chars.as_slice(),
        ))
    }

    proof fn asymmetric(&self, other: &BadgeKey) {
        lemma_text_less_total(self.chars@, other.chars@);
    }

    proof fn transitive(&self, other: &BadgeKey, third: &BadgeKey) {
        let (a, b, c) = (self.chars@, other.chars@, third.chars@);
        lemma_text_less_total(a, b);
        lemma_text_less_total(b, c);
        lemma_text_less_total(a, c);
        if text_less(a, b) && text_less(b, c) {
            lemma_text_less_transitive(a, b, c);
        }
        if text_less(b, a) && text_less(c, b) {
            lemma_text_less_transitive(c, b, a);
        }
    }
}

/// The badges of an event: every reaction that someone has, each once, the most
/// frequent first.
pub open spec fn badges_of(badges: Seq<(String, usize)>, reactions: Map<Seq<char>, TallyView>) -> bool {
    &&& forall|i: int, j: int|
        #![trigger badges[i], badges[j]]
        0 <= i < j < badges.len() ==> badge_before(
            badges[i].1,
            badges[i].0@,
            badges[j].1,
            badges[j].0@,
        )
    &&& forall|i: int|
        0 <= i < badges.len() ==> {
            let b = #[trigger] badges[i];
            &&& reactions.dom().contains(b.0@)
            &&& wanted(reactions[b.0@], false)
            &&& b.1 == reactions[b.0@].count as usize
        }
    &&& forall|k: Seq<char>| #[trigger]
        reactions.dom().contains(k) && wanted(reactions[k], false) ==> exists|i: int|
            0 <= i < badges.len() && (#[trigger] badges[i]).0@ == k
}

fn sorted_badges(reactions: &KeyedMap<String, ReactionTally>) -> (out: Vec<(String, usize)>)
    ensures
        badges_of(out@, map_views(reactions@)),
{
    let found = find_wanted(reactions, false);
    let ghost listed = reactions.listed();
    let ghost map = map_views(reactions@);
    proof {
        reactions.lemma_listed();
    }
    let mut keys: Vec<BadgeKey> = Vec::new();
    let mut i: usize = 0;
    while i < found.len()
        invariant
            i <= found.len(),
            listed == reactions.listed(),
            wanted_positions(found@, listed, listed.len() as int, false),
            keys.len() == i,
            forall|k: int|
                0 <= k < i ==> (#[trigger] keys@[k]).chars@ == listed[found@[k] as int].0@
                    && keys@[k].count == listed[found@[k] as int].1@.count as usize,
        decreases found.len() - i,
    {
        assert(found@[i as int] < listed.len());
        let (key, tally) = reactions.entry(found[i]);
        keys.push(BadgeKey { count: tally.count as usize, chars: chars_of(key.as_str()) });
        i = i + 1;
    }
    let order = sorted_positions(&keys);
    let mut out: Vec<(String, usize)> = Vec::new();
    let mut j: usize = 0;
    while j < order.len()
        invariant
            j <= order.len(),
            order.len() == found.len(),
            each_once(order@, found@.len() as int),
            listed == reactions.listed(),
            wanted_positions(found@, listed, listed.len() as int, false),
            out.len() == j,
            forall|k: int|
                0 <= k < j ==> {
                    let entry = listed[found@[order@[k] as int] as int];
                    &&& (#[trigger] out@[k]).0 == entry.0
                    &&& out@[k].1 == entry.1@.count as usize
                },
        decreases order.len() - j,
    {
        let at: usize = order[j];
        assert(found@[at as int] < listed.len());
        let (key, tally) = reactions.entry(found[at]);
        out.push((key.clone(), tally.count as usize));
        j = j + 1;
    }
    proof {
        let badges = out@;
        assert forall|i: int, j: int|
            #![trigger badges[i], badges[j]]
            0 <= i < j < badges.len() implies badge_before(
            badges[i].1,
            badges[i].0@,
            badges[j].1,
            badges[j].0@,
        ) by {
            let (a, b) = (order@[i] as int, order@[j] as int);
            assert(goes_first(keys@, a, b));
            lemma_text_less_total(keys@[a].chars@, keys@[b].chars@);
            assert(found@[a] != found@[b]);
            assert(listed[found@[a] as int].0@ != listed[found@[b] as int].0@);
        }
        assert forall|i: int| 0 <= i < badges.len() implies {
            let b = #[trigger] badges[i];
            &&& map.dom().contains(b.0@)
            &&& wanted(map[b.0@], false)
            &&& b.1 == map[b.0@].count as usize
        } by {
            let p = found@[order@[i] as int] as int;
            assert(wanted(listed[p].1@, false));
            assert(reactions@.contains_key(listed[p].0@));
        }
        assert forall|k: Seq<char>| #[trigger]
            map.dom().contains(k) && wanted(map[k], false) implies exists|i: int|
            0 <= i < badges.len() && (#[trigger] badges[i]).0@ == k by {
            reactions.lemma_listed_key(k);
            let p = choose|p: int| 0 <= p < listed.len() && (#[trigger] listed[p]).0@ == k;
            assert(wanted(listed[p].1@, false));
            let f = choose|f: int| 0 <= f < found@.len() && #[trigger] found@[f] == p;
            lemma_each_once_holds(order@, found@.len() as int, f);
            let i = choose|i: int| 0 <= i < found@.len() && #[trigger] order@[i] == f;
            assert(out@[i].0 == listed[p].0);
        }
    }
    out
}

/// Whether an event shows badges: it was not removed, and someone reacted to it.
pub open spec fn has_badges(event: EventView) -> bool {
    !event.redacted && event.reactions is Some && exists|k: Seq<char>| #[trigger]
        event.reactions->0.dom().contains(k) && wanted(event.reactions->0[k], false)
}

/// The last event of a list that has an id and badges.
pub open spec fn last_badged(events: Seq<EventView>, id: Seq<char>) -> Option<EventView>
    decreases events.len(),
{
    if events.len() == 0 {
        None
    } else if events.last().event_id == id && has_badges(events.last()) {
        Some(events.last())
    } else {
        last_badged(events.drop_last(), id)
    }
}

/// Whether badges are those of the events of a list.
pub open spec fn badges_collected(
    badges: Map<Seq<char>, Vec<(String, usize)>>,
    events: Seq<EventView>,
) -> bool {
    forall|id: Seq<char>|
        match last_badged(events, id) {
            Some(event) => #[trigger] badges.dom().contains(id) && badges_of(
                badges[id]@,
                event.reactions->0,
            ),
            None => !badges.dom().contains(id),
        }
}

fn event_badges(event: &EventDto) -> (badges: Vec<(String, usize)>)
    ensures
        has_badges(event@) == (badges@.len() > 0),
        has_badges(event@) ==> badges_of(badges@, event@.reactions->0),
{
    if event.redacted {
        return Vec::new();
    }
    match &event.reactions {
        Some(reactions) => {
            let badges = sorted_badges(reactions);
            proof {
                let m = map_views(reactions@);
                assert(event@.reactions == Some(m));
                if badges@.len() > 0 {
                    let b = badges@[0];
                    assert(m.dom().contains(b.0@) && wanted(m[b.0@], false));
                    assert(event@.reactions->0.dom().contains(b.0@));
                }
                if has_badges(event@) {
                    let k = choose|k: Seq<char>| #[trigger]
                        m.dom().contains(k) && wanted(m[k], false);
                    assert(m.dom().contains(k) && wanted(m[k], false));
                    let j = choose|j: int|
                        0 <= j < badges@.len() && (#[trigger] badges@[j]).0@ == k;
                    assert(badges@[j].0@ == k);
                }
            }
            badges
        },
        None => Vec::new(),
    }
}

/// The badges of the events of a list, by their ids.
pub fn collect_reactions(events: &[EventDto]) -> (out: KeyedMap<String, Vec<(String, usize)>>)
    ensures
        badges_collected(out@, views(events@)),
{
    let ghost all = views(events@);
    let mut out: KeyedMap<String, Vec<(String, usize)>> = KeyedMap::new();
    let mut i: usize = 0;
    while i < events.len()
        invariant
            i <= events.len(),
            all == views(events@),
            badges_collected(out@, all.take(i as int)),
        decreases events.len() - i,
    {
        let ghost before = out@;
        let ghost part = all.take(i + 1);
        let ghost event = events@[i as int]@;
        assert(part.drop_last() =~= all.take(i as int));
        assert(part.last() == event);
        let badges = event_badges(&events[i]);
        if badges.len() > 0 {
            out.insert(events[i].event_id.clone(), badges);
        }
        assert forall|id: Seq<char>|
            match last_badged(part, id) {
                Some(event) => #[trigger] out@.dom().contains(id) && badges_of(
                    out@[id]@,
                    event.reactions->0,
                ),
                None => !out@.dom().contains(id),
            } by {
            let known = before.dom().contains(id);
            assert(known == (last_badged(all.take(i as int), id) is Some));
        }
        i = i + 1;
    }
    assert(all.take(i as int) =~= all);
    out
}

} // verus!
