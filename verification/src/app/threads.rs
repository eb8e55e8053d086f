//! Replies in threads that were not seen yet.

use vstd::prelude::*;

use crate::api::dto::{EventDto, EventView};
use crate::api::event::text_of_event;
use crate::app::choice::{RoomKey, RoomKeyView};
use crate::app::drafts::held;
use crate::app::state::{App, LiveState, ThreadState, UnreadThread};
use crate::keyed::{Key, KeyedMap};
use crate::text::same_text;

verus! {

#[verifier::ext_equal]
pub struct UnreadThreadView {
    pub unread_count: usize,
    pub latest_event_id: Seq<char>,
    pub latest_sender: Seq<char>,
    pub latest_body: Seq<char>,
    pub latest_ts: i64,
    pub counted: Set<Seq<char>>,
}

impl View for UnreadThread {
    type V = UnreadThreadView;

    open spec fn view(&self) -> UnreadThreadView {
        UnreadThreadView {
            unread_count: self.unread_count,
            latest_event_id: self.latest_event_id@,
            latest_sender: self.latest_sender@,
            latest_body: self.latest_body@,
            latest_ts: self.latest_ts,
            counted: self.counted@.dom(),
        }
    }
}

/// What is not seen of a thread.
pub open spec fn unread_at(threads: ThreadState, room: RoomKeyView, root: Seq<char>) -> Option<
    UnreadThreadView,
> {
    match held(threads.unread@, room) {
        Some(roots) => match held(roots@, root) {
            Some(thread) => Some(thread@),
            None => None,
        },
        None => None,
    }
}

/// Whether an event was sent by the user of its account.
pub open spec fn is_own_event(live: LiveState, event: EventView) -> bool {
    match held(live.own_senders@, event.account_id) {
        Some(user) => user@ == event.sender,
        None => false,
    }
}

/// What is not seen of a thread once a reply was counted. None counts twice, and the
/// latest is the one with the latest time.
pub open spec fn reply_counted(thread: Option<UnreadThreadView>, reply: EventView) -> UnreadThreadView {
    match thread {
        None => UnreadThreadView {
            unread_count: 1,
            latest_event_id: reply.event_id,
            latest_sender: reply.sender,
            latest_body: text_of_event(reply, reply.sender),
            latest_ts: reply.origin_ts,
            counted: Set::empty().insert(reply.event_id),
        },
        Some(t) => if t.counted.contains(reply.event_id) {
            t
        } else {
            let latest = reply.origin_ts >= t.latest_ts;
            UnreadThreadView {
                unread_count: if t.unread_count == usize::MAX {
                    t.unread_count
                } else {
                    (t.unread_count + 1) as usize
                },
                latest_event_id: if latest {
                    reply.event_id
                } else {
                    t.latest_event_id
                },
                latest_sender: if latest {
                    reply.sender
                } else {
                    t.latest_sender
                },
                latest_body: if latest {
                    text_of_event(reply, reply.sender)
                } else {
                    t.latest_body
                },
                latest_ts: if latest {
                    reply.origin_ts
                } else {
                    t.latest_ts
                },
                counted: t.counted.insert(reply.event_id),
            }
        },
    }
}

fn count_reply(thread: UnreadThread, reply: &EventDto) -> (out: UnreadThread)
    ensures
        out@ == reply_counted(Some(thread@), reply@),
{
    if thread.counted.contains_key(&reply.event_id) {
        return thread;
    }
    let mut t = thread;
    let ghost known = t.counted@.dom();
    t.counted.insert(reply.event_id.clone(), ());
    assert(t.counted@.dom() =~= known.insert(reply@.event_id));
    if t.unread_count != usize::MAX {
        t.unread_count = t.unread_count + 1;
    }
    if reply.origin_ts >= t.latest_ts {
        t.latest_event_id = reply.event_id.clone();
        t.latest_sender = reply.sender.clone();
        t.latest_body = reply.display_body();
        t.latest_ts = reply.origin_ts;
    }
    t
}

fn first_reply(reply: &EventDto) -> (out: UnreadThread)
    ensures
        out@ == reply_counted(None, reply@),
{
    let mut counted: KeyedMap<String, ()> = KeyedMap::new();
    counted.insert(reply.event_id.clone(), ());
    assert(counted@.dom() =~= Set::empty().insert(reply@.event_id));
    UnreadThread {
        unread_count: 1,
        latest_event_id: reply.event_id.clone(),
        latest_sender: reply.sender.clone(),
        latest_body: reply.display_body(),
        latest_ts: reply.origin_ts,
        counted,
    }
}

/// Whether a reply in a thread was counted, and nothing else changed.
pub open spec fn thread_marked(
    before: ThreadState,
    after: ThreadState,
    room: RoomKeyView,
    root: Seq<char>,
    reply: EventView,
) -> bool {
    &&& after == (ThreadState { unread: after.unread, ..before })
    &&& forall|r: RoomKeyView, t: Seq<char>| #[trigger]
        unread_at(after, r, t) == (if r == room && t == root {
            Some(reply_counted(unread_at(before, r, t), reply))
        } else {
            unread_at(before, r, t)
        })
}

impl ThreadState {
    /// Counts a reply in a thread as not seen.
    pub fn mark_thread_unread_from_event(&mut self, room: &RoomKey, root: &str, reply: &EventDto)
        ensures
            thread_marked(*old(self), *final(self), room@, root@, reply@),
    {
        let mut roots: KeyedMap<String, UnreadThread> = match self.unread.remove(room) {
            Some(roots) => roots,
            None => KeyedMap::new(),
        };
        let key = root.to_owned();
        let thread = match roots.remove(&key) {
            Some(thread) => count_reply(thread, reply),
            None => first_reply(reply),
        };
        roots.insert(key, thread);
        self.unread.insert(room.duplicate(), roots);
    }
}

impl App {
    /// Whether a reply counts as not seen: one of the user's own never does.
    pub fn thread_event_counts_as_unread(&self, event: &EventDto) -> (r: bool)
        ensures
            r == !is_own_event(self.live, event@),
    {
        match self.live.own_senders.get(&event.account_id) {
            Some(user) => !same_text(user.as_str(), event.sender.as_str()),
            None => true,
        }
    }
}

/// A reply that was counted is not counted again.
pub proof fn law_reply_counts_once(thread: Option<UnreadThreadView>, reply: EventView)
    ensures
        reply_counted(Some(reply_counted(thread, reply)), reply) == reply_counted(thread, reply),
{
}

/// What is known as the latest reply of a thread is as late as any that was counted.
pub proof fn law_latest_reply_is_latest(thread: UnreadThreadView, reply: EventView)
    requires
        !thread.counted.contains(reply.event_id),
    ensures
        reply_counted(Some(thread), reply).latest_ts >= thread.latest_ts,
        reply_counted(Some(thread), reply).latest_ts >= reply.origin_ts,
{
}

} // verus!
