//! How the pages of a timeline are asked for, one after the other.
//!
//! The server gives the newest events up to a moment. To find what lies around a
//! moment, or the first event after one, the client asks again with the moment moved.

use vstd::prelude::*;

use crate::api::client::{
    bare, maybe_decimal, room_url, AxonClient, Method, Request, RequestView, HTTP_REQUEST_TIMEOUT,
};
use crate::api::dto::{EventDto, TimelinePage};
use crate::app::choice::{RoomKey, RoomKeyView};
use crate::text::{decimal, option_str, option_view};

verus! {

/// The events of a page at most.
pub const TIMELINE_LIMIT: usize = 50;

/// The milliseconds of a day.
pub const DAY_MS: i64 = 86_400_000;

/// The pages that are asked for around a moment at most.
pub const STRADDLE_PAGES: u32 = 32;

/// The pages that are asked for to find an event at most.
pub const SEARCH_PAGES: u32 = 64;

/// The pages that are gone back at most to find the start of a room.
pub const TOP_PAGES: u32 = 200;

/// A sum as far as numbers go.
pub open spec fn capped(n: int) -> i64 {
    if n > i64::MAX {
        i64::MAX
    } else if n < i64::MIN {
        i64::MIN
    } else {
        n as i64
    }
}

pub open spec fn earlier(a: i64, b: i64) -> i64 {
    if a < b {
        a
    } else {
        b
    }
}

fn add_capped(a: i64, b: i64) -> (out: i64)
    ensures
        out == capped(a + b),
{
    let sum: i128 = a as i128 + b as i128;
    if sum > i64::MAX as i128 {
        i64::MAX
    } else if sum < i64::MIN as i128 {
        i64::MIN
    } else {
        sum as i64
    }
}

/// The request for a page of a room.
pub open spec fn page_request(
    base: Seq<char>,
    key: RoomKeyView,
    cursor: Option<Seq<char>>,
    at_ts: Option<i64>,
    limit: usize,
) -> RequestView {
    bare(
        Method::Get,
        room_url(base, key.account_id, key.room_id) + "/timeline"@,
        HTTP_REQUEST_TIMEOUT,
    ).with_query("limit"@, decimal(limit as nat)).with_maybe_query("cursor"@, cursor).with_maybe_query(
        "at_ts"@,
        maybe_decimal(at_ts),
    )
}

// ---------------------------------------------------------------------------
// A page around a moment
// ---------------------------------------------------------------------------

/// How many events of a list are newer than a moment.
pub open spec fn count_after(events: Seq<EventDto>, ts: i64) -> nat
    decreases events.len(),
{
    if events.len() == 0 {
        0
    } else {
        count_after(events.drop_last(), ts) + if events.last().origin_ts > ts {
            1nat
        } else {
            0nat
        }
    }
}

fn number_after(events: &Vec<EventDto>, ts: i64) -> (n: usize)
    ensures
        n == count_after(events@, ts),
        n <= events@.len(),
{
    let mut n: usize = 0;
    let mut i: usize = 0;
    while i < events.len()
        invariant
            i <= events.len(),
            n <= i,
            n == count_after(events@.take(i as int), ts),
        decreases events.len() - i,
    {
        assert(events@.take(i + 1).drop_last() =~= events@.take(i as int));
        if events[i].origin_ts > ts {
            n = n + 1;
        }
        i = i + 1;
    }
    assert(events@.take(i as int) =~= events@);
    n
}

/// The search for a page that holds a moment and enough of what follows it.
#[derive(Debug)]
pub struct Straddle {
    pub pivot: i64,
    pub limit: usize,
    pub want_after: usize,
    pub now: i64,
    /// How far behind the moment the next page ends.
    pub window: i64,
    /// How many pages may still be asked for.
    pub left: u32,
    pub chosen: Option<TimelinePage>,
}

/// How much is wanted of what follows: something, and half a page at most.
pub open spec fn wanted_after(want: usize, limit: usize) -> usize {
    let most = if limit / 2 < 1 {
        1
    } else {
        limit / 2
    };
    if want < 1 {
        1
    } else if want > most {
        most
    } else {
        want
    }
}

impl Straddle {
    pub fn start(pivot: i64, limit: usize, want_after: usize, now: i64) -> (out: Straddle)
        ensures
            out == (Straddle {
                pivot,
                limit,
                want_after: wanted_after(want_after, limit),
                now,
                window: DAY_MS,
                left: STRADDLE_PAGES,
                chosen: None,
            }),
    {
        let half: usize = limit / 2;
        let most: usize = if half < 1 {
            1
        } else {
            half
        };
        let want: usize = if want_after < 1 {
            1
        } else if want_after > most {
            most
        } else {
            want_after
        };
        Straddle {
            pivot,
            limit,
            want_after: want,
            now,
            window: DAY_MS,
            left: STRADDLE_PAGES,
            chosen: None,
        }
    }

    /// The moment that the next page ends at.
    pub open spec fn end_at(self) -> i64 {
        earlier(capped(self.pivot + self.window), self.now)
    }

    fn end_ts(&self) -> (out: i64)
        ensures
            out == self.end_at(),
    {
        let end: i64 = add_capped(self.pivot, self.window);
        if end < self.now {
            end
        } else {
            self.now
        }
    }

    /// The next request, or none where the search has ended.
    pub fn next_request(&self, client: &AxonClient, key: &RoomKey) -> (out: Option<Request>)
        ensures
            match out {
                Some(r) => self.left > 0 && r@ == page_request(
                    client.base(),
                    key@,
                    None,
                    Some(self.end_at()),
                    self.limit,
                ),
                None => self.left == 0,
            },
    {
        if self.left == 0 {
            return None;
        }
        let end: i64 = self.end_ts();
        Some(
            client.room_timeline(
                key.account_id,
                key.room_id.as_str(),
                None,
                Some(end),
                self.limit,
            ),
        )
    }

    /// The search after it went on with a window twice as wide.
    pub open spec fn widened(self) -> Straddle {
        Straddle { window: capped(self.window * 2), left: (self.left - 1) as u32, ..self }
    }

    pub open spec fn ended(self) -> Straddle {
        Straddle { left: 0, ..self }
    }

    /// The search after a page came.
    pub open spec fn after(self, page: TimelinePage) -> Straddle {
        let events = page.events@;
        let with_page = Straddle { chosen: Some(page), ..self };
        if events.len() == 0 {
            if self.end_at() >= self.now {
                self.ended()
            } else {
                self.widened()
            }
        } else {
            let starts_later = events.last().origin_ts > self.pivot && events.len() == self.limit;
            if starts_later && self.chosen is Some {
                self.ended()
            } else if count_after(events, self.pivot) >= self.want_after || self.end_at()
                >= self.now || starts_later {
                with_page.ended()
            } else {
                with_page.widened()
            }
        }
    }

    pub fn take(self, page: TimelinePage) -> (out: Straddle)
        requires
            self.left > 0,
        ensures
            out == self.after(page),
    {
        let mut out = self;
        let end: i64 = out.end_ts();
        let n: usize = page.events.len();
        if n == 0 {
            if end >= out.now {
                out.left = 0;
                return out;
            }
        } else {
            let starts_later = page.events[n - 1].origin_ts > out.pivot && n == out.limit;
            if starts_later && out.chosen.is_some() {
                out.left = 0;
                return out;
            }
            let enough = number_after(&page.events, out.pivot) >= out.want_after;
            out.chosen = Some(page);
            if enough || end >= out.now || starts_later {
                out.left = 0;
                return out;
            }
        }
        out.window = add_capped(out.window, out.window);
        out.left = out.left - 1;
        out
    }

    /// The page that was found. Without any it is empty.
    pub fn finish(self) -> (out: TimelinePage)
        ensures
            match self.chosen {
                Some(page) => out == page,
                None => out.events@.len() == 0 && out.next_cursor is None,
            },
    {
        match self.chosen {
            Some(page) => page,
            None => TimelinePage { events: Vec::new(), next_cursor: None },
        }
    }
}

/// Whether a page reaches back to a moment, or to the start of the room.
pub open spec fn reaches_back(page: TimelinePage, pivot: i64, limit: usize) -> bool {
    page.events@.len() > 0 && (page.events@.last().origin_ts <= pivot || page.events@.len() != limit)
}

/// The search ends, and a page that reaches back to the moment is never given up for
/// one that does not.
pub proof fn law_straddle_keeps_context(search: Straddle, page: TimelinePage)
    requires
        search.left > 0,
    ensures
        search.after(page).left < search.left,
        search.after(page).chosen == search.chosen || search.after(page).chosen == Some(page),
        search.chosen is Some && reaches_back(search.chosen->0, search.pivot, search.limit)
            ==> search.after(page).chosen is Some && reaches_back(
            search.after(page).chosen->0,
            search.pivot,
            search.limit,
        ),
{
}

// ---------------------------------------------------------------------------
// The first event after a moment
// ---------------------------------------------------------------------------

/// The search for the first event at or after a moment. It widens a window until
/// there is one, and then goes back page by page.
#[derive(Debug)]
pub struct FirstSearch {
    pub lower: i64,
    pub now: i64,
    pub window: i64,
    /// The moment that the next page ends at, once the search goes back.
    pub probe: Option<i64>,
    pub earliest: Option<i64>,
    pub left: u32,
}

/// The oldest event of a page, newest first, that is not before a moment.
pub open spec fn oldest_from(events: Seq<EventDto>, lower: i64) -> Option<i64>
    decreases events.len(),
{
    if events.len() == 0 {
        None
    } else if events.last().origin_ts >= lower {
        Some(events.last().origin_ts)
    } else {
        oldest_from(events.drop_last(), lower)
    }
}

fn find_oldest_from(events: &Vec<EventDto>, lower: i64) -> (out: Option<i64>)
    ensures
        out == oldest_from(events@, lower),
{
    let mut n: usize = events.len();
    assert(events@.take(n as int) =~= events@);
    while n > 0
        invariant
            n <= events.len(),
            oldest_from(events@.take(n as int), lower) == oldest_from(events@, lower),
        decreases n,
    {
        assert(events@.take(n as int).drop_last() =~= events@.take(n - 1));
        if events[n - 1].origin_ts >= lower {
            return Some(events[n - 1].origin_ts);
        }
        n = n - 1;
    }
    None
}

pub open spec fn earlier_of(a: Option<i64>, b: Option<i64>) -> Option<i64> {
    match (a, b) {
        (Some(x), Some(y)) => Some(earlier(x, y)),
        (Some(x), None) => Some(x),
        (None, _) => b,
    }
}

impl FirstSearch {
    pub fn start(lower: i64, now: i64) -> (out: FirstSearch)
        ensures
            out == (FirstSearch {
                lower,
                now,
                window: DAY_MS,
                probe: None,
                earliest: None,
                left: SEARCH_PAGES,
            }),
    {
        FirstSearch {
            lower,
            now,
            window: DAY_MS,
            probe: None,
            earliest: None,
            left: SEARCH_PAGES,
        }
    }

    /// The moment that the next page ends at.
    pub open spec fn end_at(self) -> i64 {
        match self.probe {
            Some(ts) => ts,
            None => earlier(capped(capped(self.lower + self.window) - 1), self.now),
        }
    }

    fn end_ts(&self) -> (out: i64)
        ensures
            out == self.end_at(),
    {
        match self.probe {
            Some(ts) => ts,
            None => {
                let behind: i64 = add_capped(self.lower, self.window);
                let end: i64 = add_capped(behind, -1);
                if end < self.now {
                    end
                } else {
                    self.now
                }
            },
        }
    }

    pub fn next_request(&self, client: &AxonClient, key: &RoomKey) -> (out: Option<Request>)
        ensures
            match out {
                Some(r) => self.left > 0 && r@ == page_request(
                    client.base(),
                    key@,
                    None,
                    Some(self.end_at()),
                    TIMELINE_LIMIT,
                ),
                None => self.left == 0,
            },
    {
        if self.left == 0 {
            return None;
        }
        let end: i64 = self.end_ts();
        Some(
            client.room_timeline(
                key.account_id,
                key.room_id.as_str(),
                None,
                Some(end),
                TIMELINE_LIMIT,
            ),
        )
    }

    pub open spec fn widened(self) -> FirstSearch {
        FirstSearch { window: capped(self.window * 2), left: (self.left - 1) as u32, ..self }
    }

    pub open spec fn ended(self) -> FirstSearch {
        FirstSearch { left: 0, ..self }
    }

    /// The search after a page came, its events newest first.
    pub open spec fn after(self, events: Seq<EventDto>) -> FirstSearch {
        let seen = FirstSearch {
            earliest: earlier_of(self.earliest, oldest_from(events, self.lower)),
            ..self
        };
        if events.len() == 0 {
            if self.probe is Some || self.end_at() >= self.now {
                seen.ended()
            } else {
                seen.widened()
            }
        } else if self.probe is None && events[0].origin_ts < self.lower {
            if self.end_at() >= self.now {
                seen.ended()
            } else {
                seen.widened()
            }
        } else if events.len() != TIMELINE_LIMIT || events.last().origin_ts <= self.lower {
            seen.ended()
        } else {
            FirstSearch {
                probe: Some((events.last().origin_ts - 1) as i64),
                left: (self.left - 1) as u32,
                ..seen
            }
        }
    }

    pub fn take(self, page: &TimelinePage) -> (out: FirstSearch)
        requires
            self.left > 0,
        ensures
            out == self.after(page.events@),
    {
        let mut out = self;
        let end: i64 = out.end_ts();
        let n: usize = page.events.len();
        let found = find_oldest_from(&page.events, out.lower);
        out.earliest = match (out.earliest, found) {
            (Some(a), Some(b)) => Some(
                if a < b {
                    a
                } else {
                    b
                },
            ),
            (Some(a), None) => Some(a),
            (None, b) => b,
        };
        if n == 0 {
            if out.probe.is_some() || end >= out.now {
                out.left = 0;
                return out;
            }
        } else if out.probe.is_none() && page.events[0].origin_ts < out.lower {
            if end >= out.now {
                out.left = 0;
                return out;
            }
        } else {
            let oldest: i64 = page.events[n - 1].origin_ts;
            if n != TIMELINE_LIMIT || oldest <= out.lower {
                out.left = 0;
                return out;
            }
            out.probe = Some(oldest - 1);
            out.left = out.left - 1;
            return out;
        }
        out.window = add_capped(out.window, out.window);
        out.left = out.left - 1;
        out
    }
}

proof fn lemma_oldest_from(events: Seq<EventDto>, lower: i64)
    ensures
        oldest_from(events, lower) is Some ==> oldest_from(events, lower)->0 >= lower,
    decreases events.len(),
{
    if events.len() > 0 {
        lemma_oldest_from(events.drop_last(), lower);
    }
}

/// The search ends, and what it found is never before the moment and only gets
/// earlier.
pub proof fn law_search_goes_back(search: FirstSearch, events: Seq<EventDto>)
    requires
        search.left > 0,
        search.earliest is Some ==> search.earliest->0 >= search.lower,
    ensures
        search.after(events).left < search.left,
        search.after(events).earliest is Some ==> search.after(events).earliest->0 >= search.lower,
        search.earliest is Some ==> search.after(events).earliest is Some && search.after(
            events,
        ).earliest->0 <= search.earliest->0,
{
    lemma_oldest_from(events, search.lower);
}

/// The moment of the newest event of a page.
pub fn newest_of(page: &TimelinePage) -> (out: Option<i64>)
    ensures
        out == (if page.events@.len() > 0 {
            Some(page.events@[0].origin_ts)
        } else {
            None
        }),
{
    if page.events.len() > 0 {
        Some(page.events[0].origin_ts)
    } else {
        None
    }
}

// ---------------------------------------------------------------------------
// The start of a room
// ---------------------------------------------------------------------------

/// The way back to the start of a room, page by page.
#[derive(Debug)]
pub struct TopWalk {
    pub cursor: Option<String>,
    pub left: u32,
    pub earliest: Option<TimelinePage>,
}

impl TopWalk {
    pub fn start() -> (out: TopWalk)
        ensures
            out == (TopWalk { cursor: None, left: TOP_PAGES, earliest: None }),
    {
        TopWalk { cursor: None, left: TOP_PAGES, earliest: None }
    }

    pub fn next_request(&self, client: &AxonClient, key: &RoomKey) -> (out: Option<Request>)
        ensures
            match out {
                Some(r) => self.left > 0 && r@ == page_request(
                    client.base(),
                    key@,
                    option_view(self.cursor),
                    None,
                    TIMELINE_LIMIT,
                ),
                None => self.left == 0,
            },
    {
        if self.left == 0 {
            return None;
        }
        Some(
            client.room_timeline(
                key.account_id,
                key.room_id.as_str(),
                option_str(&self.cursor),
                None,
                TIMELINE_LIMIT,
            ),
        )
    }

    /// The walk goes on where the page says that there is more, and keeps the page.
    pub fn take(self, page: TimelinePage) -> (out: TopWalk)
        requires
            self.left > 0,
        ensures
            out.earliest == Some(page),
            match page.next_cursor {
                Some(next) => option_view(out.cursor) == Some(next@) && out.left == self.left - 1,
                None => out.left == 0 && out.cursor == self.cursor,
            },
    {
        let mut out = self;
        match &page.next_cursor {
            Some(next) => {
                out.cursor = Some(next.clone());
                out.left = out.left - 1;
            },
            None => {
                out.left = 0;
            },
        }
        out.earliest = Some(page);
        out
    }
}

} // verus!
