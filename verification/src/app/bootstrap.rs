//! The start: accounts, then rooms, then what the devices share, then the first
//! timeline.
//!
//! The order matters. The markers of what was read must be there before a timeline is
//! opened: opening one reads it, and a marker made then is never moved back.

use vstd::prelude::*;

use crate::api::client::{bare, escaped, Method, Request, HTTP_REQUEST_TIMEOUT};
use crate::api::dto::{AccountDto, DeviceStateDto, RoomDto};
use crate::app::accounts::{accounts_kept, inactive_of, kept_selection};
use crate::app::choice::{AccountSelection, RoomKey, RoomKeyView};
use crate::app::drafts::{draft_reads_applied, drafts_namespace};
use crate::app::read_markers::marker_reads_applied;
use crate::app::refresh::rooms_refreshed;
use crate::app::room_list::selection_in_list;
use crate::app::state::{
    App, BootstrapStage, DeviceState, EphemeralState, StageTimes, Startup, TypingEntry,
};
use crate::keyed::KeyedMap;
use crate::app::status::{Status, StatusView};
use crate::ids::id_text;
use crate::text::{cat2, option_str_view, views};

verus! {

/// What is said of the start until it is done.
pub open spec fn stage_label(stage: BootstrapStage) -> Option<Seq<char>> {
    match stage {
        BootstrapStage::Accounts => Some("connecting"@),
        BootstrapStage::Rooms => Some("loading rooms"@),
        BootstrapStage::DeviceState => Some("loading read state"@),
        BootstrapStage::Done => None,
    }
}

impl BootstrapStage {
    pub fn label(self) -> (out: Option<&'static str>)
        ensures
            option_str_view(out) == stage_label(self),
    {
        match self {
            BootstrapStage::Accounts => Some("connecting"),
            BootstrapStage::Rooms => Some("loading rooms"),
            BootstrapStage::DeviceState => Some("loading read state"),
            BootstrapStage::Done => None,
        }
    }

    pub fn is_done(self) -> (r: bool)
        ensures
            r == (self == BootstrapStage::Done),
    {
        self == BootstrapStage::Done
    }
}

/// The number of a stage in the order in which they are gone through.
pub open spec fn stage_number(stage: BootstrapStage) -> int {
    match stage {
        BootstrapStage::Accounts => 0,
        BootstrapStage::Rooms => 1,
        BootstrapStage::DeviceState => 2,
        BootstrapStage::Done => 3,
    }
}

/// A part of the state of the devices as it was read, account by account.
pub type DeviceStateReads = Vec<(u128, Result<DeviceStateDto, String>)>;

/// What came back of a stage.
#[derive(Debug)]
pub enum BootstrapOutcome {
    Accounts(Result<Vec<AccountDto>, String>),
    /// Also a new list of rooms after the start.
    Rooms(Result<Vec<RoomDto>, String>),
    DeviceState {
        markers: Vec<(u128, Result<DeviceStateDto, String>)>,
        drafts: Vec<(u128, Result<DeviceStateDto, String>)>,
    },
}

/// What is to be asked for next.
#[derive(Debug)]
pub struct BootstrapStep {
    pub rooms: bool,
    pub device_state: bool,
    pub timeline: bool,
    /// The rooms whose members are to be fetched for their titles.
    pub members: Vec<RoomKey>,
}

/// Requests for rooms after one more. At most one is under way, and at most one waits.
pub open spec fn rooms_asked(startup: Startup, selected: bool) -> Startup {
    if startup.rooms_fetch_inflight {
        Startup { rooms_fetch_again: true, ..startup }
    } else {
        Startup {
            rooms_fetch_inflight: true,
            rooms_fetch_had_selection: selected,
            ..startup
        }
    }
}

/// The time from one moment to another.
pub open spec fn time_since(started: u64, now: u64) -> u64 {
    if now >= started {
        (now - started) as u64
    } else {
        0
    }
}

/// The start after one of its stages, which is over at the given time. What comes back
/// of a stage that is not the present one takes no time of it.
pub open spec fn stage_over(
    startup: Startup,
    done: BootstrapStage,
    next: BootstrapStage,
    now: u64,
) -> Startup {
    if startup.stage == done {
        let took = Some(time_since(startup.stage_started, now));
        Startup {
            stage: next,
            stage_started: now,
            times: match done {
                BootstrapStage::Accounts => StageTimes { accounts: took, ..startup.times },
                BootstrapStage::Rooms => StageTimes { rooms: took, ..startup.times },
                BootstrapStage::DeviceState => StageTimes { device_state: took, ..startup.times },
                BootstrapStage::Done => startup.times,
            },
            ..startup
        }
    } else {
        Startup { stage: next, ..startup }
    }
}

impl Startup {
    fn finish_stage(&mut self, done: BootstrapStage, next: BootstrapStage, now: u64)
        ensures
            *final(self) == stage_over(*old(self), done, next, now),
    {
        if self.stage == done {
            let took = Some(
                if now >= self.stage_started {
                    now - self.stage_started
                } else {
                    0
                },
            );
            match done {
                BootstrapStage::Accounts => self.times.accounts = took,
                BootstrapStage::Rooms => self.times.rooms = took,
                BootstrapStage::DeviceState => self.times.device_state = took,
                BootstrapStage::Done => {},
            }
            self.stage_started = now;
        }
        self.stage = next;
    }
}

impl App {
    /// Begins the start. The result says whether the accounts are to be asked for.
    pub fn start_bootstrap(&mut self, now: u64) -> (ask: bool)
        ensures
            *final(self) == (App {
                startup: Startup {
                    stage: BootstrapStage::Accounts,
                    stage_started: now,
                    ..old(self).startup
                },
                ..*old(self)
            }),
            ask == old(self).session.wired,
    {
        self.startup.stage = BootstrapStage::Accounts;
        self.startup.stage_started = now;
        self.session.wired
    }

    /// Asks for the rooms, once for all who ask meanwhile.
    pub fn request_rooms_refresh(&mut self) -> (ask: bool)
        ensures
            *final(self) == (App {
                startup: rooms_asked(old(self).startup, old(self).room() is Some),
                ..*old(self)
            }),
            ask == (old(self).session.wired && !old(self).startup.rooms_fetch_inflight),
    {
        if self.startup.rooms_fetch_inflight {
            self.startup.rooms_fetch_again = true;
            return false;
        }
        let selected = self.selected_room().is_some();
        self.startup.rooms_fetch_inflight = true;
        self.startup.rooms_fetch_had_selection = selected;
        self.session.wired
    }

    /// The accounts whose shared state is asked for.
    pub open spec fn shown_ids(self) -> Seq<u128> {
        Seq::new(
            self.accounts.accounts@.len(),
            |i: int| self.accounts.accounts@[i].account_id,
        )
    }

    /// Whether requests ask for a part of the state of the devices, account by account.
    pub open spec fn asks_state(self, namespace: Seq<char>, requests: Seq<(u128, Request)>) -> bool {
        &&& requests.len() == self.shown_ids().len()
        &&& forall|i: int| 0 <= i < requests.len() ==> self.asks_state_of(namespace, #[trigger] requests[i], i)
    }

    pub open spec fn asks_state_of(self, namespace: Seq<char>, request: (u128, Request), i: int) -> bool {
        &&& request.0 == self.shown_ids()[i]
        &&& request.1@ == bare(
            Method::Get,
            self.client.base() + "/v1/devices/"@ + id_text(self.device.device_id) + "/state/"@
                + escaped(namespace),
            HTTP_REQUEST_TIMEOUT,
        ).with_query("account_id"@, id_text(self.shown_ids()[i]))
    }

    fn device_state_requests(&self, namespace: &str) -> (out: Vec<(u128, Request)>)
        ensures
            self.asks_state(namespace@, out@),
    {
        let mut out: Vec<(u128, Request)> = Vec::new();
        let mut i: usize = 0;
        while i < self.accounts.accounts.len()
            invariant
                i <= self.accounts.accounts.len(),
                out.len() == i,
                forall|k: int| 0 <= k < i ==> self.asks_state_of(namespace@, #[trigger] out@[k], k),
            decreases self.accounts.accounts.len() - i,
        {
            let id: u128 = self.accounts.accounts[i].account_id;
            let request = self.client.get_device_state(self.device.device_id, id, namespace);
            out.push((id, request));
            i = i + 1;
        }
        out
    }

    /// Whether what the devices share is asked for, or will be asked for once more when
    /// what is under way comes back. What other devices wrote before a read is in it.
    pub open spec fn state_asked(self, after: App, ask: bool) -> bool {
        &&& ask == (self.session.wired && !self.startup.device_state_inflight)
        &&& if self.startup.device_state_inflight {
            after == (App {
                startup: Startup { device_state_again: true, ..self.startup },
                ..self
            })
        } else {
            &&& after == (App {
                startup: Startup { device_state_inflight: true, ..self.startup },
                device: DeviceState {
                    drafts_written_since_fetch: after.device.drafts_written_since_fetch,
                    ..self.device
                },
                ..self
            })
            &&& after.device.drafts_written_since_fetch@ == Map::<RoomKeyView, ()>::empty()
        }
    }

    /// Asks for what the devices share, once for all who ask meanwhile. The result says
    /// whether the requests of `device_state_reads` are to be sent.
    pub fn request_device_state(&mut self) -> (ask: bool)
        ensures
            old(self).state_asked(*final(self), ask),
    {
        if self.startup.device_state_inflight {
            self.startup.device_state_again = true;
            return false;
        }
        self.startup.device_state_inflight = true;
        self.device.drafts_written_since_fetch = KeyedMap::new();
        self.session.wired
    }

    /// The requests for the read markers and for the drafts of every account.
    pub fn device_state_reads(&self) -> (out: (Vec<(u128, Request)>, Vec<(u128, Request)>))
        ensures
            self.asks_state("read_markers"@, out.0@),
            self.asks_state(drafts_namespace(), out.1@),
    {
        (self.device_state_requests("read_markers"), self.device_state_requests("drafts"))
    }
}

impl App {
    /// Whether a connection for live frames was noted. The start asks for what the
    /// devices share itself, so the first connection asks for nothing. Before a later
    /// one frames may have been lost, and it is read again, wherever the start is.
    pub open spec fn connection_made(self, after: App, ask: bool) -> bool {
        let seen = App {
            startup: Startup { seen_first_connect: true, ..self.startup },
            ephemeral: EphemeralState { typing: after.ephemeral.typing, ..self.ephemeral },
            ..self
        };
        &&& after.ephemeral.typing@ == Map::<RoomKeyView, TypingEntry>::empty()
        &&& if self.startup.seen_first_connect {
            seen.state_asked(after, ask)
        } else {
            after == seen && !ask
        }
    }

    /// Notes that a connection for live frames was made. Nobody is taken to be typing
    /// any more: that they stopped may have been said before it.
    pub fn note_connected(&mut self) -> (ask: bool)
        ensures
            old(self).connection_made(*final(self), ask),
    {
        self.clear_typing_overlays();
        let again = self.startup.seen_first_connect;
        self.startup.seen_first_connect = true;
        if again {
            self.request_device_state()
        } else {
            false
        }
    }
}

/// Whether a list of accounts was taken over.
pub open spec fn accounts_refreshed(before: App, after: App, accounts: Vec<AccountDto>) -> bool {
    &&& after == (App { accounts: after.accounts, ..before })
    &&& after.accounts.client_visible == accounts
    &&& after.accounts.inactive_ids@ == inactive_of(views(accounts@))
    &&& views(after.accounts.accounts@) == accounts_kept(views(accounts@), before.account_filter)
    &&& after.accounts.scroll == before.accounts.scroll
    &&& after.accounts.page_size == before.accounts.page_size
    &&& after.accounts.selected == ({
        let shown = views(after.accounts.accounts@);
        let kept = kept_selection(before.account_shown(), shown);
        if kept == AccountSelection::All {
            kept_selection(before.account_filter, shown)
        } else {
            kept
        }
    })
}

impl App {
    /// Whether the accounts were taken over, or it was said why not; the rooms are
    /// asked for either way.
    pub open spec fn accounts_stage_done(
        self,
        after: App,
        result: Result<Vec<AccountDto>, String>,
        now: u64,
        step: BootstrapStep,
    ) -> bool {
        let startup = stage_over(
            self.startup,
            BootstrapStage::Accounts,
            BootstrapStage::Rooms,
            now,
        );
        &&& match result {
            Ok(accounts) => accounts_refreshed(
                self,
                App { startup: self.startup, ..after },
                accounts,
            ),
            Err(e) => {
                &&& after == (App { startup: after.startup, status: after.status, ..self })
                &&& after.status@ == StatusView::Info("account refresh failed: "@ + e@)
            },
        }
        &&& after.startup == rooms_asked(startup, self.room() is Some)
        &&& step.rooms == (self.session.wired && !self.startup.rooms_fetch_inflight)
        &&& !step.device_state
        &&& !step.timeline
        &&& step.members@.len() == 0
    }

    /// Requests for rooms once one has come back.
    pub open spec fn rooms_settled(self, selected: bool) -> Startup {
        let free = Startup { rooms_fetch_inflight: false, ..self.startup };
        if free.rooms_fetch_again {
            rooms_asked(Startup { rooms_fetch_again: false, ..free }, selected)
        } else {
            free
        }
    }

    /// Whether a list of rooms was taken over, or it was said why not.
    pub open spec fn rooms_taken(
        self,
        after: App,
        result: Result<Vec<RoomDto>, String>,
        members: Seq<RoomKey>,
    ) -> bool {
        match result {
            Ok(rooms) => {
                &&& rooms_refreshed(self, after, views(rooms@))
                &&& views(members) == after.rooms.titles_to_fetch(self.account_shown())
            },
            Err(e) => {
                &&& after == (App { status: after.status, ..self })
                &&& if self.mid_command() {
                    after.status == self.status
                } else {
                    after.status@ == StatusView::Info("room refresh failed: "@ + e@)
                }
                &&& members.len() == 0
            },
        }
    }

    /// Whether a list of rooms was taken over, or it was said why not, and what was
    /// asked for meanwhile is asked for. In the start the state of the devices is next;
    /// later the first room that shows up is opened.
    pub open spec fn rooms_stage_done(
        self,
        after: App,
        result: Result<Vec<RoomDto>, String>,
        now: u64,
        step: BootstrapStep,
    ) -> bool {
        exists|taken: App|
            #![trigger self.rooms_taken(taken, result, step.members@)]
            self.rooms_taken(taken, result, step.members@) && self.rooms_stage_left(
                taken,
                after,
                now,
                step,
            )
    }

    /// Whether the stage of the rooms was left, once they were taken over.
    pub open spec fn rooms_stage_left(
        self,
        taken: App,
        after: App,
        now: u64,
        step: BootstrapStep,
    ) -> bool {
        let startup = self.rooms_settled(taken.room() is Some);
        &&& step.rooms == (self.session.wired && self.startup.rooms_fetch_again)
        &&& if self.startup.stage == BootstrapStage::Rooms {
            let left = stage_over(
                startup,
                BootstrapStage::Rooms,
                BootstrapStage::DeviceState,
                now,
            );
            App { startup: left, ..taken }.state_asked(after, step.device_state)
        } else {
            &&& after == (App { startup, ..taken })
            &&& !step.device_state
        }
        &&& step.timeline == (self.startup.stage == BootstrapStage::Done
            && !startup.rooms_fetch_had_selection && taken.room() is Some)
    }

    /// Whether the state of the devices was taken over, the markers first, and is asked
    /// for once more if it was asked for meanwhile. In the start the first timeline is
    /// next.
    pub open spec fn device_stage_done(
        self,
        after: App,
        markers: Seq<(u128, Result<DeviceStateDto, String>)>,
        drafts: Seq<(u128, Result<DeviceStateDto, String>)>,
        now: u64,
        step: BootstrapStep,
    ) -> bool {
        &&& exists|marked: App, read: App|
            #![trigger marker_reads_applied(self, marked, markers), draft_reads_applied(marked, read, drafts)]
            {
                &&& marker_reads_applied(self, marked, markers)
                &&& draft_reads_applied(marked, read, drafts)
                &&& self.device_stage_left(read, after, now, step)
            }
        &&& step.timeline == (self.startup.stage == BootstrapStage::DeviceState)
        &&& !step.rooms
        &&& step.members@.len() == 0
    }

    /// Whether the stage of the devices was left, once their state was taken over.
    pub open spec fn device_stage_left(self, read: App, after: App, now: u64, step: BootstrapStep) -> bool {
        let free = Startup {
            device_state_inflight: false,
            device_state_again: false,
            ..self.startup
        };
        let startup = if self.startup.stage == BootstrapStage::DeviceState {
            stage_over(free, BootstrapStage::DeviceState, BootstrapStage::Done, now)
        } else {
            free
        };
        if self.startup.device_state_again {
            App { startup, ..read }.state_asked(after, step.device_state)
        } else {
            &&& after == (App { startup, ..read })
            &&& !step.device_state
        }
    }

    fn take_accounts_stage(&mut self, result: Result<Vec<AccountDto>, String>, now: u64) -> (step:
        BootstrapStep)
        ensures
            old(self).accounts_stage_done(*final(self), result, now, step),
            selection_in_list(old(self).rooms) ==> selection_in_list(final(self).rooms),
    {
        match result {
            Ok(accounts) => {
                self.apply_account_refresh(accounts);
            },
            Err(e) => {
                self.status = Status::Info(cat2("account refresh failed: ", e.as_str()));
            },
        }
        self.startup.finish_stage(BootstrapStage::Accounts, BootstrapStage::Rooms, now);
        let rooms = self.request_rooms_refresh();
        BootstrapStep { rooms, device_state: false, timeline: false, members: Vec::new() }
    }

    fn take_rooms_stage(&mut self, result: Result<Vec<RoomDto>, String>, now: u64) -> (step:
        BootstrapStep)
        ensures
            old(self).rooms_stage_done(*final(self), result, now, step),
            selection_in_list(old(self).rooms) ==> selection_in_list(final(self).rooms),
    {
        let mut members: Vec<RoomKey> = Vec::new();
        match result {
            Ok(rooms) => {
                members = self.apply_room_refresh(rooms);
            },
            Err(e) => {
                if !self.is_mid_command() {
                    self.status = Status::Info(cat2("room refresh failed: ", e.as_str()));
                }
            },
        }
        assert(self.startup == old(self).startup);
        let ghost taken = *self;
        assert(old(self).rooms_taken(taken, result, members@));
        self.startup.rooms_fetch_inflight = false;
        let mut rooms = false;
        if self.startup.rooms_fetch_again {
            self.startup.rooms_fetch_again = false;
            rooms = self.request_rooms_refresh();
        }
        let mut device_state = false;
        let mut timeline = false;
        if self.startup.stage == BootstrapStage::Rooms {
            self.startup.finish_stage(BootstrapStage::Rooms, BootstrapStage::DeviceState, now);
            device_state = self.request_device_state();
        } else if self.startup.stage.is_done() && !self.startup.rooms_fetch_had_selection
            && self.selected_room().is_some() {
            timeline = true;
        }
        let step = BootstrapStep { rooms, device_state, timeline, members };
        assert(old(self).rooms_taken(taken, result, step.members@));
        assert(old(self).rooms_stage_left(taken, *self, now, step));
        step
    }

    fn take_device_stage(
        &mut self,
        markers: &DeviceStateReads,
        drafts: &DeviceStateReads,
        now: u64,
    ) -> (step: BootstrapStep)
        ensures
            old(self).device_stage_done(*final(self), markers@, drafts@, now, step),
            selection_in_list(old(self).rooms) ==> selection_in_list(final(self).rooms),
    {
        self.apply_read_marker_reads(markers);
        let ghost marked = *self;
        self.apply_draft_reads(drafts);
        assert(marker_reads_applied(*old(self), marked, markers@));
        assert(draft_reads_applied(marked, *self, drafts@));
        assert(self.startup == old(self).startup);
        let again = self.startup.device_state_again;
        self.startup.device_state_inflight = false;
        self.startup.device_state_again = false;
        let mut timeline = false;
        if self.startup.stage == BootstrapStage::DeviceState {
            self.startup.finish_stage(BootstrapStage::DeviceState, BootstrapStage::Done, now);
            timeline = true;
        }
        let mut device_state = false;
        if again {
            device_state = self.request_device_state();
        }
        BootstrapStep { rooms: false, device_state, timeline, members: Vec::new() }
    }

    /// Takes over what came back of a stage. The result says what is asked for next.
    pub fn handle_bootstrap_outcome(&mut self, outcome: BootstrapOutcome, now: u64) -> (step:
        BootstrapStep)
        ensures
            old(self).stage_taken(*final(self), outcome, now, step),
            selection_in_list(old(self).rooms) ==> selection_in_list(final(self).rooms),
    {
        match outcome {
            BootstrapOutcome::Accounts(result) => self.take_accounts_stage(result, now),
            BootstrapOutcome::Rooms(result) => self.take_rooms_stage(result, now),
            BootstrapOutcome::DeviceState { markers, drafts } => self.take_device_stage(
                &markers,
                &drafts,
                now,
            ),
        }
    }

    /// Whether what came back of a stage was taken over.
    pub open spec fn stage_taken(
        self,
        after: App,
        outcome: BootstrapOutcome,
        now: u64,
        step: BootstrapStep,
    ) -> bool {
        match outcome {
            BootstrapOutcome::Accounts(result) => self.accounts_stage_done(
                after,
                result,
                now,
                step,
            ),
            BootstrapOutcome::Rooms(result) => self.rooms_stage_done(after, result, now, step),
            BootstrapOutcome::DeviceState { markers, drafts } => self.device_stage_done(
                after,
                markers@,
                drafts@,
                now,
                step,
            ),
        }
    }
}

/// However many ask for the rooms while they are asked for, one more request follows.
pub proof fn law_requests_are_gathered(startup: Startup, selected: bool, again: bool)
    requires
        startup.rooms_fetch_inflight,
    ensures
        rooms_asked(rooms_asked(startup, selected), again) == rooms_asked(startup, selected),
        rooms_asked(startup, selected).rooms_fetch_inflight,
{
}

/// However many ask for what the devices share while it is asked for, nothing is sent
/// until it came back, and one more request follows.
pub proof fn law_state_reads_are_gathered(
    before: App,
    once: App,
    first: bool,
    twice: App,
    second: bool,
)
    requires
        before.startup.device_state_inflight,
        before.state_asked(once, first),
        once.state_asked(twice, second),
    ensures
        !first,
        !second,
        twice == once,
        once.startup.device_state_inflight,
        once.startup.device_state_again,
{
}

/// A read that is under way when another is asked for comes back first: the next one
/// is sent only then.
pub proof fn law_one_state_read_at_a_time(
    before: App,
    after: App,
    outcome: BootstrapOutcome,
    now: u64,
    step: BootstrapStep,
)
    requires
        before.stage_taken(after, outcome, now, step),
        before.startup.device_state_inflight,
    ensures
        step.device_state ==> outcome is DeviceState,
        step.device_state ==> after.startup.device_state_inflight,
        outcome is DeviceState ==> !after.startup.device_state_again,
{
}

/// The start goes from stage to stage in order, a failure or not, and a timeline is
/// opened in it only once the markers were taken over. How long the stage took is known
/// from then on.
pub proof fn law_stages_in_order(
    before: App,
    after: App,
    outcome: BootstrapOutcome,
    now: u64,
    step: BootstrapStep,
)
    requires
        before.stage_taken(after, outcome, now, step),
        before.startup.stage == match outcome {
            BootstrapOutcome::Accounts(_) => BootstrapStage::Accounts,
            BootstrapOutcome::Rooms(_) => BootstrapStage::Rooms,
            BootstrapOutcome::DeviceState { .. } => BootstrapStage::DeviceState,
        },
    ensures
        stage_number(after.startup.stage) == stage_number(before.startup.stage) + 1,
        step.timeline ==> outcome is DeviceState,
        after.startup.stage_started == now,
        Some(time_since(before.startup.stage_started, now)) == match outcome {
            BootstrapOutcome::Accounts(_) => after.startup.times.accounts,
            BootstrapOutcome::Rooms(_) => after.startup.times.rooms,
            BootstrapOutcome::DeviceState { .. } => after.startup.times.device_state,
        },
{
}

} // verus!
