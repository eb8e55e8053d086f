//! The state of the client.

use vstd::prelude::*;

use crate::api::client::AxonClient;
use crate::api::dto::{AccountDto, AccountView, EventDto, RoomDto, ThreadSummaryDto};
use crate::app::choice::{
    entry_key, filter_of_word, sort_of_word, AccountSelection, RoomFilter, RoomKey, RoomKeyView,
    RoomSort,
};
use crate::app::input::InputState;
use crate::app::layout_cache::Token;
use crate::app::status::{Status, StatusView};
use crate::app::verification::VerificationFlow;
use crate::keyed::KeyedMap;
use crate::text::{cat2, lowercase, option_view, trim, views};

verus! {

/// What answers to what the user types.
#[derive(Debug)]
pub enum Mode {
    Compose,
    LoginUsername,
    LoginPassword {
        username: String,
        /// The homeserver that the user named, if any.
        homeserver: Option<String>,
    },
    RecoveryKey { account: AccountDto, origin: RecoveryOrigin },
    ConfirmLogout { account: AccountDto },
    ConfirmDelete { account: AccountDto },
    ConfirmRoomAction,
    RoomList,
    AccountList,
    MessageList,
    Search(SearchKind, String),
    SearchForm,
    SearchResults,
    Editing { event_id: String },
    Reacting { event_id: String },
    Unreacting { target_event_id: String, choices: Vec<OwnReaction>, selected: usize },
    Verification,
    Popup(PopupKind),
    DateJump,
}

/// Why a recovery key is asked for.
#[derive(Debug, Clone, Copy, PartialEq, Eq, Structural)]
pub enum RecoveryOrigin {
    PostLogin,
    Command,
    /// To enable the backup. An empty key resumes uploading.
    BackupEnable,
}

#[derive(Debug, Clone, Copy, PartialEq, Eq, Structural)]
pub enum SearchKind {
    Rooms,
    Messages,
    Accounts,
    /// Each key narrows the room list by name at once.
    RoomNameFilter,
}

#[derive(Debug, Clone, Copy, PartialEq, Eq, Structural)]
pub enum PopupKind {
    Help,
    Shortcuts,
    UnreadThreads,
    RoomInfo,
    Status,
    CommandResponse,
    MediaPreview,
}

/// A reaction of the account, with the events that withdraw it.
#[derive(Debug, PartialEq, Eq)]
pub struct OwnReaction {
    pub key: String,
    pub event_ids: Vec<String>,
}

#[verifier::ext_equal]
pub struct OwnReactionView {
    pub key: Seq<char>,
    pub event_ids: Seq<Seq<char>>,
}

impl View for OwnReaction {
    type V = OwnReactionView;

    open spec fn view(&self) -> OwnReactionView {
        OwnReactionView { key: self.key@, event_ids: views(self.event_ids@) }
    }
}

/// A mode by the texts in it.
pub enum ModeView {
    Compose,
    LoginUsername,
    LoginPassword { username: Seq<char>, homeserver: Option<Seq<char>> },
    RecoveryKey { account: AccountView, origin: RecoveryOrigin },
    ConfirmLogout { account: AccountView },
    ConfirmDelete { account: AccountView },
    ConfirmRoomAction,
    RoomList,
    AccountList,
    MessageList,
    Search(SearchKind, Seq<char>),
    SearchForm,
    SearchResults,
    Editing { event_id: Seq<char> },
    Reacting { event_id: Seq<char> },
    Unreacting { target_event_id: Seq<char>, choices: Seq<OwnReactionView>, selected: usize },
    Verification,
    Popup(PopupKind),
    DateJump,
}

impl View for Mode {
    type V = ModeView;

    open spec fn view(&self) -> ModeView {
        match self {
            Mode::Compose => ModeView::Compose,
            Mode::LoginUsername => ModeView::LoginUsername,
            Mode::LoginPassword { username, homeserver } => ModeView::LoginPassword {
                username: username@,
                homeserver: option_view(*homeserver),
            },
            Mode::RecoveryKey { account, origin } => ModeView::RecoveryKey {
                account: account@,
                origin: *origin,
            },
            Mode::ConfirmLogout { account } => ModeView::ConfirmLogout { account: account@ },
            Mode::ConfirmDelete { account } => ModeView::ConfirmDelete { account: account@ },
            Mode::ConfirmRoomAction => ModeView::ConfirmRoomAction,
            Mode::RoomList => ModeView::RoomList,
            Mode::AccountList => ModeView::AccountList,
            Mode::MessageList => ModeView::MessageList,
            Mode::Search(kind, query) => ModeView::Search(*kind, query@),
            Mode::SearchForm => ModeView::SearchForm,
            Mode::SearchResults => ModeView::SearchResults,
            Mode::Editing { event_id } => ModeView::Editing { event_id: event_id@ },
            Mode::Reacting { event_id } => ModeView::Reacting { event_id: event_id@ },
            Mode::Unreacting { target_event_id, choices, selected } => ModeView::Unreacting {
                target_event_id: target_event_id@,
                choices: views(choices@),
                selected: *selected,
            },
            Mode::Verification => ModeView::Verification,
            Mode::Popup(kind) => ModeView::Popup(*kind),
            Mode::DateJump => ModeView::DateJump,
        }
    }
}

/// Whether the user is in the middle of a prompt that other news must not
/// disturb.
pub open spec fn prompting(mode: ModeView) -> bool {
    match mode {
        ModeView::Compose => false,
        ModeView::RoomList => false,
        ModeView::AccountList => false,
        ModeView::MessageList => false,
        ModeView::Popup(_) => false,
        _ => true,
    }
}

impl Mode {
    pub fn is_prompting(&self) -> (r: bool)
        ensures
            r == prompting(self@),
    {
        match self {
            Mode::Compose => false,
            Mode::RoomList => false,
            Mode::AccountList => false,
            Mode::MessageList => false,
            Mode::Popup(_) => false,
            _ => true,
        }
    }

    pub fn is_compose(&self) -> (r: bool)
        ensures
            r == (self@ is Compose),
    {
        match self {
            Mode::Compose => true,
            _ => false,
        }
    }
}

/// How close messages stand.
#[derive(Debug, Clone, Copy, PartialEq, Eq, Structural)]
pub enum MessageDensity {
    Dense,
    Normal,
}

#[derive(Debug, Clone, Copy, PartialEq, Eq, Structural)]
pub enum TimeFormat {
    H24,
    H12,
}

/// What the user set of the display.
#[derive(Debug, Clone, Copy, PartialEq, Eq, Structural)]
pub struct DisplayOptions {
    pub show_state_events: bool,
    pub debug: bool,
    pub search_wrap: bool,
    /// Whether requests of other users to verify are shown.
    pub accept_incoming_verification: bool,
    /// Whether the user is asked before an account is logged out.
    pub confirm_logout: bool,
    pub message_density: MessageDensity,
    pub time_format: TimeFormat,
    pub accounts_panel_width: u16,
    pub rooms_panel_width_adj: i16,
    pub input_lines: u16,
}

/// The configuration that the client starts with.
#[derive(Debug)]
pub struct TuiConfig {
    pub path: String,
    pub created_default: bool,
    pub display: DisplayOptions,
    pub pinned_rooms: Vec<String>,
    pub room_filter: String,
    pub room_sort: String,
}

/// The rooms and what is known of them.
#[derive(Debug)]
pub struct RoomsState {
    pub rooms: Vec<RoomDto>,
    pub selected: Option<usize>,
    pub scroll: usize,
    pub page_size: usize,
    pub display_names: KeyedMap<RoomKey, KeyedMap<String, String>>,
    pub unread: KeyedMap<RoomKey, usize>,
    pub filter: RoomFilter,
    pub sort: RoomSort,
    /// The filter before the user began to type a name.
    pub filter_before_input: Option<RoomFilter>,
    /// The pinned rooms, the one pinned last first.
    pub pinned: Vec<RoomKey>,
    /// The titles of unnamed rooms, made of their members.
    pub titles: KeyedMap<RoomKey, String>,
    /// The unnamed rooms whose members give no title.
    pub without_title: KeyedMap<RoomKey, ()>,
}

/// The accounts. Only active ones are shown and selected.
#[derive(Debug)]
pub struct AccountsState {
    pub accounts: Vec<AccountDto>,
    /// Every account that the server listed.
    pub client_visible: Vec<AccountDto>,
    /// The accounts that are known not to be active, whose rooms are hidden.
    pub inactive_ids: Vec<u128>,
    pub selected: AccountSelection,
    pub scroll: usize,
    pub page_size: usize,
}

/// The message pane.
#[derive(Debug)]
pub struct MessagePane {
    pub events: KeyedMap<RoomKey, Vec<EventDto>>,
    pub selection: Option<String>,
    /// The first line shown. The largest number stands for the bottom.
    pub scroll: usize,
    pub page_size: usize,
    pub width: usize,
    /// The first and the last line but one of each message, of the last layout.
    pub ranges: Vec<(usize, usize)>,
    /// The fingerprint of what the last layout was made of.
    pub layout_key: Option<Vec<Token>>,
    pub layout_checks: u64,
    pub layout_recomputes: u64,
    /// Where the next older page of a room starts. A room that begins here has
    /// none.
    pub history_cursors: KeyedMap<RoomKey, String>,
    pub loading_history: bool,
}

#[derive(Debug)]
pub struct LiveState {
    pub own_senders: KeyedMap<u128, String>,
    pub pending_own_event_id: Option<String>,
}

/// How far the start has come.
#[derive(Debug, Clone, Copy, PartialEq, Eq, Structural)]
pub enum BootstrapStage {
    Accounts,
    Rooms,
    DeviceState,
    Done,
}

/// A room's last-read position in display order.
#[derive(Debug, PartialEq, Eq)]
pub struct ReadMarker {
    pub event_id: String,
    pub origin_ts: i64,
}

#[verifier::ext_equal]
pub struct ReadMarkerView {
    pub event_id: Seq<char>,
    pub origin_ts: i64,
}

impl View for ReadMarker {
    type V = ReadMarkerView;

    open spec fn view(&self) -> ReadMarkerView {
        ReadMarkerView { event_id: self.event_id@, origin_ts: self.origin_ts }
    }
}

impl ReadMarker {
    pub fn copy(&self) -> (out: ReadMarker)
        ensures
            out@ == self@,
    {
        ReadMarker { event_id: self.event_id.clone(), origin_ts: self.origin_ts }
    }
}

/// A room's last-read position in the order of arrival.
#[derive(Debug, PartialEq, Eq)]
pub struct ReceiptTarget {
    pub event_id: String,
    pub arrival_order: i64,
}

#[verifier::ext_equal]
pub struct ReceiptTargetView {
    pub event_id: Seq<char>,
    pub arrival_order: i64,
}

impl View for ReceiptTarget {
    type V = ReceiptTargetView;

    open spec fn view(&self) -> ReceiptTargetView {
        ReceiptTargetView { event_id: self.event_id@, arrival_order: self.arrival_order }
    }
}

impl ReceiptTarget {
    pub fn copy(&self) -> (out: ReceiptTarget)
        ensures
            out@ == self@,
    {
        ReceiptTarget { event_id: self.event_id.clone(), arrival_order: self.arrival_order }
    }
}

/// A marker that waits to be written.
#[derive(Debug)]
pub struct PendingMarkerPut {
    pub room: RoomKey,
    pub marker: ReadMarker,
    /// The time from which it is written, in milliseconds.
    pub due: u64,
}

/// A draft that waits to be written.
#[derive(Debug)]
pub struct PendingDraftPut {
    pub room: RoomKey,
    /// The text, or none where the draft is to be removed.
    pub value: Option<String>,
    /// The time from which it is written, in milliseconds.
    pub due: u64,
}

/// Who is typing in a room, and until when it is shown.
#[derive(Debug)]
pub struct TypingEntry {
    pub user_ids: Vec<String>,
    pub expires_at: u64,
}

/// What others are doing: typing, and reading.
#[derive(Debug)]
pub struct EphemeralState {
    pub typing: KeyedMap<RoomKey, TypingEntry>,
    /// By room and user, the newest event that the user read.
    pub read: KeyedMap<RoomKey, KeyedMap<String, String>>,
}

/// The replies of a thread that were not seen.
#[derive(Debug)]
pub struct UnreadThread {
    pub unread_count: usize,
    pub latest_event_id: String,
    pub latest_sender: String,
    pub latest_body: String,
    pub latest_ts: i64,
    /// Every reply that was counted, so that none counts twice.
    pub counted: KeyedMap<String, ()>,
}

/// The requests that the user waits for.
#[derive(Debug, Clone, Copy, PartialEq, Eq, Structural)]
pub struct Busy {
    pub lifecycle: bool,
    pub media_send: bool,
    pub room_action: bool,
}

/// Which panels are hidden, and what is shown of the others.
#[derive(Debug, Clone, Copy, PartialEq, Eq, Structural)]
pub struct Panels {
    pub accounts_hidden: bool,
    pub rooms_hidden: bool,
    pub popup_scroll: usize,
    pub help_selection: usize,
    pub show_input_help: bool,
    /// Which of two encodings of an image is sent, so that it is sent again.
    pub preview_generation: u64,
    /// The time from which an open preview is sent again, in milliseconds.
    pub preview_refresh_after: u64,
    pub force_terminal_clear: bool,
}

/// Threads, and what the next message relates to.
#[derive(Debug)]
pub struct ThreadState {
    /// The root of the thread that the pane shows.
    pub panel: Option<String>,
    pub summaries: KeyedMap<RoomKey, KeyedMap<String, ThreadSummaryDto>>,
    /// The message that the next one replies to. It excludes a thread.
    pub pending_reply: Option<String>,
    /// The root of the thread that the next message begins.
    pub pending_thread: Option<String>,
    /// The replies in threads that the main timeline shows.
    pub promoted: KeyedMap<String, ()>,
    pub unread: KeyedMap<RoomKey, KeyedMap<String, UnreadThread>>,
}

/// What the devices of the user share.
#[derive(Debug)]
pub struct DeviceState {
    pub device_id: u128,
    pub drafts: KeyedMap<RoomKey, String>,
    pub pending_draft_put: Option<PendingDraftPut>,
    /// The room whose draft the line holds.
    pub compose_room: Option<RoomKey>,
    /// The drafts that another device wrote since what the devices share was last
    /// asked for. They are newer than what comes back.
    pub drafts_written_since_fetch: KeyedMap<RoomKey, ()>,
    pub read_markers: KeyedMap<RoomKey, ReadMarker>,
    pub receipt_targets: KeyedMap<RoomKey, ReceiptTarget>,
    pub pending_marker_put: Option<PendingMarkerPut>,
}

/// How long each stage of the start took, in milliseconds, once it is done.
#[derive(Debug, Clone, Copy, PartialEq, Eq, Structural)]
pub struct StageTimes {
    pub accounts: Option<u64>,
    pub rooms: Option<u64>,
    pub device_state: Option<u64>,
}

/// The start of the client, and the requests for rooms and for what the devices
/// share.
#[derive(Debug, Clone, Copy, PartialEq, Eq, Structural)]
pub struct Startup {
    pub stage: BootstrapStage,
    /// When the stage began.
    pub stage_started: u64,
    pub times: StageTimes,
    /// Whether the rooms are being asked for: they are not asked for twice at once.
    pub rooms_fetch_inflight: bool,
    /// Whether they were asked for meanwhile, and are asked for once more after that.
    pub rooms_fetch_again: bool,
    pub rooms_fetch_had_selection: bool,
    /// The same of what the devices share. Two reads at once could come back in the
    /// wrong order, and the older one delete what the newer one brought.
    pub device_state_inflight: bool,
    pub device_state_again: bool,
    /// Whether a connection for live frames was made before.
    pub seen_first_connect: bool,
}

/// What holds for the whole session.
#[derive(Debug)]
pub struct Session {
    pub last_search: Option<String>,
    pub last_jump_ts: Option<i64>,
    /// The reply to a command, to be shown where it fits.
    pub pending_command_response: Option<String>,
    pub should_quit: bool,
    /// Whether requests can be started. Without that nothing is sent.
    pub wired: bool,
    pub config_path: String,
    pub edit_config_requested: bool,
    pub config_generation: u64,
}

#[derive(Debug)]
pub struct App {
    pub client: AxonClient,
    pub account_filter: Option<u128>,
    pub display: DisplayOptions,
    pub rooms: RoomsState,
    pub accounts: AccountsState,
    pub messages: MessagePane,
    pub input: InputState,
    pub live: LiveState,
    pub mode: Mode,
    pub status: Status,
    pub busy: Busy,
    pub panels: Panels,
    pub threads: ThreadState,
    pub device: DeviceState,
    pub startup: Startup,
    pub session: Session,
    pub verification: Option<VerificationFlow>,
    pub ephemeral: EphemeralState,
}

/// Milliseconds after which an open preview is sent again.
pub const SIXEL_REFRESH_INTERVAL: u64 = 5_000;

/// What is said of a message that the server has not confirmed.
pub open spec fn pending_echo_text() -> Seq<char> {
    "message not yet confirmed by server — please wait a moment and try again"@
}

impl RoomsState {
    pub fn new(pinned: Vec<RoomKey>, filter: RoomFilter, sort: RoomSort) -> (out: RoomsState)
        ensures
            out.rooms@.len() == 0,
            out.selected is None,
            out.scroll == 0,
            out.page_size == 0,
            out.display_names@ == Map::<RoomKeyView, KeyedMap<String, String>>::empty(),
            out.unread@ == Map::<RoomKeyView, usize>::empty(),
            out.filter == filter,
            out.sort == sort,
            out.filter_before_input is None,
            out.pinned == pinned,
            out.titles@ == Map::<RoomKeyView, String>::empty(),
            out.without_title@ == Map::<RoomKeyView, ()>::empty(),
    {
        RoomsState {
            rooms: Vec::new(),
            selected: None,
            scroll: 0,
            page_size: 0,
            display_names: KeyedMap::new(),
            unread: KeyedMap::new(),
            filter,
            sort,
            filter_before_input: None,
            pinned,
            titles: KeyedMap::new(),
            without_title: KeyedMap::new(),
        }
    }

    /// The selected room.
    pub open spec fn chosen(self) -> Option<RoomDto> {
        match self.selected {
            Some(i) => if i < self.rooms@.len() {
                Some(self.rooms@[i as int])
            } else {
                None
            },
            None => None,
        }
    }
}

impl ThreadState {
    pub fn new() -> (out: ThreadState)
        ensures
            out.panel is None,
            out.pending_reply is None,
            out.pending_thread is None,
            out.promoted@ == Map::<Seq<char>, ()>::empty(),
            out.unread@ == Map::<RoomKeyView, KeyedMap<String, UnreadThread>>::empty(),
            out.summaries@ == Map::<RoomKeyView, KeyedMap<String, ThreadSummaryDto>>::empty(),
    {
        ThreadState {
            panel: None,
            summaries: KeyedMap::new(),
            pending_reply: None,
            pending_thread: None,
            promoted: KeyedMap::new(),
            unread: KeyedMap::new(),
        }
    }
}

impl DeviceState {
    pub fn new() -> (out: DeviceState)
        ensures
            out.device_id == 0,
            out.drafts@ == Map::<RoomKeyView, String>::empty(),
            out.pending_draft_put is None,
            out.compose_room is None,
            out.drafts_written_since_fetch@ == Map::<RoomKeyView, ()>::empty(),
            out.read_markers@ == Map::<RoomKeyView, ReadMarker>::empty(),
            out.receipt_targets@ == Map::<RoomKeyView, ReceiptTarget>::empty(),
            out.pending_marker_put is None,
    {
        DeviceState {
            device_id: 0,
            drafts: KeyedMap::new(),
            pending_draft_put: None,
            compose_room: None,
            drafts_written_since_fetch: KeyedMap::new(),
            read_markers: KeyedMap::new(),
            receipt_targets: KeyedMap::new(),
            pending_marker_put: None,
        }
    }
}

impl AccountsState {
    pub fn new() -> (out: AccountsState)
        ensures
            out.accounts@.len() == 0,
            out.client_visible@.len() == 0,
            out.inactive_ids@.len() == 0,
            out.selected == AccountSelection::All,
            out.scroll == 0,
            out.page_size == 1,
    {
        AccountsState {
            accounts: Vec::new(),
            client_visible: Vec::new(),
            inactive_ids: Vec::new(),
            selected: AccountSelection::All,
            scroll: 0,
            page_size: 1,
        }
    }
}

impl MessagePane {
    pub fn new() -> (out: MessagePane)
        ensures
            out.events@ == Map::<RoomKeyView, Vec<EventDto>>::empty(),
            out.selection is None,
            out.scroll == usize::MAX,
            out.page_size == 1,
            out.width == 80,
            out.ranges@.len() == 0,
            out.layout_key is None,
            out.layout_checks == 0,
            out.layout_recomputes == 0,
            out.history_cursors@ == Map::<RoomKeyView, String>::empty(),
            !out.loading_history,
    {
        MessagePane {
            events: KeyedMap::new(),
            selection: None,
            scroll: usize::MAX,
            page_size: 1,
            width: 80,
            ranges: Vec::new(),
            layout_key: None,
            layout_checks: 0,
            layout_recomputes: 0,
            history_cursors: KeyedMap::new(),
            loading_history: false,
        }
    }
}

/// The rooms that the entries of the configuration name, bad entries left out.
pub open spec fn pinned_of(entries: Seq<Seq<char>>) -> Seq<RoomKeyView>
    decreases entries.len(),
{
    if entries.len() == 0 {
        Seq::empty()
    } else {
        let before = pinned_of(entries.drop_last());
        match entry_key(entries.last()) {
            Some(key) => before.push(key),
            None => before,
        }
    }
}

fn parse_pinned(entries: &Vec<String>) -> (out: Vec<RoomKey>)
    ensures
        views(out@) == pinned_of(views(entries@)),
{
    let mut out: Vec<RoomKey> = Vec::new();
    let mut i: usize = 0;
    let ghost all = views(entries@);
    assert(views(out@) =~= Seq::<RoomKeyView>::empty());
    while i < entries.len()
        invariant
            i <= entries.len(),
            all == views(entries@),
            views(out@) == pinned_of(all.take(i as int)),
        decreases entries.len() - i,
    {
        let ghost before = views(out@);
        assert(all.take(i + 1).drop_last() =~= all.take(i as int));
        assert(all.take(i + 1).last() == entries@[i as int]@);
        match RoomKey::parse_config_entry(entries[i].as_str()) {
            Some(key) => {
                out.push(key);
                assert(views(out@) =~= before.push(key@));
            },
            None => {},
        }
        i = i + 1;
    }
    assert(all.take(i as int) =~= all);
    out
}

/// What the client says when it starts.
pub open spec fn start_text(config: TuiConfig) -> Seq<char> {
    if config.created_default {
        "created default config at "@ + config.path@
    } else {
        "connecting to Axon"@
    }
}

impl App {
    /// The client as it starts.
    pub fn new(
        client: AxonClient,
        account_filter: Option<u128>,
        config: TuiConfig,
        now_ms: u64,
    ) -> (out: App)
        requires
            now_ms + SIXEL_REFRESH_INTERVAL <= u64::MAX,
        ensures
            out.client == client,
            out.account_filter == account_filter,
            out.display == config.display,
            out.status@ == StatusView::Info(start_text(config)),
            out.mode@ == ModeView::Compose,
            out.rooms.rooms@.len() == 0,
            out.rooms.selected is None,
            out.rooms.scroll == 0,
            out.rooms.page_size == 0,
            out.rooms.display_names@ == Map::<RoomKeyView, KeyedMap<String, String>>::empty(),
            out.rooms.unread@ == Map::<RoomKeyView, usize>::empty(),
            out.rooms.titles@ == Map::<RoomKeyView, String>::empty(),
            out.rooms.without_title@ == Map::<RoomKeyView, ()>::empty(),
            views(out.rooms.pinned@) == pinned_of(views(config.pinned_rooms@)),
            out.rooms.filter@ == filter_of_word(lowercase(trim(config.room_filter@))),
            out.rooms.sort == sort_of_word(lowercase(trim(config.room_sort@))),
            out.rooms.filter_before_input is None,
            out.accounts.accounts@.len() == 0,
            out.accounts.client_visible@.len() == 0,
            out.accounts.inactive_ids@.len() == 0,
            out.accounts.selected == AccountSelection::All,
            out.accounts.scroll == 0,
            out.accounts.page_size == 1,
            out.messages.events@ == Map::<RoomKeyView, Vec<EventDto>>::empty(),
            out.messages.selection is None,
            out.messages.scroll == usize::MAX,
            out.messages.page_size == 1,
            out.messages.width == 80,
            out.messages.ranges@.len() == 0,
            out.messages.layout_key is None,
            out.messages.layout_checks == 0,
            out.messages.layout_recomputes == 0,
            out.messages.history_cursors@ == Map::<RoomKeyView, String>::empty(),
            !out.messages.loading_history,
            out.input.buffer@.len() == 0,
            out.input.cursor == 0,
            out.input.react_tab is None,
            out.input.ok(),
            out.input.no_completion(),
            out.live.own_senders@ == Map::<u128, String>::empty(),
            out.live.pending_own_event_id is None,
            out.busy == (Busy { lifecycle: false, media_send: false, room_action: false }),
            out.panels == (Panels {
                accounts_hidden: false,
                rooms_hidden: false,
                popup_scroll: 0,
                help_selection: 0,
                show_input_help: true,
                preview_generation: 0,
                preview_refresh_after: (now_ms + SIXEL_REFRESH_INTERVAL) as u64,
                force_terminal_clear: false,
            }),
            out.threads.panel is None,
            out.threads.pending_reply is None,
            out.threads.pending_thread is None,
            out.threads.promoted@ == Map::<Seq<char>, ()>::empty(),
            out.threads.unread@ == Map::<RoomKeyView, KeyedMap<String, UnreadThread>>::empty(),
            out.threads.summaries@ == Map::<
                RoomKeyView,
                KeyedMap<String, ThreadSummaryDto>,
            >::empty(),
            out.device.device_id == 0,
            out.device.compose_room is None,
            out.device.pending_draft_put is None,
            out.device.pending_marker_put is None,
            out.device.drafts@ == Map::<RoomKeyView, String>::empty(),
            out.device.drafts_written_since_fetch@ == Map::<RoomKeyView, ()>::empty(),
            out.device.read_markers@ == Map::<RoomKeyView, ReadMarker>::empty(),
            out.device.receipt_targets@ == Map::<RoomKeyView, ReceiptTarget>::empty(),
            out.startup == (Startup {
                stage: BootstrapStage::Accounts,
                stage_started: now_ms,
                times: StageTimes { accounts: None, rooms: None, device_state: None },
                rooms_fetch_inflight: false,
                rooms_fetch_again: false,
                rooms_fetch_had_selection: false,
                device_state_inflight: false,
                device_state_again: false,
                seen_first_connect: false,
            }),
            out.session.config_path == config.path,
            out.session.last_search is None,
            out.session.last_jump_ts is None,
            out.session.pending_command_response is None,
            !out.session.should_quit,
            !out.session.wired,
            !out.session.edit_config_requested,
            out.session.config_generation == 0,
            out.verification is None,
            out.ephemeral.typing@ == Map::<RoomKeyView, TypingEntry>::empty(),
            out.ephemeral.read@ == Map::<RoomKeyView, KeyedMap<String, String>>::empty(),
    {
        let text = if config.created_default {
            cat2("created default config at ", config.path.as_str())
        } else {
            "connecting to Axon".to_owned()
        };
        let pinned = parse_pinned(&config.pinned_rooms);
        let filter = RoomFilter::parse(config.room_filter.as_str());
        let sort = RoomSort::parse(config.room_sort.as_str());
        App {
            client,
            account_filter,
            display: config.display,
            rooms: RoomsState::new(pinned, filter, sort),
            accounts: AccountsState::new(),
            messages: MessagePane::new(),
            input: InputState::new(),
            live: LiveState { own_senders: KeyedMap::new(), pending_own_event_id: None },
            mode: Mode::Compose,
            status: Status::Info(text),
            busy: Busy { lifecycle: false, media_send: false, room_action: false },
            panels: Panels {
                accounts_hidden: false,
                rooms_hidden: false,
                popup_scroll: 0,
                help_selection: 0,
                show_input_help: true,
                preview_generation: 0,
                preview_refresh_after: now_ms + SIXEL_REFRESH_INTERVAL,
                force_terminal_clear: false,
            },
            threads: ThreadState::new(),
            device: DeviceState::new(),
            startup: Startup {
                stage: BootstrapStage::Accounts,
                stage_started: now_ms,
                times: StageTimes { accounts: None, rooms: None, device_state: None },
                rooms_fetch_inflight: false,
                rooms_fetch_again: false,
                rooms_fetch_had_selection: false,
                device_state_inflight: false,
                device_state_again: false,
                seen_first_connect: false,
            },
            session: Session {
                last_search: None,
                last_jump_ts: None,
                pending_command_response: None,
                should_quit: false,
                wired: false,
                config_path: config.path,
                edit_config_requested: false,
                config_generation: 0,
            },
            verification: None,
            ephemeral: EphemeralState { typing: KeyedMap::new(), read: KeyedMap::new() },
        }
    }

    /// The selected room.
    pub open spec fn room(self) -> Option<RoomDto> {
        self.rooms.chosen()
    }

    pub fn selected_room(&self) -> (out: Option<&RoomDto>)
        ensures
            match out {
                Some(r) => self.room() == Some(*r),
                None => self.room() is None,
            },
    {
        match self.rooms.selected {
            Some(i) => if i < self.rooms.rooms.len() {
                Some(&self.rooms.rooms[i])
            } else {
                None
            },
            None => None,
        }
    }

    /// Whether news must not overwrite the status line.
    pub open spec fn mid_command(self) -> bool {
        self.busy.lifecycle || self.busy.media_send || self.busy.room_action || prompting(
            self.mode@,
        )
    }

    pub fn is_mid_command(&self) -> (r: bool)
        ensures
            r == self.mid_command(),
    {
        self.busy.lifecycle || self.busy.media_send || self.busy.room_action
            || self.mode.is_prompting()
    }

    /// Says something in the status line.
    pub fn say(&mut self, text: &str)
        ensures
            *final(self) == (App { status: final(self).status, ..*old(self) }),
            final(self).status@ == StatusView::Info(text@),
    {
        self.status = Status::info(text);
    }

    /// The account that the lists are narrowed to.
    pub open spec fn account_shown(self) -> Option<u128> {
        self.accounts.shown()
    }

    pub fn active_account_filter(&self) -> (out: Option<u128>)
        ensures
            out == self.account_shown(),
    {
        self.accounts.active_filter()
    }
}

impl AccountsState {
    /// The account that the lists are narrowed to.
    pub open spec fn shown(self) -> Option<u128> {
        match self.selected {
            AccountSelection::All => None,
            AccountSelection::Account(i) => if i < self.accounts@.len() {
                Some(self.accounts@[i as int].account_id)
            } else {
                None
            },
        }
    }

    pub fn active_filter(&self) -> (out: Option<u128>)
        ensures
            out == self.shown(),
    {
        match self.selected {
            AccountSelection::All => None,
            AccountSelection::Account(i) => if i < self.accounts.len() {
                Some(self.accounts[i].account_id)
            } else {
                None
            },
        }
    }
}

} // verus!
