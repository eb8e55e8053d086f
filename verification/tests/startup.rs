//! The start of the client.

use axon_tui::api::client::AxonClient;
use axon_tui::api::dto::{AccountDto, AccountState, BackupSnapshot, RoomDto};
use axon_tui::app::bootstrap::BootstrapOutcome;
use axon_tui::app::choice::{AccountSelection, RoomFilter, RoomSort};
use axon_tui::app::state::{
    App, BootstrapStage, DisplayOptions, MessageDensity, TimeFormat, TuiConfig,
};

fn config() -> TuiConfig {
    TuiConfig {
        path: "/tmp/axon/config.toml".to_owned(),
        created_default: false,
        display: DisplayOptions {
            show_state_events: false,
            debug: false,
            search_wrap: true,
            accept_incoming_verification: true,
            confirm_logout: true,
            message_density: MessageDensity::Dense,
            time_format: TimeFormat::H24,
            accounts_panel_width: 16,
            rooms_panel_width_adj: 0,
            input_lines: 3,
        },
        pinned_rooms: Vec::new(),
        room_filter: String::new(),
        room_sort: String::new(),
    }
}

fn app() -> App {
    App::new(AxonClient::new("http://127.0.0.1:8080".to_owned(), None), None, config(), 0)
}

fn wired() -> App {
    let mut app = app();
    app.session.wired = true;
    app
}

fn account(n: u128, user: &str) -> AccountDto {
    AccountDto {
        account_id: n,
        user_id: user.to_owned(),
        state: AccountState::Active,
        device_id: None,
        verified: Some(true),
        backup: BackupSnapshot::default(),
    }
}

fn room(n: u128, room_id: &str) -> RoomDto {
    RoomDto {
        account_id: n,
        account_user_id: Some("@me:hs".to_owned()),
        room_id: room_id.to_owned(),
        name: Some("Room".to_owned()),
        topic: None,
        avatar_url: None,
        canonical_alias: None,
        last_activity_ts: 0,
        last_event_id: None,
    }
}

#[test]
fn stages_advance_in_order() {
    let mut app = wired();
    assert_eq!(app.startup.stage, BootstrapStage::Accounts);

    app.handle_bootstrap_outcome(BootstrapOutcome::Accounts(Ok(Vec::new())), 0);
    assert_eq!(app.startup.stage, BootstrapStage::Rooms);
    assert!(
        app.startup.rooms_fetch_inflight,
        "the accounts stage should start the room fetch"
    );

    app.handle_bootstrap_outcome(BootstrapOutcome::Rooms(Ok(Vec::new())), 0);
    assert_eq!(app.startup.stage, BootstrapStage::DeviceState);

    app.handle_bootstrap_outcome(BootstrapOutcome::DeviceState {
        markers: Vec::new(),
        drafts: Vec::new(),
    }, 0);
    assert!(app.startup.stage.is_done());
    assert!(app.startup.stage.label().is_none());
}

#[test]
fn a_failed_stage_still_advances() {
    let mut app = wired();
    app.handle_bootstrap_outcome(BootstrapOutcome::Accounts(Err("boom".to_owned())), 0);
    assert_eq!(app.startup.stage, BootstrapStage::Rooms);
    assert!(app.startup.rooms_fetch_inflight);
    assert_eq!(app.status.text(false), "account refresh failed: boom");
}

#[test]
fn concurrent_room_refresh_requests_coalesce() {
    let mut app = wired();
    app.startup.stage = BootstrapStage::Done;

    assert!(app.request_rooms_refresh());
    assert!(app.startup.rooms_fetch_inflight);
    assert!(!app.startup.rooms_fetch_again);

    for _ in 0..5 {
        assert!(!app.request_rooms_refresh());
    }
    assert!(
        app.startup.rooms_fetch_again,
        "further requests are remembered, not spawned"
    );

    // The one under way lands: exactly one more goes out.
    let step = app.handle_bootstrap_outcome(BootstrapOutcome::Rooms(Ok(Vec::new())), 0);
    assert!(step.rooms);
    assert!(app.startup.rooms_fetch_inflight);
    assert!(!app.startup.rooms_fetch_again);

    // And that one settles with nothing queued behind it.
    app.handle_bootstrap_outcome(BootstrapOutcome::Rooms(Ok(Vec::new())), 0);
    assert!(!app.startup.rooms_fetch_inflight);
    assert!(!app.startup.rooms_fetch_again);
}

#[test]
fn every_pending_stage_has_a_label() {
    for stage in [BootstrapStage::Accounts, BootstrapStage::Rooms, BootstrapStage::DeviceState] {
        assert!(stage.label().is_some(), "{stage:?} needs a label");
    }
    assert!(BootstrapStage::Done.label().is_none());
}

#[test]
fn the_first_room_is_opened_once_the_markers_are_there() {
    let mut app = wired();
    assert!(app.start_bootstrap(0));
    app.handle_bootstrap_outcome(BootstrapOutcome::Accounts(Ok(vec![account(1, "@me:hs")])), 0);
    let step = app.handle_bootstrap_outcome(BootstrapOutcome::Rooms(Ok(vec![room(1, "!r:hs")])), 0);
    assert!(step.device_state);
    assert!(!step.timeline, "the markers come first");
    let (markers, drafts) = app.device_state_reads();
    assert_eq!(markers.len(), 1);
    assert!(markers[0].1.url.ends_with("/state/read_markers"));
    assert!(drafts[0].1.url.ends_with("/state/drafts"));
    let step = app.handle_bootstrap_outcome(BootstrapOutcome::DeviceState {
        markers: Vec::new(),
        drafts: Vec::new(),
    }, 0);
    assert!(step.timeline);
}

#[test]
fn what_the_devices_share_is_read_once_at_a_time() {
    let mut app = wired();
    app.startup.stage = BootstrapStage::Done;
    assert!(app.request_device_state());
    for _ in 0..3 {
        assert!(!app.request_device_state(), "one is under way");
    }
    let landed = || BootstrapOutcome::DeviceState { markers: Vec::new(), drafts: Vec::new() };
    let step = app.handle_bootstrap_outcome(landed(), 0);
    assert!(step.device_state, "one more goes out");
    assert!(!step.timeline);
    let step = app.handle_bootstrap_outcome(landed(), 0);
    assert!(!step.device_state);
    assert!(!app.startup.device_state_inflight);
    assert!(!app.startup.device_state_again);
}

#[test]
fn a_later_connection_reads_again() {
    let mut app = wired();
    assert!(!app.note_connected(), "the start reads by itself");
    assert!(!app.startup.device_state_inflight);
    assert!(app.note_connected(), "frames may have been lost before this one");
    assert!(app.startup.device_state_inflight);
    assert!(!app.note_connected());
    assert!(app.startup.device_state_again);
}

#[test]
fn the_time_of_each_stage_is_kept() {
    let mut app = wired();
    app.start_bootstrap(1_000);
    assert_eq!(app.startup.times.accounts, None);
    app.handle_bootstrap_outcome(BootstrapOutcome::Accounts(Ok(Vec::new())), 1_030);
    app.handle_bootstrap_outcome(BootstrapOutcome::Rooms(Ok(Vec::new())), 1_100);
    assert_eq!(app.startup.times.device_state, None);
    let shared = BootstrapOutcome::DeviceState { markers: Vec::new(), drafts: Vec::new() };
    app.handle_bootstrap_outcome(shared, 1_105);
    assert_eq!(app.startup.times.accounts, Some(30));
    assert_eq!(app.startup.times.rooms, Some(70));
    assert_eq!(app.startup.times.device_state, Some(5));
    // A list of rooms that comes later is no stage.
    app.handle_bootstrap_outcome(BootstrapOutcome::Rooms(Ok(Vec::new())), 9_000);
    assert_eq!(app.startup.times.rooms, Some(70));
}

#[test]
fn a_new_client_starts_from_its_configuration() {
    let mut c = config();
    c.pinned_rooms = vec![
        "00000000-0000-0000-0000-000000000001:!r:hs".to_owned(),
        "nonsense".to_owned(),
    ];
    c.room_filter = " DMs ".to_owned();
    c.room_sort = "alpha".to_owned();
    let app = App::new(AxonClient::new("http://h".to_owned(), None), None, c, 7);
    assert_eq!(app.status.text(false), "connecting to Axon");
    assert_eq!(app.rooms.pinned.len(), 1);
    assert_eq!(app.rooms.pinned[0].room_id, "!r:hs");
    assert_eq!(app.rooms.filter, RoomFilter::Dms);
    assert_eq!(app.rooms.sort, RoomSort::parse("alpha"));
    assert_eq!(app.accounts.selected, AccountSelection::All);
    assert_eq!(app.panels.preview_refresh_after, 5_007);
    let mut c = config();
    c.created_default = true;
    let app = App::new(AxonClient::new("http://h".to_owned(), None), None, c, 0);
    assert_eq!(app.status.text(false), "created default config at /tmp/axon/config.toml");
}
