//! Drafts that the devices share.

use axon_tui::api::client::AxonClient;
use axon_tui::api::dto::{DeviceStateChangedDto, DeviceStateDto, DeviceStateEntryDto, RoomDto};
use axon_tui::app::choice::RoomKey;
use axon_tui::app::drafts::{
    draft_text, draft_value, read_device_id, write_device_id, DRAFT_DEBOUNCE,
};
use axon_tui::app::state::{App, DisplayOptions, MessageDensity, Mode, TimeFormat, TuiConfig};
use axon_tui::json::{read_json, Json};
use axon_tui::keyed::KeyedMap;

fn config() -> TuiConfig {
    TuiConfig {
        path: "/tmp/axon/config.toml".to_owned(),
        created_default: false,
        display: DisplayOptions {
            show_state_events: false,
            debug: false,
            search_wrap: true,
            accept_incoming_verification: true,
            confirm_logout: true,
            message_density: MessageDensity::Dense,
            time_format: TimeFormat::H24,
            accounts_panel_width: 16,
            rooms_panel_width_adj: 0,
            input_lines: 3,
        },
        pinned_rooms: Vec::new(),
        room_filter: String::new(),
        room_sort: String::new(),
    }
}

fn app() -> App {
    App::new(AxonClient::new("http://127.0.0.1:8080".to_owned(), None), None, config(), 0)
}

const OWN_DEVICE: u128 = 1;
const OTHER_DEVICE: u128 = 2;

fn test_room(room_id: &str) -> RoomDto {
    RoomDto {
        account_id: 0,
        account_user_id: Some("@alice:example.com".to_owned()),
        room_id: room_id.to_owned(),
        name: Some("Room".to_owned()),
        topic: None,
        avatar_url: None,
        canonical_alias: None,
        last_activity_ts: 0,
        last_event_id: None,
    }
}

fn key() -> RoomKey {
    key_of("!r:example.com")
}

fn key_of(room_id: &str) -> RoomKey {
    RoomKey { account_id: 0, room_id: room_id.to_owned() }
}

/// A client in `Mode::Compose` with one selected room and a device id.
fn compose_app() -> App {
    let mut app = app();
    app.rooms.rooms = vec![test_room("!r:example.com")];
    app.rooms.selected = Some(0);
    app.device.compose_room = Some(key());
    app.device.device_id = OWN_DEVICE;
    app.session.wired = true;
    app
}

fn frame(device_id: u128, value: Json) -> DeviceStateChangedDto {
    let mut entries = KeyedMap::new();
    entries.insert("!r:example.com".to_owned(), value);
    DeviceStateChangedDto { device_id, namespace: "drafts".to_owned(), entries }
}

fn type_line(app: &mut App, text: &str) {
    app.input.set(text.to_owned());
}

fn draft(app: &App, key: &RoomKey) -> Option<String> {
    app.device.drafts.get(key).cloned()
}

#[test]
fn a_live_draft_is_not_overwritten_by_older_text_in_the_same_fetch() {
    let mut app = compose_app();
    app.device.compose_room = None;

    // The read goes out; at that moment the server has "v1" for this room.
    app.request_device_state();

    // While it is in flight, a sibling device moves it to "v2".
    app.handle_device_state_frame(0, &frame(OTHER_DEVICE, draft_value("v2")));

    // The older read lands, carrying "v1" for that very room.
    let mut entries = KeyedMap::new();
    entries.insert(
        "!r:example.com".to_owned(),
        DeviceStateEntryDto { value: draft_value("v1") },
    );
    app.apply_draft_reads(&vec![(0, Ok(DeviceStateDto { entries }))]);

    assert_eq!(
        draft(&app, &key()).as_deref(),
        Some("v2"),
        "a write newer than the fetch must survive the fetch's own older text"
    );
}

#[test]
fn a_live_draft_written_during_a_fetch_survives_that_fetch() {
    let mut app = compose_app();
    // Not the compose room: this must be saved by the newer-than-the-fetch
    // rule alone.
    app.device.compose_room = None;

    // A read goes out; the server's view at that moment has no draft here.
    app.request_device_state();

    // While it is in flight, a sibling device's frame installs one.
    app.handle_device_state_frame(0, &frame(OTHER_DEVICE, draft_value("from my phone")));
    assert_eq!(draft(&app, &key()).as_deref(), Some("from my phone"));

    // The older read lands, omitting the room.
    app.apply_draft_reads(&vec![(0, Ok(DeviceStateDto { entries: KeyedMap::new() }))]);

    assert_eq!(
        draft(&app, &key()).as_deref(),
        Some("from my phone"),
        "a write newer than the fetch is not a server-side tombstone"
    );
}

#[test]
fn a_live_draft_is_no_newer_than_the_next_fetch() {
    let mut app = compose_app();
    app.device.compose_room = None;
    app.handle_device_state_frame(0, &frame(OTHER_DEVICE, draft_value("from my phone")));

    // The read goes out after the frame, so what it omits was deleted.
    app.request_device_state();
    app.apply_draft_reads(&vec![(0, Ok(DeviceStateDto { entries: KeyedMap::new() }))]);
    assert_eq!(draft(&app, &key()), None);
}

#[test]
fn typing_arms_the_debounce_and_flush_updates_the_map() {
    let mut app = compose_app();

    type_line(&mut app, "hello");
    app.note_draft_activity(0);
    assert!(app.device.pending_draft_put.is_some(), "divergence arms debounce");

    // Not due yet: nothing flushes.
    assert!(app.flush_due_draft_put(0).is_none());
    assert!(app.device.pending_draft_put.is_some());
    assert!(app.device.drafts.is_empty());

    // Due: the local map reflects the settled draft.
    let put = app.flush_due_draft_put(DRAFT_DEBOUNCE).unwrap();
    assert!(app.draft_request(&put).url.ends_with("/state/drafts"));
    assert!(app.device.pending_draft_put.is_none());
    assert_eq!(draft(&app, &key()).as_deref(), Some("hello"));

    // Emptying the buffer (send/clear) flushes as a removal.
    app.input.clear();
    app.note_draft_activity(0);
    app.flush_due_draft_put(DRAFT_DEBOUNCE);
    assert!(app.device.drafts.is_empty(), "cleared draft leaves the map");
}

#[test]
fn commands_and_undone_edits_do_not_sync() {
    let mut app = compose_app();

    // A slash command in progress is not a draft…
    type_line(&mut app, "/room 2");
    app.note_draft_activity(0);
    assert!(app.device.pending_draft_put.is_none());

    // …but the `//` literal-slash escape is.
    type_line(&mut app, "//actual message");
    app.note_draft_activity(0);
    assert!(app.device.pending_draft_put.is_some());
    app.device.pending_draft_put = None;

    // Typing then undoing back to the synced value cancels the pending PUT.
    app.device.drafts.insert(key(), "kept".to_owned());
    type_line(&mut app, "kept but edited");
    app.note_draft_activity(0);
    assert!(app.device.pending_draft_put.is_some());
    type_line(&mut app, "kept");
    app.note_draft_activity(0);
    assert!(app.device.pending_draft_put.is_none(), "back in sync: nothing to do");
}

#[test]
fn remote_frame_updates_map_and_clean_buffer_only() {
    let mut app = compose_app();

    // Empty buffer: the remote draft lands in the map and the buffer.
    app.handle_device_state_frame(0, &frame(OTHER_DEVICE, draft_value("from B")));
    assert_eq!(draft(&app, &key()).as_deref(), Some("from B"));
    assert_eq!(app.input.buffer, "from B");
    assert_eq!(app.input.cursor, app.input.buffer.len());

    // A buffer matching the known draft follows a remote update…
    app.handle_device_state_frame(0, &frame(OTHER_DEVICE, draft_value("newer")));
    assert_eq!(app.input.buffer, "newer");

    // …but a locally diverged buffer is never clobbered.
    type_line(&mut app, "my local edit");
    app.handle_device_state_frame(0, &frame(OTHER_DEVICE, draft_value("remote")));
    assert_eq!(draft(&app, &key()).as_deref(), Some("remote"));
    assert_eq!(app.input.buffer, "my local edit");

    // A remote clear empties a clean buffer.
    type_line(&mut app, "remote");
    app.handle_device_state_frame(0, &frame(OTHER_DEVICE, Json::Null));
    assert!(app.device.drafts.is_empty());
    assert!(app.input.buffer.is_empty());
}

#[test]
fn own_echo_and_foreign_namespaces_are_ignored() {
    let mut app = compose_app();

    // Our own PUT echoed back must not touch anything.
    app.handle_device_state_frame(0, &frame(OWN_DEVICE, draft_value("echo")));
    assert!(app.device.drafts.is_empty());
    assert!(app.input.buffer.is_empty());

    // A namespace this client doesn't consume is ignored.
    let mut other = frame(OTHER_DEVICE, draft_value("x"));
    other.namespace = "read_markers".to_owned();
    app.handle_device_state_frame(0, &other);
    assert!(app.device.drafts.is_empty());
}

#[test]
fn switching_into_a_room_restores_its_draft_into_an_empty_buffer() {
    let mut app = compose_app();
    app.device.drafts.insert(key(), "stored draft".to_owned());

    app.restore_draft_into_buffer();
    assert_eq!(app.input.buffer, "stored draft");

    // A non-empty buffer is never overwritten by a restore.
    type_line(&mut app, "typing something");
    app.restore_draft_into_buffer();
    assert_eq!(app.input.buffer, "typing something");
}

#[test]
fn switching_rooms_settles_the_old_draft_and_loads_the_new() {
    let key_a = key_of("!a:example.com");
    let key_b = key_of("!b:example.com");
    let mut app = compose_app();
    app.rooms.rooms = vec![test_room("!a:example.com"), test_room("!b:example.com")];
    app.rooms.selected = Some(0);
    app.device.compose_room = Some(key_of("!a:example.com"));
    app.device.drafts.insert(key_of("!b:example.com"), "draft in B".to_owned());

    // Type in A; the debounce arms but hasn't fired yet.
    type_line(&mut app, "draft in A");
    app.note_draft_activity(0);
    assert!(app.device.pending_draft_put.is_some());

    // Switch to B before the debounce fires.
    app.rooms.selected = Some(1);
    let (put, _) = app.sync_draft_on_room_change();
    assert_eq!(put.unwrap().room, key_a);

    // A's in-flight draft was settled into the map, not dropped, and the
    // buffer now shows B's draft.
    assert_eq!(draft(&app, &key_a).as_deref(), Some("draft in A"));
    assert!(app.device.pending_draft_put.is_none());
    assert_eq!(app.input.buffer, "draft in B");
    assert_eq!(app.device.compose_room, Some(key_of("!b:example.com")));

    // Editing B's draft never touches A's.
    type_line(&mut app, "draft in B!");
    app.note_draft_activity(0);
    app.flush_due_draft_put(DRAFT_DEBOUNCE);
    assert_eq!(draft(&app, &key_a).as_deref(), Some("draft in A"));
    assert_eq!(draft(&app, &key_b).as_deref(), Some("draft in B!"));
}

#[test]
fn remote_frame_refreshes_a_clean_buffer_even_when_focus_is_elsewhere() {
    let mut app = compose_app();
    app.device.drafts.insert(key(), "hello".to_owned());
    type_line(&mut app, "hello");

    // Focus has moved to the room list; the buffer still mirrors the draft.
    app.mode = Mode::RoomList;
    app.handle_device_state_frame(0, &frame(OTHER_DEVICE, draft_value("hello world")));
    // The clean buffer follows the sibling's newer draft, so returning to
    // compose can't revert it.
    assert_eq!(app.input.buffer, "hello world");
    assert_eq!(draft(&app, &key()).as_deref(), Some("hello world"));

    // But a transient mode that borrowed the buffer is never clobbered.
    app.mode = Mode::Editing { event_id: "$e:example.com".to_owned() };
    type_line(&mut app, "message being edited");
    app.handle_device_state_frame(0, &frame(OTHER_DEVICE, draft_value("even newer")));
    assert_eq!(app.input.buffer, "message being edited");
    assert_eq!(draft(&app, &key()).as_deref(), Some("even newer"));
}

#[test]
fn returning_from_a_borrowed_buffer_restores_the_draft_not_a_tombstone() {
    let mut app = compose_app();
    app.device.drafts.insert(key(), "my draft".to_owned());
    type_line(&mut app, "my draft");
    app.device.compose_room = Some(key());

    // A transient mode (edit/react) settles the draft and clears the buffer.
    app.flush_pending_draft_now();
    app.mode = Mode::Editing { event_id: "$e:example.com".to_owned() };
    type_line(&mut app, "loaded message body");

    // On exit the buffer is emptied and compose is restored.
    app.input.clear();
    app.mode = Mode::Compose;
    app.restore_draft_into_buffer();
    assert_eq!(app.input.buffer, "my draft");

    // The very next activity check sees buffer == draft: no tombstone armed.
    app.note_draft_activity(0);
    assert!(app.device.pending_draft_put.is_none());
    assert_eq!(draft(&app, &key()).as_deref(), Some("my draft"));
}

#[test]
fn date_jump_borrow_settles_and_restores_the_draft() {
    let mut app = compose_app();

    // Type a draft; the debounce is armed but hasn't flushed to the map yet.
    type_line(&mut app, "my draft");
    app.note_draft_activity(0);
    assert!(app.device.pending_draft_put.is_some());
    assert!(app.device.drafts.is_empty());

    // Entering date-jump settles the pending draft, then borrows the buffer.
    app.flush_pending_draft_now();
    assert_eq!(draft(&app, &key()).as_deref(), Some("my draft"));
    app.input.clear();
    app.mode = Mode::DateJump;
    type_line(&mut app, "2026-01-15");

    // The date-jump exit lands in MessageList, not Compose; restore still
    // refills the borrowed buffer from the saved draft.
    app.input.clear();
    app.mode = Mode::MessageList;
    app.restore_draft_into_buffer();
    assert_eq!(app.input.buffer, "my draft");
    assert_eq!(app.device.compose_room, Some(key()));

    // Back in compose, the next activity check sees buffer == draft: no
    // tombstone armed, so the draft survives the detour.
    app.mode = Mode::Compose;
    app.note_draft_activity(0);
    assert!(app.device.pending_draft_put.is_none());
    assert_eq!(draft(&app, &key()).as_deref(), Some("my draft"));
}

#[test]
fn a_command_buffer_cancels_a_pending_draft_put() {
    let mut app = compose_app();
    type_line(&mut app, "hello");
    app.note_draft_activity(0);
    assert!(app.device.pending_draft_put.is_some());

    // Turning the buffer into a slash command cancels the pending PUT so
    // the half-typed command text is never flushed as a draft.
    type_line(&mut app, "/room other");
    app.note_draft_activity(0);
    assert!(app.device.pending_draft_put.is_none());
}

#[test]
fn device_id_persists_across_loads() {
    let line = write_device_id(0x1234);
    assert_eq!(line, "00000000-0000-0000-0000-000000001234\n");
    assert_eq!(read_device_id(&line), Some(0x1234), "the minted id is re-read");
    assert_eq!(read_device_id("nonsense"), None);
}

#[test]
fn draft_value_roundtrip() {
    let value = draft_value("hello there");
    assert_eq!(draft_text(&value), Some("hello there"));
    // Unknown shapes are rejected, not misread.
    assert_eq!(draft_text(&read_json(r#"{ "other": 1 }"#).unwrap()), None);
    assert_eq!(draft_text(&read_json(r#""bare string""#).unwrap()), None);
}
