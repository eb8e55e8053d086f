//! Who is typing and who has read.

use axon_tui::api::client::AxonClient;
use axon_tui::api::dto::{EphemeralPassthroughDto, EventDto, RoomDto};
use axon_tui::app::choice::RoomKey;
use axon_tui::app::ephemeral::{parse_public_reads, parse_typing, TYPING_TTL};
use axon_tui::app::state::{App, DisplayOptions, MessageDensity, TimeFormat, TuiConfig};
use axon_tui::json::read_json;
use axon_tui::keyed::KeyedMap;

fn config() -> TuiConfig {
    TuiConfig {
        path: "/tmp/axon/config.toml".to_owned(),
        created_default: false,
        display: DisplayOptions {
            show_state_events: false,
            debug: false,
            search_wrap: true,
            accept_incoming_verification: true,
            confirm_logout: true,
            message_density: MessageDensity::Dense,
            time_format: TimeFormat::H24,
            accounts_panel_width: 16,
            rooms_panel_width_adj: 0,
            input_lines: 3,
        },
        pinned_rooms: Vec::new(),
        room_filter: String::new(),
        room_sort: String::new(),
    }
}

fn app() -> App {
    App::new(AxonClient::new("http://127.0.0.1:8080".to_owned(), None), None, config(), 0)
}

fn app_with_room() -> App {
    let mut app = app();
    app.rooms.rooms = vec![RoomDto {
        account_id: 0,
        account_user_id: Some("@me:hs".to_owned()),
        room_id: "!r:hs".to_owned(),
        name: Some("Room".to_owned()),
        topic: None,
        avatar_url: None,
        canonical_alias: None,
        last_activity_ts: 0,
        last_event_id: None,
    }];
    app.rooms.selected = Some(0);
    app.seed_own_senders_from_rooms();
    app
}

fn room() -> RoomKey {
    RoomKey { account_id: 0, room_id: "!r:hs".to_owned() }
}

fn frame(event_type: &str, content: &str) -> EphemeralPassthroughDto {
    EphemeralPassthroughDto {
        room_id: Some("!r:hs".to_owned()),
        event_type: event_type.to_owned(),
        content: read_json(content).unwrap(),
    }
}

fn typing_frame(user_ids: &[&str]) -> EphemeralPassthroughDto {
    frame("m.typing", &format!(r#"{{ "user_ids": {user_ids:?} }}"#))
}

fn event(sender: &str, event_id: &str, origin_ts: i64) -> EventDto {
    EventDto {
        account_id: 0,
        event_id: event_id.to_owned(),
        room_id: "!r:hs".to_owned(),
        sender: sender.to_owned(),
        state_key: None,
        arrival_order: origin_ts,
        origin_ts,
        event_type: "m.room.message".to_owned(),
        content: Some(read_json(r#"{ "msgtype": "m.text", "body": "hi" }"#).unwrap()),
        body: Some("hi".to_owned()),
        relates_to: None,
        redacted: false,
        redaction_event_id: None,
        reactions: None,
        sender_trust: None,
    }
}

#[test]
fn typing_notice_shows_others_and_excludes_self() {
    let mut app = app_with_room();
    app.handle_ephemeral_frame(0, typing_frame(&["@me:hs", "@bob:hs"]), 0);
    assert_eq!(app.ephemeral_status_line().as_deref(), Some("@bob:hs is typing…"));

    // An empty user list clears the notice.
    app.handle_ephemeral_frame(0, typing_frame(&[]), 0);
    assert_eq!(app.ephemeral_status_line(), None);
}

#[test]
fn typing_uses_known_display_names_and_pluralizes() {
    let mut app = app_with_room();
    let mut names = KeyedMap::new();
    names.insert("@bob:hs".to_owned(), "Bob".to_owned());
    names.insert("@carol:hs".to_owned(), "Carol".to_owned());
    app.rooms.display_names.insert(room(), names);
    app.handle_ephemeral_frame(0, typing_frame(&["@bob:hs", "@carol:hs"]), 0);
    assert_eq!(app.ephemeral_status_line().as_deref(), Some("Bob and Carol are typing…"));
}

#[test]
fn typing_is_pruned_after_its_ttl() {
    let mut app = app_with_room();
    let now = 1_000;
    app.handle_ephemeral_frame(0, typing_frame(&["@bob:hs"]), now);
    app.prune_typing(now + TYPING_TTL - 1);
    assert!(app.ephemeral_status_line().is_some(), "still within TTL");
    app.prune_typing(now + TYPING_TTL);
    assert_eq!(app.ephemeral_status_line(), None, "pruned past TTL");
}

#[test]
fn reconnect_clears_typing() {
    let mut app = app_with_room();
    app.handle_ephemeral_frame(0, typing_frame(&["@bob:hs"]), 0);
    app.clear_typing_overlays();
    assert_eq!(app.ephemeral_status_line(), None);
}

#[test]
fn receipt_shows_readers_at_or_past_the_users_last_message() {
    let mut app = app_with_room();
    app.messages.events.insert(
        room(),
        vec![event("@me:hs", "$mine", 100), event("@bob:hs", "$later", 200)],
    );
    // Bob's read marker is on the later event: he has seen $mine.
    app.handle_ephemeral_frame(
        0,
        frame("m.receipt", r#"{ "$later": { "m.read": { "@bob:hs": { "ts": 5 } } } }"#),
        0,
    );
    assert_eq!(app.ephemeral_status_line().as_deref(), Some("✓ read by @bob:hs"));
}

#[test]
fn receipt_before_the_users_last_message_is_not_shown() {
    let mut app = app_with_room();
    app.messages.events.insert(
        room(),
        vec![event("@bob:hs", "$early", 100), event("@me:hs", "$mine", 200)],
    );
    // Bob only read the earlier event: he has not seen $mine.
    app.handle_ephemeral_frame(
        0,
        frame("m.receipt", r#"{ "$early": { "m.read": { "@bob:hs": { "ts": 5 } } } }"#),
        0,
    );
    assert_eq!(app.ephemeral_status_line(), None);
}

#[test]
fn content_of_other_shapes_is_ignored() {
    assert_eq!(parse_typing(&read_json(r#"{ "user_ids": 1 }"#).unwrap()), None);
    assert!(parse_public_reads(&read_json("[]").unwrap()).is_empty());
    let mut app = app_with_room();
    app.handle_ephemeral_frame(0, frame("m.presence", "{}"), 0);
    assert_eq!(app.ephemeral_status_line(), None);
}
