//! What was read, and what is told of it.

use axon_tui::api::client::AxonClient;
use axon_tui::api::dto::{DeviceStateDto, DeviceStateEntryDto, EventDto, RoomDto};
use axon_tui::app::choice::RoomKey;
use axon_tui::app::read_markers::{marker_from_value, marker_value, read_targets_for, ThreadRoot};
use axon_tui::app::state::{
    App, DisplayOptions, MessageDensity, ReadMarker, ReceiptTarget, TimeFormat, TuiConfig,
};
use axon_tui::app::timeline::thread_visible;
use axon_tui::json::{read_json, Json};
use axon_tui::keyed::KeyedMap;

fn config() -> TuiConfig {
    TuiConfig {
        path: "/tmp/axon/config.toml".to_owned(),
        created_default: false,
        display: DisplayOptions {
            show_state_events: false,
            debug: false,
            search_wrap: true,
            accept_incoming_verification: true,
            confirm_logout: true,
            message_density: MessageDensity::Dense,
            time_format: TimeFormat::H24,
            accounts_panel_width: 16,
            rooms_panel_width_adj: 0,
            input_lines: 3,
        },
        pinned_rooms: Vec::new(),
        room_filter: String::new(),
        room_sort: String::new(),
    }
}

fn app() -> App {
    App::new(AxonClient::new("http://127.0.0.1:8080".to_owned(), None), None, config(), 0)
}

fn test_room(room_id: &str, last_activity_ts: i64) -> RoomDto {
    RoomDto {
        account_id: 0,
        account_user_id: Some("@alice:example.com".to_owned()),
        room_id: room_id.to_owned(),
        name: Some("Room".to_owned()),
        topic: None,
        avatar_url: None,
        canonical_alias: None,
        last_activity_ts,
        last_event_id: None,
    }
}

fn app_with(rooms: Vec<RoomDto>) -> App {
    let mut app = app();
    app.rooms.rooms = rooms;
    app.seed_own_senders_from_rooms();
    app.device.device_id = 77;
    app.session.wired = true;
    app
}

fn key(room_id: &str) -> RoomKey {
    RoomKey { account_id: 0, room_id: room_id.to_owned() }
}

fn marker(event_id: &str, origin_ts: i64) -> ReadMarker {
    ReadMarker { event_id: event_id.to_owned(), origin_ts }
}

fn target(event_id: &str, arrival_order: i64) -> Option<ReceiptTarget> {
    Some(ReceiptTarget { event_id: event_id.to_owned(), arrival_order })
}

/// A receipt target that moves in step with the marker: the ordinary case,
/// where display and arrival order agree.
fn in_step(event_id: &str, ts: i64) -> Option<ReceiptTarget> {
    target(event_id, ts)
}

fn entries(room_id: &str, value: Json) -> KeyedMap<String, Json> {
    let mut map = KeyedMap::new();
    map.insert(room_id.to_owned(), value);
    map
}

#[test]
fn note_room_read_is_monotonic() {
    let mut app = app_with(vec![test_room("!r:x", 0)]);
    let k = key("!r:x");

    app.note_room_read(key("!r:x"), marker("$b", 200), in_step("$b", 200), 0);
    assert_eq!(app.device.read_markers.get(&k).unwrap().origin_ts, 200);
    assert!(app.device.pending_marker_put.is_some());

    // Backward (or equal) never regresses the marker or re-arms a PUT.
    app.device.pending_marker_put = None;
    app.note_room_read(key("!r:x"), marker("$a", 100), in_step("$a", 100), 0);
    app.note_room_read(key("!r:x"), marker("$b", 200), in_step("$b", 200), 0);
    assert_eq!(app.device.read_markers.get(&k).unwrap().event_id, "$b");
    assert!(app.device.pending_marker_put.is_none());

    // Forward advances.
    app.note_room_read(key("!r:x"), marker("$c", 300), in_step("$c", 300), 0);
    assert_eq!(app.device.read_markers.get(&k).unwrap().origin_ts, 300);
    assert!(app.device.pending_marker_put.is_some());
}

#[test]
fn receipt_advances_when_the_marker_cannot() {
    let mut app = app_with(vec![test_room("!r:x", 0)]);
    let k = key("!r:x");
    app.device.read_markers.insert(key("!r:x"), marker("$bridge", 1_785_928_309_453));

    // The backfilled message: older by origin_ts, newer by arrival order.
    app.note_room_read(
        key("!r:x"),
        marker("$bridge", 1_785_928_309_453),
        target("$message", 1_871_426),
        0,
    );

    // The marker refused, correctly, and did not move.
    assert_eq!(app.device.read_markers.get(&k).unwrap().event_id, "$bridge");
    // The receipt advanced anyway, and the PUT is armed to send it.
    let receipt = app.device.receipt_targets.get(&k).unwrap();
    assert_eq!(receipt.event_id, "$message");
    assert_eq!(receipt.arrival_order, 1_871_426);
    assert!(app.device.pending_marker_put.is_some());
}

#[test]
fn receipt_target_is_monotonic_on_arrival_order() {
    let mut app = app_with(vec![test_room("!r:x", 0)]);
    let k = key("!r:x");
    app.note_room_read(key("!r:x"), marker("$a", 100), target("$a", 900), 0);
    app.device.pending_marker_put = None;

    // Newer in display order, *older* in arrival order: the marker would
    // take this, the receipt must not.
    app.note_room_read(key("!r:x"), marker("$b", 200), target("$b", 500), 0);
    assert_eq!(app.device.read_markers.get(&k).unwrap().event_id, "$b");
    assert_eq!(app.device.receipt_targets.get(&k).unwrap().event_id, "$a");
    // The marker moved, so the slot is armed regardless.
    assert!(app.device.pending_marker_put.is_some());

    // Neither key moves: no arm at all.
    app.device.pending_marker_put = None;
    app.note_room_read(key("!r:x"), marker("$b", 200), target("$b", 500), 0);
    assert!(app.device.pending_marker_put.is_none());
}

#[test]
fn marker_advance_alone_still_arms() {
    let mut app = app_with(vec![test_room("!r:x", 0)]);
    let k = key("!r:x");

    app.note_room_read(key("!r:x"), marker("$a", 100), None, 0);
    assert_eq!(app.device.read_markers.get(&k).unwrap().event_id, "$a");
    assert!(!app.device.receipt_targets.contains_key(&k));
    assert!(app.device.pending_marker_put.is_some());

    // A receipt at an arrival order already held is not an advance either.
    app.note_room_read(key("!r:x"), marker("$b", 200), target("$b", 700), 0);
    app.device.pending_marker_put = None;
    app.note_room_read(key("!r:x"), marker("$b", 200), target("$b-again", 700), 0);
    assert_eq!(app.device.receipt_targets.get(&k).unwrap().event_id, "$b");
    assert!(app.device.pending_marker_put.is_none());
}

#[test]
fn flush_sends_the_current_values_not_the_armed_ones() {
    let mut app = app_with(vec![test_room("!r:x", 0)]);
    app.note_room_read(key("!r:x"), marker("$a", 100), in_step("$a", 100), 0);
    assert_eq!(app.device.pending_marker_put.as_ref().unwrap().marker.event_id, "$a");

    // Both positions move on after the slot was armed.
    app.device.read_markers.insert(key("!r:x"), marker("$c", 300));
    app.device.receipt_targets.insert(
        key("!r:x"),
        ReceiptTarget { event_id: "$c".to_owned(), arrival_order: 300 },
    );

    let due = app.device.pending_marker_put.as_ref().unwrap().due;
    let put = app.flush_due_marker_put(due).unwrap();
    assert_eq!(put.marker.event_id, "$c");
    assert_eq!(put.receipt.as_ref().unwrap().event_id, "$c");
    assert!(app.marker_request(&put).url.ends_with("/state/read_markers"));
    assert!(app.receipt_request(&put).is_some());
}

#[test]
fn incoming_frames_apply_monotonically_and_clear_unread() {
    let mut app = app_with(vec![test_room("!r:x", 250)]);
    let k = key("!r:x");
    app.rooms.unread.insert(key("!r:x"), 3);

    // A marker older than the room's latest activity: applied, badge stays.
    app.handle_read_marker_frame(0, &entries("!r:x", marker_value(&marker("$old", 100))));
    assert_eq!(app.device.read_markers.get(&k).unwrap().origin_ts, 100);
    assert_eq!(app.rooms.unread.get(&k), Some(&3));

    // A marker at (or past) the latest activity clears the badge.
    app.handle_read_marker_frame(0, &entries("!r:x", marker_value(&marker("$new", 250))));
    assert!(!app.rooms.unread.contains_key(&k));

    // An older marker arriving later (offline device replay) is refused.
    app.handle_read_marker_frame(0, &entries("!r:x", marker_value(&marker("$stale", 50))));
    assert_eq!(app.device.read_markers.get(&k).unwrap().event_id, "$new");

    // Tombstones and unknown shapes are ignored.
    app.handle_read_marker_frame(0, &entries("!r:x", Json::Null));
    assert_eq!(app.device.read_markers.get(&k).unwrap().event_id, "$new");
}

#[test]
fn reconcile_seeds_unread_only_for_marked_rooms_with_newer_activity() {
    let mut app = app_with(vec![
        test_room("!behind:x", 500),    // marker older than activity: unread
        test_room("!caught-up:x", 300), // marker at activity: read
        test_room("!unmarked:x", 900),  // no marker: left alone
    ]);
    app.device.read_markers.insert(key("!behind:x"), marker("$m1", 400));
    app.device.read_markers.insert(key("!caught-up:x"), marker("$m2", 300));
    // A stale badge on the caught-up room is dropped by reconcile.
    app.rooms.unread.insert(key("!caught-up:x"), 2);

    app.reconcile_unread_with_markers();

    assert_eq!(app.rooms.unread.get(&key("!behind:x")), Some(&1));
    assert!(!app.rooms.unread.contains_key(&key("!caught-up:x")));
    assert!(!app.rooms.unread.contains_key(&key("!unmarked:x")));
}

#[test]
fn reconcile_does_not_shrink_a_live_count() {
    let mut app = app_with(vec![test_room("!r:x", 500)]);
    let k = key("!r:x");
    app.device.read_markers.insert(key("!r:x"), marker("$m", 400));
    // Three live events already counted this session; reconcile must not
    // collapse the count to 1.
    app.rooms.unread.insert(key("!r:x"), 3);
    app.reconcile_unread_with_markers();
    assert_eq!(app.rooms.unread.get(&k), Some(&3));
}

#[test]
fn switching_rooms_mid_debounce_flushes_the_previous_marker() {
    let mut app = app_with(vec![test_room("!a:x", 0), test_room("!b:x", 0)]);
    let put = app.note_room_read(key("!a:x"), marker("$a", 100), in_step("$a", 100), 0);
    assert!(put.is_none());
    assert_eq!(app.device.pending_marker_put.as_ref().unwrap().room, key("!a:x"));

    // Reading a different room replaces the slot; the previous marker is
    // flushed, and the local map keeps both.
    let put = app.note_room_read(key("!b:x"), marker("$b", 200), in_step("$b", 200), 0);
    assert_eq!(put.unwrap().room, key("!a:x"));
    assert_eq!(app.device.pending_marker_put.as_ref().unwrap().room, key("!b:x"));
    assert_eq!(app.device.read_markers.get(&key("!a:x")).unwrap().origin_ts, 100);
    assert_eq!(app.device.read_markers.get(&key("!b:x")).unwrap().origin_ts, 200);
    // Receipt targets are per-room too: reading B must not disturb A's.
    assert_eq!(app.device.receipt_targets.get(&key("!a:x")).unwrap().arrival_order, 100);
    assert_eq!(app.device.receipt_targets.get(&key("!b:x")).unwrap().arrival_order, 200);
}

fn thread(root: &str) -> Json {
    read_json(&format!(r#"{{ "rel_type": "m.thread", "event_id": "{root}" }}"#)).unwrap()
}

/// An event from the account's own user (`test_room` sets `account_user_id` to
/// this sender).
fn timeline_event(event_id: &str, origin_ts: i64, thread_root: Option<&str>) -> EventDto {
    EventDto {
        account_id: 0,
        event_id: event_id.to_owned(),
        room_id: "!r:x".to_owned(),
        sender: "@alice:example.com".to_owned(),
        state_key: None,
        arrival_order: origin_ts,
        origin_ts,
        event_type: "m.room.message".to_owned(),
        content: Some(read_json(r#"{ "msgtype": "m.text", "body": "hi" }"#).unwrap()),
        body: Some("hi".to_owned()),
        relates_to: thread_root.map(thread),
        redacted: false,
        redaction_event_id: None,
        reactions: None,
        sender_trust: None,
    }
}

fn timeline_event_from(
    sender: &str,
    event_id: &str,
    origin_ts: i64,
    thread_root: Option<&str>,
) -> EventDto {
    let mut event = timeline_event(event_id, origin_ts, thread_root);
    event.sender = sender.to_owned();
    event
}

/// An event with display and arrival order deliberately out of step.
fn arrival_event(event_id: &str, origin_ts: i64, arrival_order: i64) -> EventDto {
    let mut event = timeline_event(event_id, origin_ts, None);
    event.arrival_order = arrival_order;
    event
}

fn state_event(event_id: &str, origin_ts: i64, arrival_order: i64, ty: &str) -> EventDto {
    let mut event = arrival_event(event_id, origin_ts, arrival_order);
    event.event_type = ty.to_owned();
    event.state_key = Some(String::new());
    event.body = None;
    event
}

/// A bridged room: its bridge creates the room, emits its own state, then
/// backfills the conversation with its real (older) timestamps, so the only
/// message is oldest by `origin_ts` and newest by arrival order.
fn portal_page() -> Vec<EventDto> {
    vec![
        // Ascending display order, which is how a loaded page is held.
        arrival_event("$message", 1_785_928_304_987, 1_871_426),
        state_event("$create", 1_785_928_306_622, 1_871_406, "m.room.create"),
        state_event("$bridge", 1_785_928_309_453, 1_871_424, "uk.half-shot.bridge"),
    ]
}

fn nothing_promoted() -> KeyedMap<String, ()> {
    KeyedMap::new()
}

fn only(event_id: &str) -> KeyedMap<String, ()> {
    let mut set = KeyedMap::new();
    set.insert(event_id.to_owned(), ());
    set
}

#[test]
fn receipt_target_picks_arrival_max_not_display_last() {
    let page = portal_page();
    // Display-last is the bridge state event, which does not cover the message
    // in stream order.
    assert_eq!(page.last().unwrap().event_id, "$bridge");
    assert_eq!(
        read_targets_for(&page, true, &nothing_promoted()).unwrap().receipt.event_id,
        "$message"
    );
}

#[test]
fn receipt_target_skips_hidden_events() {
    // At the default settings the portal's state events do not render, so
    // they are not candidates.
    assert_eq!(
        read_targets_for(&portal_page(), false, &nothing_promoted()).unwrap().receipt.event_id,
        "$message"
    );

    // And when a *hidden* event is the arrival-max, the shown arrival-max
    // wins instead of it.
    let page = vec![arrival_event("$msg", 100, 10), state_event("$topic", 200, 99, "m.room.topic")];
    assert_eq!(
        read_targets_for(&page, false, &nothing_promoted()).unwrap().receipt.event_id,
        "$msg"
    );
    // With state events shown, that same event is a legal target.
    assert_eq!(
        read_targets_for(&page, true, &nothing_promoted()).unwrap().receipt.event_id,
        "$topic"
    );
}

#[test]
fn receipt_target_skips_an_unpromoted_thread_reply() {
    let root = arrival_event("$root", 1_785_928_300_000, 1_871_400);
    // Backfilled: oldest by origin_ts, newest by arrival order.
    let mut reply = arrival_event("$reply", 1_785_928_200_000, 1_871_999);
    reply.relates_to = Some(thread("$root"));
    let plain = arrival_event("$plain", 1_785_928_400_000, 1_871_500);
    let page = vec![root, reply, plain];

    assert_eq!(
        read_targets_for(&page, false, &nothing_promoted()).unwrap().receipt.event_id,
        "$plain",
        "an unpromoted thread reply is hidden from the main timeline, so it \
         cannot be receipted however recently it arrived"
    );

    // Once promoted it *is* on screen, and then it is the right answer.
    assert_eq!(
        read_targets_for(&page, false, &only("$reply")).unwrap().receipt.event_id,
        "$reply"
    );
}

#[test]
fn marker_target_skips_hidden_events() {
    let page = portal_page();
    assert_eq!(page.last().unwrap().event_id, "$bridge");
    assert_eq!(
        read_targets_for(&page, false, &nothing_promoted()).unwrap().marker.event_id,
        "$message"
    );

    // With state events shown it *is* rendered, so it is a legal marker.
    assert_eq!(
        read_targets_for(&page, true, &nothing_promoted()).unwrap().marker.event_id,
        "$bridge"
    );
}

#[test]
fn marker_target_skips_an_unpromoted_thread_reply() {
    let plain = arrival_event("$plain", 100, 1);
    let mut reply = arrival_event("$reply", 200, 2);
    reply.relates_to = Some(thread("$root"));
    let page = vec![plain, reply];

    assert_eq!(
        read_targets_for(&page, false, &nothing_promoted()).unwrap().marker.event_id,
        "$plain"
    );
    assert_eq!(
        read_targets_for(&page, false, &only("$reply")).unwrap().marker.event_id,
        "$reply"
    );
}

#[test]
fn read_targets_are_none_when_nothing_is_shown() {
    let page = vec![
        state_event("$create", 100, 1, "m.room.create"),
        state_event("$topic", 200, 2, "m.room.topic"),
    ];
    assert!(read_targets_for(&page, false, &nothing_promoted()).is_none());
    assert!(read_targets_for(&[], false, &nothing_promoted()).is_none());
}

fn pairs(roots: &[ThreadRoot]) -> Vec<(u128, &str)> {
    roots.iter().map(|r| (r.account_id, r.event_id.as_str())).collect()
}

#[test]
fn a_filtered_marker_leaves_a_later_thread_reply_promotable() {
    // First load: one visible message, then a state event the default
    // config hides.
    let first_page = vec![
        arrival_event("$message", 100, 1),
        state_event("$bridge", 300, 2, "uk.half-shot.bridge"),
    ];
    assert_eq!(first_page.last().unwrap().origin_ts, 300);

    let targets = read_targets_for(&first_page, false, &nothing_promoted()).expect("a shown event");
    assert_eq!(targets.marker.origin_ts, 100);

    let mut app = app_with(vec![test_room("!r:x", 0)]);
    let k = key("!r:x");
    app.note_room_read(key("!r:x"), targets.marker, Some(targets.receipt), 0);

    // A later load brings a thread reply stamped *between* the last visible
    // event and that hidden one. Against the filtered marker (100) it is
    // unseen and promotes; against the raw one (300) it never would.
    let reply = timeline_event("$reply", 200, Some("$root"));
    let roots = app.collect_unseen_thread_promotions(&k, std::slice::from_ref(&reply));
    assert_eq!(pairs(&roots), vec![(0, "$root")]);
    assert!(app.threads.promoted.contains_key(&"$reply".to_owned()));
}

#[test]
fn thread_replies_past_the_marker_are_promoted_on_load() {
    let mut app = app_with(vec![test_room("!r:x", 500)]);
    let k = key("!r:x");
    app.device.read_markers.insert(key("!r:x"), marker("$seen", 200));

    let page = vec![
        // Already read: at/behind the marker, never promoted.
        timeline_event("$old-reply", 150, Some("$root-a")),
        timeline_event("$at-marker", 200, Some("$root-a")),
        // Unseen thread replies are promoted; two on one root dedupe to one
        // root fetch. Own messages promote but never count as unread.
        timeline_event("$new-reply-1", 300, Some("$root-a")),
        timeline_event_from("@bob:example.com", "$new-reply-2", 400, Some("$root-a")),
        timeline_event_from("@bob:example.com", "$other-thread", 450, Some("$root-b")),
        // Unseen but not a thread member: nothing to promote.
        timeline_event("$plain", 500, None),
    ];
    let roots = app.collect_unseen_thread_promotions(&k, &page);

    let promoted = |app: &App, id: &str| app.threads.promoted.contains_key(&id.to_owned());
    assert!(promoted(&app, "$new-reply-1"));
    assert!(promoted(&app, "$new-reply-2"));
    assert!(promoted(&app, "$other-thread"));
    assert!(!promoted(&app, "$old-reply"));
    assert!(!promoted(&app, "$at-marker"));
    assert!(!promoted(&app, "$plain"));
    assert_eq!(pairs(&roots), vec![(0, "$root-a"), (0, "$root-b")]);

    // The promoted replies now pass the main-timeline visibility filter.
    assert!(thread_visible(
        &timeline_event("$new-reply-1", 300, Some("$root-a")),
        None,
        &app.threads.promoted,
    ));

    // Unseen replies from *others* also feed the thread-attention markers.
    // Own replies are promoted but never counted.
    let (a, b) = ("$root-a".to_owned(), "$root-b".to_owned());
    let threads = app.threads.unread.get(&k).expect("thread markers");
    assert_eq!(threads.get(&a).map(|t| t.unread_count), Some(1));
    assert_eq!(threads.get(&b).map(|t| t.unread_count), Some(1));
    assert_eq!(threads.get(&a).map(|t| t.latest_event_id.as_str()), Some("$new-reply-2"));

    // Observing the same replies again must not inflate the counts.
    app.collect_unseen_thread_promotions(&k, &page);
    let threads = app.threads.unread.get(&k).expect("thread markers");
    assert_eq!(threads.get(&a).map(|t| t.unread_count), Some(1));
    assert_eq!(threads.get(&b).map(|t| t.unread_count), Some(1));
}

#[test]
fn rooms_without_a_marker_promote_nothing() {
    let mut app = app_with(vec![test_room("!r:x", 500)]);
    let k = key("!r:x");
    let page = vec![timeline_event("$reply", 300, Some("$root"))];
    let roots = app.collect_unseen_thread_promotions(&k, &page);
    assert!(roots.is_empty());
    assert!(app.threads.promoted.is_empty());
}

#[test]
fn marker_value_roundtrip() {
    let m = marker("$e:example.com", 1234);
    let back = marker_from_value(&marker_value(&m)).unwrap();
    assert_eq!(back, m);
    assert_eq!(marker_from_value(&Json::Null), None);
    assert_eq!(marker_from_value(&read_json(r#"{ "event_id": "$e" }"#).unwrap()), None);
}

#[test]
fn markers_of_the_server_are_taken_over() {
    let mut app = app_with(vec![test_room("!r:x", 500)]);
    let mut state = DeviceStateDto { entries: KeyedMap::new() };
    state.entries.insert(
        "!r:x".to_owned(),
        DeviceStateEntryDto { value: marker_value(&marker("$m", 400)) },
    );
    app.apply_read_marker_reads(&vec![(0, Ok(state)), (1, Err("down".to_owned()))]);
    assert_eq!(app.device.read_markers.get(&key("!r:x")).unwrap().event_id, "$m");
    assert_eq!(app.rooms.unread.get(&key("!r:x")), Some(&1));
}
