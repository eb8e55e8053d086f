//! Rooms: their order, their titles and the page of a room.

use axon_tui::api::client::AxonClient;
use axon_tui::api::dto::{AccountDto, AccountState, BackupSnapshot, EventDto, MemberDto, RoomDto, TimelinePage};
use axon_tui::app::choice::{AccountSelection, RoomFilter, RoomKey, RoomSort};
use axon_tui::app::edits::apply_edits;
use axon_tui::app::history::{NamesDue, MAX_EVENTS};
use axon_tui::app::paging::{FirstSearch, Straddle, TopWalk, DAY_MS};
use axon_tui::app::refresh::MembersOutcome;
use axon_tui::app::rooms::{
    account_localpart, dm_title_from_members, is_likely_dm, keep_adjacent_older_tail,
    member_display, sort_rooms_by_pin, sort_rooms_by_pin_with_title, ROOM_TITLE_LOOKAHEAD,
};
use axon_tui::app::state::{App, DisplayOptions, MessageDensity, TimeFormat, TuiConfig};
use axon_tui::json::read_json;

fn config() -> TuiConfig {
    TuiConfig {
        path: "/tmp/axon/config.toml".to_owned(),
        created_default: false,
        display: DisplayOptions {
            show_state_events: false,
            debug: false,
            search_wrap: true,
            accept_incoming_verification: true,
            confirm_logout: true,
            message_density: MessageDensity::Dense,
            time_format: TimeFormat::H24,
            accounts_panel_width: 16,
            rooms_panel_width_adj: 0,
            input_lines: 3,
        },
        pinned_rooms: Vec::new(),
        room_filter: String::new(),
        room_sort: String::new(),
    }
}

fn app() -> App {
    App::new(AxonClient::new("http://127.0.0.1:8080".to_owned(), None), None, config(), 0)
}

fn room_with_activity(account_id: u128, room_id: &str, last_activity_ts: i64) -> RoomDto {
    RoomDto {
        account_id,
        account_user_id: Some("@alice:example.com".to_owned()),
        room_id: room_id.to_owned(),
        name: None,
        topic: None,
        avatar_url: None,
        canonical_alias: None,
        last_activity_ts,
        last_event_id: None,
    }
}

/// A room carrying a display name, used to exercise alphabetical sorts.
fn named_room(account_id: u128, room_id: &str, name: &str, ts: i64) -> RoomDto {
    let mut room = room_with_activity(account_id, room_id, ts);
    room.name = Some(name.to_owned());
    room
}

fn key(room_id: &str) -> RoomKey {
    RoomKey { account_id: 0, room_id: room_id.to_owned() }
}

fn order(rooms: &[RoomDto]) -> Vec<&str> {
    rooms.iter().map(|r| r.room_id.as_str()).collect()
}

fn account(n: u128, user: &str) -> AccountDto {
    AccountDto {
        account_id: n,
        user_id: user.to_owned(),
        state: AccountState::Active,
        device_id: None,
        verified: Some(true),
        backup: BackupSnapshot::default(),
    }
}

#[test]
fn title_sweep_is_limited_to_the_visible_window() {
    let rooms: Vec<RoomDto> =
        (0..500).map(|i| room_with_activity(0, &format!("!r{i}:x"), i as i64)).collect();
    let mut app = app();
    app.rooms.rooms = rooms;
    app.rooms.page_size = 20;
    app.rooms.scroll = 0;

    let armed = app.sweep_visible_room_titles().len();
    assert!(
        armed <= 20 + ROOM_TITLE_LOOKAHEAD * 2,
        "swept {armed} rooms for a 20-row window; it should track the viewport"
    );
    assert!(armed > 0, "the visible rooms should still be requested");
}

#[test]
fn a_room_with_no_derivable_title_is_not_asked_again() {
    let mut app = app();
    let room = room_with_activity(0, "!lonely:x", 0);
    let key = RoomKey::of(&room);
    app.rooms.rooms = vec![room];

    // The read landed and named nobody: the account is its only member.
    app.apply_members_outcome(MembersOutcome {
        room_key: RoomKey::of(&app.rooms.rooms[0]),
        members: Some(Vec::new()),
    });
    assert!(app.rooms.without_title.contains_key(&key));

    // A *failed* read says nothing, so it must not be recorded.
    let other = room_with_activity(0, "!unknown:x", 0);
    let other_key = RoomKey::of(&other);
    app.rooms.rooms.push(other);
    app.apply_members_outcome(MembersOutcome {
        room_key: RoomKey::of(&app.rooms.rooms[1]),
        members: None,
    });
    assert!(!app.rooms.without_title.contains_key(&other_key));
    assert_eq!(app.sweep_visible_room_titles(), vec![other_key]);

    // The account's own user is no part of a title.
    app.rooms.rooms[1].account_user_id = Some("@me:x".to_owned());
    app.apply_members_outcome(MembersOutcome {
        room_key: RoomKey::of(&app.rooms.rooms[1]),
        members: Some(vec![member("@me:x", None), member("@bob:x", Some("Bob"))]),
    });
    let title = app.rooms.titles.get(&RoomKey::of(&app.rooms.rooms[1]));
    assert_eq!(title.map(String::as_str), Some("Bob"));
    assert!(app.sweep_visible_room_titles().is_empty());
}

#[test]
fn a_room_without_a_title_is_left_out_of_the_sweep() {
    let mut app = app();
    app.rooms.rooms = vec![room_with_activity(0, "!lonely:x", 0), room_with_activity(0, "!b:x", 0)];
    assert_eq!(app.sweep_visible_room_titles().len(), 2);
    app.rooms.without_title.insert(key("!lonely:x"), ());
    assert_eq!(app.sweep_visible_room_titles(), vec![key("!b:x")]);
    app.rooms.titles.insert(key("!b:x"), "Bob".to_owned());
    assert!(app.sweep_visible_room_titles().is_empty());
}

#[test]
fn sort_rooms_by_pin_floats_pinned_then_orders_by_activity() {
    // Activity order alone would be: c (3), b (2), a (1).
    let mut rooms = vec![
        room_with_activity(0, "!a:srv", 1),
        room_with_activity(0, "!b:srv", 2),
        room_with_activity(0, "!c:srv", 3),
    ];
    let pinned = vec![key("!a:srv"), key("!b:srv")];
    sort_rooms_by_pin(&mut rooms, &pinned, RoomSort::RecentActivity);
    // Pinned a, b first (by pinned position), then unpinned c by activity.
    assert_eq!(order(&rooms), vec!["!a:srv", "!b:srv", "!c:srv"]);
}

#[test]
fn sort_rooms_by_pin_unpinned_keep_activity_order() {
    let mut rooms = vec![
        room_with_activity(0, "!a:srv", 1),
        room_with_activity(0, "!b:srv", 5),
        room_with_activity(0, "!c:srv", 3),
    ];
    sort_rooms_by_pin(&mut rooms, &[], RoomSort::RecentActivity);
    assert_eq!(order(&rooms), vec!["!b:srv", "!c:srv", "!a:srv"]);
}

#[test]
fn sort_rooms_by_pin_oldest_activity_reverses_order() {
    let mut rooms = vec![
        room_with_activity(0, "!a:srv", 1),
        room_with_activity(0, "!b:srv", 5),
        room_with_activity(0, "!c:srv", 3),
    ];
    sort_rooms_by_pin(&mut rooms, &[], RoomSort::OldestActivity);
    assert_eq!(order(&rooms), vec!["!a:srv", "!c:srv", "!b:srv"]);
}

#[test]
fn sort_rooms_by_pin_alpha_orders_by_title_and_keeps_pins_on_top() {
    // Activity order would be zulu, alpha, mike; alpha order is the reverse-ish.
    let mut rooms = vec![
        named_room(0, "!z:srv", "Zulu", 3),
        named_room(0, "!a:srv", "alpha", 2),
        named_room(0, "!m:srv", "Mike", 1),
    ];
    // Pin Mike: it must stay on top regardless of the alphabetical sort.
    let pinned = vec![key("!m:srv")];

    sort_rooms_by_pin(&mut rooms, &pinned, RoomSort::AlphaAsc);
    // Pinned Mike first; then unpinned by case-insensitive name: alpha, Zulu.
    assert_eq!(order(&rooms), vec!["!m:srv", "!a:srv", "!z:srv"]);

    sort_rooms_by_pin(&mut rooms, &pinned, RoomSort::AlphaDesc);
    // Pin still on top; unpinned reversed: Zulu, alpha.
    assert_eq!(order(&rooms), vec!["!m:srv", "!z:srv", "!a:srv"]);
}

#[test]
fn sort_rooms_by_pin_alpha_can_use_rendered_titles() {
    let mut rooms = vec![
        room_with_activity(0, "!opaque-b:srv", 2),
        room_with_activity(0, "!opaque-a:srv", 1),
    ];
    let title = |room: &RoomDto| match room.room_id.as_str() {
        "!opaque-b:srv" => "Alice".to_owned(),
        "!opaque-a:srv" => "Bob".to_owned(),
        _ => room.title().to_owned(),
    };

    let titles: Vec<String> = rooms.iter().map(title).collect();
    sort_rooms_by_pin_with_title(&mut rooms, &[], RoomSort::AlphaAsc, &titles);
    assert_eq!(order(&rooms), vec!["!opaque-b:srv", "!opaque-a:srv"]);

    let titles: Vec<String> = rooms.iter().map(title).collect();
    sort_rooms_by_pin_with_title(&mut rooms, &[], RoomSort::AlphaDesc, &titles);
    assert_eq!(order(&rooms), vec!["!opaque-a:srv", "!opaque-b:srv"]);
}

#[test]
fn older_page_trim_keeps_tail_adjacent_to_existing_events() {
    let mut events: Vec<i32> = (0..50).collect();

    keep_adjacent_older_tail(&mut events, 20);

    assert_eq!(events, (30..50).collect::<Vec<_>>());
}

#[test]
fn is_likely_dm_uses_name_and_alias_heuristic() {
    // No name, no alias: treated as a DM.
    assert!(is_likely_dm(&room_with_activity(0, "!dm:srv", 1)));
    // A blank name is also treated as unnamed.
    let mut blank = room_with_activity(0, "!blank:srv", 1);
    blank.name = Some("   ".to_owned());
    assert!(is_likely_dm(&blank));
    // A named room is a group.
    assert!(!is_likely_dm(&named_room(0, "!g:srv", "Team", 1)));
    // An aliased but unnamed room is a group too.
    let mut aliased = room_with_activity(0, "!al:srv", 1);
    aliased.canonical_alias = Some("#team:srv".to_owned());
    assert!(!is_likely_dm(&aliased));
}

fn msg(event_id: &str, body: &str) -> EventDto {
    EventDto {
        account_id: 0,
        event_id: event_id.to_owned(),
        room_id: "!room:localhost".to_owned(),
        sender: "@alice:localhost".to_owned(),
        state_key: None,
        arrival_order: 0,
        origin_ts: 0,
        event_type: "m.room.message".to_owned(),
        content: Some(read_json(&format!(r#"{{"msgtype": "m.text", "body": "{body}"}}"#)).unwrap()),
        body: Some(body.to_owned()),
        relates_to: None,
        redacted: false,
        redaction_event_id: None,
        reactions: None,
        sender_trust: None,
    }
}

fn at(event_id: &str, origin_ts: i64) -> EventDto {
    let mut event = msg(event_id, "hi");
    event.origin_ts = origin_ts;
    event
}

fn edit(event_id: &str, target_id: &str, new_body: &str) -> EventDto {
    let mut event = msg(event_id, "");
    event.arrival_order = 1;
    event.origin_ts = 1;
    event.content = Some(
        read_json(&format!(
            r#"{{
                "msgtype": "m.text",
                "body": "* {new_body}",
                "m.new_content": {{"msgtype": "m.text", "body": "{new_body}"}},
                "m.relates_to": {{"rel_type": "m.replace", "event_id": "{target_id}"}}
            }}"#
        ))
        .unwrap(),
    );
    event.body = Some(format!("* {new_body}"));
    event.relates_to = Some(
        read_json(&format!(r#"{{"rel_type": "m.replace", "event_id": "{target_id}"}}"#)).unwrap(),
    );
    event
}

#[test]
fn apply_edits_updates_original_and_removes_edit_event() {
    let mut events = vec![msg("$orig", "hello"), edit("$edit", "$orig", "hello world")];
    apply_edits(&mut events);
    assert_eq!(events.len(), 1, "edit event should be removed");
    assert_eq!(
        events[0].body.as_deref(),
        Some("hello world"),
        "original body should be replaced with new content"
    );
}

#[test]
fn apply_edits_replaces_formatted_content() {
    let mut original = msg("$orig", "hello");
    original.content = Some(
        read_json(
            r#"{
                "msgtype": "m.text",
                "body": "hello",
                "format": "org.matrix.custom.html",
                "formatted_body": "<em>hello</em>"
            }"#,
        )
        .unwrap(),
    );
    let mut formatted_edit = edit("$edit", "$orig", "hello world");
    formatted_edit.content = Some(
        read_json(
            r#"{
                "msgtype": "m.text",
                "body": "* hello world",
                "m.new_content": {
                    "msgtype": "m.text",
                    "body": "hello world",
                    "format": "org.matrix.custom.html",
                    "formatted_body": "<strong>hello world</strong>"
                },
                "m.relates_to": {"rel_type": "m.replace", "event_id": "$orig"}
            }"#,
        )
        .unwrap(),
    );
    let mut events = vec![original, formatted_edit];

    apply_edits(&mut events);

    assert_eq!(events.len(), 1);
    assert_eq!(events[0].body.as_deref(), Some("hello world"));
    assert_eq!(events[0].formatted_body(), Some("<strong>hello world</strong>"));
}

#[test]
fn apply_edits_leaves_unrelated_messages_untouched() {
    let mut events =
        vec![msg("$a", "first"), msg("$b", "second"), edit("$edit", "$a", "first edited")];
    apply_edits(&mut events);
    assert_eq!(events.len(), 2);
    assert_eq!(events[0].body.as_deref(), Some("first edited"));
    assert_eq!(events[1].body.as_deref(), Some("second"));
}

#[test]
fn apply_edits_keeps_edit_event_when_original_not_in_page() {
    // If the original message is on an older page that hasn't been loaded,
    // the edit event must remain visible rather than disappearing silently.
    let mut events = vec![msg("$b", "second"), edit("$edit", "$missing", "edited")];
    apply_edits(&mut events);
    // edit event kept (target not in this page); $b untouched
    assert_eq!(events.len(), 2);
    assert_eq!(events[0].event_id, "$b");
    assert_eq!(events[1].event_id, "$edit");
}

#[test]
fn edit_relation_returns_none_without_relates_to() {
    let event = msg("$m", "body");
    assert!(event.edit_relation().is_none());
}

#[test]
fn edit_relation_returns_none_when_content_missing_new_content() {
    let mut event = msg("$e", "* edited");
    event.relates_to =
        Some(read_json(r#"{"rel_type": "m.replace", "event_id": "$orig"}"#).unwrap());
    // relates_to is set but content has no m.new_content
    assert!(event.edit_relation().is_none());
}

fn member(user_id: &str, name: Option<&str>) -> MemberDto {
    MemberDto { user_id: user_id.to_owned(), display_name: name.map(str::to_owned) }
}

#[test]
fn unnamed_rooms_are_named_after_their_members() {
    let members = vec![
        member("@d:hs", None),
        member("@me:hs", Some("Me")),
        member("@b:hs", Some(" Bob ")),
        member("@c:hs", Some("  ")),
        member("@e:hs", None),
    ];
    assert_eq!(
        dm_title_from_members(Some("@me:hs"), &members).as_deref(),
        Some("Bob, @c, @d, +1")
    );
    assert_eq!(dm_title_from_members(Some("@me:hs"), &members[1..2]), None);
    assert_eq!(account_localpart("@a:hs"), Some("a"));
    assert_eq!(account_localpart("a:hs"), None);
    assert_eq!(member_display(&member("odd", None)), "odd");
}

#[test]
fn filters_and_orders_turn_round() {
    let mut filter = RoomFilter::All;
    for _ in 0..5 {
        filter = filter.next();
    }
    assert_eq!(filter, RoomFilter::All);
    assert_eq!(RoomFilter::parse(" People "), RoomFilter::Dms);
    assert_eq!(RoomFilter::parse("Team X"), RoomFilter::Name("team x".to_owned()));
    for sort in [
        RoomSort::RecentActivity,
        RoomSort::OldestActivity,
        RoomSort::AlphaAsc,
        RoomSort::AlphaDesc,
    ] {
        assert_eq!(RoomSort::parse(sort.as_config_str()), sort);
        assert_eq!(sort.next().next().next().next(), sort);
    }
    let entry = key("!r:hs").to_config_entry();
    assert_eq!(RoomKey::parse_config_entry(&entry), Some(key("!r:hs")));
    assert_eq!(RoomKey::parse_config_entry("nonsense"), None);
}

fn app_with_rooms() -> App {
    let mut app = app();
    app.accounts.accounts = vec![account(0, "@alice:example.com")];
    app.rooms.rooms = vec![
        named_room(0, "!a:hs", "Apple", 3),
        named_room(0, "!b:hs", "Berry", 2),
        named_room(0, "!c:hs", "Cherry", 1),
    ];
    app.rooms.selected = Some(0);
    app
}

#[test]
fn unpinning_undoes_pinning() {
    let mut app = app_with_rooms();
    let change = app.pin_room(Some("cherry")).unwrap();
    assert!(change.pinned);
    assert_eq!(order(&app.rooms.rooms), vec!["!c:hs", "!a:hs", "!b:hs"]);
    assert_eq!(app.rooms.selected, Some(1), "the same room stays selected");
    app.note_pins_saved(&change, None);
    assert!(app.status.text(false).contains("Cherry"));
    let back = app.unpin_room(Some("cherry")).unwrap();
    assert!(back.entries.is_empty());
    assert_eq!(order(&app.rooms.rooms), vec!["!a:hs", "!b:hs", "!c:hs"]);
    assert!(app.unpin_room(Some("cherry")).is_none());
    assert_eq!(app.status.text(false), "Cherry is not pinned");
}

#[test]
fn rooms_are_chosen_by_name_and_by_step() {
    let mut app = app_with_rooms();
    assert!(app.switch_room("berry"));
    assert_eq!(app.rooms.selected, Some(1));
    assert!(!app.switch_room("nowhere"));
    assert_eq!(app.status.text(false), "room not found: nowhere");
    assert!(app.switch_relative_room(-1));
    assert_eq!(app.rooms.selected, Some(0));
    app.switch_relative_room(-1);
    assert_eq!(app.rooms.selected, Some(2));
}

#[test]
fn a_filter_hides_rooms_but_not_the_selected_one() {
    let mut app = app_with_rooms();
    let tokens = app.set_room_filter(RoomFilter::Name("ch".to_owned()));
    assert_eq!(tokens.sort, RoomSort::RecentActivity.as_config_str());
    assert_eq!(app.visible_room_indices(), vec![0, 2], "the selected room stays shown");
    assert_eq!(app.rooms.selected, Some(0));
    app.set_room_filter(RoomFilter::All);
    assert_eq!(app.visible_room_indices(), vec![0, 1, 2]);
    app.set_room_sort(RoomSort::AlphaDesc);
    assert_eq!(order(&app.rooms.rooms), vec!["!c:hs", "!b:hs", "!a:hs"]);
    assert_eq!(app.rooms.rooms[app.rooms.selected.unwrap()].room_id, "!a:hs");
}

#[test]
fn accounts_narrow_the_rooms() {
    let mut app = app_with_rooms();
    app.accounts.accounts.push(account(7, "@bob:example.com"));
    app.rooms.rooms.push(named_room(7, "!d:hs", "Date", 9));
    assert!(app.switch_account("bob"));
    assert_eq!(app.accounts.selected, AccountSelection::Account(1));
    assert_eq!(app.visible_room_indices(), vec![3]);
    assert!(app.switch_account("all"));
    assert_eq!(app.accounts.selected, AccountSelection::All);
    assert!(!app.switch_account("nobody"));
    assert_eq!(app.status.text(false), "account not found: nobody");
}

fn page(events: Vec<EventDto>, cursor: Option<&str>) -> TimelinePage {
    TimelinePage { events, next_cursor: cursor.map(str::to_owned) }
}

#[test]
fn a_loaded_timeline_is_shown_in_order_and_bounded() {
    let mut app = app_with_rooms();
    let (k, request) = app.load_selected_timeline().unwrap();
    assert_eq!(k, key("!a:hs"));
    assert!(request.query.contains(&("limit".to_owned(), "50".to_owned())));
    app.timeline_loaded(Ok(page(vec![at("$2", 2), at("$1", 1)], Some("cur"))), 0);
    let ids: Vec<&str> =
        app.messages.events.get(&k).unwrap().iter().map(|e| e.event_id.as_str()).collect();
    assert_eq!(ids, vec!["$1", "$2"], "the oldest first");
    let (k2, older) = app.load_more_history().unwrap();
    assert_eq!(k2, k);
    assert!(older.query.contains(&("cursor".to_owned(), "cur".to_owned())));
    assert!(app.load_more_history().is_none(), "one page at a time");
    app.more_history_loaded(&k, Ok(page(vec![at("$0", 0)], None)));
    let ids: Vec<&str> =
        app.messages.events.get(&k).unwrap().iter().map(|e| e.event_id.as_str()).collect();
    assert_eq!(ids, vec!["$0", "$1", "$2"]);
    assert!(app.load_more_history().is_none());
    assert_eq!(app.status.text(false), "at beginning of Axon history");
}

#[test]
fn a_page_on_both_sides_of_a_moment_is_looked_for() {
    let client = AxonClient::new("http://h".to_owned(), None);
    let search = Straddle::start(1_000, 4, 2, 10 * DAY_MS);
    let request = search.next_request(&client, &key("!a:hs")).unwrap();
    assert!(request.query.iter().any(|(k, _)| k == "at_ts"));
    let search =
        search.take(page(vec![at("$4", 4_000), at("$3", 3_000), at("$1", 900), at("$0", 1)], None));
    assert!(search.next_request(&client, &key("!a:hs")).is_none());
    assert_eq!(search.finish().events.len(), 4);

    let first = FirstSearch::start(1_000, 10 * DAY_MS);
    assert!(first.next_request(&client, &key("!a:hs")).is_some());
    let first = first.take(&page(vec![at("$3", 3_000), at("$1", 900)], None));
    assert_eq!(first.earliest, Some(3_000));

    let walk = TopWalk::start();
    let walk = walk.take(page(vec![at("$3", 3)], Some("next")));
    let request = walk.next_request(&client, &key("!a:hs")).unwrap();
    assert!(request.query.contains(&("cursor".to_owned(), "next".to_owned())));
    let walk = walk.take(page(vec![at("$1", 1)], None));
    assert!(walk.next_request(&client, &key("!a:hs")).is_none());
    let mut app = app_with_rooms();
    assert!(app.top_reached(&key("!a:hs"), "Apple", walk).shown);
}

#[test]
fn a_jump_says_the_day() {
    let mut app = app_with_rooms();
    let (k, search) = app.jump_to_date(1_782_345_600_000, 1_782_345_600_000).unwrap();
    assert_eq!(app.status.text(false), "Jumping to 2026-06-25…");
    assert_eq!(search.pivot, 1_782_345_600_000);
    assert!(app.jumped_to_date(&k, 1_782_345_600_000, Some(page(vec![at("$1", 1)], None))).shown);
    assert!(!app.jumped_to_date(&k, 1_782_345_600_000, Some(page(Vec::new(), None))).shown);
    app.rooms.selected = None;
    assert!(app.jump_to_top().is_none());
    assert_eq!(app.status.text(false), "select a room before using /top");
}

#[test]
fn names_are_due_with_every_load() {
    let mut app = app_with_rooms();
    let k = key("!a:hs");
    app.load_selected_timeline();
    let effects = app.timeline_loaded(Ok(page(vec![at("$5", 5), at("$4", 4)], Some("cur"))), 0);
    match &effects.names {
        NamesDue::Anew(request) => assert!(request.url.ends_with("/members")),
        other => panic!("the page was replaced: {other:?}"),
    }
    app.load_more_history().unwrap();
    let older = app.more_history_loaded(&k, Ok(page(vec![at("$3", 3), at("$2", 2)], None)));
    match older.names {
        NamesDue::Missing(ids) => assert_eq!(ids, vec!["$2", "$3"]),
        other => panic!("events were put before: {other:?}"),
    }
    let jumped = app.jumped_to_date(&k, 3, Some(page(vec![at("$3", 3)], None)));
    assert!(matches!(jumped.names, NamesDue::Anew(_)));
    assert!(matches!(app.jumped_to_date(&k, 3, None).names, NamesDue::Kept));
    let newer = app.newer_history_loaded(&k, 3, Some(page(vec![at("$9", 9), at("$3", 3)], None)));
    match newer.names {
        NamesDue::Missing(ids) => assert_eq!(ids, vec!["$9"]),
        other => panic!("events were put behind: {other:?}"),
    }
    // Without a room nothing is taken over.
    app.rooms.selected = None;
    let nothing = app.timeline_loaded(Ok(page(vec![at("$1", 1)], None)), 0);
    assert!(matches!(nothing.names, NamesDue::Kept));
    assert!(!nothing.relations);
    assert_eq!(app.messages.events.get(&k).unwrap().len(), 2);
}

#[test]
fn a_long_history_is_cut_off() {
    let mut app = app_with_rooms();
    let k = key("!a:hs");
    app.load_selected_timeline();
    let newest: Vec<EventDto> =
        (0..490).rev().map(|i| at(&format!("$n{i}"), 1_000 + i)).collect();
    app.timeline_loaded(Ok(page(newest, Some("cur"))), 0);
    app.load_more_history().unwrap();
    let older: Vec<EventDto> = (0..50).rev().map(|i| at(&format!("$o{i}"), i)).collect();
    app.more_history_loaded(&k, Ok(page(older, Some("more"))));
    let events = app.messages.events.get(&k).unwrap();
    assert_eq!(events.len(), MAX_EVENTS);
    assert_eq!(events[0].event_id, "$o40", "the ones next to what is shown are kept");
    assert!(app.load_more_history().is_none());
}

#[test]
fn a_room_in_two_accounts_is_completed_once() {
    let mut app = app_with_rooms();
    app.rooms.rooms.push(named_room(7, "!a:hs", "Apple", 3));
    let listed = app.rooms.visible_rooms_for_completion(None);
    assert_eq!(listed.iter().filter(|r| r.room_id == "!a:hs").count(), 1);
    assert_eq!(listed.len(), 3);
}

#[test]
fn the_best_value_of_a_room_is_completed() {
    let mut app = app_with_rooms();
    app.rooms.rooms = vec![
        room_with_activity(0, "!x:hs", 3),
        named_room(7, "!x:hs", "Named", 2),
        named_room(8, "!x:hs", "Other", 1),
    ];
    app.rooms.selected = None;
    let listed = app.rooms.visible_rooms_for_completion(None);
    assert_eq!(listed.len(), 1);
    assert_eq!(listed[0].name.as_deref(), Some("Named"));
    app.rooms.rooms[2].canonical_alias = Some("#x:hs".to_owned());
    let listed = app.rooms.visible_rooms_for_completion(None);
    assert_eq!(listed[0].canonical_alias.as_deref(), Some("#x:hs"));
}

#[test]
fn a_pin_without_a_target_is_of_the_selected_room() {
    let mut app = app_with_rooms();
    assert_eq!(app.pin_room(None).unwrap().title, "Apple");
    app.rooms.selected = None;
    assert!(app.pin_room(None).is_none());
    assert_eq!(app.status.text(false), "select a room to pin");
}
