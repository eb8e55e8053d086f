//! How messages are laid out.

use axon_tui::api::client::AxonClient;
use axon_tui::api::dto::EventDto;
use axon_tui::app::calendar::{civil_date, format_jump_date};
use axon_tui::app::clock::{
    date_at, date_day, day_at, format_date, format_time, stamp_of, time_at, Stamp,
};
use axon_tui::app::layout_cache::{hash_sorted_map, layout_digest, LayoutInputs, Token};
use axon_tui::app::render::{
    apply_selected_message_style, continuation_body_width, date_separator_line,
    display_body_with_sender, first_body_width, first_body_width_after, message_index_at_line,
    message_layout, overlay_selection_on_page, reaction_line_style, relation_line_style, snippet,
    thread_badge_text, trust_glyph, Ink, LayoutInput, Line, RelationContext, Span, Style,
    ThreadBadge, WrappedMessage,
};
use axon_tui::app::state::{App, DisplayOptions, MessageDensity, TimeFormat, TuiConfig};
use axon_tui::json::read_json;
use axon_tui::keyed::KeyedMap;
use chrono::{Local, TimeZone};

fn config() -> TuiConfig {
    TuiConfig {
        path: "/tmp/axon/config.toml".to_owned(),
        created_default: false,
        display: DisplayOptions {
            show_state_events: false,
            debug: false,
            search_wrap: true,
            accept_incoming_verification: true,
            confirm_logout: true,
            message_density: MessageDensity::Dense,
            time_format: TimeFormat::H24,
            accounts_panel_width: 16,
            rooms_panel_width_adj: 0,
            input_lines: 3,
        },
        pinned_rooms: Vec::new(),
        room_filter: String::new(),
        room_sort: String::new(),
    }
}

fn app() -> App {
    App::new(AxonClient::new("http://127.0.0.1:8080".to_owned(), None), None, config(), 0)
}

fn event(id: &str, body: &str) -> EventDto {
    EventDto {
        account_id: 0,
        event_id: id.to_owned(),
        room_id: "!r:hs".to_owned(),
        sender: "@bob:hs".to_owned(),
        state_key: None,
        arrival_order: 0,
        origin_ts: 0,
        event_type: "m.room.message".to_owned(),
        content: None,
        body: Some(body.to_owned()),
        relates_to: None,
        redacted: false,
        redaction_event_id: None,
        reactions: None,
        sender_trust: None,
    }
}

fn no_relations() -> RelationContext {
    RelationContext {
        replies: KeyedMap::new(),
        thread_badges: KeyedMap::new(),
        thread_root: None,
        thread_contexts: KeyedMap::new(),
    }
}

fn span(text: &str) -> Span {
    Span { text: text.to_owned(), style: Style::new() }
}

fn text_of(line: &Line) -> String {
    line.spans.iter().map(|s| s.text.as_str()).collect()
}

#[test]
fn trust_glyph_maps_known_verdicts() {
    assert_eq!(trust_glyph(Some("verified")), Some(("✓", Ink::Green)));
    assert_eq!(trust_glyph(Some("verification_violation")), Some(("⚠", Ink::Red)));
    assert_eq!(trust_glyph(Some("unknown")), Some(("?", Ink::DarkGray)));
}

#[test]
fn snippet_truncates_and_flattens() {
    assert_eq!(snippet("hello", 60), "hello");
    assert_eq!(snippet("line one\nline two", 60), "line one line two");
    assert_eq!(snippet("abcdef", 3), "abc…");
}

#[test]
fn thread_badge_text_renders_count_and_latest() {
    let badge = ThreadBadge {
        count: 3,
        unread_count: 0,
        latest_sender: Some("bob".to_owned()),
        latest_snippet: Some("I think we should wait".to_owned()),
    };
    assert_eq!(
        thread_badge_text(&badge),
        "↳ 3 replies · latest: bob: \"I think we should wait\""
    );
}

#[test]
fn thread_badge_text_singular_and_no_latest() {
    let badge =
        ThreadBadge { count: 1, unread_count: 0, latest_sender: None, latest_snippet: None };
    assert_eq!(thread_badge_text(&badge), "↳ 1 reply");
}

#[test]
fn thread_badge_text_renders_unread_count() {
    let badge = ThreadBadge {
        count: 3,
        unread_count: 2,
        latest_sender: Some("bob".to_owned()),
        latest_snippet: Some("I think we should wait".to_owned()),
    };
    assert_eq!(
        thread_badge_text(&badge),
        "↳ 3 replies · 2 new · latest: bob: \"I think we should wait\""
    );
}

#[test]
fn trust_glyph_is_absent_for_unflagged_states() {
    assert_eq!(trust_glyph(Some("unverified")), None);
    assert_eq!(trust_glyph(None), None);
    assert_eq!(trust_glyph(Some("something_new")), None);
}

#[test]
fn trust_glyph_reserves_two_columns_in_first_body_width() {
    // The two columns reserved in message_layout for a glyph must come
    // out of the body width so wrapping stays correct.
    let full = first_body_width("@alice:localhost", 0, 80, TimeFormat::H24);
    let glyph_cols = 2;
    assert_eq!(full.saturating_sub(glyph_cols), full - 2);
}

#[test]
fn format_date_produces_expected_string() {
    let ts = 1_782_345_600_000;
    let expected =
        Local.timestamp_millis_opt(ts).single().unwrap().format("%A, %-d %B %Y").to_string();
    assert_eq!(format_date(ts), expected);
}

#[test]
fn date_day_uses_local_calendar_day() {
    let evening = Local.with_ymd_and_hms(2026, 6, 25, 21, 0, 0).single().unwrap();
    let late = Local.with_ymd_and_hms(2026, 6, 25, 23, 0, 0).single().unwrap();
    assert_eq!(date_day(evening.timestamp_millis()), date_day(late.timestamp_millis()));
}

#[test]
fn date_separator_spans_full_width_with_date_centered() {
    let line = date_separator_line("Thursday, 25 June 2026", 40);
    let text = text_of(&line);
    assert!(text.contains("Thursday, 25 June 2026"));
    assert_eq!(text.chars().count(), 40);
}

#[test]
fn times_of_day() {
    let ts = Local.with_ymd_and_hms(2026, 6, 25, 21, 5, 9).single().unwrap().timestamp_millis();
    assert_eq!(format_time(ts, TimeFormat::H24), "21:05:09");
    assert_eq!(format_time(ts, TimeFormat::H12), "9:05:09 PM");
    assert_eq!(format_time(i64::MAX, TimeFormat::H24), "--:--:--");
    assert_eq!(format_date(i64::MAX), "Unknown date");
    assert_eq!(date_day(i64::MAX), None);
}

#[test]
fn times_on_a_given_clock() {
    let ts = 1_782_345_600_000;
    assert_eq!(time_at(ts, Some(0), TimeFormat::H24), "00:00:00");
    assert_eq!(time_at(ts, Some(0), TimeFormat::H12), "12:00:00 AM");
    assert_eq!(time_at(ts, Some(-3_599), TimeFormat::H24), "23:00:01");
    assert_eq!(time_at(ts, Some(46_800), TimeFormat::H12), "1:00:00 PM");
    assert_eq!(time_at(-1, Some(0), TimeFormat::H24), "23:59:59");
    assert_eq!(time_at(0, None, TimeFormat::H12), "--:--:--");
    assert_eq!(date_at(ts, Some(0)), "Thursday, 25 June 2026");
    assert_eq!(date_at(ts, Some(-1)), "Wednesday, 24 June 2026");
    assert_eq!(date_at(-62_167_219_200_001, Some(0)), "Friday, 31 December -0001");
    assert_eq!(date_at(253_402_300_800_000, Some(0)), "Saturday, 1 January +10000");
    assert_eq!(date_at(-62_135_596_800_000, Some(0)), "Monday, 1 January 0001");
    // The last time that is held, and the first.
    let (first, last) = (-8_334_601_228_800_000, 8_210_266_876_799_999);
    assert_eq!(date_at(last, Some(3_600)), "Tuesday, 1 January +262143");
    assert_eq!(time_at(last, Some(3_600), TimeFormat::H24), "00:59:59");
    assert_eq!(date_day(last + 1), None);
    assert!(date_day(last).is_some());
    assert!(date_day(first).is_some());
    assert_eq!(date_day(first - 1), None);
    assert_eq!(day_at(ts, 0), 20_629);
    assert_eq!(day_at(-1, 0), -1);
    assert_eq!(day_at(-1, 1), 0);
    let stamp = stamp_of(ts, TimeFormat::H24);
    assert_eq!(stamp.time, format_time(ts, TimeFormat::H24));
    assert_eq!(stamp.day, date_day(ts));
    assert_eq!(stamp.date, format_date(ts));
}

#[test]
fn days_of_the_calendar() {
    assert_eq!(format_jump_date(0), "1970-01-01");
    assert_eq!(format_jump_date(951_782_400_000), "2000-02-29");
    assert_eq!(format_jump_date(1_782_345_600_000), "2026-06-25");
    assert_eq!(civil_date(-1), (1969, 12, 31));
}

#[test]
fn widths_of_bodies() {
    let width = first_body_width_after("12:00:00", "@bob:hs", 40);
    assert!(width < continuation_body_width(40));
    assert_eq!(first_body_width("@bob:hs", 0, 40, TimeFormat::H24), width);
}

#[test]
fn a_redacted_message_shows_nothing_of_itself() {
    let mut e = event("$a", "secret");
    e.redacted = true;
    assert!(!e.display_body().contains("secret"));
    assert_eq!(e.display_body(), display_body_with_sender(&e, "Bob"));
}

#[test]
fn lines_belong_to_messages() {
    let ranges = [(0, 2), (2, 5), (5, 6)];
    assert_eq!(message_index_at_line(&ranges, 0), 0);
    assert_eq!(message_index_at_line(&ranges, 4), 1);
    assert_eq!(message_index_at_line(&ranges, 5), 2);
}

#[test]
fn messages_stand_one_below_the_other() {
    let (a, b) = (event("$a", "one"), event("$b", "two"));
    let events = vec![&a, &b];
    let labels = vec!["Bob".to_owned(), "Bob".to_owned()];
    let stamp = || Stamp {
        time: "12:00:00".to_owned(),
        day: Some(20_629),
        date: "Thursday, 25 June 2026".to_owned(),
    };
    let wrapped = |body: &str| WrappedMessage {
        formatted: None,
        plain: vec![vec![body.to_owned()]],
        context: Vec::new(),
        badge: Vec::new(),
        reactions: Vec::new(),
    };
    let layout = message_layout(&LayoutInput {
        events: &events,
        sender_labels: &labels,
        stamps: &vec![stamp(), stamp()],
        width: 60,
        reactions: &KeyedMap::new(),
        own_senders: &KeyedMap::new(),
        image_thumb_rows: &KeyedMap::new(),
        relations: &no_relations(),
        density: MessageDensity::Dense,
        wrapped: &vec![wrapped("one"), wrapped("two")],
    });
    assert_eq!(layout.ranges.len(), 2);
    assert_eq!(layout.ranges[0].1, layout.ranges[1].0);
    assert_eq!(layout.ranges[1].1, layout.lines.len());
    let all: Vec<String> = layout.lines.iter().map(text_of).collect();
    assert!(all[0].contains("Thursday, 25 June 2026"));
    assert!(all.iter().any(|l| l.contains("Bob") && l.contains("two")));
}

#[test]
fn the_rows_of_a_message_have_their_styles() {
    let mut a = event("$a", "one");
    a.relates_to = Some(
        read_json(r#"{"m.in_reply_to": {"event_id": "$root"}}"#).unwrap(),
    );
    let mut reactions = KeyedMap::new();
    reactions.insert("$a".to_owned(), vec![("+1".to_owned(), 2)]);
    let mut relations = no_relations();
    relations.thread_badges.insert(
        "$a".to_owned(),
        ThreadBadge { count: 1, unread_count: 1, latest_sender: None, latest_snippet: None },
    );
    let row = |text: &str| vec![vec![text.to_owned()]];
    let wrapped = WrappedMessage {
        // There is no HTML in the message, so this is not shown.
        formatted: Some(vec![vec![span("formatted")]]),
        plain: row("one"),
        context: row("context"),
        badge: row("badge"),
        reactions: row("+1 2"),
    };
    let layout = message_layout(&LayoutInput {
        events: &vec![&a],
        sender_labels: &vec!["Bob".to_owned()],
        stamps: &vec![Stamp {
            time: "12:00:00".to_owned(),
            day: Some(20_629),
            date: "Thursday, 25 June 2026".to_owned(),
        }],
        width: 60,
        reactions: &reactions,
        own_senders: &KeyedMap::new(),
        image_thumb_rows: &KeyedMap::new(),
        relations: &relations,
        density: MessageDensity::Dense,
        wrapped: &vec![wrapped],
    });
    let style_of = |text: &str| {
        let found = layout.lines.iter().flat_map(|l| &l.spans).find(|s| s.text == text);
        found.map(|s| s.style)
    };
    assert_eq!(style_of("context"), Some(relation_line_style()));
    assert_eq!(style_of("one"), Some(Style::new()));
    assert_eq!(style_of("formatted"), None);
    let badge = style_of("badge").unwrap();
    assert_eq!((badge.fg, badge.bold), (Some(Ink::UnreadCount), true));
    assert_eq!(style_of("+1 2"), Some(reaction_line_style()));
    assert_ne!(relation_line_style(), reaction_line_style());
}

#[test]
fn the_selected_line_is_filled() {
    let mut line = Line { spans: vec![span("ab")], style: Style::new() };
    apply_selected_message_style(&mut line, 6, true);
    assert_eq!(text_of(&line).chars().count(), 6);
    assert_eq!(line.style.bg, Some(Ink::SelectionBackground));
    // A character that takes two columns leaves room for one less.
    let mut wide = Line { spans: vec![span("  "), span("世")], style: Style::new() };
    apply_selected_message_style(&mut wide, 6, true);
    assert_eq!(text_of(&wide), "> 世  ");

    let (a, b) = (event("$a", "one"), event("$b", "two"));
    let mut page = vec![
        Line { spans: vec![span("one")], style: Style::new() },
        Line { spans: vec![span("two")], style: Style::new() },
    ];
    overlay_selection_on_page(&mut page, 0, &[(0, 1), (1, 2)], &[&a, &b], Some("$b"), 5, true);
    assert_eq!(text_of(&page[0]), "one");
    assert_ne!(page[1].style, Style::new());
}

fn digest_of(reactions: &KeyedMap<String, Vec<(String, usize)>>, body: &str) -> Vec<Token> {
    digest_of_event(reactions, &event("$a", body))
}

fn digest_of_event(
    reactions: &KeyedMap<String, Vec<(String, usize)>>,
    event: &EventDto,
) -> Vec<Token> {
    layout_digest(&LayoutInputs {
        events: &vec![event],
        sender_labels: &vec!["Bob".to_owned()],
        width: 60,
        reactions,
        own_senders: &KeyedMap::new(),
        image_thumb_rows: &KeyedMap::new(),
        relations: &no_relations(),
        config_generation: 0,
    })
}

#[test]
fn a_layout_is_made_anew_only_where_something_changed() {
    let mut app = app();
    let none = KeyedMap::new();
    assert!(!app.layout_is_current(&digest_of(&none, "one")));
    app.messages.page_size = 2;
    app.messages.scroll = usize::MAX;
    app.ensure_message_layout(digest_of(&none, "one"), vec![(0, 3)]);
    assert_eq!(app.messages.scroll, 1, "the bottom");
    assert!(app.layout_is_current(&digest_of(&none, "one")));
    assert!(!app.layout_is_current(&digest_of(&none, "two")));
    let mut reply = event("$a", "one");
    reply.relates_to =
        Some(read_json(r#"{"m.in_reply_to": {"event_id": "$z"}}"#).unwrap());
    assert!(!app.layout_is_current(&digest_of_event(&none, &reply)));
    app.messages.scroll = usize::MAX;
    app.ensure_message_layout(digest_of(&none, "one"), Vec::new());
    assert_eq!(app.messages.scroll, 1, "settled though the layout is kept");
    assert_eq!(app.messages.layout_checks, 2);
    assert_eq!(app.messages.layout_recomputes, 1);
    assert_eq!(app.cached_message_ranges(), &vec![(0, 3)]);
}

#[test]
fn the_order_of_a_map_does_not_matter() {
    let mut one: KeyedMap<String, Vec<(String, usize)>> = KeyedMap::new();
    one.insert("$a".to_owned(), vec![("👍".to_owned(), 1)]);
    one.insert("$b".to_owned(), vec![("👎".to_owned(), 2)]);
    let mut other: KeyedMap<String, Vec<(String, usize)>> = KeyedMap::new();
    other.insert("$b".to_owned(), vec![("👎".to_owned(), 2)]);
    other.insert("$a".to_owned(), vec![("👍".to_owned(), 1)]);
    let (mut x, mut y) = (Vec::new(), Vec::new());
    hash_sorted_map(&one, &mut x);
    hash_sorted_map(&other, &mut y);
    assert_eq!(format!("{x:?}"), format!("{y:?}"));
    let mut app = app();
    app.ensure_message_layout(digest_of(&one, "one"), Vec::new());
    assert!(app.layout_is_current(&digest_of(&other, "one")));
    assert!(!app.layout_is_current(&digest_of(&KeyedMap::new(), "one")));
}
