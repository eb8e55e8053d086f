//! Commands, messages and reactions.

use axon_tui::api::client::{AxonClient, Method};
use axon_tui::api::dto::{EventDto, ReactionTally, RoomDto};
use axon_tui::app::choice::RoomKey;
use axon_tui::app::commands::{Command, Effect, Elsewhere, Surroundings};
use axon_tui::app::input::InputState;
use axon_tui::app::inspect::describe_event;
use axon_tui::app::lifecycle::LifecycleTask;
use axon_tui::app::outcome::LifecycleOutcome;
use axon_tui::app::reactions::{collect_reactions, record_reaction, unreact_selection_status};
use axon_tui::app::state::{
    App, DisplayOptions, MessageDensity, Mode, OwnReaction, PopupKind, TimeFormat, TuiConfig,
};
use axon_tui::json::read_json;
use axon_tui::keyed::KeyedMap;

fn config() -> TuiConfig {
    TuiConfig {
        path: "/tmp/axon/config.toml".to_owned(),
        created_default: false,
        display: DisplayOptions {
            show_state_events: false,
            debug: false,
            search_wrap: true,
            accept_incoming_verification: true,
            confirm_logout: true,
            message_density: MessageDensity::Dense,
            time_format: TimeFormat::H24,
            accounts_panel_width: 16,
            rooms_panel_width_adj: 0,
            input_lines: 3,
        },
        pinned_rooms: Vec::new(),
        room_filter: String::new(),
        room_sort: String::new(),
    }
}

fn app() -> App {
    App::new(AxonClient::new("http://127.0.0.1:8080".to_owned(), None), None, config(), 0)
}

fn event(id: &str, sender: &str) -> EventDto {
    EventDto {
        account_id: 0,
        event_id: id.to_owned(),
        room_id: "!r:hs".to_owned(),
        sender: sender.to_owned(),
        state_key: None,
        arrival_order: 1,
        origin_ts: 1,
        event_type: "m.room.message".to_owned(),
        content: Some(read_json(r#"{ "msgtype": "m.text", "body": "hi" }"#).unwrap()),
        body: Some("hi".to_owned()),
        relates_to: None,
        redacted: false,
        redaction_event_id: None,
        reactions: None,
        sender_trust: None,
    }
}

fn key() -> RoomKey {
    RoomKey { account_id: 0, room_id: "!r:hs".to_owned() }
}

fn app_in_room() -> App {
    let mut app = app();
    app.session.wired = true;
    app.rooms.rooms = vec![RoomDto {
        account_id: 0,
        account_user_id: Some("@me:hs".to_owned()),
        room_id: "!r:hs".to_owned(),
        name: Some("Room".to_owned()),
        topic: None,
        avatar_url: None,
        canonical_alias: None,
        last_activity_ts: 0,
        last_event_id: None,
    }];
    app.rooms.selected = Some(0);
    app.seed_own_senders_from_rooms();
    app.messages.events.insert(key(), vec![event("$a", "@bob:hs"), event("$b", "@me:hs")]);
    app
}

fn run(app: &mut App, command: Command) -> Effect {
    let roots = vec!["$a".to_owned()];
    app.handle_command(
        command,
        &Surroundings { now: 0, now_ms: 99, home: Some("/home/me"), thread_roots: &roots },
    )
}

fn kept<'a>(app: &'a App, id: &str) -> &'a EventDto {
    app.messages.events.get(&key()).unwrap().iter().find(|e| e.event_id == id).unwrap()
}

#[test]
fn answers_are_kept_where_the_line_is_free() {
    let mut app = app_in_room();
    assert!(matches!(run(&mut app, Command::Unknown("unknown command".to_owned())), Effect::Nothing));
    assert_eq!(app.session.pending_command_response.as_deref(), Some("unknown command"));
    assert!(matches!(run(&mut app, Command::Empty), Effect::Nothing));
    assert_eq!(app.session.pending_command_response, None, "an earlier answer is dropped");
    run(&mut app, Command::Quit);
    assert!(app.session.should_quit);
    run(&mut app, Command::Help);
    assert!(matches!(app.mode, Mode::Popup(PopupKind::Help)));
    assert_eq!(app.session.pending_command_response, None);
}

#[test]
fn what_waits_for_the_server_is_answered_later() {
    let mut app = app_in_room();
    match run(&mut app, Command::Event("$a".to_owned())) {
        Effect::ReadEvent(request) => assert!(request.url.ends_with("/events/%24a")),
        other => panic!("{other:?}"),
    }
    assert_eq!(app.session.pending_command_response, None);
    app.event_read(Err("down".to_owned()));
    app.queue_completed_command_response();
    assert_eq!(app.session.pending_command_response.as_deref(), Some("event read failed: down"));
    match run(&mut app, Command::Bundle("$a".to_owned())) {
        Effect::ReadBundle { event_id, request } => {
            assert_eq!(event_id, "$a");
            assert!(request.url.ends_with("/events/%24a/verification"));
        }
        other => panic!("{other:?}"),
    }
    app.verification_bundle_read("$a", Ok(read_json(r#"{"b": [1], "a": null}"#).unwrap()));
    assert_eq!(
        app.status.text(false),
        "verification bundle for $a:\n{\n  \"a\": null,\n  \"b\": [\n    1\n  ]\n}"
    );
    app.rooms.selected = None;
    assert!(matches!(run(&mut app, Command::Event("$a".to_owned())), Effect::Nothing));
    assert_eq!(
        app.session.pending_command_response.as_deref(),
        Some("select a room before using /event")
    );
}

#[test]
fn commands_lead_to_their_effects() {
    let mut app = app_in_room();
    assert!(matches!(run(&mut app, Command::Room("room".to_owned())), Effect::LoadTimeline(k, _) if k == key()));
    assert!(matches!(run(&mut app, Command::Filter("dms".to_owned())), Effect::KeepRoomView(t) if t.filter == "dms"));
    assert!(matches!(run(&mut app, Command::Pin(None)), Effect::KeepPins(c) if c.pinned));
    assert!(matches!(run(&mut app, Command::Refresh), Effect::FetchRooms));
    assert!(matches!(run(&mut app, Command::Refresh), Effect::Nothing));
    assert!(matches!(run(&mut app, Command::SaveConfig), Effect::KeepDisplay));
    run(&mut app, Command::EditConfig);
    assert!(app.take_edit_config_request());
    assert!(matches!(
        run(&mut app, Command::Logout(None)),
        Effect::Task(LifecycleTask::ListAccounts { .. })
    ));
    assert!(matches!(
        run(&mut app, Command::Elsewhere(Elsewhere::Leave)),
        Effect::Elsewhere(Elsewhere::Leave)
    ));
    assert!(matches!(run(&mut app, Command::JumpToDate(0)), Effect::Jump(..)));
    assert!(matches!(run(&mut app, Command::JumpToTop), Effect::WalkToTop(..)));
}

#[test]
fn a_message_is_shown_before_it_is_sent() {
    let mut app = app_in_room();
    let send = match run(&mut app, Command::SendLiteral("hello".to_owned())) {
        Effect::SendMessage(send) => send,
        other => panic!("{other:?}"),
    };
    assert_eq!(send.request.method, Method::Post);
    let echo = app.messages.events.get(&key()).unwrap().last().unwrap();
    assert_eq!(echo.event_id, send.temp_id);
    assert_eq!(echo.sender, "@me:hs");
    assert_eq!(echo.origin_ts, 99);
    app.handle_lifecycle_outcome(LifecycleOutcome::MessageSent {
        key: key(),
        temp_id: send.temp_id,
        result: Ok("$real".to_owned()),
    });
    assert_eq!(kept(&app, "$real").body.as_deref(), Some("hello"));

    match run(
        &mut app,
        Command::SendHtml { html: "<b>x</b>".to_owned(), plain: String::new() },
    ) {
        Effect::SendMessage(send) => {
            let body = send.request.body.text().unwrap();
            assert!(body.contains(r#""body":"<b>x</b>""#), "{body}");
            assert!(body.contains("org.matrix.custom.html"), "{body}");
        }
        other => panic!("{other:?}"),
    }
    match run(
        &mut app,
        Command::SendMedia { path: "~/pic.png".to_owned(), caption: None },
    ) {
        Effect::SendMedia(send) => {
            assert_eq!(send.path, "/home/me/pic.png");
            assert_eq!(send.filename, "pic.png");
        }
        other => panic!("{other:?}"),
    }
    assert!(matches!(
        run(&mut app, Command::SendMedia { path: "a".to_owned(), caption: None }),
        Effect::Nothing
    ));
    assert_eq!(app.status.text(false), "a /send upload is already in progress");
}

#[test]
fn replies_and_threads_exclude_each_other() {
    let mut app = app_in_room();
    run(&mut app, Command::Reply);
    assert_eq!(app.threads.pending_reply.as_deref(), Some("$b"), "the newest where none is selected");
    assert_eq!(app.status.text(false), "replying to message - Esc to cancel");
    assert_eq!(app.status.text(true), "replying to $b - Esc to cancel");
    run(&mut app, Command::Thread);
    assert_eq!(app.threads.pending_reply, None);
    assert_eq!(app.threads.pending_thread.as_deref(), Some("$b"));
    app.messages.selection = Some("$a".to_owned());
    assert!(matches!(run(&mut app, Command::Thread), Effect::OpenThread(t) if t.root == "$a"));
}

#[test]
fn reactions_come_and_go() {
    let mut app = app_in_room();
    app.messages.selection = Some("$a".to_owned());
    let react = |meant: Option<&str>| Command::React {
        input: "+1".to_owned(),
        meant: meant.map(str::to_owned),
    };
    assert!(matches!(run(&mut app, react(None)), Effect::Nothing));
    assert_eq!(app.status.text(false), "unknown or ambiguous emoji: +1");
    match run(&mut app, react(Some("👍"))) {
        Effect::SendReaction { event_id, key: k, request } => {
            assert_eq!((event_id.as_str(), k.as_str()), ("$a", "👍"));
            assert_eq!(request.body.text().as_deref(), Some(r#"{"key":"👍"}"#));
        }
        other => panic!("{other:?}"),
    }
    assert!(app.messages.counts_one_more(&key(), "$a", "👍"));
    app.apply_react("$a", "👍", Ok("$r1".to_owned()));
    assert_eq!(app.own_reactions_for("$a"), vec![OwnReaction {
        key: "👍".to_owned(),
        event_ids: vec!["$r1".to_owned()],
    }]);
    // The copy that comes back with the live events counts no second time.
    app.apply_remote_reaction(&key(), "$r1", "$a", "👍", "@me:hs", Some("@me:hs"));
    let tallies = collect_reactions(std::slice::from_ref(kept(&app, "$a")));
    assert_eq!(tallies.get(&"$a".to_owned()), Some(&vec![("👍".to_owned(), 1)]));
    let mut withdrawal = match run(&mut app, Command::Unreact) {
        Effect::Withdraw(w) => w,
        other => panic!("{other:?}"),
    };
    let request = withdrawal.next_request(&app.client).unwrap();
    assert!(request.url.ends_with("/%24r1"));
    withdrawal.note_removed();
    assert!(withdrawal.next_request(&app.client).is_none());
    app.finish_withdrawal(withdrawal, None);
    assert!(app.own_reactions_for("$a").is_empty());
    run(&mut app, Command::Unreact);
    assert_eq!(app.status.text(false), "you have no reactions on this message");
}

#[test]
fn a_reaction_is_recorded_once() {
    let mut tally =
        ReactionTally { count: 0, me: false, senders: Vec::new(), my_event_ids: Vec::new() };
    record_reaction(&mut tally, Some("@bob:hs"), Some("$1"), false);
    record_reaction(&mut tally, Some("@bob:hs"), Some("$1"), false);
    assert_eq!(tally.count, 1);
    record_reaction(&mut tally, Some("@me:hs"), Some("$2"), true);
    assert_eq!(tally.count, 2);
    assert!(tally.me);
    assert_eq!(tally.my_event_ids, vec!["$2"]);
    let empty =
        || ReactionTally { count: 0, me: false, senders: Vec::new(), my_event_ids: Vec::new() };
    let (mut one, mut other) = (empty(), empty());
    record_reaction(&mut one, Some("@a:hs"), None, false);
    record_reaction(&mut one, Some("@b:hs"), None, false);
    record_reaction(&mut other, Some("@b:hs"), None, false);
    record_reaction(&mut other, Some("@a:hs"), None, false);
    assert_eq!(one.count, other.count);
    let choices = vec![
        OwnReaction { key: "👍".to_owned(), event_ids: vec!["$1".to_owned()] },
        OwnReaction { key: "👎".to_owned(), event_ids: vec!["$2".to_owned()] },
    ];
    assert!(unreact_selection_status(&choices, 1).text(false).contains("👎"));
    let mut full = app_in_room();
    let mut reactions = KeyedMap::new();
    reactions.insert(
        "👍".to_owned(),
        ReactionTally { count: i64::MAX, me: false, senders: Vec::new(), my_event_ids: Vec::new() },
    );
    let mut loud = event("$a", "@bob:hs");
    loud.reactions = Some(reactions);
    full.messages.events.insert(key(), vec![loud]);
    assert!(!full.messages.counts_one_more(&key(), "$a", "👍"));
}

#[test]
fn messages_are_edited_and_redacted() {
    let mut app = app_in_room();
    app.messages.selection = Some("$b".to_owned());
    app.start_edit_selected_message();
    assert!(matches!(&app.mode, Mode::Editing { event_id } if event_id == "$b"));
    assert_eq!(app.input.buffer, "hi");
    let change = app.send_edit("$b", "hello").unwrap();
    assert_eq!(change.request.body.text().as_deref(), Some(r#"{"body":"hello"}"#));
    app.apply_edit(&change.key, "$b", "hello", Ok("$edit".to_owned()));
    assert_eq!(kept(&app, "$b").body.as_deref(), Some("hello"));
    let change = app.redact_selected_message().unwrap();
    assert_eq!(change.request.method, Method::Delete);
    app.apply_redaction(&change.key, "$b", Ok("$red".to_owned()));
    assert!(kept(&app, "$b").redacted);
}

#[test]
fn an_event_is_told_in_one_line() {
    let mut e = event("$a", "@bob:hs");
    assert_eq!(describe_event(&e, "Bob", "12:00:00"), "12:00:00 Bob $a hi");
    e.body = Some("x".repeat(121));
    e.relates_to = Some(read_json("{}").unwrap());
    e.redaction_event_id = Some("$r".to_owned());
    assert_eq!(
        describe_event(&e, "Bob", "12:00:00"),
        format!("12:00:00 Bob $a {} related redacted_by=$r", "x".repeat(120))
    );
    let mut app = app_in_room();
    app.event_read(Ok((event("$a", "@bob:hs"), "Bob".to_owned())));
    assert!(app.status.text(false).ends_with(" Bob $a hi"));
}

#[test]
fn an_image_is_shown_over_the_panels() {
    let mut app = app_in_room();
    assert!(app.open_selected_media_preview(0).is_none());
    assert_eq!(app.status.text(false), "select an image message first");
    app.messages.selection = Some("$a".to_owned());
    assert!(app.open_selected_media_preview(0).is_none());
    assert_eq!(app.status.text(false), "selected message has no image");
    let mut image = event("$a", "@bob:hs");
    image.content = Some(
        read_json(r#"{ "msgtype": "m.image", "body": "p.png", "url": "mxc://hs/p" }"#).unwrap(),
    );
    app.messages.events.insert(key(), vec![image]);
    let (media, encrypted) = app.open_selected_media_preview(7).unwrap();
    assert_eq!(media.mxc_url, "mxc://hs/p");
    assert!(!encrypted);
    assert_eq!(app.panels.preview_refresh_after, 5_007);
    assert!(matches!(app.mode, Mode::Popup(PopupKind::MediaPreview)));
}

#[test]
fn the_line_is_edited_at_the_cursor() {
    let mut input = InputState::new();
    input.insert_str("héllo wörld");
    assert_eq!(input.cursor, 13);
    input.move_cursor_word_left();
    assert_eq!(input.cursor, 7);
    input.insert_char('x');
    input.backspace();
    assert_eq!(input.buffer, "héllo wörld");
    input.delete_word_back();
    assert_eq!(input.buffer, "wörld");
    input.move_cursor_to_end();
    input.move_cursor_left();
    input.delete_forward();
    assert_eq!(input.buffer, "wörl");
    input.move_cursor_to_start();
    input.move_cursor_right();
    input.move_cursor_right();
    assert_eq!(input.cursor, 3, "a character may take two bytes");
    assert_eq!(input.take_line(), "wörl");
    assert!(input.buffer.is_empty());
}

#[test]
fn panels_are_shown_and_hidden() {
    let mut app = app_in_room();
    assert!(app.rooms_panel_visible());
    app.toggle_rooms_panel();
    assert!(!app.rooms_panel_visible());
    app.adjust_input_lines(1);
    assert_eq!(app.display.input_lines, 4);
    app.handle_paste("two\nlines");
    assert!(app.input.buffer.starts_with("two"));
    run(&mut app, Command::Whoami);
    assert_eq!(app.status.text(false), "Matrix ID: @me:hs; Display Name: unknown");
    run(&mut app, Command::Whereami);
    assert!(matches!(app.mode, Mode::Popup(PopupKind::RoomInfo)));
    app.config_saved(Some("disk full".to_owned()));
    assert_eq!(app.status.text(false), "save failed: disk full");
    app.config_saved(None);
    assert_eq!(app.status.text(false), "config saved to /tmp/axon/config.toml");
}
