//! Words of the input line and their completion.

use axon_tui::api::client::AxonClient;
use axon_tui::api::dto::{AccountDto, AccountState, BackupSnapshot, RoomDto};
use axon_tui::app::choice::{cycle_index, next_match_index, relative_room_index, RoomFilter};
use axon_tui::app::emoji::{describe_matches, emoji_cycle_status, emoji_matches, matches_among, EmojiChoice};
use axon_tui::app::room_target::RoomTargetResolution;
use axon_tui::app::state::{App, DisplayOptions, MessageDensity, TimeFormat, TuiConfig};
use axon_tui::app::words::{
    case_insensitive_suffix, filter_argument_candidates, incomplete_matrix_room_name,
    longest_common_prefix, matrix_room_local_name, parse_leading_path_token, quote_path_for_send,
    room_alias_with_hash, room_target_prefix, send_path_candidates, send_path_completion_token,
    send_path_dir_and_partial, send_target_prefix, slash_command_candidates, slash_command_prefix,
    target_after_command_name, DirEntry, SlashCommand,
};

fn config() -> TuiConfig {
    TuiConfig {
        path: "/tmp/axon/config.toml".to_owned(),
        created_default: false,
        display: DisplayOptions {
            show_state_events: false,
            debug: false,
            search_wrap: true,
            accept_incoming_verification: true,
            confirm_logout: true,
            message_density: MessageDensity::Dense,
            time_format: TimeFormat::H24,
            accounts_panel_width: 16,
            rooms_panel_width_adj: 0,
            input_lines: 3,
        },
        pinned_rooms: Vec::new(),
        room_filter: String::new(),
        room_sort: String::new(),
    }
}

fn app() -> App {
    App::new(AxonClient::new("http://127.0.0.1:8080".to_owned(), None), None, config(), 0)
}

fn room(n: u128, room_id: &str, name: &str, alias: Option<&str>) -> RoomDto {
    RoomDto {
        account_id: n,
        account_user_id: Some("@me:hs".to_owned()),
        room_id: room_id.to_owned(),
        name: Some(name.to_owned()),
        topic: None,
        avatar_url: None,
        canonical_alias: alias.map(str::to_owned),
        last_activity_ts: 0,
        last_event_id: None,
    }
}

fn account(n: u128, user: &str) -> AccountDto {
    AccountDto {
        account_id: n,
        user_id: user.to_owned(),
        state: AccountState::Active,
        device_id: None,
        verified: Some(true),
        backup: BackupSnapshot::default(),
    }
}

fn entry(name: &str, is_dir: bool) -> DirEntry {
    DirEntry { name: name.to_owned(), is_dir }
}

#[test]
fn send_target_prefix_requires_whitespace_after_command() {
    assert_eq!(send_target_prefix("/send"), Some(""));
    assert_eq!(send_target_prefix("/send "), Some(""));
    assert_eq!(send_target_prefix("/send photo.png"), Some("photo.png"));
    assert_eq!(send_target_prefix("/sendx"), None);
    assert_eq!(send_target_prefix("/room foo"), None);
}

#[test]
fn completion_token_stops_once_caption_starts() {
    assert_eq!(send_path_completion_token("photo.png"), Some("photo.png"));
    assert_eq!(send_path_completion_token("photo.png caption"), None);
    // Still inside an unterminated quote: whitespace is part of the token.
    assert_eq!(send_path_completion_token("'my file"), Some("'my file"));
    // Quote closed: whatever follows is caption territory.
    assert_eq!(send_path_completion_token("'my file' caption"), None);
    // A backslash-escaped space is still part of the path.
    assert_eq!(send_path_completion_token("My\\ File"), Some("My\\ File"));
    assert_eq!(send_path_completion_token("My\\ File caption"), None);
}

#[test]
fn splits_directory_and_basename() {
    let (raw_prefix, fs_dir, basename) = send_path_dir_and_partial("photo");
    assert_eq!(raw_prefix, "");
    assert!(!fs_dir.under_home);
    assert_eq!(fs_dir.path, ".");
    assert_eq!(basename, "photo");

    let (raw_prefix, _fs_dir, basename) = send_path_dir_and_partial("/tmp/pho");
    assert_eq!(raw_prefix, "/tmp/");
    assert_eq!(basename, "pho");

    let (raw_prefix, _fs_dir, basename) = send_path_dir_and_partial("/tmp/");
    assert_eq!(raw_prefix, "/tmp/");
    assert_eq!(basename, "");

    let (_, fs_dir, _) = send_path_dir_and_partial("~/pics/a");
    assert!(fs_dir.under_home);
    assert_eq!(fs_dir.path, "pics/");
}

#[test]
fn lists_matching_filesystem_entries_with_trailing_slash_on_dirs() {
    let entries = vec![
        entry("photo.png", false),
        entry("photo.jpg", false),
        entry("photos", true),
        entry("other.txt", false),
    ];
    let base = "/tmp/axon-tui-send-completion-test-list";
    let candidates = send_path_candidates(&format!("{base}/pho"), &entries);
    assert_eq!(
        candidates,
        vec![
            format!("{base}/photo.jpg"),
            format!("{base}/photo.png"),
            format!("{base}/photos/"),
        ]
    );
}

#[test]
fn quoting_round_trips_through_the_shared_tokenizer() {
    for path in [
        "photo.png",
        "My Photo.png",
        "it's a photo.png",
        "quote\".png",
        "back\\slash.png",
    ] {
        let quoted = quote_path_for_send(path);
        let (parsed, caption) = parse_leading_path_token(&quoted);
        assert_eq!(parsed, path, "round-trip failed for {path:?}");
        assert_eq!(caption, None);
    }
}

#[test]
fn a_caption_follows_the_path() {
    assert_eq!(
        parse_leading_path_token("'my file.png'  a caption "),
        ("my file.png".to_owned(), Some("a caption".to_owned()))
    );
    assert_eq!(parse_leading_path_token("a\\ b c"), ("a b".to_owned(), Some("c".to_owned())));
}

#[test]
fn prefixes_of_commands() {
    assert_eq!(slash_command_prefix("/ro"), Some("ro"));
    assert_eq!(slash_command_prefix("/room x"), None);
    assert_eq!(slash_command_prefix("room"), None);
    assert_eq!(room_target_prefix("/room foo"), Some("foo"));
    let commands = [
        SlashCommand { name: "/room", takes_argument: true },
        SlashCommand { name: "/refresh", takes_argument: false },
        SlashCommand { name: "/quit", takes_argument: false },
    ];
    let found: Vec<&str> =
        slash_command_candidates(&commands, "r").iter().map(|c| c.name).collect();
    assert_eq!(found, vec!["/room", "/refresh"]);
    assert!(!filter_argument_candidates("").is_empty());
}

#[test]
fn texts_still_to_type() {
    let all = vec!["alpha".to_owned(), "alpine".to_owned()];
    assert_eq!(longest_common_prefix(&all).as_deref(), Some("alp"));
    assert_eq!(longest_common_prefix(&Vec::new()), None);
    assert_eq!(case_insensitive_suffix("Alpha", "al"), Some("pha"));
    assert_eq!(case_insensitive_suffix("Beta", "al"), None);
}

#[test]
fn names_of_rooms() {
    assert_eq!(matrix_room_local_name("#ops:localhost"), Some("ops"));
    assert_eq!(matrix_room_local_name("ops"), None);
    assert_eq!(incomplete_matrix_room_name("#ops"), Some("ops"));
    assert_eq!(room_alias_with_hash("ops:localhost").as_deref(), Some("#ops:localhost"));
}

#[test]
fn steps_through_lists_turn_round() {
    assert_eq!(cycle_index(0, 3, true), 2);
    assert_eq!(cycle_index(2, 3, false), 0);
    assert_eq!(cycle_index(cycle_index(1, 3, false), 3, true), 1);
    assert_eq!(relative_room_index(0, 4, -1), 3);
    assert_eq!(relative_room_index(3, 4, 1), 0);
    assert_eq!(relative_room_index(5, 0, 1), 0);
    assert_eq!(next_match_index(&[1, 4, 7], Some(4), true, true), Some(7));
    assert_eq!(next_match_index(&[1, 4, 7], Some(7), true, true), Some(1));
    assert_eq!(next_match_index(&[1, 4, 7], Some(7), true, false), None);
}

#[test]
fn emojis_are_found_by_name() {
    let table = vec![
        EmojiChoice { text: "👍", name: "thumbs up" },
        EmojiChoice { text: "👎", name: "thumbs down" },
    ];
    let up = matches_among(&table, "UP");
    assert_eq!(up.len(), 1);
    assert_eq!(describe_matches("UP", &up), "👍 thumbs up - Enter to send");
    let both = matches_among(&table, "thumbs");
    assert_eq!(
        describe_matches("thumbs", &both),
        "matches: 👍 thumbs up, 👎 thumbs down - Tab/Shift-Tab to select"
    );
    assert_eq!(
        emoji_cycle_status(1, &both),
        "[2/2] 👎 thumbs down - Tab/Shift-Tab to cycle, Enter to send"
    );
    assert_eq!(describe_matches("x", &Vec::new()), "no emoji matches 'x'");
    assert!(emoji_matches("").is_empty());
    assert!(emoji_matches("thumbs up").iter().any(|e| e.text == "👍"));
}

#[test]
fn a_room_is_completed_and_resolved() {
    let mut app = app();
    app.accounts.accounts = vec![account(1, "@me:hs")];
    app.rooms.rooms = vec![
        room(1, "!a:hs", "Ops", Some("#ops:hs")),
        room(1, "!b:hs", "Garden", Some("#garden:hs")),
    ];
    app.input.set("/room gar".to_owned());
    app.complete_room_input(false);
    assert_eq!(app.input.buffer, "/room #garden:hs");
    assert!(matches!(app.resolve_room_target("ops"), RoomTargetResolution::Match(0)));
    assert!(matches!(app.resolve_room_target("nowhere"), RoomTargetResolution::Missing));
}

#[test]
fn an_account_is_completed() {
    let mut app = app();
    app.accounts.accounts = vec![account(1, "@alice:hs"), account(2, "@bob:hs")];
    app.accounts.client_visible = vec![account(1, "@alice:hs"), account(2, "@bob:hs")];
    app.input.set("/logout bo".to_owned());
    assert!(app.complete_logout_command_input(false));
    assert!(app.input.buffer.starts_with("/logout "));
    assert!(app.input.buffer.contains("bob"));
    app.input.set("hello".to_owned());
    assert!(!app.complete_logout_command_input(false));
}

#[test]
fn a_path_is_completed() {
    let mut app = app();
    app.input.set("/send pho".to_owned());
    assert!(app.send_path_to_list().is_some());
    let entries = vec![entry("photo one.png", false), entry("other", true)];
    assert!(app.complete_send_command_input(&entries, false));
    assert_eq!(app.input.buffer, format!("/send {}", quote_path_for_send("photo one.png")));
}

#[test]
fn a_caption_is_left_to_the_other_completers() {
    let mut app = app();
    app.input.set("/send photo.png a capt".to_owned());
    assert_eq!(app.send_path_to_list(), None);
    let status = app.status.text(true);
    assert!(!app.complete_send_command_input(&vec![entry("photo.png", false)], false));
    assert_eq!(app.input.buffer, "/send photo.png a capt");
    assert_eq!(app.status.text(true), status);
}

#[test]
fn a_target_is_trimmed() {
    assert_eq!(target_after_command_name(""), Some(""));
    assert_eq!(target_after_command_name(" alice "), Some("alice"));
    assert_eq!(target_after_command_name("y"), None);
}

#[test]
fn capitals_do_not_matter_to_a_filter() {
    let mut app = App::new(
        AxonClient::new("http://127.0.0.1:1".to_owned(), None),
        None,
        config(),
        0,
    );
    app.set_room_filter(RoomFilter::parse(" UNREAD "));
    assert_eq!(app.status.text(false), "filter: Unread");
}
