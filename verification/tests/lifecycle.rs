//! Accounts: logging in and out, recovery, backup and verification.

use axon_tui::api::client::AxonClient;
use axon_tui::api::dto::{AccountDto, AccountState, BackupAction, BackupSnapshot, EmojiDto, FlowDto, FlowStage, VerificationFrameDto};
use axon_tui::api::live::VerificationFrameKind;
use axon_tui::app::lifecycle::{
    backup_enable_success_status, lifecycle_login_status, lifecycle_success_status,
    recovery_success_status, should_offer_post_login_recovery, split_words, LifecycleTask,
};
use axon_tui::app::outcome::{LifecycleOutcome, LifecycleStep};
use axon_tui::app::state::{
    App, DisplayOptions, MessageDensity, Mode, RecoveryOrigin, TimeFormat, TuiConfig,
};
use axon_tui::app::targets::{
    canonical_logout_target, matrix_user_id_error, matrix_user_localpart, normalize_homeserver_url,
    normalize_matrix_user_id, resolve_account_target, AccountResolution, Eligible,
};
use axon_tui::app::verification::VerificationStage;

fn config() -> TuiConfig {
    TuiConfig {
        path: "/tmp/axon/config.toml".to_owned(),
        created_default: false,
        display: DisplayOptions {
            show_state_events: false,
            debug: false,
            search_wrap: true,
            accept_incoming_verification: true,
            confirm_logout: true,
            message_density: MessageDensity::Dense,
            time_format: TimeFormat::H24,
            accounts_panel_width: 16,
            rooms_panel_width_adj: 0,
            input_lines: 3,
        },
        pinned_rooms: Vec::new(),
        room_filter: String::new(),
        room_sort: String::new(),
    }
}

fn app() -> App {
    App::new(AxonClient::new("http://127.0.0.1:8080".to_owned(), None), None, config(), 0)
}

fn account(n: u128, user: &str, state: AccountState) -> AccountDto {
    AccountDto {
        account_id: n,
        user_id: user.to_owned(),
        state,
        device_id: None,
        verified: Some(false),
        backup: BackupSnapshot::default(),
    }
}

#[test]
fn normalizes_supported_matrix_username_forms() {
    assert_eq!(normalize_matrix_user_id("@alice:example.com").unwrap(), "@alice:example.com");
    assert_eq!(normalize_matrix_user_id("alice:example.com").unwrap(), "@alice:example.com");
    assert_eq!(normalize_matrix_user_id("alice@example.com").unwrap(), "@alice:example.com");
}

#[test]
fn rejects_login_localpart_without_server() {
    assert!(normalize_matrix_user_id("alice").is_err());
    assert!(normalize_matrix_user_id("@alice").is_err());
}

#[test]
fn recovery_failure_is_queued_for_overflow_handling() {
    let mut app = app();
    app.handle_lifecycle_outcome(LifecycleOutcome::Recover {
        user_id: "@alice:example.com".to_owned(),
        result: Err("the recovery key was rejected by Axon".to_owned()),
    });
    assert_eq!(
        app.session.pending_command_response.as_deref(),
        Some("recovery failed for @alice:example.com: the recovery key was rejected by Axon")
    );
}

#[test]
fn logout_ready_keeps_only_active_accounts_in_pane() {
    let mut app = app();
    app.handle_lifecycle_outcome(LifecycleOutcome::LogoutReady {
        target: None,
        result: Ok(vec![
            account(1, "@alice:example.com", AccountState::Active),
            account(2, "@bob:example.com", AccountState::Deactivated),
            account(3, "@carol:example.com", AccountState::Active),
        ]),
    });
    let shown: Vec<&str> = app.accounts.accounts.iter().map(|a| a.user_id.as_str()).collect();
    assert_eq!(shown, ["@alice:example.com", "@carol:example.com"]);
    assert!(app.accounts.accounts.iter().all(|a| a.state == AccountState::Active));
}

#[test]
fn login_status_distinguishes_no_op_from_fresh_login() {
    assert_eq!(
        lifecycle_login_status(false, "@alice:example.com", None).text(false),
        "logged in: @alice:example.com"
    );
    assert_eq!(
        lifecycle_login_status(true, "@alice:example.com", None).text(false),
        "already logged in: @alice:example.com (no changes)"
    );
    assert_eq!(
        lifecycle_login_status(true, "@alice:example.com", Some("room refresh failed".to_owned()))
            .text(false),
        "already logged in: @alice:example.com (no changes); room refresh failed"
    );
}

#[test]
fn post_login_recovery_is_offered_only_after_changed_unverified_login() {
    assert!(should_offer_post_login_recovery(false, Some(false)));
    assert!(should_offer_post_login_recovery(false, None));
    assert!(!should_offer_post_login_recovery(false, Some(true)));
    assert!(!should_offer_post_login_recovery(true, Some(false)));
}

#[test]
fn recovery_success_reports_derived_verification_state() {
    assert_eq!(
        recovery_success_status("@alice:example.com", Some(true), None).text(false),
        "recovered encryption keys: @alice:example.com (device verified)"
    );
    assert_eq!(
        recovery_success_status("@alice:example.com", Some(false), None).text(false),
        "recovered encryption keys: @alice:example.com (device remains unverified)"
    );
}

#[test]
fn backup_enable_success_reports_action() {
    assert_eq!(
        backup_enable_success_status("@alice:example.com", BackupAction::Enabled, None)
            .text(false),
        "enabled megolm backup: @alice:example.com"
    );
    assert_eq!(
        backup_enable_success_status("@alice:example.com", BackupAction::Joined, None).text(false),
        "joined existing megolm backup: @alice:example.com"
    );
    assert_eq!(
        backup_enable_success_status("@alice:example.com", BackupAction::ExportPending, None)
            .text(false),
        "megolm backup export pending for @alice:example.com; retry /backup enable"
    );
    assert_eq!(
        backup_enable_success_status("@alice:example.com", BackupAction::AlreadyUploading, None)
            .text(false),
        "already uploading megolm keys to backup: @alice:example.com"
    );
}

#[test]
fn backup_enable_ready_refuses_unverified_account() {
    let mut app = app();
    app.handle_lifecycle_outcome(LifecycleOutcome::BackupEnableReady {
        target: None,
        result: Ok(vec![account(1, "@alice:example.com", AccountState::Active)]),
    });
    assert!(app.mode.is_compose());
    assert!(app
        .status
        .text(false)
        .contains("account is not verified; recover or verify first"));

    let mut verified = account(1, "@alice:example.com", AccountState::Active);
    verified.verified = Some(true);
    app.handle_lifecycle_outcome(LifecycleOutcome::BackupEnableReady {
        target: None,
        result: Ok(vec![verified]),
    });
    assert!(matches!(
        app.mode,
        Mode::RecoveryKey { origin: RecoveryOrigin::BackupEnable, .. }
    ));
    assert!(app.status.text(false).contains("kicks upload only"));
}

#[test]
fn backup_enable_failure_is_queued_for_overflow_handling() {
    let mut app = app();
    app.handle_lifecycle_outcome(LifecycleOutcome::BackupEnable {
        user_id: "@alice:example.com".to_owned(),
        result: Err("conflict: account is not verified; recover or verify first".to_owned()),
    });
    assert_eq!(
        app.session.pending_command_response.as_deref(),
        Some(
            "backup enable failed for @alice:example.com: conflict: account is not verified; recover or verify first"
        )
    );
}

#[test]
fn normalizes_homeserver_url_scheme() {
    // Bare host gains https://; an explicit scheme is preserved so loopback
    // dev servers can stay on http://.
    assert_eq!(normalize_homeserver_url("homeserver.example.org"), "https://homeserver.example.org");
    assert_eq!(normalize_homeserver_url("  matrix.example.org  "), "https://matrix.example.org");
    assert_eq!(normalize_homeserver_url("https://matrix.example.org"), "https://matrix.example.org");
    assert_eq!(normalize_homeserver_url("http://localhost:8008"), "http://localhost:8008");
    assert_eq!(normalize_homeserver_url("HTTP://localhost:8008"), "HTTP://localhost:8008");
}

#[test]
fn canonicalizes_logout_targets_with_server_information() {
    assert_eq!(canonical_logout_target("@alice:example.com").as_deref(), Some("@alice:example.com"));
    assert_eq!(canonical_logout_target("alice:example.com").as_deref(), Some("@alice:example.com"));
    assert_eq!(canonical_logout_target("alice@example.com").as_deref(), Some("@alice:example.com"));
    assert_eq!(canonical_logout_target("alice"), None);
    assert_eq!(canonical_logout_target("@alice"), None);
}

#[test]
fn a_login_asks_for_what_is_missing() {
    let mut app = app();
    app.session.wired = true;
    assert!(matches!(app.start_login(None, None, None), LifecycleTask::Nothing));
    assert!(matches!(app.mode, Mode::LoginUsername));
    app.input.set("alice:example.com matrix.example.com".to_owned());
    app.submit_login_username();
    let (username, homeserver) = match std::mem::replace(&mut app.mode, Mode::Compose) {
        Mode::LoginPassword { username, homeserver } => (username, homeserver),
        other => panic!("{other:?}"),
    };
    assert_eq!(username, "@alice:example.com");
    app.input.set("secret".to_owned());
    match app.submit_login_password(username, homeserver) {
        LifecycleTask::Login { username, password, .. } => {
            assert_eq!(username, "@alice:example.com");
            assert_eq!(password, "secret");
        }
        other => panic!("{other:?}"),
    }
    assert!(app.busy.lifecycle);
    assert_eq!(app.status.text(false), "logging in @alice:example.com…");
    assert!(matches!(app.start_logout(None), LifecycleTask::Nothing));

    let mut app2 = App::new(AxonClient::new("http://h".to_owned(), None), None, config(), 0);
    app2.start_login(Some("alice".to_owned()), None, None);
    assert_eq!(app2.status.text(false), matrix_user_id_error());
}

#[test]
fn an_account_is_found_by_its_name() {
    let accounts = vec![
        account(1, "@alice:example.com", AccountState::Active),
        account(2, "@alice:example.org", AccountState::Active),
        account(4, "@carol:example.com", AccountState::Active),
        account(3, "@bob:example.com", AccountState::Deactivated),
    ];
    assert!(matches!(
        resolve_account_target(&accounts, Eligible::Active, Some("carol")),
        AccountResolution::Match(a) if a.account_id == 4
    ));
    assert!(matches!(
        resolve_account_target(&accounts, Eligible::Active, Some("@alice")),
        AccountResolution::Ambiguous(options) if options.len() == 2
    ));
    assert!(matches!(
        resolve_account_target(&accounts, Eligible::Active, Some("bob")),
        AccountResolution::Missing
    ));
    assert!(matches!(
        resolve_account_target(&accounts, Eligible::NotDeleting, Some("bob")),
        AccountResolution::Match(a) if a.account_id == 3
    ));
    assert_eq!(matrix_user_localpart("@alice:example.com"), Some("alice"));
}

#[test]
fn a_sent_message_takes_the_id_of_the_server() {
    let mut app = app();
    let step = app.handle_lifecycle_outcome(LifecycleOutcome::Logout {
        user_id: "@alice:example.com".to_owned(),
        result: Err("no".to_owned()),
    });
    assert!(matches!(step, LifecycleStep::Done(tasks) if tasks.is_empty()));
    assert_eq!(app.status.text(false), "logout failed for @alice:example.com: no");
    assert_eq!(
        lifecycle_success_status("logged out", "@a:b", None).text(false),
        "logged out: @a:b"
    );
    assert_eq!(split_words("  a  b "), vec!["a".to_owned(), "b".to_owned()]);
}

#[test]
fn a_verification_goes_through_its_stages() {
    let mut app = app();
    app.session.wired = true;
    app.accounts.accounts = vec![account(1, "@alice:example.com", AccountState::Active)];
    assert!(matches!(app.start_verification(Some("  ".to_owned())), LifecycleTask::Nothing));
    match app.start_verification(Some("DEVICE".to_owned())) {
        LifecycleTask::StartVerification { account_id, user_id, device_id } => {
            assert_eq!(account_id, 1);
            assert_eq!(user_id, None);
            assert_eq!(device_id.as_deref(), Some("DEVICE"));
        }
        other => panic!("{other:?}"),
    }
    assert!(matches!(app.mode, Mode::Verification));
    let mut flow = app.verification.take().unwrap();
    flow.flow_id = Some("txn".to_owned());
    assert!(flow.matches(1, "txn"));
    flow.apply_frame(
        VerificationFrameKind::Sas,
        &VerificationFrameDto {
            flow_id: "txn".to_owned(),
            user_id: String::new(),
            device_id: None,
            emoji: Some(vec![EmojiDto { symbol: "🐶".to_owned(), description: "Dog".to_owned() }]),
            decimals: Some([1, 2, 3]),
            reason: None,
        },
    );
    assert_eq!(flow.stage, VerificationStage::Compare);
    flow.stage = VerificationStage::Confirming;
    let told = FlowDto {
        flow_id: "txn".to_owned(),
        user_id: String::new(),
        device_id: None,
        stage: FlowStage::KeysExchanged,
        emoji: None,
        decimals: None,
        cancel_reason: None,
    };
    flow.apply_flow(&told);
    assert_eq!(flow.stage, VerificationStage::Confirming, "what was confirmed stays so");
    let done = FlowDto { stage: FlowStage::Done, ..told };
    flow.apply_flow(&done);
    assert!(flow.stage.is_terminal());
}

#[test]
fn an_ended_verification_stays_ended() {
    let mut app = app();
    app.session.wired = true;
    app.accounts.accounts = vec![account(1, "@alice:example.com", AccountState::Active)];
    app.start_verification(Some("DEVICE".to_owned()));
    let requested = VerificationFrameDto {
        flow_id: "txn".to_owned(),
        user_id: "@other:hs".to_owned(),
        device_id: Some("OTHER".to_owned()),
        emoji: None,
        decimals: None,
        reason: None,
    };
    let flow = app.verification.as_mut().unwrap();
    flow.flow_id = Some("txn".to_owned());
    flow.stage = VerificationStage::Done;
    flow.apply_frame(VerificationFrameKind::Requested, &requested);
    assert_eq!(flow.stage, VerificationStage::Done);
    assert_eq!(flow.device_id, "DEVICE", "what is known of the peer stays");

    flow.stage = VerificationStage::Waiting;
    app.open_incoming_verification(1, "new".to_owned(), "@x:hs".to_owned(), "D2".to_owned());
    assert_eq!(app.verification.as_ref().unwrap().flow_id.as_deref(), Some("txn"));
    let status = app.status.text(true);
    app.end_active_verification(1, Some("old"), "stale".to_owned());
    assert!(!app.verification.as_ref().unwrap().stage.is_terminal());
    assert_eq!(app.status.text(true), status, "another flow's failure is not told");
    app.end_active_verification(1, Some("txn"), "over".to_owned());
    assert_eq!(app.status.text(true), "over");
    assert!(app.verification.as_ref().unwrap().stage.is_terminal());
    app.open_incoming_verification(1, "new".to_owned(), "@x:hs".to_owned(), "D2".to_owned());
    assert_eq!(app.verification.as_ref().unwrap().flow_id.as_deref(), Some("new"));
}
