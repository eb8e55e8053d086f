//! The wire side: values, requests, replies and live frames.

use axon_tui::api::client::{
    error_message, media_refusal, path_segment, read_empty_reply, read_list_reply, read_reply,
    ApiError, AxonClient, Body, MediaDownload, Method, HTTP_REQUEST_TIMEOUT, LIFECYCLE_TIMEOUT,
    MAX_MEDIA_BYTES, MEDIA_TIMEOUT, MESSAGE_MUTATION_TIMEOUT, SendRelation,
};
use axon_tui::api::dto::{
    AccountDto, AccountState, ApiResponse, BackupAction, BackupSnapshot, BackupState,
    DeviceListDto, EnableBackupResponse, EventDto, FlowDto, FlowStage, MemberDto, RecoveryState,
    RoomDto, SearchPage, StagedUploadDto, StartVerifyResponse, TimelinePage, Wire,
};
use axon_tui::api::live::{
    decode_ws_frame, next_live_reconnect_backoff, LinkAction, LinkEvent, LiveFrame, LiveLink,
    VerificationFrameKind, WsEnvelope,
};
use axon_tui::json::{read_json, Json, JsonNumber};

const ACCOUNT: u128 = 0xaaaaaaaa_aaaa_aaaa_aaaa_aaaaaaaaaaaa;

fn event(text: &str) -> EventDto {
    EventDto::from_json(&read_json(text).unwrap()).unwrap()
}

fn event_with_relation(relates_to: &str) -> EventDto {
    event(&format!(
        r#"{{
            "account_id": "aaaaaaaa-aaaa-aaaa-aaaa-aaaaaaaaaaaa",
            "event_id": "$reply:localhost",
            "room_id": "!room:localhost",
            "sender": "@alice:localhost",
            "origin_ts": 1234,
            "arrival_order": 1234,
            "type": "m.room.message",
            "content": {{ "msgtype": "m.text", "body": "hi" }},
            "body": "hi",
            "relates_to": {relates_to},
            "redacted": false,
            "redaction_event_id": null
        }}"#
    ))
}

#[test]
fn deserializes_room_response() {
    let body = r##"{
            "data": [{
                "account_id": "aaaaaaaa-aaaa-aaaa-aaaa-aaaaaaaaaaaa",
                "account_user_id": "@alice:localhost",
                "room_id": "!room:localhost",
                "name": "Ops",
                "topic": null,
                "avatar_url": "mxc://localhost/avatar",
                "canonical_alias": "#ops:localhost",
                "last_activity_ts": 1234,
                "last_event_id": "$event:localhost"
            }]
        }"##;
    let rooms = ApiResponse::<RoomDto>::read_list(body, None).unwrap().data;
    assert_eq!(rooms[0].title(), "Ops");
    assert_eq!(rooms[0].canonical_alias.as_deref(), Some("#ops:localhost"));
    assert_eq!(rooms[0].account_user_id.as_deref(), Some("@alice:localhost"));
}

#[test]
fn deserializes_room_response_without_account_user_id() {
    let body = r##"{
            "data": [{
                "account_id": "aaaaaaaa-aaaa-aaaa-aaaa-aaaaaaaaaaaa",
                "room_id": "!room:localhost",
                "name": "Ops",
                "topic": null,
                "avatar_url": "mxc://localhost/avatar",
                "canonical_alias": "#ops:localhost",
                "last_activity_ts": 1234,
                "last_event_id": "$event:localhost"
            }]
        }"##;
    let rooms = ApiResponse::<RoomDto>::read_list(body, None).unwrap().data;
    assert_eq!(rooms[0].title(), "Ops");
    assert_eq!(rooms[0].account_user_id, None);
}

#[test]
fn deserializes_timeline_response() {
    let body = r#"{
            "data": {
                "events": [{
                    "account_id": "aaaaaaaa-aaaa-aaaa-aaaa-aaaaaaaaaaaa",
                    "event_id": "$event:localhost",
                    "room_id": "!room:localhost",
                    "sender": "@alice:localhost",
                    "state_key": null,
                    "origin_ts": 1234,
                    "arrival_order": 1234,
                    "type": "m.room.message",
                    "content": { "msgtype": "m.text", "body": "hello" },
                    "body": "hello",
                    "relates_to": null,
                    "redacted": false,
                    "redaction_event_id": null
                }],
                "next_cursor": "MTAuMQ"
            }
        }"#;
    let page = ApiResponse::<TimelinePage>::read(body, None).unwrap().data;
    assert_eq!(page.events[0].display_body(), "hello");
    assert_eq!(page.events[0].arrival_order, 1234);
    assert_eq!(page.next_cursor.as_deref(), Some("MTAuMQ"));
}

#[test]
fn event_without_arrival_order_is_rejected() {
    let body = r#"{
            "account_id": "aaaaaaaa-aaaa-aaaa-aaaa-aaaaaaaaaaaa",
            "event_id": "$event:localhost",
            "room_id": "!room:localhost",
            "sender": "@alice:localhost",
            "state_key": null,
            "origin_ts": 1234,
            "type": "m.room.message",
            "content": { "msgtype": "m.text", "body": "hello" },
            "body": "hello",
            "relates_to": null,
            "redacted": false,
            "redaction_event_id": null
        }"#;
    let err = EventDto::from_json(&read_json(body).unwrap()).unwrap_err();
    assert!(
        err.contains("arrival_order"),
        "expected a missing-field error naming arrival_order, got: {err}"
    );
}

#[test]
fn formatted_body_requires_matrix_html_format() {
    let body = r#"{
            "data": {
                "events": [{
                    "account_id": "aaaaaaaa-aaaa-aaaa-aaaa-aaaaaaaaaaaa",
                    "event_id": "$event:localhost",
                    "room_id": "!room:localhost",
                    "sender": "@alice:localhost",
                    "origin_ts": 1234,
                    "arrival_order": 1234,
                    "type": "m.room.message",
                    "content": {
                        "msgtype": "m.text",
                        "body": "hello",
                        "format": "org.matrix.custom.html",
                        "formatted_body": "<strong>hello</strong>"
                    },
                    "body": "hello",
                    "relates_to": null,
                    "redacted": false,
                    "redaction_event_id": null
                }],
                "next_cursor": null
            }
        }"#;
    let page = ApiResponse::<TimelinePage>::read(body, None).unwrap().data;
    assert_eq!(page.events[0].formatted_body(), Some("<strong>hello</strong>"));
}

#[test]
fn edit_relation_preserves_formatted_new_content() {
    let event = event(
        r#"{
            "account_id": "aaaaaaaa-aaaa-aaaa-aaaa-aaaaaaaaaaaa",
            "event_id": "$edit:localhost",
            "room_id": "!room:localhost",
            "sender": "@alice:localhost",
            "origin_ts": 1234,
            "arrival_order": 1234,
            "type": "m.room.message",
            "content": {
                "msgtype": "m.text",
                "body": "* hello",
                "m.new_content": {
                    "msgtype": "m.text",
                    "body": "hello",
                    "format": "org.matrix.custom.html",
                    "formatted_body": "<strong>hello</strong>"
                }
            },
            "body": "* hello",
            "relates_to": {
                "rel_type": "m.replace",
                "event_id": "$original:localhost"
            },
            "redacted": false,
            "redaction_event_id": null
        }"#,
    );
    let (target, body, new_content) = event.edit_relation().expect("edit relation");
    assert_eq!(target, "$original:localhost");
    assert_eq!(body, "hello");
    assert_eq!(new_content.text_at("formatted_body"), Some("<strong>hello</strong>"));
}

#[test]
fn reply_relation_reads_in_reply_to_target() {
    let event =
        event_with_relation(r#"{ "m.in_reply_to": { "event_id": "$original:localhost" } }"#);
    assert_eq!(event.reply_relation(), Some("$original:localhost"));
    assert_eq!(event.thread_relation(), None);
}

#[test]
fn thread_member_is_not_reported_as_a_plain_reply() {
    let event = event_with_relation(
        r#"{
            "rel_type": "m.thread",
            "event_id": "$root:localhost",
            "m.in_reply_to": { "event_id": "$latest:localhost" }
        }"#,
    );
    assert_eq!(event.reply_relation(), None);
    assert_eq!(event.thread_relation(), Some("$root:localhost"));
}

#[test]
fn plain_message_has_no_reply_or_thread_relation() {
    let event = event_with_relation("null");
    assert_eq!(event.reply_relation(), None);
    assert_eq!(event.thread_relation(), None);
}

#[test]
fn image_accessors_share_encrypted_media_metadata() {
    let event = event(
        r#"{
            "account_id": "aaaaaaaa-aaaa-aaaa-aaaa-aaaaaaaaaaaa",
            "event_id": "$event:localhost",
            "room_id": "!room:localhost",
            "sender": "@alice:localhost",
            "origin_ts": 1234,
            "arrival_order": 1234,
            "type": "m.room.message",
            "content": {
                "msgtype": "m.image",
                "body": "A caption",
                "filename": "photo.jpg",
                "file": { "url": "mxc://localhost/photo" }
            },
            "body": "A caption",
            "relates_to": null,
            "redacted": false,
            "redaction_event_id": null
        }"#,
    );
    assert_eq!(event.image_mxc(), Some((ACCOUNT, "mxc://localhost/photo".to_owned())));
    assert!(event.image_is_encrypted());
    assert_eq!(event.image_filename().as_deref(), Some("photo.jpg"));
    assert_eq!(event.image_caption().as_deref(), Some("A caption"));
    assert_eq!(event.display_body(), "[image: photo.jpg]\nA caption");
}

#[test]
fn deserializes_websocket_frame() {
    let body = r#"{
            "type": "timeline.event",
            "account_id": "aaaaaaaa-aaaa-aaaa-aaaa-aaaaaaaaaaaa",
            "payload": {
                "account_id": "aaaaaaaa-aaaa-aaaa-aaaa-aaaaaaaaaaaa",
                "event_id": "$event:localhost",
                "room_id": "!room:localhost",
                "sender": "@alice:localhost",
                "state_key": "@alice:localhost",
                "origin_ts": 1234,
                "arrival_order": 1234,
                "type": "m.room.message",
                "content": { "msgtype": "m.text", "body": "hello" },
                "body": "hello",
                "relates_to": null,
                "redacted": false,
                "redaction_event_id": null
            }
        }"#;
    let frame = WsEnvelope::<EventDto>::from_json(&read_json(body).unwrap()).unwrap();
    assert_eq!(frame.kind, "timeline.event");
    assert_eq!(frame.payload.room_id, "!room:localhost");
    assert_eq!(frame.payload.state_key(), Some("@alice:localhost"));
}

#[test]
fn demux_routes_timeline_frame() {
    let body = r#"{
            "type": "timeline.event",
            "account_id": "aaaaaaaa-aaaa-aaaa-aaaa-aaaaaaaaaaaa",
            "payload": {
                "account_id": "aaaaaaaa-aaaa-aaaa-aaaa-aaaaaaaaaaaa",
                "event_id": "$e:localhost", "room_id": "!r:localhost",
                "sender": "@a:localhost", "origin_ts": 1, "arrival_order": 1,
                "type": "m.room.message",
                "content": null, "body": "hi", "relates_to": null,
                "redacted": false, "redaction_event_id": null
            }
        }"#;
    assert!(matches!(decode_ws_frame(body, None), Some(LiveFrame::Timeline(_))));
}

#[test]
fn demux_timeline_account_mismatch_is_protocol_error() {
    let body = r#"{
            "type": "timeline.event",
            "account_id": "aaaaaaaa-aaaa-aaaa-aaaa-aaaaaaaaaaaa",
            "payload": {
                "account_id": "bbbbbbbb-bbbb-bbbb-bbbb-bbbbbbbbbbbb",
                "event_id": "$e:localhost", "room_id": "!r:localhost",
                "sender": "@a:localhost", "origin_ts": 1, "arrival_order": 1,
                "type": "m.room.message",
                "content": null, "body": "hi", "relates_to": null,
                "redacted": false, "redaction_event_id": null
            }
        }"#;
    assert!(matches!(decode_ws_frame(body, None), Some(LiveFrame::ProtocolError(_))));
}

#[test]
fn demux_routes_verification_sas_frame() {
    let body = r#"{
            "type": "verification.sas",
            "account_id": "aaaaaaaa-aaaa-aaaa-aaaa-aaaaaaaaaaaa",
            "payload": {
                "flow_id": "txn1", "device_id": "DEV",
                "emoji": [{"symbol": "🐶", "description": "Dog"}],
                "decimals": [1, 2, 3]
            }
        }"#;
    match decode_ws_frame(body, None) {
        Some(LiveFrame::Verification(frame)) => {
            assert_eq!(frame.kind, VerificationFrameKind::Sas);
            assert_eq!(frame.payload.flow_id, "txn1");
            assert_eq!(frame.payload.decimals, Some([1, 2, 3]));
            assert_eq!(frame.payload.emoji.unwrap()[0].symbol, "🐶");
        }
        other => panic!("expected verification frame, got {other:?}"),
    }
}

#[test]
fn demux_routes_verification_cancelled_frame() {
    let body = r#"{
            "type": "verification.cancelled",
            "account_id": "aaaaaaaa-aaaa-aaaa-aaaa-aaaaaaaaaaaa",
            "payload": { "flow_id": "txn1", "device_id": "DEV", "reason": "user" }
        }"#;
    match decode_ws_frame(body, None) {
        Some(LiveFrame::Verification(frame)) => {
            assert_eq!(frame.kind, VerificationFrameKind::Cancelled);
            assert_eq!(frame.payload.reason.as_deref(), Some("user"));
        }
        other => panic!("expected cancelled frame, got {other:?}"),
    }
}

#[test]
fn demux_routes_sender_trust_violation_frame() {
    let body = r#"{
            "type": "sender_trust.violation",
            "account_id": "aaaaaaaa-aaaa-aaaa-aaaa-aaaaaaaaaaaa",
            "payload": { "user_id": "@mallory:localhost", "verification_violation": true }
        }"#;
    match decode_ws_frame(body, None) {
        Some(LiveFrame::SenderTrustViolation { payload, .. }) => {
            assert_eq!(payload.user_id, "@mallory:localhost");
            assert!(payload.verification_violation);
        }
        other => panic!("expected trust violation frame, got {other:?}"),
    }
}

#[test]
fn demux_routes_ephemeral_passthrough_frame() {
    let body = r#"{
            "type": "ephemeral.passthrough",
            "account_id": "aaaaaaaa-aaaa-aaaa-aaaa-aaaaaaaaaaaa",
            "payload": {
                "room_id": "!r:localhost",
                "event_type": "m.typing",
                "content": { "user_ids": ["@bob:localhost"] }
            }
        }"#;
    match decode_ws_frame(body, None) {
        Some(LiveFrame::Ephemeral { payload, .. }) => {
            assert_eq!(payload.room_id.as_deref(), Some("!r:localhost"));
            assert_eq!(payload.event_type, "m.typing");
            assert_eq!(
                payload.content,
                read_json(r#"{ "user_ids": ["@bob:localhost"] }"#).unwrap()
            );
        }
        other => panic!("expected ephemeral frame, got {other:?}"),
    }
}

#[test]
fn demux_ignores_unknown_frame_kind() {
    let body = r#"{
            "type": "future.frame",
            "account_id": "aaaaaaaa-aaaa-aaaa-aaaa-aaaaaaaaaaaa",
            "payload": {}
        }"#;
    assert!(decode_ws_frame(body, None).is_none());
}

#[test]
fn deserializes_flow_dto_with_snake_case_stage() {
    let body = r#"{
            "data": {
                "flow_id": "txn1", "device_id": "DEV",
                "stage": "keys_exchanged",
                "emoji": [{"symbol": "🐱", "description": "Cat"}],
                "decimals": [4, 5, 6], "cancel_reason": null
            }
        }"#;
    let flow = ApiResponse::<FlowDto>::read(body, None).unwrap().data;
    assert_eq!(flow.stage, FlowStage::KeysExchanged);
    assert_eq!(flow.decimals, Some([4, 5, 6]));
}

#[test]
fn not_found_is_detected() {
    let err = ApiError::Status { status: 404, message: "gone".to_owned() };
    assert!(err.is_not_found());
    let other = ApiError::Status { status: 409, message: "x".to_owned() };
    assert!(!other.is_not_found());
}

#[test]
fn live_reconnect_backoff_doubles_until_cap() {
    assert_eq!(next_live_reconnect_backoff(1_000), 2_000);
    assert_eq!(next_live_reconnect_backoff(16_000), 30_000);
    assert_eq!(next_live_reconnect_backoff(30_000), 30_000);
}

#[test]
fn timeout_buckets_are_correct() {
    let client = AxonClient::new("http://127.0.0.1:8080".to_owned(), None);
    let read = client.list_accounts();
    let mutation = client.send_message(0, "room", "hi", None, SendRelation::default());
    let lc = client.login("@a:b", "secret", None);
    let media = client.get_media(0, "mxc://server/media").unwrap();
    assert_eq!(read.timeout, HTTP_REQUEST_TIMEOUT);
    assert_eq!(mutation.timeout, MESSAGE_MUTATION_TIMEOUT);
    assert_eq!(
        lc.timeout, LIFECYCLE_TIMEOUT,
        "lifecycle ops need a generous timeout to survive megolm key import"
    );
    assert_eq!(
        media.timeout, MEDIA_TIMEOUT,
        "stalled media responses must release the bounded worker pool"
    );
}

#[test]
fn escapes_path_segments() {
    assert_eq!(path_segment("$event:local/host").to_string(), "%24event%3Alocal%2Fhost");
}

#[test]
fn rejects_empty_mxc_server_or_media_id() {
    let client = AxonClient::new("http://127.0.0.1:8080".to_owned(), None);
    assert!(matches!(client.get_media(0, "mxc:///media"), Err(ApiError::Url(_))));
    assert!(matches!(client.get_media(0, "mxc://server/"), Err(ApiError::Url(_))));
}

#[test]
fn deserializes_account_response() {
    let body = r#"{
            "data": {
                "account_id": "aaaaaaaa-aaaa-aaaa-aaaa-aaaaaaaaaaaa",
                "user_id": "@alice:example.com",
                "homeserver_url": "https://example.com",
                "device_id": "DEVICE",
                "state": "active",
                "verified": null,
                "created_at": "2026-06-10T00:00:00Z",
                "updated_at": "2026-06-10T00:00:00Z"
            }
        }"#;
    let account = ApiResponse::<AccountDto>::read(body, None).unwrap().data;
    assert_eq!(account.user_id, "@alice:example.com");
    assert_eq!(account.state, AccountState::Active);
    assert_eq!(account.device_id.as_deref(), Some("DEVICE"));
    assert_eq!(account.backup, BackupSnapshot::default());
}

#[test]
fn deserializes_device_list_response() {
    let body = r#"{
            "data": {
                "user_id": "@alice:example.com",
                "devices": [
                    {
                        "device_id": "AXONDEV",
                        "display_name": "axon",
                        "is_verified": true,
                        "is_cross_signed_by_owner": true,
                        "local_trust_state": "verified",
                        "algorithms": []
                    }
                ]
            }
        }"#;
    let list = ApiResponse::<DeviceListDto>::read(body, None).unwrap().data;
    assert_eq!(list.user_id, "@alice:example.com");
    assert_eq!(list.devices[0].device_id, "AXONDEV");
    assert_eq!(list.devices[0].display_name.as_deref(), Some("axon"));
}

#[test]
fn deserializes_enable_backup_response_flatten() {
    let body = r#"{
            "data": {
                "account_id": "aaaaaaaa-aaaa-aaaa-aaaa-aaaaaaaaaaaa",
                "user_id": "@alice:example.com",
                "homeserver_url": "https://example.com",
                "device_id": "DEVICE",
                "state": "active",
                "verified": true,
                "backup": {
                    "exists_on_server": true,
                    "this_device_uploading": true,
                    "backup_state": "enabled",
                    "recovery_state": "enabled"
                },
                "backup_action": "enabled",
                "created_at": "2026-06-10T00:00:00Z",
                "updated_at": "2026-06-10T00:00:00Z"
            }
        }"#;
    let reply = ApiResponse::<EnableBackupResponse>::read(body, None).unwrap().data;
    assert_eq!(reply.account.user_id, "@alice:example.com");
    assert_eq!(reply.backup_action, BackupAction::Enabled);
    assert_eq!(reply.account.backup.exists_on_server, Some(true));
    assert!(reply.account.backup.this_device_uploading);
    assert_eq!(reply.account.backup.backup_state, BackupState::Enabled);
    assert_eq!(reply.account.backup.recovery_state, RecoveryState::Enabled);
}

#[test]
fn deserializes_staged_upload_response_ignoring_extra_fields() {
    let body = r#"{
            "data": {
                "upload_id": "aaaaaaaa-aaaa-aaaa-aaaa-aaaaaaaaaaaa",
                "kind": "image",
                "filename": "photo.png",
                "content_type": "image/png",
                "size_bytes": 1234,
                "expires_at": "2026-07-11T01:00:00Z"
            }
        }"#;
    let staged = ApiResponse::<StagedUploadDto>::read(body, None).unwrap().data;
    assert_eq!(staged.upload_id, ACCOUNT);
}

#[test]
fn unknown_tokens_of_older_and_newer_servers() {
    let body = r#"{
        "account_id": "aaaaaaaa-aaaa-aaaa-aaaa-aaaaaaaaaaaa",
        "user_id": "@alice:example.com",
        "state": "unheard_of"
    }"#;
    assert!(AccountDto::from_json(&read_json(body).unwrap()).is_err());
}

#[test]
fn a_search_page_keeps_scores_as_written() {
    let body = r#"{ "data": { "results": [ { "score": 0.75, "event": {
        "account_id": "aaaaaaaa-aaaa-aaaa-aaaa-aaaaaaaaaaaa",
        "event_id": "$e", "room_id": "!r", "sender": "@a:b", "origin_ts": 1,
        "arrival_order": 1, "type": "m.room.message", "content": null, "body": "hi",
        "relates_to": null, "redacted": false, "redaction_event_id": null
    } } ], "total": 1, "next_cursor": null } }"#;
    let page = ApiResponse::<SearchPage>::read(body, None).unwrap().data;
    assert_eq!(page.results[0].score, JsonNumber::Other("0.75".to_owned()));
    assert_eq!(page.results[0].event.event_id, "$e");
    assert_eq!(page.total, 1);
    let short = r#"{ "data": { "results": [], "total": -1, "next_cursor": null } }"#;
    assert!(ApiResponse::<SearchPage>::read(short, None).is_err());
}

#[test]
fn json_is_read_and_written() {
    let value = read_json(r#"{"b": [1, -2, 18446744073709551615, 1.5, null, true], "a": "x\"y"}"#)
        .unwrap();
    let items = match value.get("b") {
        Some(Json::Array(items)) => items,
        other => panic!("expected a list, got {other:?}"),
    };
    assert_eq!(items[0], Json::Number(JsonNumber::Signed(1)));
    assert_eq!(items[1], Json::Number(JsonNumber::Signed(-2)));
    assert_eq!(items[2], Json::Number(JsonNumber::Unsigned(u64::MAX)));
    assert_eq!(items[3], Json::Number(JsonNumber::Other("1.5".to_owned())));
    let text = Body::Json(value).text().unwrap();
    assert_eq!(text, r#"{"a":"x\"y","b":[1,-2,18446744073709551615,1.5,null,true]}"#);
    assert!(read_json("{").is_err());
    assert_eq!(Body::Empty.text(), None);
}

#[test]
fn requests_carry_method_address_and_body() {
    let client = AxonClient::new("http://127.0.0.1:8080/".to_owned(), Some("tok".to_owned()));
    assert_eq!(client.authorization().as_deref(), Some("Bearer tok"));
    let react = client.react(1, "!r:x", "$e", "👍");
    assert_eq!(react.method, Method::Post);
    assert_eq!(
        react.url,
        format!(
            "{}/v1/accounts/00000000-0000-0000-0000-000000000001/rooms/%21r%3Ax/events/%24e/reactions",
            client.base_url()
        )
    );
    assert_eq!(react.body.text().as_deref(), Some(r#"{"key":"👍"}"#));
    let page = client.room_timeline(1, "!r:x", Some("c u"), Some(5), 50);
    assert_eq!(page.method, Method::Get);
    assert!(page.query.contains(&("limit".to_owned(), "50".to_owned())));
    assert!(page.query.contains(&("at_ts".to_owned(), "5".to_owned())));
}

#[test]
fn live_address_follows_the_scheme() {
    let address = |base: &str| AxonClient::new(base.to_owned(), None).ws_url();
    assert_eq!(address("http://127.0.0.1:8080").unwrap(), "ws://127.0.0.1:8080/v1/ws");
    assert_eq!(address("https://axon.example").unwrap(), "wss://axon.example/v1/ws");
    assert!(matches!(address("ftp://axon.example"), Err(ApiError::UnsupportedScheme(_))));
    assert!(matches!(address("no address"), Err(ApiError::Url(_))));
}

#[test]
fn replies_are_read_by_status() {
    assert_eq!(read_reply::<Json>(200, r#"{"data": null}"#, None).unwrap(), Json::Null);
    assert!(matches!(read_reply::<Json>(200, "{}", None), Err(ApiError::Json(_))));
    match read_reply::<Json>(403, r#"{"error": {"code": "forbidden", "message": "no"}}"#, None) {
        Err(ApiError::Status { status, message }) => {
            assert_eq!(status, 403);
            assert_eq!(message, "forbidden: no");
        }
        other => panic!("expected a refusal, got {other:?}"),
    }
    assert_eq!(error_message("plain", None), "plain");
    assert!(read_list_reply::<Json>(200, r#"{"data": []}"#, None).unwrap().is_empty());
    assert!(read_empty_reply(204, "", None).is_ok());
    let err = read_empty_reply(503, "down", None).unwrap_err();
    assert!(err.is_service_unavailable());
    assert_eq!(err.text(), "HTTP 503 Service Unavailable: down");
}

#[test]
fn a_download_is_refused_once_it_is_too_large() {
    assert!(MediaDownload::start(200, Some(MAX_MEDIA_BYTES as u64 + 1)).is_err());
    let download = MediaDownload::start(200, None).unwrap();
    let download = download.take(&[1, 2]).unwrap().take(&[3]).unwrap();
    assert_eq!(download.finish(), vec![1, 2, 3]);
    let full = MediaDownload::start(200, Some(3)).unwrap().take(&vec![0; MAX_MEDIA_BYTES]).unwrap();
    assert!(full.take(&[0]).is_err());
    assert!(matches!(
        media_refusal(404, "gone".to_owned()),
        ApiError::Status { status: 404, .. }
    ));
}

#[test]
fn path_segments_hold_no_separator() {
    let text = path_segment("a/b?c#d e%é");
    assert_eq!(text, "a%2Fb%3Fc%23d%20e%25%C3%A9");
    assert_ne!(path_segment("a/b"), path_segment("a%2Fb"));
}

#[test]
fn a_refused_text_is_told_in_the_words_of_the_refusal() {
    // A field that is there twice: `serde_json` says what is wrong, and where.
    let twice = r#"{"data": {"flow_id": "a", "flow_id": "b"}}"#;
    let said = "duplicate field `flow_id` at line 1 column 36";
    match read_reply::<StartVerifyResponse>(200, twice, Some(said)) {
        Err(err) => assert_eq!(err.text(), format!("invalid API JSON: {said}")),
        Ok(reply) => panic!("{reply:?}"),
    }
    let error = r#"{"error": {"code": "a", "code": "b", "message": "no"}}"#;
    assert_eq!(error_message(error, Some("duplicate field `code`")), error);
    match decode_ws_frame("{}", Some("missing field `type` at line 1 column 2")) {
        Some(LiveFrame::ProtocolError(told)) => {
            assert_eq!(told, "missing field `type` at line 1 column 2");
        }
        other => panic!("{other:?}"),
    }
    // What is no JSON at all is told by `serde_json` in any case.
    match decode_ws_frame("{", None) {
        Some(LiveFrame::ProtocolError(told)) => {
            assert_eq!(told, "EOF while parsing an object at line 1 column 1");
        }
        other => panic!("{other:?}"),
    }
    let client = AxonClient::new("http://h".to_owned(), None);
    let Ok((_, mut link)) = LiveLink::start(&client) else {
        panic!("the address is one");
    };
    let came = LinkEvent::Text { text: "{}".to_owned(), refused: Some("no".to_owned()) };
    assert!(matches!(link.step(came), (Some(LiveFrame::ProtocolError(_)), LinkAction::Read)));
    let other = LinkEvent::Text {
        text: r#"{"type": "x", "account_id": "aaaaaaaa-aaaa-aaaa-aaaa-aaaaaaaaaaaa", "payload": 1}"#
            .to_owned(),
        refused: None,
    };
    assert!(matches!(link.step(other), (None, LinkAction::Read)));
}

#[test]
fn a_variant_may_be_the_key_of_nothing() {
    let stage = |text: &str| FlowStage::from_json(&read_json(text).unwrap());
    assert_eq!(stage(r#""done""#).unwrap(), FlowStage::Done);
    assert_eq!(stage(r#"{"done": null}"#).unwrap(), FlowStage::Done);
    assert!(stage(r#"{"done": 1}"#).is_err());
    assert!(stage("{}").is_err());
}

#[test]
fn the_address_of_the_socket_keeps_host_and_port() {
    let address = |base: &str| AxonClient::new(base.to_owned(), None).ws_url().unwrap();
    assert_eq!(address("https://axon.example:444/a/b?c=d"), "wss://axon.example:444/v1/ws");
    assert_eq!(address("HTTP://axon.example:80"), "ws://axon.example/v1/ws");
}

#[test]
fn the_link_waits_longer_each_time_and_recovers() {
    let client = AxonClient::new("http://h".to_owned(), None);
    let (_, mut link) = match LiveLink::start(&client) {
        Ok(started) => started,
        Err(frame) => panic!("{frame:?}"),
    };
    let mut waits: Vec<u64> = Vec::new();
    for _ in 0..6 {
        match link.step(LinkEvent::Refused("no".to_owned())) {
            (Some(LiveFrame::Reconnecting { reason, delay_ms }), LinkAction::Sleep(ms)) => {
                assert_eq!(reason, "no");
                assert_eq!(delay_ms, ms);
                waits.push(ms);
            }
            other => panic!("{other:?}"),
        }
        assert!(matches!(link.step(LinkEvent::Waited), (None, LinkAction::Connect)));
    }
    assert_eq!(waits, vec![1_000, 2_000, 4_000, 8_000, 16_000, 30_000]);
    assert!(matches!(link.step(LinkEvent::Opened), (Some(LiveFrame::Connected), LinkAction::Read)));
    match link.step(LinkEvent::Closed) {
        (Some(LiveFrame::Reconnecting { reason, delay_ms }), _) => {
            assert_eq!(reason, "websocket closed");
            assert_eq!(delay_ms, 1_000);
        }
        other => panic!("{other:?}"),
    }
    let bad = AxonClient::new("ftp://h".to_owned(), None);
    assert!(matches!(LiveLink::start(&bad), Err(LiveFrame::Disconnected(_))));
}

#[test]
fn a_record_may_be_a_list_of_its_fields() {
    let member = |text: &str| MemberDto::from_json(&read_json(text).unwrap());
    let bob = member(r#"["@bob:hs", "Bob"]"#).unwrap();
    assert_eq!((bob.user_id.as_str(), bob.display_name.as_deref()), ("@bob:hs", Some("Bob")));
    // What need not be there may be left out at the end, and nothing may be added.
    assert_eq!(member(r#"["@bob:hs"]"#).unwrap().display_name, None);
    assert!(member("[]").is_err());
    assert!(member(r#"["@bob:hs", "Bob", 1]"#).is_err());
    let page = |text: &str| TimelinePage::from_json(&read_json(text).unwrap());
    assert!(page("[[], null]").unwrap().events.is_empty());
    assert!(page("[[]]").is_err(), "the cursor must be there");
    assert_eq!(read_reply::<Json>(200, "[true]", None).unwrap(), Json::Bool(true));
    assert_eq!(error_message(r#"[["forbidden", "no"]]"#, None), "forbidden: no");
    let frame = decode_ws_frame(
        r#"["sender_trust.violation", "aaaaaaaa-aaaa-aaaa-aaaa-aaaaaaaaaaaa", ["@eve:hs", true]]"#,
        None,
    );
    assert!(matches!(frame, Some(LiveFrame::SenderTrustViolation { .. })));
}
