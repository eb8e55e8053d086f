//! What is sent when the user writes, replies and begins threads.

use vstd::prelude::*;

use crate::api::client::{and_maybe, BodyView, Method};
use crate::api::dto::EventView;
use crate::api::event::{reply_target_of, thread_root_of};
use crate::app::compose::{
    echo_event, law_echo, media_sent, message_sent, reply_started, thread_started, MediaSend,
    MessageSend, ThreadToOpen,
};
use crate::app::state::App;
use crate::json::{member_of, JsonView};
use crate::text::{begins, option_view};

verus! {

/// The text of the member of a request with a name.
pub open spec fn sent_text(body: BodyView, name: Seq<char>) -> Option<Seq<char>> {
    match body {
        BodyView::Json(j) => j.text_at(name),
        _ => None,
    }
}

proof fn lemma_pushed(members: Seq<(Seq<char>, JsonView)>, key: Seq<char>, value: JsonView)
    ensures
        member_of(members.push((key, value)), key) == Some(value),
        forall|other: Seq<char>|
            other != key ==> #[trigger] member_of(members.push((key, value)), other) == member_of(
                members,
                other,
            ),
{
    assert(members.push((key, value)).drop_last() =~= members);
}

proof fn lemma_maybe(members: Seq<(Seq<char>, JsonView)>, key: Seq<char>, value: Option<Seq<char>>)
    requires
        member_of(members, key) is None,
    ensures
        JsonView::Object(and_maybe(members, key, value)).text_at(key) == value,
        forall|other: Seq<char>|
            other != key ==> #[trigger] member_of(and_maybe(members, key, value), other)
                == member_of(members, other),
{
    if let Some(v) = value {
        lemma_pushed(members, key, JsonView::Text(v));
    }
}

proof fn lemma_names_differ()
    ensures
        "body"@.len() == 4,
        "format"@.len() == 6,
        "formatted_body"@.len() == 14,
        "reply_to"@.len() == 8,
        "thread_root"@.len() == 11,
{
    reveal_strlit("body");
    reveal_strlit("format");
    reveal_strlit("formatted_body");
    reveal_strlit("reply_to");
    reveal_strlit("thread_root");
}

/// The thread that a message is written in: the one that it is to begin, else the one
/// that the pane shows.
pub open spec fn written_in(app: App) -> Option<Seq<char>> {
    if app.threads.pending_thread is Some {
        Some(app.threads.pending_thread->0@)
    } else if app.threads.panel is Some {
        Some(app.threads.panel->0@)
    } else {
        None
    }
}

/// A message goes to the thread that it is written in, and replies to the message that
/// the user chose.
pub proof fn law_message_goes_to_its_thread(
    before: App,
    after: App,
    body: Seq<char>,
    formatted: Option<(Seq<char>, Seq<char>)>,
    now_ms: i64,
    send: Option<MessageSend>,
)
    requires
        message_sent(before, after, body, formatted, now_ms, send),
        before.room() is Some,
        before.session.wired,
    ensures
        send is Some,
        ({
            let request = send->0.request@;
            &&& request.method == Method::Post
            &&& sent_text(request.body, "body"@) == Some(body)
            &&& sent_text(request.body, "thread_root"@) == written_in(before)
            &&& sent_text(request.body, "reply_to"@) == option_view(before.threads.pending_reply)
            &&& formatted is Some ==> sent_text(request.body, "format"@) == Some((formatted->0).0)
                && sent_text(request.body, "formatted_body"@) == Some((formatted->0).1)
            &&& formatted is None ==> sent_text(request.body, "format"@) is None && sent_text(
                request.body,
                "formatted_body"@,
            ) is None
        }),
        after.threads.pending_reply is None,
        after.threads.pending_thread is None,
        after.threads.panel == before.threads.panel,
{
    lemma_names_differ();
    reveal_with_fuel(member_of, 2);
    let reply = option_view(before.threads.pending_reply);
    let root = written_in(before);
    let plain = seq![("body"@, JsonView::Text(body))];
    assert(plain =~= Seq::<(Seq<char>, JsonView)>::empty().push(("body"@, JsonView::Text(body))));
    lemma_pushed(Seq::empty(), "body"@, JsonView::Text(body));
    let members = match formatted {
        Some((format, text)) => plain.push(("format"@, JsonView::Text(format))).push(
            ("formatted_body"@, JsonView::Text(text)),
        ),
        None => plain,
    };
    if let Some((format, text)) = formatted {
        lemma_pushed(plain, "format"@, JsonView::Text(format));
        lemma_pushed(
            plain.push(("format"@, JsonView::Text(format))),
            "formatted_body"@,
            JsonView::Text(text),
        );
    }
    lemma_maybe(members, "reply_to"@, reply);
    lemma_maybe(and_maybe(members, "reply_to"@, reply), "thread_root"@, root);
    assert(and_maybe(and_maybe(members, "reply_to"@, reply), "thread_root"@, root)
        == send->0.request@.body->Json_0->Object_0);
}

/// What is shown of a message until the server confirms it stands last in its room. It
/// says what was written, who wrote it, and which thread and message it belongs to.
pub proof fn law_message_is_shown_at_once(
    before: App,
    after: App,
    body: Seq<char>,
    formatted: Option<(Seq<char>, Seq<char>)>,
    now_ms: i64,
    send: Option<MessageSend>,
)
    requires
        message_sent(before, after, body, formatted, now_ms, send),
        before.room() is Some,
        before.session.wired,
    ensures
        ({
            let key = send->0.key@;
            let room = before.room()->0@;
            let shown = after.messages.events@[key]@;
            let echo = shown.last()@;
            &&& key.account_id == room.account_id
            &&& key.room_id == room.room_id
            &&& after.messages.events@.dom().contains(key)
            &&& shown.len() > 0
            &&& before.messages.events@.dom().contains(key) ==> shown.drop_last()
                == before.messages.events@[key]@
            &&& echo.body == Some(body)
            &&& echo.account_id == room.account_id
            &&& echo.room_id == room.room_id
            &&& echo.origin_ts == now_ms
            &&& !echo.redacted
            &&& begins(echo.event_id, "local-echo:"@)
            &&& echo.event_id == send->0.temp_id@
            &&& before.own_user(room) is Some ==> echo.sender == before.own_user(room)->0
            &&& thread_root_of(echo) == written_in(before)
            &&& written_in(before) is None ==> reply_target_of(echo) == option_view(
                before.threads.pending_reply,
            )
        }),
{
    let key = send->0.key@;
    let room = before.room()->0@;
    let echo = after.messages.events@[key]@.last()@;
    let sender = match before.own_user(room) {
        Some(user) => user,
        None => Seq::empty(),
    };
    let reply = option_view(before.threads.pending_reply);
    let root = written_in(before);
    law_echo(key, sender, body, formatted, reply, root, now_ms, echo);
    assert(echo == echo_event(key, sender, body, formatted, reply, root, now_ms));
    if root is None && reply is Some {
        reveal_with_fuel(member_of, 2);
        reveal_strlit("rel_type");
        reveal_strlit("m.in_reply_to");
        assert("rel_type"@.len() == 8 && "m.in_reply_to"@.len() == 13);
        let members = echo.relates_to->0->Object_0;
        assert(members.drop_last() =~= Seq::empty());
        let inner = members.last().1->Object_0;
        assert(inner.last().0 == "event_id"@);
    }
}

/// A file goes where a message would: to the thread that it is sent in, in answer to the
/// message that the user chose. One file is sent at a time.
pub proof fn law_file_goes_to_its_thread(
    before: App,
    after: App,
    path: Seq<char>,
    caption: Option<String>,
    dir: Option<Seq<char>>,
    send: Option<MediaSend>,
)
    requires
        media_sent(before, after, path, caption, dir, send),
        before.room() is Some,
        before.session.wired,
    ensures
        before.busy.media_send ==> send is None && after.threads == before.threads,
        !before.busy.media_send ==> {
            &&& after.busy.media_send
            &&& send is Some
            &&& send->0.caption == caption
            &&& send->0.key@.account_id == before.room()->0@.account_id
            &&& send->0.key@.room_id == before.room()->0@.room_id
            &&& option_view(send->0.thread_root) == written_in(before)
            &&& option_view(send->0.reply_to) == option_view(before.threads.pending_reply)
            &&& after.threads.pending_reply is None
            &&& after.threads.pending_thread is None
        },
{
}

/// Without a room, or before the client is wired up, nothing is sent and nothing changes
/// but the status.
pub proof fn law_nothing_sent_without_a_room(
    before: App,
    after: App,
    body: Seq<char>,
    formatted: Option<(Seq<char>, Seq<char>)>,
    now_ms: i64,
    send: Option<MessageSend>,
)
    requires
        message_sent(before, after, body, formatted, now_ms, send),
        before.room() is None || !before.session.wired,
    ensures
        send is None,
        after == (App { status: after.status, ..before }),
{
}

/// A reply that was begun makes the next message answer the selected one, outside any new
/// thread.
pub proof fn law_reply_answers_the_selected_message(
    before: App,
    middle: App,
    after: App,
    body: Seq<char>,
    now_ms: i64,
    send: Option<MessageSend>,
)
    requires
        before.target() is Some,
        !begins(before.target()->0.event_id, "local-echo:"@),
        reply_started(before, middle),
        message_sent(middle, after, body, None, now_ms, send),
        before.room() is Some,
        before.session.wired,
    ensures
        sent_text(send->0.request@.body, "reply_to"@) == Some(before.target()->0.event_id),
        sent_text(send->0.request@.body, "thread_root"@) == option_view(before.threads.panel),
{
    law_message_goes_to_its_thread(middle, after, body, None, now_ms, send);
}

/// A thread that was begun takes the next message, and answers nothing else.
pub proof fn law_new_thread_takes_the_next_message(
    before: App,
    middle: App,
    after: App,
    open: Option<ThreadToOpen>,
    body: Seq<char>,
    now_ms: i64,
    send: Option<MessageSend>,
)
    requires
        before.target() is Some,
        !begins(before.target()->0.event_id, "local-echo:"@),
        thread_root_of(before.target()->0) is None,
        thread_started(before, middle, false, open),
        message_sent(middle, after, body, None, now_ms, send),
        before.room() is Some,
        before.session.wired,
    ensures
        open is None,
        sent_text(send->0.request@.body, "thread_root"@) == Some(before.target()->0.event_id),
        sent_text(send->0.request@.body, "reply_to"@) is None,
{
    law_message_goes_to_its_thread(middle, after, body, None, now_ms, send);
}

/// A message that is in a thread opens that thread, and a message that others answer in a
/// thread opens its own.
pub proof fn law_thread_of_a_message_is_opened(
    before: App,
    after: App,
    is_root: bool,
    open: Option<ThreadToOpen>,
)
    requires
        before.target() is Some,
        !begins(before.target()->0.event_id, "local-echo:"@),
        thread_started(before, after, is_root, open),
    ensures
        thread_root_of(before.target()->0) is Some ==> open is Some && open->0.root@
            == thread_root_of(before.target()->0)->0,
        thread_root_of(before.target()->0) is None && is_root ==> open is Some && open->0.root@
            == before.target()->0.event_id,
        open is Some ==> open->0.account_id == before.target()->0.account_id && after == before,
{
}

/// A message that the server has not confirmed can be neither answered nor the start of a
/// thread.
pub proof fn law_unconfirmed_message_is_left_alone(
    before: App,
    after: App,
    threaded: App,
    is_root: bool,
    open: Option<ThreadToOpen>,
)
    requires
        before.target() is Some,
        begins(before.target()->0.event_id, "local-echo:"@),
        reply_started(before, after),
        thread_started(before, threaded, is_root, open),
    ensures
        after == (App { status: after.status, ..before }),
        threaded == (App { status: threaded.status, ..before }),
        open is None,
{
}

/// The thread of an event, as the server writes it: where its relation is one of a thread.
pub proof fn law_what_a_thread_member_is(event: EventView, root: Seq<char>)
    requires
        event.relates_to is Some,
        event.relates_to->0.text_at("event_id"@) == Some(root),
    ensures
        event.relates_to->0.text_at("rel_type"@) == Some("m.thread"@) ==> thread_root_of(event)
            == Some(root) && reply_target_of(event) is None,
        event.relates_to->0.text_at("rel_type"@) != Some("m.thread"@) ==> thread_root_of(event)
            is None,
{
}

/// A plain reply names the message that it answers.
pub proof fn law_what_a_reply_is(event: EventView, answered: JsonView, id: Seq<char>)
    requires
        event.relates_to is Some,
        event.relates_to->0.get("m.in_reply_to"@) == Some(answered),
        answered.text_at("event_id"@) == Some(id),
        event.relates_to->0.text_at("rel_type"@) is None,
    ensures
        reply_target_of(event) == Some(id),
{
}

} // verus!
