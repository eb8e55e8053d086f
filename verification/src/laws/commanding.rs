//! What comes of a command.

use vstd::prelude::*;

use crate::app::commands::{command_run, Command, Effect, Surroundings};
use crate::app::room_target::RoomTargetView;
use crate::app::state::App;
use crate::app::status::StatusView;
use crate::laws::sending::{law_message_goes_to_its_thread, sent_text};
use crate::text::option_view;

verus! {

/// A message goes out with what was typed as its body, and with its HTML where it has any.
pub proof fn law_typed_message_goes_out(
    before: App,
    after: App,
    body: String,
    html: Option<String>,
    around: Surroundings,
    effect: Effect,
)
    requires
        command_run(before, after, Command::Send { body, html }, around, effect),
        before.room() is Some,
        before.session.wired,
    ensures
        effect is SendMessage,
        ({
            let sent = effect->SendMessage_0.request@.body;
            &&& sent_text(sent, "body"@) == Some(body@)
            &&& html is Some ==> sent_text(sent, "format"@) == Some("org.matrix.custom.html"@)
                && sent_text(sent, "formatted_body"@) == Some(html->0@)
            &&& html is None ==> sent_text(sent, "formatted_body"@) is None
        }),
{
    law_message_goes_to_its_thread(
        before,
        after,
        body@,
        crate::app::commands::html_form(option_view(html)),
        around.now_ms,
        crate::app::commands::messages_sent(effect),
    );
}

/// A message that is to be sent as it is has no HTML.
pub proof fn law_literal_message_goes_out(
    before: App,
    after: App,
    body: String,
    around: Surroundings,
    effect: Effect,
)
    requires
        command_run(before, after, Command::SendLiteral(body), around, effect),
        before.room() is Some,
        before.session.wired,
    ensures
        effect is SendMessage,
        sent_text(effect->SendMessage_0.request@.body, "body"@) == Some(body@),
        sent_text(effect->SendMessage_0.request@.body, "formatted_body"@) is None,
{
    law_message_goes_to_its_thread(
        before,
        after,
        body@,
        None,
        around.now_ms,
        crate::app::commands::messages_sent(effect),
    );
}

/// A message of HTML has the plain text of it as its body, or the HTML itself where it has
/// none.
pub proof fn law_html_message_goes_out(
    before: App,
    after: App,
    html: String,
    plain: String,
    around: Surroundings,
    effect: Effect,
)
    requires
        command_run(before, after, Command::SendHtml { html, plain }, around, effect),
        before.room() is Some,
        before.session.wired,
    ensures
        effect is SendMessage,
        ({
            let sent = effect->SendMessage_0.request@.body;
            &&& sent_text(sent, "formatted_body"@) == Some(html@)
            &&& plain@.len() > 0 ==> sent_text(sent, "body"@) == Some(plain@)
            &&& plain@.len() == 0 ==> sent_text(sent, "body"@) == Some(html@)
        }),
{
    law_message_goes_to_its_thread(
        before,
        after,
        crate::app::commands::body_of_html(html@, plain@),
        crate::app::commands::html_form(Some(html@)),
        around.now_ms,
        crate::app::commands::messages_sent(effect),
    );
}

/// The room that a command names is selected, and its timeline loaded.
pub proof fn law_room_command(
    before: App,
    after: App,
    target: String,
    around: Surroundings,
    effect: Effect,
    i: usize,
)
    requires
        command_run(before, after, Command::Room(target), around, effect),
        before.rooms.resolved_room(before.account_shown(), target@) == RoomTargetView::Match(i),
        i < before.rooms.rooms@.len(),
    ensures
        after.rooms.selected == Some(i),
        effect is LoadTimeline,
        effect->LoadTimeline_0@.room_id == before.rooms.rooms@[i as int].room_id@,
        effect->LoadTimeline_0@.account_id == before.rooms.rooms@[i as int].account_id,
{
    let (middle, load) = choose|middle: App, load: bool| #[trigger]
        crate::app::commands::room_run(before, middle, after, target@, load, effect);
    assert(middle.room() is Some);
}

/// A command that names no room leaves the selection as it is.
pub proof fn law_room_command_without_a_room(
    before: App,
    after: App,
    target: String,
    around: Surroundings,
    effect: Effect,
)
    requires
        command_run(before, after, Command::Room(target), around, effect),
        !(before.rooms.resolved_room(before.account_shown(), target@) is Match),
    ensures
        after == (App { status: after.status, ..before }),
        effect is Nothing,
{
    let (middle, load) = choose|middle: App, load: bool| #[trigger]
        crate::app::commands::room_run(before, middle, after, target@, load, effect);
}

/// A reply is one to the selected message, or to the last one that is shown where none is
/// selected.
pub proof fn law_reply_command(before: App, after: App, around: Surroundings, effect: Effect)
    requires
        command_run(before, after, Command::Reply, around, effect),
        before.pane().len() > 0,
        before.target() is None,
        !crate::text::begins(before.pane().last().event_id, "local-echo:"@),
        forall|k: int|
            0 <= k < before.pane().len() - 1 ==> (#[trigger] before.pane()[k]).event_id
                != before.pane().last().event_id,
    ensures
        option_view(after.threads.pending_reply) == Some(before.pane().last().event_id),
        option_view(after.messages.selection) == Some(before.pane().last().event_id),
        after.threads.pending_thread is None,
{
    let middle = choose|middle: App| #[trigger]
        crate::app::selection::message_selected(before, middle)
            && crate::app::compose::reply_started(middle, after);
    assert(middle.pane() == before.pane());
    let ids = crate::app::selection::ids_of(before.pane());
    let last = before.pane().len() - 1;
    assert forall|k: int| 0 <= k < last implies #[trigger] ids[k] != ids[last] by {
        assert(before.pane()[k].event_id != before.pane().last().event_id);
    }
    crate::laws::choosing::lemma_place(ids, last);
    assert(middle.target() == Some(before.pane().last()));
}

/// What is not known as a command, or is not complete, is told and changes nothing else.
pub proof fn law_unknown_command(
    before: App,
    after: App,
    text: String,
    around: Surroundings,
    effect: Effect,
)
    requires
        command_run(before, after, Command::Unknown(text), around, effect) || command_run(
            before,
            after,
            Command::Invalid(text),
            around,
            effect,
        ),
    ensures
        after == (App { status: after.status, ..before }),
        after.status@ == StatusView::Info(text@),
        effect is Nothing,
{
}

/// The user leaves with the command for it, and with no other of these.
pub proof fn law_who_leaves(before: App, after: App, around: Surroundings, effect: Effect)
    ensures
        command_run(before, after, Command::Quit, around, effect) ==> after.session.should_quit,
        command_run(before, after, Command::Empty, around, effect) ==> after == before && effect
            is Nothing,
        command_run(before, after, Command::SaveConfig, around, effect) ==> after == before
            && effect is KeepDisplay,
        command_run(before, after, Command::EditConfig, around, effect)
            ==> after.session.edit_config_requested && after.session.should_quit
            == before.session.should_quit,
{
}

/// A refresh asks for the rooms, and not twice at a time.
pub proof fn law_refresh_command(before: App, after: App, around: Surroundings, effect: Effect)
    requires
        command_run(before, after, Command::Refresh, around, effect),
        before.session.wired,
    ensures
        !before.startup.rooms_fetch_inflight ==> effect is FetchRooms
            && after.startup.rooms_fetch_inflight,
        before.startup.rooms_fetch_inflight ==> effect is Nothing
            && after.startup.rooms_fetch_again,
{
}

} // verus!
