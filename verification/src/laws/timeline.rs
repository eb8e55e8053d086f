//! What the message pane shows of messages, and where.

use vstd::prelude::*;

use crate::api::dto::EventView;
use crate::api::event::formatted_body_of;
use crate::app::render::{
    badge_of, badge_text, body_shown, context_of, image_key, message_at, on_header, overlaid, plain,
    reactions_of, rows_below, rows_of, separator, thumb_rows, Ink, LayoutInput, LineView,
    RelationContext, SpanView, Style, ThreadBadgeView,
};
use crate::app::state::MessageDensity;
use crate::text::{decimal, decimal_int, option_view};

verus! {

/// A rule of some length.
pub open spec fn rule(n: nat) -> Seq<char> {
    Seq::new(n, |i: int| '─')
}

/// Whether a line is a rule with a date in its middle.
pub open spec fn sets_apart(line: LineView, date: Seq<char>) -> bool {
    &&& line.spans.len() == 1
    &&& exists|left: nat, right: nat|
        left <= right <= left + 1 && line.spans[0].text == #[trigger] rule(left) + (" "@ + date
            + " "@) + #[trigger] rule(right)
}

proof fn lemma_lines_before(input: LayoutInput, n: int, m: int)
    requires
        0 <= n <= m,
    ensures
        input.lines(n).len() <= input.lines(m).len(),
        input.lines(m).take(input.lines(n).len() as int) == input.lines(n),
    decreases m - n,
{
    if n < m {
        lemma_lines_before(input, n, m - 1);
        assert(input.lines(m).take(input.lines(n).len() as int) =~= input.lines(m - 1).take(
            input.lines(n).len() as int,
        ));
    } else {
        assert(input.lines(m).take(input.lines(n).len() as int) =~= input.lines(n));
    }
}

/// The lines of a message are those of its range.
proof fn lemma_lines_of(input: LayoutInput, i: int)
    requires
        0 <= i < input.count(),
    ensures
        input.range(i).0 + input.message(i).len() == input.range(i).1 <= input.lines(
            input.count(),
        ).len(),
        forall|k: int|
            0 <= k < input.message(i).len() ==> #[trigger] input.message(i)[k] == input.lines(
                input.count(),
            )[input.range(i).0 + k],
        input.separators(i).len() > 0 ==> input.lines(input.count())[input.range(i).0 - 1]
            == input.separators(i).last(),
{
    let all = input.lines(input.count());
    let n = input.lines(i + 1).len() as int;
    lemma_lines_before(input, i + 1, input.count());
    assert forall|k: int| 0 <= k < input.message(i).len() implies #[trigger] input.message(i)[k]
        == all[input.range(i).0 + k] by {
        assert(all.take(n)[input.range(i).0 + k] == all[input.range(i).0 + k]);
    }
    if input.separators(i).len() > 0 {
        assert(all.take(n)[input.range(i).0 - 1] == all[input.range(i).0 - 1]);
    }
}

proof fn lemma_separator(date: Seq<char>, width: int)
    ensures
        sets_apart(separator(date, width), date),
{
    let label = " "@ + date + " "@;
    let fill = if label.len() < width {
        width - label.len()
    } else {
        0
    };
    let left = (fill / 2) as nat;
    let right = (fill - fill / 2) as nat;
    assert(separator(date, width).spans[0].text =~= rule(left) + label + rule(right));
}

/// Where a message is of another day than the one before it, the line just above it is
/// the separator with its date. Where it is of the same day, it follows at once.
pub proof fn law_days_are_set_apart(input: LayoutInput, i: int)
    requires
        0 < i < input.count(),
    ensures
        input.stamps@[i].day != input.stamps@[i - 1].day ==> {
            &&& input.range(i).0 == input.range(i - 1).1 + 1
            &&& sets_apart(
                input.lines(input.count())[input.range(i).0 - 1],
                input.stamps@[i].date@,
            )
        },
        input.stamps@[i].day == input.stamps@[i - 1].day ==> input.range(i).0 == input.range(
            i - 1,
        ).1,
{
    lemma_lines_of(input, i);
    lemma_separator(input.stamps@[i].date@, input.width as int);
}

/// The first message stands under the separator with its date, where its day is known.
pub proof fn law_first_day_is_named(input: LayoutInput)
    requires
        0 < input.count(),
    ensures
        input.stamps@[0].day is Some ==> input.range(0).0 == 1 && sets_apart(
            input.lines(input.count())[0],
            input.stamps@[0].date@,
        ),
        input.stamps@[0].day is None ==> input.range(0).0 == 0,
{
    lemma_lines_of(input, 0);
    lemma_separator(input.stamps@[0].date@, input.width as int);
}

/// The last message ends the pane, so that nothing stands below it.
pub proof fn law_last_message_ends_the_pane(input: LayoutInput)
    requires
        0 < input.count(),
    ensures
        input.range(input.count() - 1).1 == input.lines(input.count()).len(),
{
}

/// The place of the sender in a header: behind the sign of trust, where there is one.
pub open spec fn sender_place(trust: Option<Seq<char>>) -> int {
    if trust == Some("verified"@) || trust == Some("verification_violation"@) || trust == Some(
        "unknown"@,
    ) {
        3
    } else {
        2
    }
}

/// The first line of a message shows its time and its sender, the sender in a colour of
/// its own where the account itself sent the message.
pub proof fn law_header_names_time_and_sender(input: LayoutInput, i: int)
    requires
        0 <= i < input.count(),
    ensures
        ({
            let event = input.events@[i]@;
            let line = input.lines(input.count())[input.range(i).0];
            let place = sender_place(event.sender_trust);
            let own = input.own_senders@.dom().contains(event.account_id)
                && input.own_senders@[event.account_id]@ == event.sender;
            &&& line.spans.len() > place
            &&& line.spans[0].text == "  "@
            &&& line.spans[1].text == input.stamps@[i].time@ + " "@
            &&& line.spans[place].text == input.sender_labels@[i]@ + (if input.density
                == MessageDensity::Dense {
                ": "@
            } else {
                Seq::empty()
            })
            &&& line.spans[place].style.bold
            &&& (line.spans[place].style.fg == Some(Ink::OwnSender)) == own
            &&& (line.spans[place].style.fg == Some(Ink::Sender)) == !own
        }),
{
    lemma_lines_of(input, i);
    let event = input.events@[i]@;
    assert(input.message(i)[0] == input.lines(input.count())[input.range(i).0]);
    lemma_trust_words();
    assert(input.sender_labels@[i]@ =~= input.sender_labels@[i]@ + Seq::<char>::empty());
}

proof fn lemma_trust_words()
    ensures
        "verified"@ != "verification_violation"@,
        "verified"@ != "unknown"@,
        "verification_violation"@ != "unknown"@,
{
    reveal_strlit("verified");
    reveal_strlit("verification_violation");
    reveal_strlit("unknown");
    assert("verified"@.len() == 8);
    assert("verification_violation"@.len() == 22);
    assert("unknown"@.len() == 7);
}

/// A verified sender has a green tick, one whose verification was broken a red warning,
/// and an unknown one a question mark. No other sender has a sign.
pub proof fn law_signs_of_trust(input: LayoutInput, i: int)
    requires
        0 <= i < input.count(),
    ensures
        ({
            let trust = input.events@[i]@.sender_trust;
            let spans = input.lines(input.count())[input.range(i).0].spans;
            &&& trust == Some("verified"@) ==> spans[2].text == "✓"@ + " "@ && spans[2].style.fg
                == Some(Ink::Green)
            &&& trust == Some("verification_violation"@) ==> spans[2].text == "⚠"@ + " "@
                && spans[2].style.fg == Some(Ink::Red)
            &&& trust == Some("unknown"@) ==> spans[2].text == "?"@ + " "@ && spans[2].style.fg
                == Some(Ink::DarkGray)
        }),
{
    lemma_lines_of(input, i);
    assert(input.message(i)[0] == input.lines(input.count())[input.range(i).0]);
    lemma_trust_words();
}

/// The pieces of a row in one style, behind two spaces.
pub open spec fn shows_row(line: LineView, pieces: Seq<String>, style: Style) -> bool {
    &&& line.spans.len() == pieces.len() + 1
    &&& line.spans[0].text == "  "@
    &&& forall|p: int|
        0 <= p < pieces.len() ==> (#[trigger] line.spans[p + 1]).text == pieces[p]@
            && line.spans[p + 1].style == style
}

/// How many rows a message has between its header and its body.
pub open spec fn rows_of_context(input: LayoutInput, i: int) -> int {
    if context_of(input.events@[i]@, *input.relations) is Some {
        input.wrapped@[i].context@.len() as int
    } else {
        0
    }
}

/// What a message says of the one that it relates to stands right below its header.
pub proof fn law_context_below_header(input: LayoutInput, i: int, k: int)
    requires
        0 <= i < input.count(),
        context_of(input.events@[i]@, *input.relations) is Some,
        0 <= k < input.wrapped@[i].context@.len(),
    ensures
        input.range(i).0 + 1 + k < input.range(i).1,
        shows_row(
            input.lines(input.count())[input.range(i).0 + 1 + k],
            input.wrapped@[i].context@[k]@,
            Style { fg: Some(Ink::InputHint), italic: true, ..plain() },
        ),
{
    lemma_lines_of(input, i);
    assert(input.message(i)[1 + k] == input.lines(input.count())[input.range(i).0 + (1 + k)]);
}

/// Reactions stand last in a message, and the badge of a thread right above them.
#[verifier::rlimit(40)]
pub proof fn law_badge_above_reactions(input: LayoutInput, i: int, k: int)
    requires
        0 <= i < input.count(),
    ensures
        ({
            let event = input.events@[i]@;
            let lines = input.lines(input.count());
            let wrapped = input.wrapped@[i];
            let end = input.range(i).1;
            let reactions = if reactions_of(input.reactions@, event.event_id) is Some {
                wrapped.reactions@.len() as int
            } else {
                0
            };
            &&& 0 <= k < reactions ==> shows_row(
                lines[end - reactions + k],
                wrapped.reactions@[k]@,
                Style { fg: Some(Ink::InputHint), ..plain() },
            )
            &&& badge_of(event, *input.relations) is Some && 0 <= k < wrapped.badge@.len()
                ==> shows_row(
                lines[end - reactions - wrapped.badge@.len() + k],
                wrapped.badge@[k]@,
                if input.relations.thread_badges@[event.event_id].unread_count > 0 {
                    Style { fg: Some(Ink::UnreadCount), bold: true, ..plain() }
                } else {
                    Style { fg: Some(Ink::InputHint), italic: true, ..plain() }
                },
            )
        }),
{
    lemma_lines_of(input, i);
    let event = input.events@[i]@;
    let wrapped = input.wrapped@[i];
    let reactions = if reactions_of(input.reactions@, event.event_id) is Some {
        wrapped.reactions@.len() as int
    } else {
        0
    };
    let n = input.message(i).len() as int;
    let lines = input.lines(input.count());
    if 0 <= k < reactions {
        assert(input.message(i)[n - reactions + k] == lines[input.range(i).0 + (n - reactions + k)]);
    }
    if badge_of(event, *input.relations) is Some && 0 <= k < wrapped.badge@.len() {
        let b = wrapped.badge@.len() as int;
        assert(input.message(i)[n - reactions - b + k] == lines[input.range(i).0 + (n - reactions - b
            + k)]);
    }
}

/// A redacted message, and one without a formatted body, shows its plain text.
pub proof fn law_plain_body(input: LayoutInput, i: int)
    requires
        0 <= i < input.count(),
        input.events@[i]@.redacted || formatted_body_of(input.events@[i]@) is None
            || input.wrapped@[i].formatted is None,
    ensures
        body_shown(input.events@[i]@, input.wrapped@[i]).len() == input.wrapped@[i].plain@.len(),
        forall|k: int, p: int|
            0 <= k < input.wrapped@[i].plain@.len() && 0 <= p < input.wrapped@[i].plain@[k]@.len()
                ==> (#[trigger] body_shown(input.events@[i]@, input.wrapped@[i])[k][p]).text
                == input.wrapped@[i].plain@[k]@[p]@,
{
}

/// The rows of a body stand in their order behind the context, each behind the same
/// indent. In a dense pane the first stands on the header, where no context is between.
#[verifier::rlimit(40)]
pub proof fn law_body_rows_in_order(input: LayoutInput, i: int, k: int)
    requires
        0 <= i < input.count(),
        0 <= k < body_shown(input.events@[i]@, input.wrapped@[i]).len(),
    ensures
        ({
            let event = input.events@[i]@;
            let lines = input.lines(input.count());
            let row = body_shown(event, input.wrapped@[i])[k];
            let context = rows_of_context(input, i);
            if input.density == MessageDensity::Dense && context_of(event, *input.relations) is None {
                if k == 0 {
                    let spans = lines[input.range(i).0].spans;
                    row.len() <= spans.len() && spans.skip(spans.len() - row.len()) == row
                } else {
                    lines[input.range(i).0 + k].spans.drop_first() == row
                }
            } else {
                lines[input.range(i).0 + 1 + context + k].spans.drop_first() == row
            }
        }),
{
    lemma_lines_of(input, i);
    let event = input.events@[i]@;
    let wrapped = input.wrapped@[i];
    let lines = input.lines(input.count());
    let rows = rows_of(event, input.image_thumb_rows@, wrapped);
    let row = body_shown(event, wrapped)[k];
    let context = rows_of_context(input, i);
    assert(rows[k] == row);
    if on_header(event, *input.relations, input.density) {
        if k == 0 {
            assert(input.message(i)[0] == lines[input.range(i).0]);
            let spans = lines[input.range(i).0].spans;
            assert(spans.skip(spans.len() - row.len()) =~= row);
        } else {
            assert(input.message(i)[k] == lines[input.range(i).0 + k]);
            assert(lines[input.range(i).0 + k].spans.drop_first() =~= row);
        }
    } else {
        assert(input.message(i)[1 + context + k] == lines[input.range(i).0 + (1 + context + k)]);
        assert(lines[input.range(i).0 + 1 + context + k].spans.drop_first() =~= row);
    }
}

/// The rows kept free for a thumbnail are where the layout says they are, below the text
/// of the image.
#[verifier::rlimit(40)]
pub proof fn law_thumbnail_rows_are_free(input: LayoutInput, i: int, k: int)
    requires
        input.complete(),
        0 <= i < input.count(),
        image_key(input.events@[i]@) is Some,
        forall|j: int|
            i < j < input.count() ==> image_key((#[trigger] input.events@[j])@) != image_key(
                input.events@[i]@,
            ),
        0 <= k < thumb_rows(input.image_thumb_rows@, image_key(input.events@[i]@)->0),
    ensures
        ({
            let key = image_key(input.events@[i]@)->0;
            let above = input.thumbs_above(input.count())[key] as int;
            &&& input.thumbs_above(input.count()).dom().contains(key)
            &&& input.range(i).0 + above + k < input.range(i).1
            &&& input.lines(input.count())[input.range(i).0 + above + k].spans.len() == 1
        }),
{
    lemma_lines_of(input, i);
    lemma_thumb_kept(input, i, input.count());
    let event = input.events@[i]@;
    let wrapped = input.wrapped@[i];
    let lines = input.lines(input.count());
    let key = image_key(event)->0;
    let rows = rows_of(event, input.image_thumb_rows@, wrapped);
    let body = body_shown(event, wrapped);
    let above = input.thumbs_above(input.count())[key] as int;
    let text = if body.len() == 0 {
        1
    } else {
        body.len() as int
    };
    let context = rows_of_context(input, i);
    assert(body.len() + wrapped.context@.len() + 2 <= usize::MAX);
    assert(rows[text + k] =~= Seq::<SpanView>::empty());
    if on_header(event, *input.relations, input.density) {
        assert(above == text);
        assert(rows_below(event, *input.relations, input.density, rows)[text + k - 1]
            == rows[text + k]);
    } else {
        assert(above == 1 + context + text);
    }
    assert(input.message(i)[above + k] == lines[input.range(i).0 + (above + k)]);
}

proof fn lemma_thumb_kept(input: LayoutInput, i: int, n: int)
    requires
        0 <= i < n <= input.count(),
        image_key(input.events@[i]@) is Some,
        forall|j: int|
            i < j < input.count() ==> image_key((#[trigger] input.events@[j])@) != image_key(
                input.events@[i]@,
            ),
    ensures
        input.thumbs_above(n).dom().contains(image_key(input.events@[i]@)->0),
        input.thumbs_above(n)[image_key(input.events@[i]@)->0] == input.thumbs_above(
            i + 1,
        )[image_key(input.events@[i]@)->0],
    decreases n,
{
    if n > i + 1 {
        lemma_thumb_kept(input, i, n - 1);
        assert(image_key(input.events@[n - 1]@) != image_key(input.events@[i]@));
    }
}

/// The line of a message leads back to that message.
pub proof fn law_line_leads_to_its_message(ranges: Seq<(usize, usize)>, i: int, line: int)
    requires
        0 <= i < ranges.len(),
        ranges[i].0 <= line < ranges[i].1,
        forall|k: int| 0 < k < ranges.len() ==> ranges[k - 1].1 <= (#[trigger] ranges[k]).0,
        forall|k: int| 0 <= k < ranges.len() ==> (#[trigger] ranges[k]).0 <= ranges[k].1,
    ensures
        message_at(ranges, line, 0) == i,
{
    lemma_found_at(ranges, i, line, 0);
}

proof fn lemma_found_at(ranges: Seq<(usize, usize)>, i: int, line: int, from: int)
    requires
        0 <= from <= i < ranges.len(),
        ranges[i].0 <= line < ranges[i].1,
        forall|k: int| 0 < k < ranges.len() ==> ranges[k - 1].1 <= (#[trigger] ranges[k]).0,
        forall|k: int| 0 <= k < ranges.len() ==> (#[trigger] ranges[k]).0 <= ranges[k].1,
    ensures
        message_at(ranges, line, from) == i,
    decreases i - from,
{
    if from < i {
        lemma_ends_before(ranges, from, i);
        lemma_found_at(ranges, i, line, from + 1);
    }
}

proof fn lemma_ends_before(ranges: Seq<(usize, usize)>, a: int, b: int)
    requires
        0 <= a < b < ranges.len(),
        forall|k: int| 0 < k < ranges.len() ==> ranges[k - 1].1 <= (#[trigger] ranges[k]).0,
        forall|k: int| 0 <= k < ranges.len() ==> (#[trigger] ranges[k]).0 <= ranges[k].1,
    ensures
        ranges[a].1 <= ranges[b].0,
    decreases b - a,
{
    assert(ranges[b - 1].1 <= ranges[b].0);
    if a + 1 < b {
        lemma_ends_before(ranges, a, b - 1);
        assert(ranges[b - 1].0 <= ranges[b - 1].1);
    }
}

/// The header of the selected message has the marker, and its time the colour of the
/// selection.
pub proof fn law_selected_header_is_marked(
    page: Seq<LineView>,
    start: int,
    line: int,
    width: int,
    highlight: bool,
)
    requires
        start <= line < start + page.len(),
        page[line - start].spans.len() >= 2,
    ensures
        ({
            let shown = overlaid(page, start, Some(line), width, highlight)[line - start];
            &&& shown.spans[0].text == "> "@
            &&& shown.spans[0].style.fg == Some(Ink::SelectedRoom)
            &&& shown.spans[1].text == page[line - start].spans[1].text
            &&& shown.spans[1].style.fg == Some(Ink::SelectedRoom)
            &&& highlight ==> shown.style.bg == Some(Ink::SelectionBackground)
            &&& !highlight ==> shown.style == page[line - start].style
        }),
{
}

/// A reply says whom it answers, with the beginning of that message.
pub proof fn law_reply_names_whom_it_answers(event: EventView, relations: RelationContext)
    requires
        crate::api::event::reply_target_of(event) is Some,
    ensures
        relations.replies@.dom().contains(event.event_id) ==> context_of(event, relations) == Some(
            "↩ "@ + relations.replies@[event.event_id].sender@ + ": \""@
                + crate::app::render::snippet_of(relations.replies@[event.event_id].snippet@, 60)
                + "\""@,
        ),
        !relations.replies@.dom().contains(event.event_id) ==> context_of(event, relations) == Some(
            "↩ [reply context not loaded]"@,
        ),
{
}

/// A short text without line breaks is its own snippet.
pub proof fn law_short_snippet_is_whole(text: Seq<char>, max: int)
    requires
        text.len() <= max,
        !text.contains('\n'),
        !text.contains('\r'),
        text.len() > 0 ==> !crate::text::is_white(text[0]) && !crate::text::is_white(text.last()),
    ensures
        crate::app::render::snippet_of(text, max) == text,
{
    let flat = crate::app::render::flattened(text);
    assert forall|i: int| 0 <= i < text.len() implies flat[i] == text[i] by {
        assert(text.contains(text[i]));
    }
    assert(flat =~= text);
    assert(crate::text::trim_start(text) == text);
    assert(crate::text::trim_end(text) == text);
}

/// A badge counts the replies, with the right noun, and those that are new.
pub proof fn law_badge_counts_replies(badge: ThreadBadgeView)
    requires
        badge.latest_sender is None || badge.latest_snippet is None,
    ensures
        badge.unread_count == 0 && badge.count == 1 ==> badge_text(badge) == "↳ "@ + decimal_int(1)
            + " "@ + "reply"@,
        badge.unread_count == 0 && badge.count != 1 ==> badge_text(badge) == "↳ "@ + decimal_int(
            badge.count as int,
        ) + " "@ + "replies"@,
        badge.unread_count > 0 && badge.count != 1 ==> badge_text(badge) == "↳ "@ + decimal_int(
            badge.count as int,
        ) + " "@ + "replies"@ + " · "@ + decimal(badge.unread_count as nat) + " new"@,
{
}

/// Only the root of the thread that the pane shows is labelled as such.
pub proof fn law_root_is_labelled(input: LayoutInput, i: int)
    requires
        0 <= i < input.count(),
        input.density == MessageDensity::Normal,
    ensures
        ({
            let event = input.events@[i]@;
            let spans = input.lines(input.count())[input.range(i).0].spans;
            let place = sender_place(event.sender_trust);
            if option_view(input.relations.thread_root) == Some(event.event_id) {
                spans.len() == place + 2 && spans[place + 1].text == "[thread root] "@
            } else {
                spans.len() == place + 1
            }
        }),
{
    lemma_lines_of(input, i);
    assert(input.message(i)[0] == input.lines(input.count())[input.range(i).0]);
    lemma_trust_words();
}

} // verus!
