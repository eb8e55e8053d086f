//! The lines of the message pane.

use vstd::prelude::*;

use crate::api::dto::{EventDto, EventView};
use crate::api::event::{
    describe_membership, formatted_body_of, image_of, membership_of, reply_target_of,
    text_of_event,
};
use crate::app::choice::{event_ids, event_position, find_event};
use crate::app::clock::{format_time, time_shown, Stamp};
use crate::app::state::{MessageDensity, TimeFormat};
use crate::keyed::{Key, KeyedMap};
use crate::text::{
    cat2, cat3, cat4, cat5, chars_of, decimal, decimal_i64, decimal_int, decimal_usize, join,
    joined, option_str, option_str_view, option_view, repeat_char, same_option, same_text, text_of,
    trim, trim_end, trim_text, trim_text_end, views,
};

verus! {

// ---------------------------------------------------------------------------
// Lines
// ---------------------------------------------------------------------------

/// The colours of the pane by what they are for.
#[derive(Debug, Clone, Copy, PartialEq, Eq, Structural)]
pub enum Ink {
    Border,
    InputHint,
    OwnSender,
    Sender,
    UnreadCount,
    SelectedRoom,
    SelectionBackground,
    Green,
    Red,
    DarkGray,
    /// A colour of a formatted body, by a number.
    Body(u32),
}

#[derive(Debug, Clone, Copy, PartialEq, Eq, Structural)]
pub struct Style {
    pub fg: Option<Ink>,
    pub bg: Option<Ink>,
    pub bold: bool,
    pub italic: bool,
    pub dim: bool,
    pub underlined: bool,
    pub crossed_out: bool,
}

pub open spec fn plain() -> Style {
    Style {
        fg: None,
        bg: None,
        bold: false,
        italic: false,
        dim: false,
        underlined: false,
        crossed_out: false,
    }
}

impl Style {
    pub fn new() -> (out: Style)
        ensures
            out == plain(),
    {
        Style {
            fg: None,
            bg: None,
            bold: false,
            italic: false,
            dim: false,
            underlined: false,
            crossed_out: false,
        }
    }
}

#[derive(Debug)]
pub struct Span {
    pub text: String,
    pub style: Style,
}

#[verifier::ext_equal]
pub struct SpanView {
    pub text: Seq<char>,
    pub style: Style,
}

impl View for Span {
    type V = SpanView;

    open spec fn view(&self) -> SpanView {
        SpanView { text: self.text@, style: self.style }
    }
}

#[derive(Debug)]
pub struct Line {
    pub spans: Vec<Span>,
    pub style: Style,
}

#[verifier::ext_equal]
pub struct LineView {
    pub spans: Seq<SpanView>,
    pub style: Style,
}

impl View for Line {
    type V = LineView;

    open spec fn view(&self) -> LineView {
        LineView { spans: views(self.spans@), style: self.style }
    }
}

pub open spec fn raw(text: Seq<char>) -> SpanView {
    SpanView { text, style: plain() }
}

fn raw_span(text: &str) -> (out: Span)
    ensures
        out@ == raw(text@),
{
    Span { text: text.to_owned(), style: Style::new() }
}

fn styled_span(text: &str, style: Style) -> (out: Span)
    ensures
        out@ == (SpanView { text: text@, style }),
{
    Span { text: text.to_owned(), style }
}

/// The rows of a text that was wrapped.
pub open spec fn rows_view(rows: Seq<Vec<Span>>) -> Seq<Seq<SpanView>> {
    Seq::new(rows.len(), |i: int| views(rows[i]@))
}

/// Rows of texts, each row in its pieces.
pub open spec fn text_rows(rows: Seq<Vec<String>>) -> Seq<Seq<Seq<char>>> {
    Seq::new(rows.len(), |i: int| views(rows[i]@))
}

/// Rows of texts in one style.
pub open spec fn in_style(rows: Seq<Seq<Seq<char>>>, style: Style) -> Seq<Seq<SpanView>> {
    Seq::new(
        rows.len(),
        |i: int| Seq::new(rows[i].len(), |k: int| SpanView { text: rows[i][k], style }),
    )
}

fn style_rows(rows: &Vec<Vec<String>>, style: Style) -> (out: Vec<Vec<Span>>)
    ensures
        rows_view(out@) == in_style(text_rows(rows@), style),
{
    let mut out: Vec<Vec<Span>> = Vec::new();
    let mut i: usize = 0;
    while i < rows.len()
        invariant
            i <= rows.len(),
            out.len() == i,
            forall|k: int|
                0 <= k < i ==> views((#[trigger] out@[k])@) == in_style(
                    text_rows(rows@),
                    style,
                )[k],
        decreases rows.len() - i,
    {
        let row = &rows[i];
        let mut spans: Vec<Span> = Vec::new();
        let mut k: usize = 0;
        while k < row.len()
            invariant
                k <= row.len(),
                spans.len() == k,
                forall|m: int|
                    0 <= m < k ==> (#[trigger] spans@[m])@ == (SpanView {
                        text: row@[m]@,
                        style,
                    }),
            decreases row.len() - k,
        {
            spans.push(styled_span(row[k].as_str(), style));
            k = k + 1;
        }
        assert(views(spans@) =~= in_style(text_rows(rows@), style)[i as int]);
        out.push(spans);
        i = i + 1;
    }
    assert(rows_view(out@) =~= in_style(text_rows(rows@), style));
    out
}

fn push_spans(to: &mut Vec<Span>, from: &Vec<Span>)
    ensures
        views(final(to)@) == views(old(to)@) + views(from@),
{
    let mut i: usize = 0;
    let ghost all = views(from@);
    assert(views(to@) =~= views(old(to)@) + all.take(0));
    while i < from.len()
        invariant
            i <= from.len(),
            all == views(from@),
            views(to@) == views(old(to)@) + all.take(i as int),
        decreases from.len() - i,
    {
        let span = styled_span(from[i].text.as_str(), from[i].style);
        let ghost before = views(to@);
        to.push(span);
        assert(views(to@) =~= before.push(from@[i as int]@));
        assert(views(to@) =~= views(old(to)@) + all.take(i + 1));
        i = i + 1;
    }
    assert(all.take(i as int) =~= all);
}

/// Rows with a text before each.
pub open spec fn indented(rows: Seq<Seq<SpanView>>, indent: Seq<char>) -> Seq<LineView> {
    Seq::new(
        rows.len(),
        |i: int| LineView { spans: seq![raw(indent)] + rows[i], style: plain() },
    )
}

fn push_indented(lines: &mut Vec<Line>, rows: &Vec<Vec<Span>>, from: usize, indent: &str)
    requires
        from <= rows@.len(),
    ensures
        views(final(lines)@) == views(old(lines)@) + indented(
            rows_view(rows@).skip(from as int),
            indent@,
        ),
{
    let mut i: usize = from;
    let ghost all = indented(rows_view(rows@).skip(from as int), indent@);
    assert(views(lines@) =~= views(old(lines)@) + all.take(0));
    while i < rows.len()
        invariant
            from <= i <= rows.len(),
            all == indented(rows_view(rows@).skip(from as int), indent@),
            views(lines@) == views(old(lines)@) + all.take(i - from),
        decreases rows.len() - i,
    {
        let mut spans: Vec<Span> = Vec::new();
        spans.push(raw_span(indent));
        assert(views(spans@) =~= seq![raw(indent@)]);
        push_spans(&mut spans, &rows[i]);
        let line = Line { spans, style: Style::new() };
        assert(line@ == all[i - from]);
        let ghost before = views(lines@);
        let ghost v = line@;
        lines.push(line);
        assert(views(lines@) =~= before.push(v));
        assert(views(lines@) =~= views(old(lines)@) + all.take(i - from + 1));
        i = i + 1;
    }
    assert(all.take(i - from) =~= all);
}

// ---------------------------------------------------------------------------
// Texts
// ---------------------------------------------------------------------------

/// The most characters of a message that a reply shows of it.
pub const REPLY_SNIPPET_LEN: usize = 60;

/// The most characters of the latest reply that a thread shows of it.
pub const THREAD_SNIPPET_LEN: usize = 50;

/// The rows kept free for the thumbnail of an image.
pub const IMAGE_THUMB_ROWS: usize = 6;

/// A text in one line.
pub open spec fn flattened(text: Seq<char>) -> Seq<char> {
    Seq::new(
        text.len(),
        |i: int|
            if text[i] == '\n' || text[i] == '\r' {
                ' '
            } else {
                text[i]
            },
    )
}

/// A text in one line of at most `max` characters, with an ellipsis where it was
/// cut.
pub open spec fn snippet_of(text: Seq<char>, max: int) -> Seq<char> {
    let line = trim(flattened(text));
    if line.len() <= max {
        line
    } else {
        trim_end(line.take(max)) + "…"@
    }
}

pub fn snippet(text: &str, max: usize) -> (out: String)
    ensures
        out@ == snippet_of(text@, max as int),
{
    let x = chars_of(text);
    let mut flat: Vec<char> = Vec::new();
    let mut i: usize = 0;
    while i < x.len()
        invariant
            i <= x.len(),
            x@ == text@,
            flat@ == flattened(text@).take(i as int),
        decreases x.len() - i,
    {
        let c = if x[i] == '\n' || x[i] == '\r' {
            ' '
        } else {
            x[i]
        };
        flat.push(c);
        assert(flat@ =~= flattened(text@).take(i + 1));
        i = i + 1;
    }
    assert(flat@ =~= flattened(text@));
    let whole = text_of(flat.as_slice());
    let line = trim_text(whole.as_str());
    if line.unicode_len() <= max {
        return line.to_owned();
    }
    let head = line.substring_char(0, max);
    assert(head@ =~= line@.take(max as int));
    cat2(trim_text_end(head), "…")
}

/// A snippet is never longer than its limit and the ellipsis, and holds no line
/// break.
pub proof fn law_snippet_is_short(text: Seq<char>, max: int)
    requires
        max >= 0,
    ensures
        snippet_of(text, max).len() <= max + 1,
        !snippet_of(text, max).contains('\n'),
        !snippet_of(text, max).contains('\r'),
{
    reveal_strlit("…");
    let line = trim(flattened(text));
    lemma_trim_keeps(flattened(text));
    if line.len() > max {
        lemma_trim_end_keeps(line.take(max));
    }
    assert forall|i: int| 0 <= i < snippet_of(text, max).len() implies snippet_of(text, max)[i]
        != '\n' && snippet_of(text, max)[i] != '\r' by {
        if line.len() <= max || i < trim_end(line.take(max)).len() {
            let c = snippet_of(text, max)[i];
            if line.len() > max {
                assert(line.take(max).contains(c));
                let p = choose|p: int| 0 <= p < line.take(max).len() && line.take(max)[p] == c;
                assert(line[p] == c);
            }
            assert(line.contains(c));
            assert(flattened(text).contains(c));
        }
    }
}

proof fn lemma_trim_end_keeps(s: Seq<char>)
    ensures
        trim_end(s).len() <= s.len(),
        forall|i: int| 0 <= i < trim_end(s).len() ==> s.contains(#[trigger] trim_end(s)[i]),
    decreases s.len(),
{
    if s.len() > 0 && crate::text::is_white(s.last()) {
        lemma_trim_end_keeps(s.drop_last());
        assert forall|i: int| 0 <= i < trim_end(s).len() implies s.contains(
            #[trigger] trim_end(s)[i],
        ) by {
            let c = trim_end(s)[i];
            assert(s.drop_last().contains(c));
            let p = choose|p: int| 0 <= p < s.drop_last().len() && s.drop_last()[p] == c;
            assert(s[p] == c);
        }
    }
}

proof fn lemma_trim_start_keeps(s: Seq<char>)
    ensures
        crate::text::trim_start(s).len() <= s.len(),
        forall|i: int|
            0 <= i < crate::text::trim_start(s).len() ==> s.contains(
                #[trigger] crate::text::trim_start(s)[i],
            ),
    decreases s.len(),
{
    if s.len() > 0 && crate::text::is_white(s[0]) {
        let t = s.drop_first();
        lemma_trim_start_keeps(t);
        assert(t =~= s.skip(1));
        assert forall|i: int| 0 <= i < crate::text::trim_start(s).len() implies s.contains(
            #[trigger] crate::text::trim_start(s)[i],
        ) by {
            let c = crate::text::trim_start(s)[i];
            assert(t.contains(c));
            let p = choose|p: int| 0 <= p < t.len() && t[p] == c;
            assert(s[p + 1] == c);
        }
    }
}

proof fn lemma_trim_keeps(s: Seq<char>)
    ensures
        forall|c: char| #[trigger] trim(s).contains(c) ==> s.contains(c),
{
    lemma_trim_start_keeps(s);
    lemma_trim_end_keeps(crate::text::trim_start(s));
    lemma_trim_end_keeps(s);
    lemma_trim_start_keeps(trim_end(s));
    assert forall|c: char| #[trigger] trim(s).contains(c) implies s.contains(c) by {
        let p = choose|p: int| 0 <= p < trim(s).len() && trim(s)[p] == c;
    }
}

/// What a reply shows of the message that it answers.
#[derive(Debug)]
pub struct ReplyPreview {
    pub sender: String,
    pub snippet: String,
}

pub struct ReplyPreviewView {
    pub sender: Seq<char>,
    pub snippet: Seq<char>,
}

impl View for ReplyPreview {
    type V = ReplyPreviewView;

    open spec fn view(&self) -> ReplyPreviewView {
        ReplyPreviewView { sender: self.sender@, snippet: self.snippet@ }
    }
}

/// What the root of a thread shows of it.
#[derive(Debug)]
pub struct ThreadBadge {
    pub count: i64,
    pub unread_count: usize,
    pub latest_sender: Option<String>,
    pub latest_snippet: Option<String>,
}

pub struct ThreadBadgeView {
    pub count: i64,
    pub unread_count: usize,
    pub latest_sender: Option<Seq<char>>,
    pub latest_snippet: Option<Seq<char>>,
}

impl View for ThreadBadge {
    type V = ThreadBadgeView;

    open spec fn view(&self) -> ThreadBadgeView {
        ThreadBadgeView {
            count: self.count,
            unread_count: self.unread_count,
            latest_sender: option_view(self.latest_sender),
            latest_snippet: option_view(self.latest_snippet),
        }
    }
}

pub open spec fn badge_text(badge: ThreadBadgeView) -> Seq<char> {
    let noun = if badge.count == 1 {
        "reply"@
    } else {
        "replies"@
    };
    let counted = "↳ "@ + decimal_int(badge.count as int) + " "@ + noun;
    let unread = if badge.unread_count > 0 {
        counted + " · "@ + decimal(badge.unread_count as nat) + " new"@
    } else {
        counted
    };
    match (badge.latest_sender, badge.latest_snippet) {
        (Some(sender), Some(body)) => unread + " · latest: "@ + sender + ": \""@ + snippet_of(
            body,
            THREAD_SNIPPET_LEN as int,
        ) + "\""@,
        _ => unread,
    }
}

pub fn thread_badge_text(badge: &ThreadBadge) -> (out: String)
    ensures
        out@ == badge_text(badge@),
{
    let noun = if badge.count == 1 {
        "reply"
    } else {
        "replies"
    };
    let n = decimal_i64(badge.count);
    let counted = cat4("↳ ", n.as_str(), " ", noun);
    let unread = if badge.unread_count > 0 {
        let u = decimal_usize(badge.unread_count);
        cat4(counted.as_str(), " · ", u.as_str(), " new")
    } else {
        counted
    };
    match (&badge.latest_sender, &badge.latest_snippet) {
        (Some(sender), Some(body)) => {
            let cut = snippet(body.as_str(), THREAD_SNIPPET_LEN);
            let who = cat4(unread.as_str(), " · latest: ", sender.as_str(), ": \"");
            cat3(who.as_str(), cut.as_str(), "\"")
        },
        _ => unread,
    }
}

/// What stands for how far a sender is trusted. Only what is worth a look has a
/// sign.
pub open spec fn glyph_of(trust: Option<Seq<char>>) -> Option<(Seq<char>, Ink)> {
    match trust {
        Some(t) => if t == "verified"@ {
            Some(("✓"@, Ink::Green))
        } else if t == "verification_violation"@ {
            Some(("⚠"@, Ink::Red))
        } else if t == "unknown"@ {
            Some(("?"@, Ink::DarkGray))
        } else {
            None
        },
        None => None,
    }
}

pub fn trust_glyph(sender_trust: Option<&str>) -> (out: Option<(&'static str, Ink)>)
    ensures
        match out {
            Some((symbol, ink)) => glyph_of(option_str_view(sender_trust)) == Some((symbol@, ink)),
            None => glyph_of(option_str_view(sender_trust)) is None,
        },
{
    match sender_trust {
        Some(t) => if same_text(t, "verified") {
            Some(("✓", Ink::Green))
        } else if same_text(t, "verification_violation") {
            Some(("⚠", Ink::Red))
        } else if same_text(t, "unknown") {
            Some(("?", Ink::DarkGray))
        } else {
            None
        },
        None => None,
    }
}

pub fn display_body_with_sender(event: &EventDto, sender_label: &str) -> (out: String)
    ensures
        out@ == text_of_event(event@, sender_label@),
{
    if event.redacted {
        return "[redacted]".to_owned();
    }
    if let Some(membership) = event.membership_change() {
        return describe_membership(sender_label, membership.as_str());
    }
    event.plain_text()
}

pub open spec fn border_style() -> Style {
    Style { fg: Some(Ink::Border), dim: true, ..plain() }
}

/// A rule with a date in its middle.
pub open spec fn separator_text(date: Seq<char>, width: int) -> Seq<char> {
    let label = " "@ + date + " "@;
    let fill = if label.len() < width {
        width - label.len()
    } else {
        0
    };
    let left = fill / 2;
    Seq::new(left as nat, |i: int| '─') + label + Seq::new((fill - left) as nat, |i: int| '─')
}

pub open spec fn separator(date: Seq<char>, width: int) -> LineView {
    LineView {
        spans: seq![SpanView { text: separator_text(date, width), style: border_style() }],
        style: plain(),
    }
}

pub fn date_separator_line(date_str: &str, width: usize) -> (out: Line)
    ensures
        out@ == separator(date_str@, width as int),
{
    let label = cat3(" ", date_str, " ");
    let len: usize = label.as_str().unicode_len();
    let fill: usize = if len < width {
        width - len
    } else {
        0
    };
    let left: usize = fill / 2;
    let head = repeat_char('─', left);
    let tail = repeat_char('─', fill - left);
    let text = cat3(head.as_str(), label.as_str(), tail.as_str());
    let mut style = Style::new();
    style.fg = Some(Ink::Border);
    style.dim = true;
    let mut spans: Vec<Span> = Vec::new();
    spans.push(styled_span(text.as_str(), style));
    let line = Line { spans, style: Style::new() };
    assert(line@.spans =~= separator(date_str@, width as int).spans);
    line
}

/// A separator fills its line where the date fits.
pub proof fn law_separator_fills_line(date: Seq<char>, width: int)
    requires
        date.len() + 2 <= width,
    ensures
        separator_text(date, width).len() == width,
{
    reveal_strlit(" ");
}

// ---------------------------------------------------------------------------
// Widths
// ---------------------------------------------------------------------------

/// What is left of a width, at least one column.
pub open spec fn left_of(width: int, taken: int) -> int {
    if width - taken < 1 {
        1
    } else {
        width - taken
    }
}

fn columns_left(width: usize, taken: usize) -> (n: usize)
    ensures
        n == left_of(width as int, taken as int),
{
    if width <= taken {
        1
    } else {
        width - taken
    }
}

/// The columns before the first row of a body in a dense pane, without the sign of
/// trust: the marker, the time, and the sender with its colon.
pub open spec fn prefix_cols(time: Seq<char>, label: Seq<char>) -> int {
    2int + time.len() + 1 + label.len() + 2
}

/// The width of the first row of a body, after a time of the given length.
pub open spec fn first_width_after(time_len: int, label: Seq<char>, width: int) -> int {
    left_of(width, 2 + time_len + 1 + label.len() + 2)
}

/// Whether the columns of a line can be counted.
pub open spec fn countable(time: Seq<char>, label: Seq<char>) -> bool {
    time.len() + label.len() + 32 <= usize::MAX
}

pub fn first_body_width_after(time: &str, sender_label: &str, width: usize) -> (n: usize)
    requires
        countable(time@, sender_label@),
    ensures
        n == first_width_after(time@.len() as int, sender_label@, width as int),
{
    columns_left(width, 2 + time.unicode_len() + 1 + sender_label.unicode_len() + 2)
}

/// The width of the first row of a body in a dense pane.
pub fn first_body_width(
    sender_label: &str,
    origin_ts: i64,
    width: usize,
    time_format: TimeFormat,
) -> (n: usize)
    ensures
        time_format == TimeFormat::H24 ==> n == first_width_after(8, sender_label@, width as int),
        exists|time: Seq<char>|
            #![trigger time_shown(origin_ts as int, time_format, time)]
            time_shown(origin_ts as int, time_format, time) && n == first_width_after(
                time.len() as int,
                sender_label@,
                width as int,
            ),
{
    let time = format_time(origin_ts, time_format);
    let ghost l = time@.len() as nat;
    let t: usize = time.as_str().unicode_len();
    let s: usize = sender_label.unicode_len();
    let taken: u128 = 2 + t as u128 + 1 + s as u128 + 2;
    let n: usize = if width as u128 <= taken {
        1
    } else {
        (width as u128 - taken) as usize
    };
    assert(n == first_width_after(l as int, sender_label@, width as int));
    n
}

pub fn continuation_body_width(width: usize) -> (n: usize)
    ensures
        n == left_of(width as int, 2),
{
    columns_left(width, 2)
}

// ---------------------------------------------------------------------------
// What a message is made of
// ---------------------------------------------------------------------------

/// The image that an event shows, by the account and its address.
#[derive(Debug)]
pub struct ImageKey {
    pub account_id: u128,
    pub url: String,
}

impl View for ImageKey {
    type V = (u128, Seq<char>);

    open spec fn view(&self) -> (u128, Seq<char>) {
        (self.account_id, self.url@)
    }
}

impl Key for ImageKey {
    fn same(&self, other: &ImageKey) -> (r: bool) {
        self.account_id == other.account_id && same_text(self.url.as_str(), other.url.as_str())
    }

    fn duplicate(&self) -> (r: ImageKey) {
        ImageKey { account_id: self.account_id, url: self.url.clone() }
    }
}

/// What messages show of those that they relate to.
#[derive(Debug)]
pub struct RelationContext {
    /// By the id of the reply.
    pub replies: KeyedMap<String, ReplyPreview>,
    /// By the id of the root.
    pub thread_badges: KeyedMap<String, ThreadBadge>,
    /// The root of the thread that the pane shows.
    pub thread_root: Option<String>,
    /// By the id of a member of a thread that the main timeline shows. A root that
    /// is not loaded has no preview.
    pub thread_contexts: KeyedMap<String, Option<ReplyPreview>>,
}

pub open spec fn preview_text(lead: Seq<char>, preview: ReplyPreviewView) -> Seq<char> {
    lead + preview.sender + ": \""@ + snippet_of(preview.snippet, REPLY_SNIPPET_LEN as int) + "\""@
}

fn describe_preview(lead: &str, preview: &ReplyPreview) -> (out: String)
    ensures
        out@ == preview_text(lead@, preview@),
{
    let cut = snippet(preview.snippet.as_str(), REPLY_SNIPPET_LEN);
    cat5(lead, preview.sender.as_str(), ": \"", cut.as_str(), "\"")
}

/// What a message says of the message that it answers, or of the thread that it is
/// in.
pub open spec fn context_of(event: EventView, relations: RelationContext) -> Option<Seq<char>> {
    let id = event.event_id;
    if reply_target_of(event) is Some {
        if relations.replies@.dom().contains(id) {
            Some(preview_text("↩ "@, relations.replies@[id]@))
        } else {
            Some("↩ [reply context not loaded]"@)
        }
    } else if relations.thread_contexts@.dom().contains(id) {
        match relations.thread_contexts@[id] {
            Some(p) => Some(preview_text("↩ thread: "@, p@)),
            None => Some("↩ [thread context not loaded]"@),
        }
    } else {
        None
    }
}

pub fn context_line(event: &EventDto, relations: &RelationContext) -> (out: Option<String>)
    ensures
        option_view(out) == context_of(event@, *relations),
{
    if event.reply_relation().is_some() {
        return match relations.replies.get(&event.event_id) {
            Some(preview) => Some(describe_preview("↩ ", preview)),
            None => Some("↩ [reply context not loaded]".to_owned()),
        };
    }
    match relations.thread_contexts.get(&event.event_id) {
        Some(context) => match context {
            Some(preview) => Some(describe_preview("↩ thread: ", preview)),
            None => Some("↩ [thread context not loaded]".to_owned()),
        },
        None => None,
    }
}

/// The texts of reactions with their counts.
pub open spec fn reaction_texts(pairs: Seq<(String, usize)>) -> Seq<Seq<char>> {
    Seq::new(pairs.len(), |i: int| pairs[i].0@ + " "@ + decimal(pairs[i].1 as nat))
}

/// The reactions that a message shows.
pub open spec fn reactions_of(
    reactions: Map<Seq<char>, Vec<(String, usize)>>,
    id: Seq<char>,
) -> Option<Seq<char>> {
    if reactions.dom().contains(id) && reactions[id]@.len() > 0 {
        Some(joined(reaction_texts(reactions[id]@), "  "@))
    } else {
        None
    }
}

pub fn reaction_line(reactions: &KeyedMap<String, Vec<(String, usize)>>, id: &String) -> (out: Option<
    String,
>)
    ensures
        option_view(out) == reactions_of(reactions@, id@),
{
    let pairs = match reactions.get(id) {
        Some(p) => p,
        None => return None,
    };
    if pairs.len() == 0 {
        return None;
    }
    let mut texts: Vec<String> = Vec::new();
    let mut i: usize = 0;
    while i < pairs.len()
        invariant
            i <= pairs.len(),
            texts.len() == i,
            forall|k: int| 0 <= k < i ==> (#[trigger] texts@[k])@ == reaction_texts(pairs@)[k],
        decreases pairs.len() - i,
    {
        let n = decimal_usize(pairs[i].1);
        texts.push(cat3(pairs[i].0.as_str(), " ", n.as_str()));
        i = i + 1;
    }
    assert(views(texts@) =~= reaction_texts(pairs@));
    Some(join(texts.as_slice(), "  "))
}

pub open spec fn glyph_cols(event: EventView) -> int {
    if glyph_of(event.sender_trust) is Some {
        2
    } else {
        0
    }
}

pub open spec fn is_root(event: EventView, relations: RelationContext) -> bool {
    option_view(relations.thread_root) == Some(event.event_id)
}

/// The columns before the rows of a body: past the time in a normal pane, past the
/// sender in a dense one.
pub open spec fn body_indent(
    event: EventView,
    label: Seq<char>,
    time: Seq<char>,
    density: MessageDensity,
) -> int {
    match density {
        MessageDensity::Normal => 2int + time.len() + 1,
        MessageDensity::Dense => prefix_cols(time, label) + glyph_cols(event),
    }
}

/// The width of the first row of a body, and of the others.
pub open spec fn body_widths(
    event: EventView,
    label: Seq<char>,
    time: Seq<char>,
    width: int,
    relations: RelationContext,
    density: MessageDensity,
) -> (int, int) {
    let rest = left_of(width, body_indent(event, label, time, density));
    match density {
        MessageDensity::Normal => (rest, rest),
        MessageDensity::Dense => {
            let first = first_width_after(time.len() as int, label, width);
            let taken = glyph_cols(event) + if is_root(event, relations) {
                14int
            } else {
                0int
            };
            (if first < taken {
                0
            } else {
                first - taken
            }, rest)
        },
    }
}

/// The texts of a message that are to be wrapped, and how wide.
#[derive(Debug)]
pub struct WrapJob {
    /// The body in HTML. Where it cannot be shown as that, the plain text is.
    pub html: Option<String>,
    pub plain: String,
    pub first_width: usize,
    pub rest_width: usize,
    pub context: Option<String>,
    pub badge: Option<String>,
    pub reactions: Option<String>,
    /// The width of all but the body.
    pub side_width: usize,
}

pub open spec fn badge_of(event: EventView, relations: RelationContext) -> Option<Seq<char>> {
    if relations.thread_badges@.dom().contains(event.event_id) {
        Some(badge_text(relations.thread_badges@[event.event_id]@))
    } else {
        None
    }
}

/// The body of a message in HTML, where it is to be shown as that.
pub open spec fn html_of(event: EventView) -> Option<Seq<char>> {
    if event.redacted || membership_of(event) is Some {
        None
    } else {
        formatted_body_of(event)
    }
}

fn html_body(event: &EventDto) -> (out: Option<&str>)
    ensures
        option_str_view(out) == html_of(event@),
{
    if event.redacted || event.membership_change().is_some() {
        None
    } else {
        event.formatted_body()
    }
}

pub fn wrap_job(
    event: &EventDto,
    sender_label: &str,
    time: &str,
    width: usize,
    reactions: &KeyedMap<String, Vec<(String, usize)>>,
    relations: &RelationContext,
    density: MessageDensity,
) -> (out: WrapJob)
    requires
        countable(time@, sender_label@),
    ensures
        option_view(out.html) == html_of(event@),
        out.plain@ == text_of_event(event@, sender_label@),
        (out.first_width as int, out.rest_width as int) == body_widths(
            event@,
            sender_label@,
            time@,
            width as int,
            *relations,
            density,
        ),
        option_view(out.context) == context_of(event@, *relations),
        option_view(out.badge) == badge_of(event@, *relations),
        option_view(out.reactions) == reactions_of(reactions@, event@.event_id),
        out.side_width == left_of(width as int, 2),
{
    let html = match html_body(event) {
        Some(h) => Some(h.to_owned()),
        None => None,
    };
    let glyph: usize = if trust_glyph(option_str(&event.sender_trust)).is_some() {
        2
    } else {
        0
    };
    let t: usize = time.unicode_len();
    let s: usize = sender_label.unicode_len();
    let (first_width, rest_width) = match density {
        MessageDensity::Normal => {
            let rest: usize = columns_left(width, 2 + t + 1);
            (rest, rest)
        },
        MessageDensity::Dense => {
            let rest: usize = columns_left(width, 2 + t + 1 + s + 2 + glyph);
            let first: usize = columns_left(width, 2 + t + 1 + s + 2);
            let root = same_option(
                option_str(&relations.thread_root),
                Some(event.event_id.as_str()),
            );
            let taken: usize = glyph + if root {
                14
            } else {
                0
            };
            (if first < taken {
                0
            } else {
                first - taken
            }, rest)
        },
    };
    let badge = match relations.thread_badges.get(&event.event_id) {
        Some(b) => Some(thread_badge_text(b)),
        None => None,
    };
    WrapJob {
        html,
        plain: display_body_with_sender(event, sender_label),
        first_width,
        rest_width,
        context: context_line(event, relations),
        badge,
        reactions: reaction_line(reactions, &event.event_id),
        side_width: continuation_body_width(width),
    }
}

// ---------------------------------------------------------------------------
// The layout
// ---------------------------------------------------------------------------

/// The rows of a message after its texts were wrapped. All but a formatted body have
/// one style each, which the layout gives them.
#[derive(Debug)]
pub struct WrappedMessage {
    /// The body made of its HTML, where it can be shown as that.
    pub formatted: Option<Vec<Vec<Span>>>,
    pub plain: Vec<Vec<String>>,
    pub context: Vec<Vec<String>>,
    pub badge: Vec<Vec<String>>,
    pub reactions: Vec<Vec<String>>,
}

/// The rows of the body that is shown: the formatted one, where the message has one and
/// it can be shown, else the plain text in no style.
pub open spec fn body_shown(event: EventView, wrapped: WrappedMessage) -> Seq<Seq<SpanView>> {
    match (html_of(event), wrapped.formatted) {
        (Some(_), Some(rows)) => rows_view(rows@),
        _ => in_style(text_rows(wrapped.plain@), plain()),
    }
}

pub open spec fn sender_style(own: bool) -> Style {
    Style {
        fg: Some(
            if own {
                Ink::OwnSender
            } else {
                Ink::Sender
            },
        ),
        bold: true,
        ..plain()
    }
}

pub open spec fn relation_style() -> Style {
    Style { fg: Some(Ink::InputHint), italic: true, ..plain() }
}

/// The style of what a thread badge says.
pub open spec fn badge_style(unread: bool) -> Style {
    if unread {
        Style { fg: Some(Ink::UnreadCount), bold: true, ..plain() }
    } else {
        relation_style()
    }
}

pub fn thread_badge_style(badge: &ThreadBadge) -> (out: Style)
    ensures
        out == badge_style(badge@.unread_count > 0),
{
    if badge.unread_count > 0 {
        let mut style = Style::new();
        style.fg = Some(Ink::UnreadCount);
        style.bold = true;
        style
    } else {
        relation_line_style()
    }
}

/// The style of what a message says of the one that it relates to.
pub fn relation_line_style() -> (out: Style)
    ensures
        out == relation_style(),
{
    let mut style = Style::new();
    style.fg = Some(Ink::InputHint);
    style.italic = true;
    style
}

/// The style of reactions.
pub open spec fn reaction_style() -> Style {
    Style { fg: Some(Ink::InputHint), ..plain() }
}

pub fn reaction_line_style() -> (out: Style)
    ensures
        out == reaction_style(),
{
    let mut style = Style::new();
    style.fg = Some(Ink::InputHint);
    style
}

/// The style of the thread badge of a message.
pub open spec fn badge_style_of(event: EventView, relations: RelationContext) -> Style {
    badge_style(
        relations.thread_badges@.dom().contains(event.event_id)
            && relations.thread_badges@[event.event_id]@.unread_count > 0,
    )
}

/// The header of a message: the marker, the time, the sign of trust, the sender and
/// the label of a root. The marker and the time stand first, where the selection
/// finds them.
pub open spec fn header_of(
    event: EventView,
    label: Seq<char>,
    time: Seq<char>,
    own: bool,
    root: bool,
    density: MessageDensity,
) -> Seq<SpanView> {
    let start = seq![raw("  "@), raw(time + " "@)];
    let trusted = match glyph_of(event.sender_trust) {
        Some((symbol, ink)) => start.push(
            SpanView { text: symbol + " "@, style: Style { fg: Some(ink), ..plain() } },
        ),
        None => start,
    };
    let named = trusted.push(
        SpanView {
            text: match density {
                MessageDensity::Normal => label,
                MessageDensity::Dense => label + ": "@,
            },
            style: sender_style(own),
        },
    );
    if root {
        named.push(SpanView { text: "[thread root] "@, style: relation_style() })
    } else {
        named
    }
}

fn header_spans(
    event: &EventDto,
    label: &str,
    time: &str,
    own: bool,
    root: bool,
    density: MessageDensity,
) -> (out: Vec<Span>)
    ensures
        views(out@) == header_of(event@, label@, time@, own, root, density),
{
    let mut out: Vec<Span> = Vec::new();
    out.push(raw_span("  "));
    let shown = cat2(time, " ");
    out.push(raw_span(shown.as_str()));
    assert(views(out@) =~= seq![raw("  "@), raw(time@ + " "@)]);
    let ghost start = views(out@);
    if let Some((symbol, ink)) = trust_glyph(option_str(&event.sender_trust)) {
        let mut style = Style::new();
        style.fg = Some(ink);
        let text = cat2(symbol, " ");
        out.push(styled_span(text.as_str(), style));
        assert(views(out@) =~= start.push(
            SpanView { text: symbol@ + " "@, style: Style { fg: Some(ink), ..plain() } },
        ));
    }
    let ghost trusted = views(out@);
    let mut style = Style::new();
    style.fg = Some(
        if own {
            Ink::OwnSender
        } else {
            Ink::Sender
        },
    );
    style.bold = true;
    let name = match density {
        MessageDensity::Normal => label.to_owned(),
        MessageDensity::Dense => cat2(label, ": "),
    };
    out.push(styled_span(name.as_str(), style));
    assert(views(out@) =~= trusted.push(SpanView { text: name@, style: sender_style(own) }));
    let ghost named = views(out@);
    if root {
        let mut style = Style::new();
        style.fg = Some(Ink::InputHint);
        style.italic = true;
        out.push(styled_span("[thread root] ", style));
        assert(views(out@) =~= named.push(
            SpanView { text: "[thread root] "@, style: relation_style() },
        ));
    }
    out
}

/// The rows of a body, with empty ones after it for a thumbnail.
pub open spec fn body_rows(
    body: Seq<Seq<SpanView>>,
    image: bool,
    thumb_rows: int,
) -> Seq<Seq<SpanView>> {
    if image {
        let text = if body.len() == 0 {
            1
        } else {
            body.len() as int
        };
        body + Seq::new((text - body.len() + thumb_rows) as nat, |i: int| Seq::<SpanView>::empty())
    } else {
        body
    }
}

/// The image that an event shows.
pub open spec fn image_key(event: EventView) -> Option<(u128, Seq<char>)> {
    match image_of(event) {
        Some(media) => match media.url {
            Some(url) => Some((event.account_id, url)),
            None => None,
        },
        None => None,
    }
}

pub open spec fn thumb_rows(rows: Map<(u128, Seq<char>), usize>, key: (u128, Seq<char>)) -> int {
    if rows.dom().contains(key) {
        rows[key] as int
    } else {
        IMAGE_THUMB_ROWS as int
    }
}

/// The rows of a message from its first to the top of its thumbnail: the header,
/// unless the first row of the body stands on it; the context; and the body.
pub open spec fn rows_above(
    event: EventView,
    wrapped: WrappedMessage,
    on_header: bool,
    context: bool,
) -> int {
    let text = if body_shown(event, wrapped).len() == 0 {
        1
    } else {
        body_shown(event, wrapped).len() as int
    };
    1 + (if context {
        wrapped.context@.len() as int
    } else {
        0
    }) + text - if on_header {
        1int
    } else {
        0int
    }
}

/// Whether the first row of a body stands on the header: in a dense pane, where no
/// context stands between.
pub open spec fn on_header(event: EventView, relations: RelationContext, density: MessageDensity) -> bool {
    density == MessageDensity::Dense && context_of(event, relations) is None
}

/// The rows of the body of a message, with those for its thumbnail.
pub open spec fn rows_of(
    event: EventView,
    thumbs: Map<(u128, Seq<char>), usize>,
    wrapped: WrappedMessage,
) -> Seq<Seq<SpanView>> {
    match image_key(event) {
        Some(key) => body_rows(body_shown(event, wrapped), true, thumb_rows(thumbs, key)),
        None => body_shown(event, wrapped),
    }
}

/// The first line of a message.
pub open spec fn header_row(
    event: EventView,
    label: Seq<char>,
    time: Seq<char>,
    own: bool,
    relations: RelationContext,
    density: MessageDensity,
    rows: Seq<Seq<SpanView>>,
) -> LineView {
    let head = header_of(event, label, time, own, is_root(event, relations), density);
    LineView {
        spans: if on_header(event, relations, density) && rows.len() > 0 {
            head + rows[0]
        } else {
            head
        },
        style: plain(),
    }
}

/// The rows of a body that stand below the header.
pub open spec fn rows_below(
    event: EventView,
    relations: RelationContext,
    density: MessageDensity,
    rows: Seq<Seq<SpanView>>,
) -> Seq<Seq<SpanView>> {
    if on_header(event, relations, density) && rows.len() > 0 {
        rows.skip(1)
    } else {
        rows
    }
}

/// Rows of a text beside the body in their style, where there is one.
pub open spec fn side_rows(text: Option<Seq<char>>, rows: Seq<Vec<String>>, style: Style) -> Seq<
    LineView,
> {
    if text is Some {
        indented(in_style(text_rows(rows), style), "  "@)
    } else {
        Seq::empty()
    }
}

/// The lines of a message: its header, what it says of the message that it relates
/// to, its body, its thread and its reactions.
pub open spec fn message_lines(
    event: EventView,
    label: Seq<char>,
    time: Seq<char>,
    own: bool,
    thumbs: Map<(u128, Seq<char>), usize>,
    relations: RelationContext,
    reactions: Map<Seq<char>, Vec<(String, usize)>>,
    density: MessageDensity,
    wrapped: WrappedMessage,
) -> Seq<LineView> {
    let rows = rows_of(event, thumbs, wrapped);
    let indent = Seq::new(body_indent(event, label, time, density) as nat, |i: int| ' ');
    seq![header_row(event, label, time, own, relations, density, rows)] + side_rows(
        context_of(event, relations),
        wrapped.context@,
        relation_style(),
    ) + indented(rows_below(event, relations, density, rows), indent) + side_rows(
        badge_of(event, relations),
        wrapped.badge@,
        badge_style_of(event, relations),
    ) + side_rows(
        reactions_of(reactions, event.event_id),
        wrapped.reactions@,
        reaction_style(),
    )
}

fn copy_rows(rows: &Vec<Vec<Span>>) -> (out: Vec<Vec<Span>>)
    ensures
        rows_view(out@) == rows_view(rows@),
{
    let mut out: Vec<Vec<Span>> = Vec::new();
    let mut i: usize = 0;
    while i < rows.len()
        invariant
            i <= rows.len(),
            out.len() == i,
            forall|k: int| 0 <= k < i ==> views((#[trigger] out@[k])@) == views(rows@[k]@),
        decreases rows.len() - i,
    {
        let mut spans: Vec<Span> = Vec::new();
        assert(views(spans@) =~= Seq::<SpanView>::empty());
        push_spans(&mut spans, &rows[i]);
        assert(views(spans@) =~= views(rows@[i as int]@));
        out.push(spans);
        i = i + 1;
    }
    assert(rows_view(out@) =~= rows_view(rows@));
    out
}

fn pad_rows(rows: Vec<Vec<Span>>, thumb: usize) -> (out: Vec<Vec<Span>>)
    ensures
        rows_view(out@) == body_rows(rows_view(rows@), true, thumb as int),
{
    let ghost body = rows_view(rows@);
    let mut out = rows;
    if out.len() == 0 {
        let row: Vec<Span> = Vec::new();
        assert(views(row@) =~= Seq::<SpanView>::empty());
        out.push(row);
        assert(rows_view(out@) =~= seq![Seq::<SpanView>::empty()]);
    }
    let ghost start = rows_view(out@);
    let mut i: usize = 0;
    while i < thumb
        invariant
            i <= thumb,
            rows_view(out@) == start + Seq::new(i as nat, |k: int| Seq::<SpanView>::empty()),
        decreases thumb - i,
    {
        let ghost before = rows_view(out@);
        let row: Vec<Span> = Vec::new();
        assert(views(row@) =~= Seq::<SpanView>::empty());
        out.push(row);
        assert(rows_view(out@) =~= before.push(Seq::<SpanView>::empty()));
        assert(rows_view(out@) =~= start + Seq::new(
            (i + 1) as nat,
            |k: int| Seq::<SpanView>::empty(),
        ));
        i = i + 1;
    }
    assert(rows_view(out@) =~= body_rows(body, true, thumb as int));
    out
}

/// What the messages of the pane are laid out from.
pub struct LayoutInput<'a> {
    pub events: &'a Vec<&'a EventDto>,
    pub sender_labels: &'a Vec<String>,
    pub stamps: &'a Vec<Stamp>,
    pub width: usize,
    pub reactions: &'a KeyedMap<String, Vec<(String, usize)>>,
    pub own_senders: &'a KeyedMap<u128, String>,
    pub image_thumb_rows: &'a KeyedMap<ImageKey, usize>,
    pub relations: &'a RelationContext,
    pub density: MessageDensity,
    pub wrapped: &'a Vec<WrappedMessage>,
}

impl<'a> LayoutInput<'a> {
    /// How many messages there are.
    pub open spec fn count(self) -> int {
        if self.events@.len() < self.sender_labels@.len() {
            self.events@.len() as int
        } else {
            self.sender_labels@.len() as int
        }
    }

    pub open spec fn own(self, i: int) -> bool {
        let event = self.events@[i]@;
        self.own_senders@.dom().contains(event.account_id)
            && self.own_senders@[event.account_id]@ == event.sender
    }

    /// The day before that of a message.
    pub open spec fn day_before(self, i: int) -> Option<i64> {
        if i == 0 {
            None
        } else {
            self.stamps@[i - 1]@.day
        }
    }

    /// The separator before a message, on the first of a day.
    pub open spec fn separators(self, i: int) -> Seq<LineView> {
        if self.stamps@[i]@.day != self.day_before(i) {
            seq![separator(self.stamps@[i]@.date, self.width as int)]
        } else {
            Seq::empty()
        }
    }

    pub open spec fn message(self, i: int) -> Seq<LineView> {
        message_lines(
            self.events@[i]@,
            self.sender_labels@[i]@,
            self.stamps@[i]@.time,
            self.own(i),
            self.image_thumb_rows@,
            *self.relations,
            self.reactions@,
            self.density,
            self.wrapped@[i],
        )
    }

    /// The lines of the first `n` messages.
    pub open spec fn lines(self, n: int) -> Seq<LineView>
        decreases n,
    {
        if n <= 0 {
            Seq::empty()
        } else {
            self.lines(n - 1) + self.separators(n - 1) + self.message(n - 1)
        }
    }

    /// The lines that a message takes.
    pub open spec fn range(self, i: int) -> (int, int) {
        (
            self.lines(i).len() as int + self.separators(i).len(),
            self.lines(i + 1).len() as int,
        )
    }

    /// The rows above the thumbnails of the first `n` messages.
    pub open spec fn thumbs_above(self, n: int) -> Map<(u128, Seq<char>), usize>
        decreases n,
    {
        if n <= 0 {
            Map::empty()
        } else {
            let before = self.thumbs_above(n - 1);
            let event = self.events@[n - 1]@;
            let context = context_of(event, *self.relations) is Some;
            match image_key(event) {
                Some(key) => before.insert(
                    key,
                    rows_above(
                        event,
                        self.wrapped@[n - 1],
                        on_header(event, *self.relations, self.density),
                        context,
                    ) as usize,
                ),
                None => before,
            }
        }
    }

    /// Whether there are stamps and rows for every message, and what is counted
    /// fits a machine word.
    pub open spec fn complete(self) -> bool {
        &&& self.stamps@.len() >= self.count()
        &&& self.wrapped@.len() >= self.count()
        &&& forall|i: int|
            0 <= i < self.count() ==> countable(
                (#[trigger] self.stamps@[i])@.time,
                self.sender_labels@[i]@,
            )
        &&& forall|i: int|
            0 <= i < self.count() ==> body_shown(
                self.events@[i]@,
                #[trigger] self.wrapped@[i],
            ).len() + self.wrapped@[i].context@.len() + 2 <= usize::MAX
    }
}

/// The lines of the pane, the lines that each message takes, and for each image the
/// rows above its thumbnail. Nothing is selected: the selection is laid over it.
#[derive(Debug)]
pub struct MessageLayout {
    pub lines: Vec<Line>,
    pub ranges: Vec<(usize, usize)>,
    pub image_body_rows: KeyedMap<ImageKey, usize>,
}

fn take_body(event: &EventDto, wrapped: &WrappedMessage) -> (out: Vec<Vec<Span>>)
    ensures
        rows_view(out@) == body_shown(event@, *wrapped),
{
    match (html_body(event), &wrapped.formatted) {
        (Some(_), Some(rows)) => copy_rows(rows),
        _ => style_rows(&wrapped.plain, Style::new()),
    }
}

fn count_body(event: &EventDto, wrapped: &WrappedMessage) -> (n: usize)
    ensures
        n == body_shown(event@, *wrapped).len(),
{
    match (html_body(event), &wrapped.formatted) {
        (Some(_), Some(rows)) => rows.len(),
        _ => wrapped.plain.len(),
    }
}

fn take_rows(event: &EventDto, thumbs: &KeyedMap<ImageKey, usize>, wrapped: &WrappedMessage) -> (out:
    Vec<Vec<Span>>)
    ensures
        rows_view(out@) == rows_of(event@, thumbs@, *wrapped),
{
    match event.image_mxc() {
        Some((account_id, url)) => {
            let key = ImageKey { account_id, url };
            let thumb: usize = match thumbs.get(&key) {
                Some(n) => *n,
                None => IMAGE_THUMB_ROWS,
            };
            pad_rows(take_body(event, wrapped), thumb)
        },
        None => take_body(event, wrapped),
    }
}

fn push_side(
    lines: &mut Vec<Line>,
    there: bool,
    rows: &Vec<Vec<String>>,
    style: Style,
    Ghost(text): Ghost<Option<Seq<char>>>,
)
    requires
        there == (text is Some),
    ensures
        views(final(lines)@) == views(old(lines)@) + side_rows(text, rows@, style),
{
    if there {
        let styled = style_rows(rows, style);
        push_indented(lines, &styled, 0, "  ");
        assert(rows_view(styled@).skip(0) =~= rows_view(styled@));
    } else {
        assert(views(lines@) =~= views(old(lines)@) + Seq::<LineView>::empty());
    }
}

fn make_header(
    event: &EventDto,
    label: &str,
    time: &str,
    own: bool,
    relations: &RelationContext,
    density: MessageDensity,
    rows: &Vec<Vec<Span>>,
    shares: bool,
) -> (out: Line)
    requires
        shares == (on_header(event@, *relations, density) && rows@.len() > 0),
    ensures
        out@ == header_row(event@, label@, time@, own, *relations, density, rows_view(rows@)),
{
    let root = same_option(option_str(&relations.thread_root), Some(event.event_id.as_str()));
    let mut spans = header_spans(event, label, time, own, root, density);
    if shares {
        push_spans(&mut spans, &rows[0]);
    }
    Line { spans, style: Style::new() }
}

fn make_indent(event: &EventDto, label: &str, time: &str, density: MessageDensity) -> (out: String)
    requires
        countable(time@, label@),
    ensures
        out@ == Seq::new(
            body_indent(event@, label@, time@, density) as nat,
            |i: int| ' ',
        ),
{
    let glyph: usize = if trust_glyph(option_str(&event.sender_trust)).is_some() {
        2
    } else {
        0
    };
    let cols: usize = match density {
        MessageDensity::Normal => 2 + time.unicode_len() + 1,
        MessageDensity::Dense => 2 + time.unicode_len() + 1 + label.unicode_len() + 2 + glyph,
    };
    repeat_char(' ', cols)
}

proof fn lemma_five_parts(
    start: Seq<LineView>,
    a: Seq<LineView>,
    b: Seq<LineView>,
    c: Seq<LineView>,
    d: Seq<LineView>,
    e: Seq<LineView>,
)
    ensures
        start + a + b + c + d + e == start + (a + b + c + d + e),
{
    assert(start + a + b =~= start + (a + b));
    assert(start + (a + b) + c =~= start + (a + b + c));
    assert(start + (a + b + c) + d =~= start + (a + b + c + d));
    assert(start + (a + b + c + d) + e =~= start + (a + b + c + d + e));
}

/// Adds the lines of a message.
fn push_message(
    lines: &mut Vec<Line>,
    event: &EventDto,
    label: &str,
    time: &str,
    own: bool,
    thumbs: &KeyedMap<ImageKey, usize>,
    relations: &RelationContext,
    reactions: &KeyedMap<String, Vec<(String, usize)>>,
    density: MessageDensity,
    wrapped: &WrappedMessage,
)
    requires
        countable(time@, label@),
    ensures
        views(final(lines)@) == views(old(lines)@) + message_lines(
            event@,
            label@,
            time@,
            own,
            thumbs@,
            *relations,
            reactions@,
            density,
            *wrapped,
        ),
{
    let ghost start = views(lines@);
    let context = context_line(event, relations).is_some();
    let dense = match density {
        MessageDensity::Dense => true,
        MessageDensity::Normal => false,
    };
    let rows = take_rows(event, thumbs, wrapped);
    assert(rows@.len() == rows_view(rows@).len());
    let shares = dense && !context && rows.len() > 0;
    let header = make_header(event, label, time, own, relations, density, &rows, shares);
    let ghost head = header@;
    lines.push(header);
    assert(views(lines@) =~= start + seq![head]);
    push_side(
        lines,
        context,
        &wrapped.context,
        relation_line_style(),
        Ghost(context_of(event@, *relations)),
    );
    let indent = make_indent(event, label, time, density);
    let from: usize = if shares {
        1
    } else {
        0
    };
    let ghost below = rows_below(event@, *relations, density, rows_view(rows@));
    assert(rows_view(rows@).skip(from as int) =~= below);
    push_indented(lines, &rows, from, indent.as_str());
    let (badge, ink) = match relations.thread_badges.get(&event.event_id) {
        Some(b) => (true, thread_badge_style(b)),
        None => (false, relation_line_style()),
    };
    push_side(lines, badge, &wrapped.badge, ink, Ghost(badge_of(event@, *relations)));
    let reacted = reaction_line(reactions, &event.event_id).is_some();
    push_side(
        lines,
        reacted,
        &wrapped.reactions,
        reaction_line_style(),
        Ghost(reactions_of(reactions@, event@.event_id)),
    );
    proof {
        lemma_five_parts(
            start,
            seq![head],
            side_rows(context_of(event@, *relations), wrapped.context@, relation_style()),
            indented(below, indent@),
            side_rows(
                badge_of(event@, *relations),
                wrapped.badge@,
                badge_style_of(event@, *relations),
            ),
            side_rows(
                reactions_of(reactions@, event@.event_id),
                wrapped.reactions@,
                reaction_style(),
            ),
        );
    }
}

fn count_rows_above(
    event: &EventDto,
    relations: &RelationContext,
    density: MessageDensity,
    wrapped: &WrappedMessage,
) -> (n: usize)
    requires
        body_shown(event@, *wrapped).len() + wrapped.context@.len() + 2 <= usize::MAX,
    ensures
        n == rows_above(
            event@,
            *wrapped,
            on_header(event@, *relations, density),
            context_of(event@, *relations) is Some,
        ),
{
    let context = context_line(event, relations).is_some();
    let shares = match density {
        MessageDensity::Dense => !context,
        MessageDensity::Normal => false,
    };
    let body: usize = count_body(event, wrapped);
    let text: usize = if body == 0 {
        1
    } else {
        body
    };
    let side: usize = if context {
        wrapped.context.len()
    } else {
        0
    };
    if shares {
        side + text
    } else {
        1 + side + text
    }
}

pub fn message_layout(input: &LayoutInput) -> (out: MessageLayout)
    requires
        input.complete(),
    ensures
        views(out.lines@) == input.lines(input.count()),
        out.ranges@.len() == input.count(),
        forall|i: int|
            0 <= i < input.count() ==> ((#[trigger] out.ranges@[i]).0 as int, out.ranges@[i].1 as int)
                == input.range(i),
        out.image_body_rows@ == input.thumbs_above(input.count()),
{
    let n: usize = if input.events.len() < input.sender_labels.len() {
        input.events.len()
    } else {
        input.sender_labels.len()
    };
    let mut lines: Vec<Line> = Vec::new();
    let mut ranges: Vec<(usize, usize)> = Vec::new();
    let mut image_body_rows: KeyedMap<ImageKey, usize> = KeyedMap::new();
    let mut i: usize = 0;
    assert(views(lines@) =~= Seq::<LineView>::empty());
    while i < n
        invariant
            i <= n,
            n == input.count(),
            input.complete(),
            views(lines@) == input.lines(i as int),
            ranges.len() == i,
            forall|k: int|
                0 <= k < i ==> ((#[trigger] ranges@[k]).0 as int, ranges@[k].1 as int)
                    == input.range(k),
            image_body_rows@ == input.thumbs_above(i as int),
        decreases n - i,
    {
        let event: &EventDto = input.events[i];
        let stamp = &input.stamps[i];
        let label = input.sender_labels[i].as_str();
        let wrapped = &input.wrapped[i];
        assert(countable(input.stamps@[i as int]@.time, input.sender_labels@[i as int]@));
        let before: Option<i64> = if i == 0 {
            None
        } else {
            input.stamps[i - 1].day
        };
        let ghost so_far = views(lines@);
        if stamp.day != before {
            let line = date_separator_line(stamp.date.as_str(), input.width);
            let ghost v = line@;
            lines.push(line);
            assert(views(lines@) =~= so_far + seq![v]);
        }
        assert(views(lines@) =~= so_far + input.separators(i as int));
        let own = match input.own_senders.get(&event.account_id) {
            Some(user) => same_text(user.as_str(), event.sender.as_str()),
            None => false,
        };
        let start: usize = lines.len();
        let ghost with_separator = views(lines@);
        assert(start == with_separator.len());
        push_message(
            &mut lines,
            event,
            label,
            stamp.time.as_str(),
            own,
            input.image_thumb_rows,
            input.relations,
            input.reactions,
            input.density,
            wrapped,
        );
        assert(views(lines@) == input.lines(i + 1));
        assert(lines@.len() == views(lines@).len());
        if let Some((account_id, url)) = event.image_mxc() {
            let above: usize = count_rows_above(
                event,
                input.relations,
                input.density,
                wrapped,
            );
            image_body_rows.insert(ImageKey { account_id, url }, above);
        }
        ranges.push((start, lines.len()));
        i = i + 1;
    }
    MessageLayout { lines, ranges, image_body_rows }
}

/// The ranges of messages follow one another, and each holds a line.
pub proof fn law_ranges_follow(input: LayoutInput, i: int)
    requires
        0 <= i < input.count(),
    ensures
        0 <= input.range(i).0 < input.range(i).1,
        i > 0 ==> input.range(i - 1).1 <= input.range(i).0,
        input.range(i).1 <= input.lines(i + 1).len(),
{
}

// ---------------------------------------------------------------------------
// The selection
// ---------------------------------------------------------------------------

/// The message that a line belongs to: the first that ends after it, or the last.
pub open spec fn message_at(ranges: Seq<(usize, usize)>, line: int, from: int) -> int
    decreases ranges.len() - from,
{
    if from >= ranges.len() {
        if ranges.len() == 0 {
            0
        } else {
            ranges.len() - 1
        }
    } else if line < ranges[from].1 {
        from
    } else {
        message_at(ranges, line, from + 1)
    }
}

pub fn message_index_at_line(ranges: &[(usize, usize)], line: usize) -> (at: usize)
    ensures
        at == message_at(ranges@, line as int, 0),
{
    let mut i: usize = 0;
    while i < ranges.len()
        invariant
            i <= ranges.len(),
            message_at(ranges@, line as int, 0) == message_at(ranges@, line as int, i as int),
        decreases ranges.len() - i,
    {
        if line < ranges[i].1 {
            return i;
        }
        i = i + 1;
    }
    if ranges.len() == 0 {
        0
    } else {
        ranges.len() - 1
    }
}

/// The columns that a text takes on the screen.
pub uninterp spec fn display_width(text: Seq<char>) -> usize;

/// The columns that a text takes on the screen: `Span::width` of `ratatui`. What
/// each character takes comes from a table, so the result is named.
#[verifier::external_body]
fn text_width(text: &str) -> (n: usize)
    ensures
        n == display_width(text@),
{
    ratatui::text::Span::raw(text).width()
}

/// What is left of a width after spans.
pub open spec fn room_after(spans: Seq<SpanView>, width: int) -> int
    decreases spans.len(),
{
    if spans.len() == 0 {
        width
    } else {
        let left = room_after(spans.drop_last(), width) - display_width(spans.last().text);
        if left < 0 {
            0
        } else {
            left
        }
    }
}

fn measure_room(spans: &Vec<Span>, width: usize) -> (n: usize)
    ensures
        n == room_after(views(spans@), width as int),
{
    let ghost all = views(spans@);
    let mut left: usize = width;
    let mut i: usize = 0;
    while i < spans.len()
        invariant
            i <= spans.len(),
            all == views(spans@),
            left == room_after(all.take(i as int), width as int),
        decreases spans.len() - i,
    {
        assert(all.take(i + 1).drop_last() =~= all.take(i as int));
        assert(all.take(i + 1).last() == spans@[i as int]@);
        let w: usize = text_width(spans[i].text.as_str());
        left = if left < w {
            0
        } else {
            left - w
        };
        i = i + 1;
    }
    assert(all.take(i as int) =~= all);
    left
}

pub open spec fn selection_style(selected: bool, highlight: bool) -> Style {
    if selected && highlight {
        Style { bg: Some(Ink::SelectionBackground), ..plain() }
    } else {
        plain()
    }
}

pub fn selected_line_style(selected: bool, highlight_selected_line: bool) -> (out: Style)
    ensures
        out == selection_style(selected, highlight_selected_line),
{
    let mut style = Style::new();
    if selected && highlight_selected_line {
        style.bg = Some(Ink::SelectionBackground);
    }
    style
}

pub open spec fn marked_style() -> Style {
    Style { fg: Some(Ink::SelectedRoom), ..plain() }
}

/// The spans of a header with the marker of the selection.
pub open spec fn marked(spans: Seq<SpanView>) -> Seq<SpanView> {
    Seq::new(
        spans.len(),
        |i: int|
            if i == 0 {
                SpanView { text: "> "@, style: marked_style() }
            } else if i == 1 {
                SpanView { style: marked_style(), ..spans[i] }
            } else {
                spans[i]
            },
    )
}

/// A header as it is shown where its message is selected. Under the highlight the
/// line is filled to its width.
pub open spec fn selected_header(line: LineView, width: int, highlight: bool) -> LineView {
    let spans = marked(line.spans);
    if !highlight {
        LineView { spans, ..line }
    } else {
        let fill = room_after(spans, width);
        LineView {
            spans: if fill > 0 {
                spans.push(
                    SpanView {
                        text: Seq::new(fill as nat, |i: int| ' '),
                        style: selection_style(true, true),
                    },
                )
            } else {
                spans
            },
            style: selection_style(true, true),
        }
    }
}

pub fn apply_selected_message_style(line: &mut Line, width: usize, highlight_selected_line: bool)
    ensures
        final(line)@ == selected_header(old(line)@, width as int, highlight_selected_line),
{
    let ghost given = line@.spans;
    let mut style = Style::new();
    style.fg = Some(Ink::SelectedRoom);
    let mut spans: Vec<Span> = Vec::new();
    let mut i: usize = 0;
    while i < line.spans.len()
        invariant
            i <= line.spans.len(),
            given == line@.spans,
            *line == *old(line),
            style == marked_style(),
            spans.len() == i,
            forall|k: int| 0 <= k < i ==> (#[trigger] spans@[k])@ == marked(given)[k],
        decreases line.spans.len() - i,
    {
        let span = &line.spans[i];
        assert(given[i as int] == span@);
        let next = if i == 0 {
            styled_span("> ", style)
        } else if i == 1 {
            styled_span(span.text.as_str(), style)
        } else {
            styled_span(span.text.as_str(), span.style)
        };
        spans.push(next);
        i = i + 1;
    }
    assert(views(spans@) =~= marked(given));
    if highlight_selected_line {
        let bar = selected_line_style(true, true);
        let fill: usize = measure_room(&spans, width);
        if fill > 0 {
            let pad = repeat_char(' ', fill);
            let ghost before = views(spans@);
            spans.push(styled_span(pad.as_str(), bar));
            assert(views(spans@) =~= before.push(
                SpanView { text: Seq::new(fill as nat, |i: int| ' '), style: bar },
            ));
        }
        line.style = bar;
    }
    line.spans = spans;
}

/// The line of the header of the selected message.
pub open spec fn header_line(
    ranges: Seq<(usize, usize)>,
    ids: Seq<Seq<char>>,
    selected: Option<Seq<char>>,
) -> Option<int> {
    match selected {
        Some(id) => {
            let at = event_position(ids, id);
            if at < ids.len() && at < ranges.len() {
                Some(ranges[at].0 as int)
            } else {
                None
            }
        },
        None => None,
    }
}

/// A page with the selection laid over it. A message that is not on the page has no
/// line to mark.
pub open spec fn overlaid(
    page: Seq<LineView>,
    page_start: int,
    line: Option<int>,
    width: int,
    highlight: bool,
) -> Seq<LineView> {
    match line {
        Some(l) => if page_start <= l < page_start + page.len() {
            page.update(l - page_start, selected_header(page[l - page_start], width, highlight))
        } else {
            page
        },
        None => page,
    }
}

pub fn overlay_selection_on_page(
    page: &mut Vec<Line>,
    page_start: usize,
    ranges: &[(usize, usize)],
    events: &[&EventDto],
    selected_message: Option<&str>,
    width: usize,
    highlight_selected_line: bool,
)
    ensures
        views(final(page)@) == overlaid(
            views(old(page)@),
            page_start as int,
            header_line(ranges@, event_ids(events@), option_str_view(selected_message)),
            width as int,
            highlight_selected_line,
        ),
{
    let id = match selected_message {
        Some(id) => id,
        None => return ,
    };
    let at: usize = find_event(events, id);
    if at >= events.len() || at >= ranges.len() {
        return ;
    }
    let line: usize = ranges[at].0;
    if line < page_start || line - page_start >= page.len() {
        return ;
    }
    let offset: usize = line - page_start;
    let ghost before = views(page@);
    let mut header = page.remove(offset);
    apply_selected_message_style(&mut header, width, highlight_selected_line);
    let ghost v = header@;
    page.insert(offset, header);
    assert(views(page@) =~= before.update(offset as int, v));
}

/// The selection keeps the number of lines of a page, and every line but one.
pub proof fn law_selection_touches_one_line(
    page: Seq<LineView>,
    page_start: int,
    line: Option<int>,
    width: int,
    highlight: bool,
    i: int,
)
    requires
        0 <= i < page.len(),
        line != Some(page_start + i),
    ensures
        overlaid(page, page_start, line, width, highlight).len() == page.len(),
        overlaid(page, page_start, line, width, highlight)[i] == page[i],
{
}

/// The marker of the selection takes the place of two spaces, so that it moves no text.
pub proof fn law_selection_moves_no_text(spans: Seq<SpanView>, i: int)
    requires
        spans.len() > 0,
        spans[0].text == "  "@,
        0 <= i < spans.len(),
    ensures
        marked(spans).len() == spans.len(),
        marked(spans)[i].text.len() == spans[i].text.len(),
        i > 0 ==> marked(spans)[i].text == spans[i].text,
{
    reveal_strlit("> ");
    reveal_strlit("  ");
}

} // verus!
