//! Emojis by their names.

use vstd::prelude::*;

use crate::app::choice::{pick, picked};
use crate::app::state::App;
use crate::app::status::{Status, StatusView};
use crate::text::{
    ascii_lowercase, cat2, cat3, cat4, cat5, decimal, decimal_usize, has_part, join, joined,
    text_has_part, to_ascii_lowercase, views,
};

verus! {

/// An emoji and its name.
#[derive(Debug, Clone, Copy)]
pub struct EmojiChoice {
    pub text: &'static str,
    pub name: &'static str,
}

impl View for EmojiChoice {
    type V = (Seq<char>, Seq<char>);

    open spec fn view(&self) -> (Seq<char>, Seq<char>) {
        (self.text@, self.name@)
    }
}

/// The emojis of the table of the `emojis` crate from a position on, each with its
/// name.
pub uninterp spec fn emojis_from(start: nat) -> Seq<(Seq<char>, Seq<char>)>;

/// The table of emojis from a position on: `emojis::iter`. The table is fixed, so
/// what it holds is named.
#[verifier::external_body]
fn list_emojis(start: usize) -> (out: Vec<EmojiChoice>)
    ensures
        views(out@) == emojis_from(start as nat),
{
    emojis::iter().skip(start).map(|e| EmojiChoice { text: e.as_str(), name: e.name() }).collect()
}

/// The emojis of a table whose names hold a text, the case of ASCII letters aside.
pub open spec fn named_among(
    table: Seq<(Seq<char>, Seq<char>)>,
    query: Seq<char>,
) -> Seq<(Seq<char>, Seq<char>)>
    decreases table.len(),
{
    if table.len() == 0 {
        Seq::empty()
    } else {
        let before = named_among(table.drop_last(), query);
        if has_part(ascii_lowercase(table.last().1), ascii_lowercase(query)) {
            before.push(table.last())
        } else {
            before
        }
    }
}

/// The emojis that a query finds. The empty one finds none.
pub open spec fn emojis_named(query: Seq<char>) -> Seq<(Seq<char>, Seq<char>)> {
    if query.len() == 0 {
        Seq::empty()
    } else {
        named_among(emojis_from(0), query)
    }
}

/// The emojis of a table that a query finds.
pub fn matches_among(table: &Vec<EmojiChoice>, query: &str) -> (out: Vec<EmojiChoice>)
    ensures
        views(out@) == named_among(views(table@), query@),
{
    let q = to_ascii_lowercase(query);
    let ghost all = views(table@);
    let mut out: Vec<EmojiChoice> = Vec::new();
    let mut i: usize = 0;
    assert(views(out@) =~= Seq::<(Seq<char>, Seq<char>)>::empty());
    while i < table.len()
        invariant
            i <= table.len(),
            all == views(table@),
            q@ == ascii_lowercase(query@),
            views(out@) == named_among(all.take(i as int), query@),
        decreases table.len() - i,
    {
        let ghost before = views(out@);
        assert(all.take(i + 1).drop_last() =~= all.take(i as int));
        assert(all.take(i + 1).last() == table@[i as int]@);
        if text_has_part(to_ascii_lowercase(table[i].name).as_str(), q.as_str()) {
            out.push(table[i]);
            assert(views(out@) =~= before.push(table@[i as int]@));
        }
        i = i + 1;
    }
    assert(all.take(i as int) =~= all);
    out
}

pub fn emoji_matches(query: &str) -> (out: Vec<EmojiChoice>)
    ensures
        views(out@) == emojis_named(query@),
{
    if query.is_empty() {
        let out: Vec<EmojiChoice> = Vec::new();
        assert(views(out@) =~= Seq::<(Seq<char>, Seq<char>)>::empty());
        return out;
    }
    matches_among(&list_emojis(0), query)
}

/// Which emoji of how many is picked.
pub open spec fn emoji_text(selected: int, matches: Seq<(Seq<char>, Seq<char>)>) -> Seq<char> {
    "["@ + decimal((selected + 1) as nat) + "/"@ + decimal(matches.len()) + "] "@
        + matches[selected].0 + " "@ + matches[selected].1
        + " - Tab/Shift-Tab to cycle, Enter to send"@
}

pub fn emoji_cycle_status(selected: usize, matches: &Vec<EmojiChoice>) -> (out: String)
    requires
        selected < matches.len(),
    ensures
        out@ == emoji_text(selected as int, views(matches@)),
{
    let n = decimal_usize(selected + 1);
    let total = decimal_usize(matches.len());
    let head = cat5("[", n.as_str(), "/", total.as_str(), "] ");
    let named = cat4(head.as_str(), matches[selected].text, " ", matches[selected].name);
    let out = cat2(named.as_str(), " - Tab/Shift-Tab to cycle, Enter to send");
    assert(out@ =~= emoji_text(selected as int, views(matches@)));
    out
}

/// An emoji with its name.
pub open spec fn with_name(e: (Seq<char>, Seq<char>)) -> Seq<char> {
    e.0 + " "@ + e.1
}

/// The number beyond what is shown.
pub open spec fn beyond(total: int, shown: int) -> int {
    if total > shown {
        total - shown
    } else {
        0
    }
}

/// The first items of a list.
pub open spec fn first_few<T>(items: Seq<T>) -> Seq<T> {
    if items.len() > 5 {
        items.take(5)
    } else {
        items
    }
}

/// What is said of the emojis that the line finds.
pub open spec fn react_text(line: Seq<char>, matches: Seq<(Seq<char>, Seq<char>)>) -> Seq<char> {
    if matches.len() == 0 {
        "no emoji matches '"@ + line + "'"@
    } else if matches.len() == 1 {
        with_name(matches[0]) + " - Enter to send"@
    } else {
        let shown = joined(first_few(matches).map_values(|e| with_name(e)), ", "@);
        let more = beyond(matches.len() as int, 5);
        if more == 0 {
            "matches: "@ + shown + " - Tab/Shift-Tab to select"@
        } else {
            "matches: "@ + shown + ", +"@ + decimal(more as nat)
                + " more - Tab/Shift-Tab to select"@
        }
    }
}

/// What is said of the emojis that the line finds.
pub fn describe_matches(line: &str, matches: &Vec<EmojiChoice>) -> (out: String)
    ensures
        out@ == react_text(line@, views(matches@)),
{
    if matches.len() == 0 {
        return cat3("no emoji matches '", line, "'");
    }
    if matches.len() == 1 {
        let named = cat3(matches[0].text, " ", matches[0].name);
        return cat2(named.as_str(), " - Enter to send");
    }
    let n: usize = if matches.len() > 5 {
        5
    } else {
        matches.len()
    };
    let ghost few = first_few(views(matches@)).map_values(|e| with_name(e));
    let mut shown: Vec<String> = Vec::new();
    let mut i: usize = 0;
    while i < n
        invariant
            i <= n <= matches.len(),
            shown.len() == i,
            few == first_few(views(matches@)).map_values(|e: (Seq<char>, Seq<char>)| with_name(e)),
            n == few.len(),
            forall|k: int| 0 <= k < i ==> (#[trigger] shown@[k])@ == few[k],
        decreases n - i,
    {
        shown.push(cat3(matches[i].text, " ", matches[i].name));
        i = i + 1;
    }
    assert(views(shown@) =~= few);
    let list = join(shown.as_slice(), ", ");
    if matches.len() <= 5 {
        cat3("matches: ", list.as_str(), " - Tab/Shift-Tab to select")
    } else {
        let more = decimal_usize(matches.len() - 5);
        cat5("matches: ", list.as_str(), ", +", more.as_str(), " more - Tab/Shift-Tab to select")
    }
}

impl App {
    /// Says what the line finds while a reaction is being typed.
    pub fn update_react_status(&mut self, event_id: &str)
        ensures
            *final(self) == (App { status: final(self).status, ..*old(self) }),
            final(self).status@ == (if old(self).input.buffer@.len() == 0 {
                StatusView::EventAction {
                    debug: "react to "@ + event_id@ + " - type emoji name, Enter to send"@,
                    redacted: "react to message - type emoji name, Enter to send"@,
                }
            } else {
                StatusView::Info(
                    react_text(old(self).input.buffer@, emojis_named(old(self).input.buffer@)),
                )
            }),
    {
        let line = self.input.buffer.as_str();
        if line.is_empty() {
            self.status = Status::EventAction {
                debug: cat3("react to ", event_id, " - type emoji name, Enter to send"),
                redacted: "react to message - type emoji name, Enter to send",
            };
            return ;
        }
        let matches = emoji_matches(line);
        let text = describe_matches(line, &matches);
        self.status = Status::Info(text);
    }

    /// Picks the next emoji that the line finds, where it finds several.
    pub fn complete_react_input(&mut self, reverse: bool)
        ensures
            ({
                let matches = emojis_named(old(self).input.buffer@);
                let at = picked(old(self).input.react_tab, matches.len() as int, reverse);
                if matches.len() < 2 {
                    *final(self) == *old(self)
                } else {
                    &&& *final(self) == (App {
                        input: final(self).input,
                        status: final(self).status,
                        ..*old(self)
                    })
                    &&& final(self).input == (crate::app::input::InputState {
                        react_tab: Some(at as usize),
                        ..old(self).input
                    })
                    &&& final(self).status@ == StatusView::Info(emoji_text(at, matches))
                }
            }),
    {
        let matches = emoji_matches(self.input.buffer.as_str());
        if matches.len() < 2 {
            return ;
        }
        let at: usize = pick(self.input.react_tab, matches.len(), reverse);
        self.input.react_tab = Some(at);
        let text = emoji_cycle_status(at, &matches);
        self.status = Status::Info(text);
    }
}

} // verus!
