//! The status line.

use vstd::prelude::*;

use crate::text::{cat4, decimal, decimal_usize};

verus! {

/// What the status line says.
#[derive(Debug)]
pub enum Status {
    /// Guidance or feedback.
    Info(String),
    /// A diagnosis, shown only while debugging.
    Debug(String),
    /// Feedback on an event. Its identifiers are shown only while debugging.
    EventAction { debug: String, redacted: &'static str },
}

pub enum StatusView {
    Info(Seq<char>),
    Debug(Seq<char>),
    EventAction { debug: Seq<char>, redacted: Seq<char> },
}

impl View for Status {
    type V = StatusView;

    open spec fn view(&self) -> StatusView {
        match self {
            Status::Info(t) => StatusView::Info(t@),
            Status::Debug(t) => StatusView::Debug(t@),
            Status::EventAction { debug, redacted } => StatusView::EventAction {
                debug: debug@,
                redacted: redacted@,
            },
        }
    }
}

/// The text of the status line.
pub open spec fn status_text(status: StatusView, debug_enabled: bool) -> Seq<char> {
    match status {
        StatusView::Info(t) => t,
        StatusView::Debug(t) => if debug_enabled {
            t
        } else {
            Seq::empty()
        },
        StatusView::EventAction { debug, redacted } => if debug_enabled {
            debug
        } else {
            redacted
        },
    }
}

impl Status {
    pub fn text(&self, debug_enabled: bool) -> (out: String)
        ensures
            out@ == status_text(self@, debug_enabled),
    {
        match self {
            Status::Info(t) => t.clone(),
            Status::Debug(t) => if debug_enabled {
                t.clone()
            } else {
                String::new()
            },
            Status::EventAction { debug, redacted } => if debug_enabled {
                debug.clone()
            } else {
                (*redacted).to_owned()
            },
        }
    }

    /// Feedback with a fixed text.
    pub fn info(text: &str) -> (out: Status)
        ensures
            out@ == StatusView::Info(text@),
    {
        Status::Info(text.to_owned())
    }
}

/// Which match of how many is selected.
pub open spec fn match_status_text(match_num: nat, total: nat) -> Seq<char> {
    "match "@ + decimal(match_num) + " of "@ + decimal(total)
}

pub fn match_status(match_num: usize, total: usize) -> (out: Status)
    ensures
        out@ == StatusView::Info(match_status_text(match_num as nat, total as nat)),
{
    let n = decimal_usize(match_num);
    let m = decimal_usize(total);
    Status::Info(cat4("match ", n.as_str(), " of ", m.as_str()))
}

} // verus!
