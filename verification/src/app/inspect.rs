//! Looking at one event: its line, its verification and its image.

use vstd::prelude::*;

use crate::api::client::{account_url, bare, escaped, Method, Request, HTTP_REQUEST_TIMEOUT};
use crate::api::dto::{EventDto, EventView};
use crate::api::event::{image_of, text_of_event};
use crate::app::clock::{format_time, time_shown};
use crate::app::layout_cache::image_address;
use crate::app::lifecycle::said;
use crate::app::media::MediaKey;
use crate::app::panels::popped_up;
use crate::app::render::display_body_with_sender;
use crate::app::state::{App, PopupKind, SIXEL_REFRESH_INTERVAL};
use crate::app::status::Status;
use crate::json::{pretty_json, write_pretty, Json};
use crate::text::{cat2, cat4, cat5};

verus! {

/// How much of a body is shown in the line of an event.
pub const SHOWN_CHARS: usize = 120;

/// The first characters of a text.
pub open spec fn shortened(text: Seq<char>) -> Seq<char> {
    if text.len() > SHOWN_CHARS {
        text.take(SHOWN_CHARS as int)
    } else {
        text
    }
}

/// An event in one line.
pub open spec fn event_line(event: EventView, sender: Seq<char>, time: Seq<char>) -> Seq<char> {
    let related: Seq<char> = if event.relates_to is Some {
        " related"@
    } else {
        Seq::empty()
    };
    let redaction: Seq<char> = match event.redaction_event_id {
        Some(id) => " redacted_by="@ + id,
        None => Seq::empty(),
    };
    time + " "@ + sender + " "@ + event.event_id + " "@ + shortened(text_of_event(event, sender))
        + related + redaction
}

/// An event in one line, by the name of its sender and its time of day.
pub fn describe_event(event: &EventDto, sender: &str, time: &str) -> (out: String)
    ensures
        out@ == event_line(event@, sender@, time@),
{
    let body = display_body_with_sender(event, sender);
    let n: usize = body.as_str().unicode_len();
    let shown = if n > SHOWN_CHARS {
        body.as_str().substring_char(0, SHOWN_CHARS)
    } else {
        body.as_str()
    };
    assert(shown@ =~= shortened(text_of_event(event@, sender@)));
    let related = match &event.relates_to {
        Some(_) => " related",
        None => "",
    };
    let redaction = match &event.redaction_event_id {
        Some(id) => cat2(" redacted_by=", id.as_str()),
        None => String::new(),
    };
    let head = cat4(time, " ", sender, " ");
    let line = cat5(head.as_str(), event.event_id.as_str(), " ", shown, related);
    let out = cat2(line.as_str(), redaction.as_str());
    proof {
        reveal_strlit("");
        reveal_strlit(" ");
        reveal_strlit(" related");
        reveal_strlit(" redacted_by=");
        assert(out@ =~= event_line(event@, sender@, time@));
    }
    out
}

/// Whether an event of the account of the selected room is to be read.
pub open spec fn event_asked(
    before: App,
    after: App,
    id: Seq<char>,
    ending: Seq<char>,
    refusal: Seq<char>,
    request: Option<Request>,
) -> bool {
    match before.room() {
        None => request is None && said(before, after, refusal),
        Some(room) => after == before && request is Some && request->0@ == bare(
            Method::Get,
            account_url(before.client.base(), room.account_id) + "/events/"@ + escaped(id) + ending,
            HTTP_REQUEST_TIMEOUT,
        ),
    }
}

impl App {
    /// Begins to read an event.
    pub fn show_event(&mut self, event_id: &str) -> (request: Option<Request>)
        ensures
            event_asked(
                *old(self),
                *final(self),
                event_id@,
                Seq::empty(),
                "select a room before using /event"@,
                request,
            ),
    {
        let account_id = match self.selected_room() {
            Some(room) => room.account_id,
            None => {
                self.status = Status::Info("select a room before using /event".to_owned());
                return None;
            },
        };
        let request = self.client.get_event(account_id, event_id);
        assert(request@.url + Seq::<char>::empty() =~= request@.url);
        Some(request)
    }

    /// Says what event was read. The time of day is that of the local clock.
    pub fn event_read(&mut self, result: Result<(EventDto, String), String>)
        ensures
            match result {
                Ok((event, sender)) => exists|time: Seq<char>|
                    {
                        &&& time_shown(
                            event.origin_ts as int,
                            old(self).display.time_format,
                            time,
                        )
                        &&& #[trigger] said(
                            *old(self),
                            *final(self),
                            event_line(event@, sender@, time),
                        )
                    },
                Err(e) => said(*old(self), *final(self), "event read failed: "@ + e@),
            },
    {
        let text = match &result {
            Ok((event, sender)) => {
                let time = format_time(event.origin_ts, self.display.time_format);
                let text = describe_event(event, sender.as_str(), time.as_str());
                self.status = Status::Info(text);
                assert(said(*old(self), *self, event_line(event@, sender@, time@)));
                return ;
            },
            Err(e) => cat2("event read failed: ", e.as_str()),
        };
        self.status = Status::Info(text);
    }

    /// Begins to read how an event was verified.
    pub fn show_verification_bundle(&mut self, event_id: &str) -> (request: Option<Request>)
        ensures
            event_asked(
                *old(self),
                *final(self),
                event_id@,
                "/verification"@,
                "select a room before using /bundle"@,
                request,
            ),
    {
        let account_id = match self.selected_room() {
            Some(room) => room.account_id,
            None => {
                self.status = Status::Info("select a room before using /bundle".to_owned());
                return None;
            },
        };
        Some(self.client.get_verification_bundle(account_id, event_id))
    }

    /// Says how an event was verified.
    pub fn verification_bundle_read(&mut self, event_id: &str, result: Result<Json, String>)
        ensures
            match result {
                Ok(bundle) => said(
                    *old(self),
                    *final(self),
                    "verification bundle for "@ + event_id@ + ":\n"@ + pretty_json(bundle@),
                ),
                Err(e) => said(*old(self), *final(self), "bundle read failed: "@ + e@),
            },
    {
        let text = match &result {
            Ok(bundle) => {
                let text = write_pretty(bundle);
                cat4("verification bundle for ", event_id, ":\n", text.as_str())
            },
            Err(e) => cat2("bundle read failed: ", e.as_str()),
        };
        self.status = Status::Info(text);
    }

    /// Shows the image of the selected message over the panels. The image is what is
    /// then to be asked for, with whether it is encrypted.
    pub fn open_selected_media_preview(&mut self, now: u64) -> (image: Option<(MediaKey, bool)>)
        requires
            now + SIXEL_REFRESH_INTERVAL <= u64::MAX,
        ensures
            match old(self).target() {
                None => image is None && said(
                    *old(self),
                    *final(self),
                    "select an image message first"@,
                ),
                Some(event) => match image_address(event) {
                    None => image is None && said(
                        *old(self),
                        *final(self),
                        "selected message has no image"@,
                    ),
                    Some(url) => {
                        &&& popped_up(*old(self), *final(self), PopupKind::MediaPreview, now as int)
                        &&& image matches Some((key, encrypted)) && key@ == (
                            event.account_id,
                            url,
                        ) && encrypted == image_of(event)->0.encrypted
                    },
                },
            },
    {
        let found = match self.selected_message_event() {
            None => None,
            Some(event) => Some((event.image_mxc(), event.image_is_encrypted())),
        };
        match found {
            None => {
                self.status = Status::Info("select an image message first".to_owned());
                None
            },
            Some((None, _)) => {
                self.status = Status::Info("selected message has no image".to_owned());
                None
            },
            Some((Some((account_id, mxc_url)), encrypted)) => {
                self.open_popup(PopupKind::MediaPreview, now);
                Some((MediaKey { account_id, mxc_url }, encrypted))
            },
        }
    }
}

} // verus!
