//! What an event says: its text, its media and what it relates to.

use vstd::prelude::*;

use crate::api::dto::{EventDto, EventView};
use crate::json::{Json, JsonView};
use crate::text::{
    begins, cat2, cat3, cat5, option_str, option_str_view, option_view, same_text, text_begins,
};

verus! {

#[derive(Debug, Clone, Copy, PartialEq, Eq, Structural)]
pub enum MediaKind {
    Image,
    File,
    Audio,
    Video,
    Sticker,
}

impl MediaKind {
    pub open spec fn name(self) -> Seq<char> {
        match self {
            MediaKind::Image => "image"@,
            MediaKind::File => "file"@,
            MediaKind::Audio => "audio"@,
            MediaKind::Video => "video"@,
            MediaKind::Sticker => "sticker"@,
        }
    }

    pub fn as_str(self) -> (out: &'static str)
        ensures
            out@ == self.name(),
    {
        match self {
            MediaKind::Image => "image",
            MediaKind::File => "file",
            MediaKind::Audio => "audio",
            MediaKind::Video => "video",
            MediaKind::Sticker => "sticker",
        }
    }
}

/// The media of an event.
pub struct ParsedMedia<'a> {
    pub kind: MediaKind,
    pub url: Option<&'a str>,
    pub filename: &'a str,
    pub caption: Option<&'a str>,
    pub encrypted: bool,
}

#[verifier::ext_equal]
pub struct MediaView {
    pub kind: MediaKind,
    pub url: Option<Seq<char>>,
    pub filename: Seq<char>,
    pub caption: Option<Seq<char>>,
    pub encrypted: bool,
}

impl<'a> View for ParsedMedia<'a> {
    type V = MediaView;

    open spec fn view(&self) -> MediaView {
        MediaView {
            kind: self.kind,
            url: option_str_view(self.url),
            filename: self.filename@,
            caption: option_str_view(self.caption),
            encrypted: self.encrypted,
        }
    }
}

/// The kind of media, from the message type; a sticker by its event type.
pub open spec fn media_kind(msgtype: Option<Seq<char>>, event_type: Seq<char>) -> Option<MediaKind> {
    if msgtype == Some("m.image"@) {
        Some(MediaKind::Image)
    } else if msgtype == Some("m.file"@) {
        Some(MediaKind::File)
    } else if msgtype == Some("m.audio"@) {
        Some(MediaKind::Audio)
    } else if msgtype == Some("m.video"@) {
        Some(MediaKind::Video)
    } else if event_type == "m.sticker"@ {
        Some(MediaKind::Sticker)
    } else {
        None
    }
}

fn kind_of_media(msgtype: Option<&str>, event_type: &str) -> (out: Option<MediaKind>)
    ensures
        out == media_kind(option_str_view(msgtype), event_type@),
{
    if let Some(t) = msgtype {
        if same_text(t, "m.image") {
            return Some(MediaKind::Image);
        }
        if same_text(t, "m.file") {
            return Some(MediaKind::File);
        }
        if same_text(t, "m.audio") {
            return Some(MediaKind::Audio);
        }
        if same_text(t, "m.video") {
            return Some(MediaKind::Video);
        }
    }
    if same_text(event_type, "m.sticker") {
        Some(MediaKind::Sticker)
    } else {
        None
    }
}

pub open spec fn first_some(
    a: Option<Seq<char>>,
    b: Option<Seq<char>>,
) -> Option<Seq<char>> {
    if a is Some {
        a
    } else {
        b
    }
}

/// The address under `file`, where encrypted media keep it.
pub open spec fn encrypted_url(content: JsonView) -> Option<Seq<char>> {
    match content.get("file"@) {
        Some(file) => file.text_at("url"@),
        None => None,
    }
}

/// The media of an event. The file name is the explicit one, else the body,
/// else `media`; the body is a caption where it differs from an explicit file
/// name. A plain address goes before an encrypted one.
pub open spec fn media_of(event: EventView) -> Option<MediaView> {
    match event.content {
        None => None,
        Some(content) => match media_kind(content.text_at("msgtype"@), event.event_type) {
            None => None,
            Some(kind) => {
                let explicit = content.text_at("filename"@);
                let body = content.text_at("body"@);
                let filename = match first_some(explicit, body) {
                    Some(f) => f,
                    None => "media"@,
                };
                let plain = content.text_at("url"@);
                Some(
                    MediaView {
                        kind,
                        url: first_some(plain, encrypted_url(content)),
                        filename,
                        caption: if explicit is Some && body is Some && body->0 != filename {
                            body
                        } else {
                            None
                        },
                        encrypted: plain is None && encrypted_url(content) is Some,
                    },
                )
            },
        },
    }
}

/// The media of an image or sticker that can be downloaded.
pub open spec fn image_of(event: EventView) -> Option<MediaView> {
    match media_of(event) {
        Some(media) => if (media.kind == MediaKind::Image || media.kind == MediaKind::Sticker)
            && media.url is Some && begins(media.url->0, "mxc://"@) {
            Some(media)
        } else {
            None
        },
        None => None,
    }
}

/// The label of a media event.
pub open spec fn media_label(event: EventView) -> Option<Seq<char>> {
    match media_of(event) {
        Some(media) => {
            let label = "["@ + media.kind.name() + ": "@ + media.filename + "]"@;
            match media.caption {
                Some(caption) => Some(label + "\n"@ + caption),
                None => Some(label),
            }
        },
        None => None,
    }
}

/// The new membership in a membership event.
pub open spec fn membership_of(event: EventView) -> Option<Seq<char>> {
    if event.event_type == "m.room.member"@ {
        match event.content {
            Some(content) => content.text_at("membership"@),
            None => None,
        }
    } else {
        None
    }
}

/// What happened to `who` in a membership event.
pub open spec fn membership_text(who: Seq<char>, membership: Seq<char>) -> Seq<char> {
    if membership == "join"@ {
        who + " joined the room"@
    } else if membership == "leave"@ {
        who + " left the room"@
    } else if membership == "ban"@ {
        who + " was banned from the room"@
    } else if membership == "invite"@ {
        who + " was invited to the room"@
    } else {
        who + " membership changed: "@ + membership
    }
}

pub fn describe_membership(who: &str, membership: &str) -> (out: String)
    ensures
        out@ == membership_text(who@, membership@),
{
    if same_text(membership, "join") {
        cat2(who, " joined the room")
    } else if same_text(membership, "leave") {
        cat2(who, " left the room")
    } else if same_text(membership, "ban") {
        cat2(who, " was banned from the room")
    } else if same_text(membership, "invite") {
        cat2(who, " was invited to the room")
    } else {
        cat3(who, " membership changed: ", membership)
    }
}

/// The text of an event that is neither redacted nor a membership change.
pub open spec fn plain_text_of(event: EventView) -> Seq<char> {
    match media_label(event) {
        Some(label) => label,
        None => match event.body {
            Some(body) => body,
            None => if event.content is None {
                "[unable to decrypt]"@
            } else {
                "["@ + event.event_type + "]"@
            },
        },
    }
}

/// The text of an event, its sender called `who`.
pub open spec fn text_of_event(event: EventView, who: Seq<char>) -> Seq<char> {
    if event.redacted {
        "[redacted]"@
    } else {
        match membership_of(event) {
            Some(membership) => membership_text(who, membership),
            None => plain_text_of(event),
        }
    }
}

/// The relation of an event, where it is of the type `rel`.
pub open spec fn relation_of(event: EventView, rel: Seq<char>) -> Option<JsonView> {
    match event.relates_to {
        Some(r) => if r.text_at("rel_type"@) == Some(rel) {
            Some(r)
        } else {
            None
        },
        None => None,
    }
}

/// The thread root that an event belongs to.
pub open spec fn thread_root_of(event: EventView) -> Option<Seq<char>> {
    match relation_of(event, "m.thread"@) {
        Some(r) => r.text_at("event_id"@),
        None => None,
    }
}

/// The event that an event replies to. A member of a thread is no plain reply,
/// though it may name an event to reply to for older clients.
pub open spec fn reply_target_of(event: EventView) -> Option<Seq<char>> {
    match event.relates_to {
        Some(r) => if r.text_at("rel_type"@) == Some("m.thread"@) {
            None
        } else {
            match r.get("m.in_reply_to"@) {
                Some(target) => target.text_at("event_id"@),
                None => None,
            }
        },
        None => None,
    }
}

/// The event that an edit replaces, the new text and the new content.
pub open spec fn edit_of(event: EventView) -> Option<(Seq<char>, Seq<char>, JsonView)> {
    match relation_of(event, "m.replace"@) {
        None => None,
        Some(r) => match (r.text_at("event_id"@), event.content) {
            (Some(target), Some(content)) => match content.get("m.new_content"@) {
                Some(new_content) => match new_content.text_at("body"@) {
                    Some(body) => Some((target, body, new_content)),
                    None => None,
                },
                None => None,
            },
            _ => None,
        },
    }
}

/// The event that a reaction annotates, and its key. Other event types that
/// annotate are shown as rows of their own.
pub open spec fn reaction_of(event: EventView) -> Option<(Seq<char>, Seq<char>)> {
    if event.event_type != "m.reaction"@ {
        None
    } else {
        match relation_of(event, "m.annotation"@) {
            None => None,
            Some(r) => match (r.text_at("event_id"@), r.text_at("key"@)) {
                (Some(target), Some(key)) => Some((target, key)),
                _ => None,
            },
        }
    }
}

pub open spec fn is_message(event: EventView) -> bool {
    event.event_type == "m.room.message"@ || event.event_type == "m.room.encrypted"@
        || event.event_type == "m.sticker"@
}

impl EventDto {
    pub fn display_body(&self) -> (out: String)
        ensures
            out@ == text_of_event(self@, self@.sender),
    {
        if self.redacted {
            return "[redacted]".to_owned();
        }
        if let Some(membership) = self.membership_change() {
            return describe_membership(self.sender.as_str(), membership.as_str());
        }
        self.plain_text()
    }

    /// The text of the event where it is neither redacted nor a membership
    /// change.
    pub fn plain_text(&self) -> (out: String)
        ensures
            out@ == plain_text_of(self@),
    {
        if let Some(label) = self.media_label() {
            return label;
        }
        if let Some(body) = &self.body {
            return body.clone();
        }
        if self.content.is_none() {
            return "[unable to decrypt]".to_owned();
        }
        cat3("[", self.event_type.as_str(), "]")
    }

    pub fn media_label(&self) -> (out: Option<String>)
        ensures
            option_view(out) == media_label(self@),
    {
        let media = match self.parsed_media() {
            Some(media) => media,
            None => return None,
        };
        let mut label = cat5("[", media.kind.as_str(), ": ", media.filename, "]");
        if let Some(caption) = media.caption {
            label.append("\n");
            label.append(caption);
        }
        Some(label)
    }

    pub fn parsed_media(&self) -> (out: Option<ParsedMedia<'_>>)
        ensures
            match out {
                Some(media) => media_of(self@) == Some(media@),
                None => media_of(self@) is None,
            },
    {
        let content = match &self.content {
            Some(content) => content,
            None => return None,
        };
        let kind = match kind_of_media(content.text_at("msgtype"), self.event_type.as_str()) {
            Some(kind) => kind,
            None => return None,
        };
        let explicit = content.text_at("filename");
        let body = content.text_at("body");
        let filename = match explicit {
            Some(f) => f,
            None => match body {
                Some(b) => b,
                None => "media",
            },
        };
        let caption = match (explicit, body) {
            (Some(_), Some(b)) => if same_text(b, filename) {
                None
            } else {
                Some(b)
            },
            _ => None,
        };
        let plain = content.text_at("url");
        let encrypted = match content.get("file") {
            Some(file) => file.text_at("url"),
            None => None,
        };
        let url = match plain {
            Some(u) => Some(u),
            None => encrypted,
        };
        Some(
            ParsedMedia {
                kind,
                url,
                filename,
                caption,
                encrypted: plain.is_none() && encrypted.is_some(),
            },
        )
    }

    pub fn image_media(&self) -> (out: Option<ParsedMedia<'_>>)
        ensures
            match out {
                Some(media) => image_of(self@) == Some(media@),
                None => image_of(self@) is None,
            },
    {
        let media = match self.parsed_media() {
            Some(media) => media,
            None => return None,
        };
        if media.kind != MediaKind::Image && media.kind != MediaKind::Sticker {
            return None;
        }
        let remote = match media.url {
            Some(url) => text_begins(url, "mxc://"),
            None => false,
        };
        if remote {
            Some(media)
        } else {
            None
        }
    }

    /// Whether an image or sticker is encrypted media.
    pub fn image_is_encrypted(&self) -> (r: bool)
        ensures
            r == (image_of(self@) is Some && image_of(self@)->0.encrypted),
    {
        match self.image_media() {
            Some(media) => media.encrypted,
            None => false,
        }
    }

    /// The account and the address of an image or sticker.
    pub fn image_mxc(&self) -> (out: Option<(u128, String)>)
        ensures
            match out {
                Some((id, url)) => image_of(self@) is Some && id == self.account_id
                    && image_of(self@)->0.url == Some(url@),
                None => image_of(self@) is None,
            },
    {
        match self.image_media() {
            Some(media) => match media.url {
                Some(url) => Some((self.account_id, url.to_owned())),
                None => None,
            },
            None => None,
        }
    }

    pub fn image_filename(&self) -> (out: Option<String>)
        ensures
            match out {
                Some(f) => image_of(self@) is Some && image_of(self@)->0.filename == f@,
                None => image_of(self@) is None,
            },
    {
        match self.image_media() {
            Some(media) => Some(media.filename.to_owned()),
            None => None,
        }
    }

    pub fn image_caption(&self) -> (out: Option<String>)
        ensures
            option_view(out) == match image_of(self@) {
                Some(media) => media.caption,
                None => None,
            },
    {
        match self.image_media() {
            Some(media) => match media.caption {
                Some(c) => Some(c.to_owned()),
                None => None,
            },
            None => None,
        }
    }

    /// The body in HTML, where the event is in the Matrix HTML format.
    pub fn formatted_body(&self) -> (out: Option<&str>)
        ensures
            option_str_view(out) == formatted_body_of(self@),
    {
        let content = match &self.content {
            Some(content) => content,
            None => return None,
        };
        match content.text_at("format") {
            Some(format) => if same_text(format, "org.matrix.custom.html") {
                content.text_at("formatted_body")
            } else {
                None
            },
            None => None,
        }
    }

    pub fn is_message_event(&self) -> (r: bool)
        ensures
            r == is_message(self@),
    {
        same_text(self.event_type.as_str(), "m.room.message") || same_text(
            self.event_type.as_str(),
            "m.room.encrypted",
        ) || same_text(self.event_type.as_str(), "m.sticker")
    }

    pub fn is_membership_event(&self) -> (r: bool)
        ensures
            r == (self@.event_type == "m.room.member"@),
    {
        same_text(self.event_type.as_str(), "m.room.member")
    }

    pub fn membership_change(&self) -> (out: Option<String>)
        ensures
            option_view(out) == membership_of(self@),
    {
        if !self.is_membership_event() {
            return None;
        }
        match &self.content {
            Some(content) => match content.text_at("membership") {
                Some(m) => Some(m.to_owned()),
                None => None,
            },
            None => None,
        }
    }

    fn relation(&self, rel: &str) -> (out: Option<&Json>)
        ensures
            match out {
                Some(r) => relation_of(self@, rel@) == Some(r@),
                None => relation_of(self@, rel@) is None,
            },
    {
        match &self.relates_to {
            Some(r) => match r.text_at("rel_type") {
                Some(t) => if same_text(t, rel) {
                    Some(r)
                } else {
                    None
                },
                None => None,
            },
            None => None,
        }
    }

    pub fn edit_relation(&self) -> (out: Option<(&str, &str, &Json)>)
        ensures
            match out {
                Some((target, body, content)) => edit_of(self@) == Some((target@, body@, content@)),
                None => edit_of(self@) is None,
            },
    {
        let r = match self.relation("m.replace") {
            Some(r) => r,
            None => return None,
        };
        let target = match r.text_at("event_id") {
            Some(t) => t,
            None => return None,
        };
        let content = match &self.content {
            Some(c) => c,
            None => return None,
        };
        let new_content = match content.get("m.new_content") {
            Some(c) => c,
            None => return None,
        };
        match new_content.text_at("body") {
            Some(body) => Some((target, body, new_content)),
            None => None,
        }
    }

    pub fn reaction_relation(&self) -> (out: Option<(&str, &str)>)
        ensures
            match out {
                Some((target, key)) => reaction_of(self@) == Some((target@, key@)),
                None => reaction_of(self@) is None,
            },
    {
        if !same_text(self.event_type.as_str(), "m.reaction") {
            return None;
        }
        let r = match self.relation("m.annotation") {
            Some(r) => r,
            None => return None,
        };
        match (r.text_at("event_id"), r.text_at("key")) {
            (Some(target), Some(key)) => Some((target, key)),
            _ => None,
        }
    }

    pub fn reply_relation(&self) -> (out: Option<&str>)
        ensures
            option_str_view(out) == reply_target_of(self@),
    {
        let r = match &self.relates_to {
            Some(r) => r,
            None => return None,
        };
        if let Some(t) = r.text_at("rel_type") {
            if same_text(t, "m.thread") {
                return None;
            }
        }
        match r.get("m.in_reply_to") {
            Some(target) => target.text_at("event_id"),
            None => None,
        }
    }

    pub fn thread_relation(&self) -> (out: Option<&str>)
        ensures
            option_str_view(out) == thread_root_of(self@),
    {
        match self.relation("m.thread") {
            Some(r) => r.text_at("event_id"),
            None => None,
        }
    }

    pub fn state_key(&self) -> (out: Option<&str>)
        ensures
            option_str_view(out) == self@.state_key,
    {
        option_str(&self.state_key)
    }

    pub fn membership_display_name(&self) -> (out: Option<&str>)
        ensures
            option_str_view(out) == member_name_of(self@),
    {
        if !self.is_membership_event() {
            return None;
        }
        match &self.content {
            Some(content) => content.text_at("displayname"),
            None => None,
        }
    }
}

/// The body in HTML, where the event is in the Matrix HTML format.
pub open spec fn formatted_body_of(event: EventView) -> Option<Seq<char>> {
    match event.content {
        Some(content) => if content.text_at("format"@) == Some("org.matrix.custom.html"@) {
            content.text_at("formatted_body"@)
        } else {
            None
        },
        None => None,
    }
}

/// The display name that a membership event carries.
pub open spec fn member_name_of(event: EventView) -> Option<Seq<char>> {
    if event.event_type == "m.room.member"@ {
        match event.content {
            Some(content) => content.text_at("displayname"@),
            None => None,
        }
    } else {
        None
    }
}

/// An event is never both a plain reply and a member of a thread.
pub proof fn law_reply_and_thread_exclude(event: EventView)
    ensures
        reply_target_of(event) is None || thread_root_of(event) is None,
{
}

/// The text of a redacted event gives nothing of its content away.
pub proof fn law_redacted_text(event: EventView, who: Seq<char>)
    requires
        event.redacted,
    ensures
        text_of_event(event, who) == "[redacted]"@,
{
}

} // verus!
