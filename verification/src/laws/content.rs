//! What events say, and what becomes of files and images.

use vstd::prelude::*;

use crate::api::client::{mxc_parts, ApiErrorView};
use crate::api::dto::EventView;
use crate::api::event::{
    formatted_body_of, image_of, media_kind, media_label, media_of, member_name_of, membership_of,
    text_of_event, MediaKind,
};
use crate::app::picture::{image_fault, sized, turn_for, turned_rows};
use crate::app::upload::{expanded, kind_of_ending};
use crate::json::JsonView;
use crate::text::begins;

verus! {

/// A redacted event says so and nothing else. A message says its body. One that cannot be
/// read says so too.
pub proof fn law_what_an_event_says(event: EventView, who: Seq<char>)
    ensures
        event.redacted ==> text_of_event(event, who) == "[redacted]"@,
        !event.redacted && membership_of(event) is None && media_of(event) is None && event.body
            is Some ==> text_of_event(event, who) == event.body->0,
        !event.redacted && membership_of(event) is None && event.content is None && event.body
            is None ==> text_of_event(event, who) == "[unable to decrypt]"@,
        !event.redacted && membership_of(event) is None && media_of(event) is None && event.body
            is None && event.content is Some ==> text_of_event(event, who) == "["@
            + event.event_type + "]"@,
{
}

proof fn lemma_memberships()
    ensures
        "join"@.len() == 4,
        "leave"@.len() == 5,
        "ban"@.len() == 3,
        "invite"@.len() == 6,
{
    reveal_strlit("join");
    reveal_strlit("leave");
    reveal_strlit("ban");
    reveal_strlit("invite");
}

/// A change of who is in the room is told in words, of the one whom it is about.
pub proof fn law_membership_is_told(event: EventView, content: JsonView, who: Seq<char>)
    requires
        event.event_type == "m.room.member"@,
        event.content == Some(content),
        !event.redacted,
    ensures
        content.text_at("membership"@) == Some("join"@) ==> text_of_event(event, who) == who
            + " joined the room"@,
        content.text_at("membership"@) == Some("leave"@) ==> text_of_event(event, who) == who
            + " left the room"@,
        content.text_at("membership"@) == Some("ban"@) ==> text_of_event(event, who) == who
            + " was banned from the room"@,
        content.text_at("membership"@) == Some("invite"@) ==> text_of_event(event, who) == who
            + " was invited to the room"@,
        member_name_of(event) == content.text_at("displayname"@),
{
    lemma_memberships();
}

/// Only an event about membership changes who is in the room.
pub proof fn law_other_events_tell_no_membership(event: EventView)
    requires
        event.event_type != "m.room.member"@,
    ensures
        membership_of(event) is None,
        member_name_of(event) is None,
{
}

proof fn lemma_msgtypes()
    ensures
        "m.image"@.len() == 7,
        "m.file"@.len() == 6,
        "m.audio"@.len() == 7,
        "m.video"@.len() == 7,
        "m.image"@[2] == 'i',
        "m.audio"@[2] == 'a',
        "m.video"@[2] == 'v',
{
    reveal_strlit("m.image");
    reveal_strlit("m.file");
    reveal_strlit("m.audio");
    reveal_strlit("m.video");
}

/// What kind of file a message carries is told by its type.
pub proof fn law_kind_of_a_file(event_type: Seq<char>)
    ensures
        media_kind(Some("m.image"@), event_type) == Some(MediaKind::Image),
        media_kind(Some("m.file"@), event_type) == Some(MediaKind::File),
        media_kind(Some("m.audio"@), event_type) == Some(MediaKind::Audio),
        media_kind(Some("m.video"@), event_type) == Some(MediaKind::Video),
        media_kind(None, "m.sticker"@) == Some(MediaKind::Sticker),
        event_type != "m.sticker"@ ==> media_kind(None, event_type) is None,
{
    lemma_msgtypes();
}

/// A file has the name that it was given, else what the message says. Where both are there
/// and differ, what the message says is the caption. Its address is the plain one, else the
/// one of its encrypted form.
pub proof fn law_name_and_caption_of_a_file(event: EventView, content: JsonView)
    requires
        event.content == Some(content),
        media_of(event) is Some,
    ensures
        ({
            let media = media_of(event)->0;
            let name = content.text_at("filename"@);
            let body = content.text_at("body"@);
            &&& name is Some ==> media.filename == name->0
            &&& name is None && body is Some ==> media.filename == body->0 && media.caption is None
            &&& name is Some && body is Some && body != name ==> media.caption == body
            &&& name is Some && body == name ==> media.caption is None
            &&& content.text_at("url"@) is Some ==> media.url == content.text_at("url"@)
                && !media.encrypted
            &&& content.text_at("url"@) is None && content.get("file"@) is Some && content.get(
                "file"@,
            )->0.text_at("url"@) is Some ==> media.url == content.get("file"@)->0.text_at("url"@)
                && media.encrypted
        }),
{
}

/// A file is shown as its kind and its name, with the caption below.
pub proof fn law_label_of_a_file(event: EventView)
    requires
        media_of(event) is Some,
    ensures
        media_of(event)->0.kind == MediaKind::Image && media_of(event)->0.caption is None
            ==> media_label(event) == Some("["@ + "image"@ + ": "@ + media_of(event)->0.filename + "]"@),
        media_of(event)->0.kind == MediaKind::Image && media_of(event)->0.caption is Some
            ==> media_label(event) == Some(
            "["@ + "image"@ + ": "@ + media_of(event)->0.filename + "]"@ + "\n"@ + media_of(
                event,
            )->0.caption->0,
        ),
{
}

/// Only images and stickers on the media server are shown as pictures.
pub proof fn law_what_is_shown_as_a_picture(event: EventView)
    ensures
        image_of(event) is Some ==> media_of(event) == image_of(event) && (image_of(event)->0.kind
            == MediaKind::Image || image_of(event)->0.kind == MediaKind::Sticker) && image_of(
            event,
        )->0.url is Some && begins(image_of(event)->0.url->0, "mxc://"@),
        media_of(event) is Some && (media_of(event)->0.kind == MediaKind::Image || media_of(
            event,
        )->0.kind == MediaKind::Sticker) && media_of(event)->0.url is Some && begins(
            media_of(event)->0.url->0,
            "mxc://"@,
        ) ==> image_of(event) == media_of(event),
{
}

/// A formatted body is one in the HTML of Matrix, and no other.
pub proof fn law_formatted_body(event: EventView, content: JsonView)
    requires
        event.content == Some(content),
    ensures
        content.text_at("format"@) == Some("org.matrix.custom.html"@) ==> formatted_body_of(event)
            == content.text_at("formatted_body"@),
        content.text_at("format"@) != Some("org.matrix.custom.html"@) ==> formatted_body_of(event)
            is None,
{
}

/// An address on the media server names the server and the file there.
pub proof fn law_address_of_a_file(server: Seq<char>, media: Seq<char>)
    requires
        server.len() > 0,
        media.len() > 0,
        !server.contains('/'),
    ensures
        mxc_parts("mxc://"@ + server + "/"@ + media) == Ok::<(Seq<char>, Seq<char>), ApiErrorView>(
            (server, media),
        ),
{
    reveal_strlit("mxc://");
    reveal_strlit("/");
    let whole = "mxc://"@ + server + "/"@ + media;
    let rest = server + "/"@ + media;
    assert(whole.subrange(0, 6) =~= "mxc://"@);
    assert(whole.skip(6) =~= rest);
    assert forall|k: int| 0 <= k < server.len() implies rest[k] != '/' by {
        assert(server.contains(server[k]));
    }
    crate::laws::accounts::lemma_split_at(rest, '/', server.len() as int);
    assert(rest.take(server.len() as int) =~= server);
    assert(rest.skip(server.len() as int + 1) =~= media);
}


/// A path in the home directory is written with a tilde.
pub proof fn law_home_is_expanded(rest: Seq<char>, home: Seq<char>)
    requires
        home.len() > 0,
        home.last() != '/',
        rest.len() > 0,
        rest[0] != '/',
    ensures
        expanded("~/"@ + rest, Some(home)) == home + "/"@ + rest,
        expanded("~/"@ + rest, None) == "~/"@ + rest,
        rest[0] != '~' ==> expanded(rest, Some(home)) == rest,
{
    reveal_strlit("~/");
    let path = "~/"@ + rest;
    assert(path.subrange(0, 2) =~= "~/"@);
    assert(path.skip(2) =~= rest);
    if rest[0] != '~' {
        if begins(rest, "~/"@) {
            assert(rest.subrange(0, 2)[0] == rest[0]);
        }
    }
}

/// The kind of a file that is sent is told by its ending.
pub proof fn law_kind_by_ending()
    ensures
        kind_of_ending("png"@) == ("image"@, "image/png"@),
        kind_of_ending("jpg"@) == ("image"@, "image/jpeg"@),
        kind_of_ending("jpeg"@) == ("image"@, "image/jpeg"@),
        kind_of_ending("gif"@) == ("image"@, "image/gif"@),
        kind_of_ending("webp"@) == ("image"@, "image/webp"@),
        kind_of_ending("pdf"@) == ("file"@, "application/pdf"@),
        kind_of_ending("txt"@) == ("file"@, "text/plain"@),
        kind_of_ending("mp4"@) == ("file"@, "video/mp4"@),
        kind_of_ending("mp3"@) == ("file"@, "audio/mpeg"@),
        kind_of_ending(Seq::empty()) == ("file"@, "application/octet-stream"@),
{
    reveal_strlit("png");
    reveal_strlit("jpg");
    reveal_strlit("jpeg");
    reveal_strlit("gif");
    reveal_strlit("webp");
    reveal_strlit("bmp");
    reveal_strlit("tif");
    reveal_strlit("tiff");
    reveal_strlit("pdf");
    reveal_strlit("txt");
    reveal_strlit("zip");
    reveal_strlit("mp4");
    reveal_strlit("mp3");
    assert("png"@[0] == 'p' && "png"@[1] == 'n' && "png"@.len() == 3);
    assert("jpg"@[0] == 'j' && "jpg"@.len() == 3);
    assert("jpeg"@[0] == 'j' && "jpeg"@.len() == 4);
    assert("gif"@[0] == 'g' && "gif"@.len() == 3);
    assert("webp"@[0] == 'w' && "webp"@.len() == 4);
    assert("bmp"@[0] == 'b' && "bmp"@.len() == 3);
    assert("tif"@[0] == 't' && "tif"@[1] == 'i' && "tif"@.len() == 3);
    assert("tiff"@[0] == 't' && "tiff"@.len() == 4);
    assert("pdf"@[0] == 'p' && "pdf"@[1] == 'd' && "pdf"@.len() == 3);
    assert("txt"@[0] == 't' && "txt"@[1] == 'x' && "txt"@.len() == 3);
    assert("zip"@[0] == 'z' && "zip"@.len() == 3);
    assert("mp4"@[2] == '4' && "mp4"@[0] == 'm' && "mp4"@.len() == 3);
    assert("mp3"@[2] == '3' && "mp3"@[0] == 'm' && "mp3"@.len() == 3);
}

/// An upright image has each pixel where the camera saw it: the eight ways to hold a camera
/// are undone.
#[verifier::rlimit(40)]
pub proof fn law_upright_pixels(
    rows: Seq<Seq<(u8, u8, u8, u8)>>,
    orientation: u32,
    w: int,
    h: int,
    x: int,
    y: int,
)
    requires
        sized(rows, w, h),
        w > 0,
        h > 0,
        0 <= x < (if orientation <= 4 {
            w
        } else {
            h
        }),
        0 <= y < (if orientation <= 4 {
            h
        } else {
            w
        }),
        1 <= orientation <= 8,
    ensures
        turned_rows(rows, turn_for(Some(orientation)))[y][x] == (if orientation == 1 {
            rows[y][x]
        } else if orientation == 2 {
            rows[y][w - 1 - x]
        } else if orientation == 3 {
            rows[h - 1 - y][w - 1 - x]
        } else if orientation == 4 {
            rows[h - 1 - y][x]
        } else if orientation == 5 {
            rows[x][y]
        } else if orientation == 6 {
            rows[h - 1 - x][y]
        } else if orientation == 7 {
            rows[h - 1 - x][w - 1 - y]
        } else {
            rows[x][w - 1 - y]
        }),
{
    assert(rows[0].len() == w);
    let half = crate::app::picture::mirrored(rows).reverse();
    assert(half.len() == h);
    assert forall|a: int| 0 <= a < h implies (#[trigger] half[a]) == rows[h - 1 - a].reverse() by {
    }
    assert(rows[h - 1].len() == w);
    assert(half[0].len() == w);
    if orientation <= 4 {
        assert(rows[y].len() == w);
        assert(rows[h - 1 - y].len() == w);
    } else {
        assert(rows[x].len() == w);
        assert(rows[h - 1 - x].len() == w);
    }
    if orientation >= 7 {
        assert(half[x] == rows[h - 1 - x].reverse());
        assert(half[h - 1 - x] == rows[x].reverse());
    }
}

/// An image that is too large, or of an unknown format, is refused before it is decoded.
pub proof fn law_refused_images(
    size: Result<(u32, u32), Seq<char>>,
    fault: Option<Seq<char>>,
    error: Seq<char>,
)
    ensures
        image_fault(Ok(false), size, fault) == Some("unsupported image format"@),
        image_fault(Err(error), size, fault) == Some(error),
        image_fault(Ok(true), Err(error), fault) == Some(error),
        forall|w: u32, h: u32|
            0 < w * h <= 40_000_000 ==> #[trigger] image_fault(Ok(true), Ok((w, h)), fault) == fault,
        forall|w: u32, h: u32|
            w * h == 0 || w * h > 40_000_000 ==> #[trigger] image_fault(
                Ok(true),
                Ok((w, h)),
                fault,
            ) is Some,
{
}

} // verus!
