//! What is kept of images and layouts, and for how long.

use vstd::prelude::*;

use crate::app::layout_cache::{
    event_tokens, fingerprint, inputs_alike, law_fingerprint_tells, maps_valid, settled_scroll, LayoutInputs,
};
use crate::app::media::{
    known_format, room_made, shrunk_box, touched, value_added, CachedProtocol,
    EncodeSearch, MediaCache, ProtocolRequest,
};
use crate::api::event::text_of_event;
use crate::text::{option_view, views};

verus! {

/// A full cache gives up the entry that was not used for longest among those that are
/// settled. What is still awaited stays.
pub proof fn law_oldest_settled_entry_leaves<K, V>(
    before: Map<K, V>,
    order_before: Seq<K>,
    after: Map<K, V>,
    order_after: Seq<K>,
    limit: int,
    settled: spec_fn(V) -> bool,
    key: K,
    value: V,
    awaited: K,
)
    requires
        value_added(before, order_before, after, order_after, limit, settled, key, value),
        before.dom().contains(awaited),
        !settled(before[awaited]),
        !before.dom().contains(key),
    ensures
        after.dom().contains(key),
        after[key] == value,
        after.dom().contains(awaited),
        after[awaited] == before[awaited],
        order_after.len() > 0,
        order_after.last() == key,
        before.dom().len() < limit ==> (forall|k: K|
            #[trigger] before.dom().contains(k) ==> after.dom().contains(k) && after[k] == before[k]),
{
    let (m, o) = choose|m: Map<K, V>, o: Seq<K>| #[trigger]
        room_made(before, order_before, m, o, limit, settled) && after == m.insert(key, value)
            && order_after == touched(o, key);
    crate::app::media::law_used_key_is_last(o, key);
    if before.dom().len() >= limit {
        let at = choose|at: int|
            #![trigger order_before[at]]
            0 <= at < order_before.len() && settled(before[order_before[at]]) && (forall|k: int|
                0 <= k < at ==> !settled(before[#[trigger] order_before[k]])) && m == before.remove(
                order_before[at],
            ) && o == order_before.remove(at);
        assert(order_before[at] != awaited);
    }
}

/// The entry that leaves a full cache is the first settled one in the order of use.
pub proof fn law_entry_that_leaves<K, V>(
    before: Map<K, V>,
    order_before: Seq<K>,
    after: Map<K, V>,
    order_after: Seq<K>,
    limit: int,
    settled: spec_fn(V) -> bool,
    i: int,
)
    requires
        room_made(before, order_before, after, order_after, limit, settled),
        before.dom().len() >= limit,
        0 <= i < order_before.len(),
        settled(before[order_before[i]]),
        forall|k: int| 0 <= k < i ==> !settled(before[#[trigger] order_before[k]]),
    ensures
        after == before.remove(order_before[i]),
        order_after == order_before.remove(i),
{
    let at = choose|at: int|
        #![trigger order_before[at]]
        0 <= at < order_before.len() && settled(before[order_before[at]]) && (forall|k: int|
            0 <= k < at ==> !settled(before[#[trigger] order_before[k]])) && after
            == before.remove(order_before[at]) && order_after == order_before.remove(at);
    if at < i {
        assert(!settled(before[order_before[at]]));
    }
    if i < at {
        assert(!settled(before[order_before[i]]));
    }
}

/// An image is encoded for a size once, when it is there, and when there is a size and room.
pub proof fn law_when_an_image_is_encoded<I, P>(
    cache: MediaCache<I, P>,
    key: (u128, Seq<char>),
    width: u16,
    height: u16,
)
    ensures
        cache.protocol_answer(key, 0, height, true) == ProtocolRequest::EmptySize,
        cache.protocol_answer(key, width, 0, true) == ProtocolRequest::EmptySize,
        width > 0 && height > 0 && cache.protocols@.dom().contains((key, width, height))
            ==> cache.protocol_answer(key, width, height, true) == ProtocolRequest::AlreadyPresent,
        width > 0 && height > 0 && !cache.protocols@.dom().contains((key, width, height))
            && !cache.images@.dom().contains(key) ==> cache.protocol_answer(
            key,
            width,
            height,
            true,
        ) == ProtocolRequest::ImageNotReady,
        width > 0 && height > 0 && !cache.protocols@.dom().contains((key, width, height))
            && cache.images@.dom().contains(key) && cache.images@[key] is Ready
            && cache.protocols@.dom().len() < 32 ==> cache.protocol_answer(
            key,
            width,
            height,
            true,
        ) == ProtocolRequest::Started && cache.protocol_answer(key, width, height, false)
            == ProtocolRequest::ChannelUnwired,
{
}

/// The two forms of an image are shown in turn, where there are two.
pub proof fn law_forms_in_turn<P>(cached: CachedProtocol<P>, generation: u64)
    ensures
        generation % 2 == 0 ==> cached.shown(generation) == cached.first,
        generation % 2 == 1 && cached.sixel_alternate is Some ==> cached.shown(generation)
            == cached.sixel_alternate->0,
        cached.sixel_alternate is None ==> cached.shown(generation) == cached.first,
{
}

/// An encoded image that is too long is made smaller, down to a cell, and a few times only.
/// One that fits is taken.
pub proof fn law_long_images_shrink(search: EncodeSearch, len: usize, scaled: (u16, u16))
    ensures
        len <= 900_000 ==> search.after(true, len, scaled) is None,
        search.after(false, len, scaled) is None,
        search.left == 0 ==> search.after(true, len, scaled) is None,
        len > 900_000 && search.left > 0 && 0 < scaled.0 < search.width && 0 < scaled.1
            < search.height ==> search.after(true, len, scaled) == Some(
            EncodeSearch {
                width: scaled.0,
                height: scaled.1,
                left: (search.left - 1) as u32,
            },
        ),
        len > 900_000 && scaled == (0u16, 0u16) && search.width > 1 && search.height > 1
            ==> shrunk_box(search.width, search.height, len, scaled) == Some((1u16, 1u16)),
{
}

proof fn lemma_first_bytes(head: Seq<u8>, rest: Seq<u8>)
    ensures
        (head + rest).subrange(0, head.len() as int) == head,
        forall|k: int| 0 <= k < head.len() ==> #[trigger] (head + rest)[k] == head[k],
{
    assert((head + rest).subrange(0, head.len() as int) =~= head);
}

proof fn lemma_not_so(bytes: Seq<u8>, part: Seq<u8>, k: int)
    requires
        0 <= k < part.len(),
        k < bytes.len() ==> bytes[k] != part[k],
    ensures
        !crate::app::media::bytes_at(bytes, 0, part),
{
    if part.len() <= bytes.len() && bytes.subrange(0, part.len() as int) == part {
        assert(bytes.subrange(0, part.len() as int)[k] == bytes[k]);
    }
}

/// The format of an image is told by its first bytes.
pub proof fn law_format_by_first_bytes(rest: Seq<u8>)
    ensures
        known_format(seq![0xffu8, 0xd8, 0xff] + rest) == Some("JPEG"@),
        known_format(seq![0x89u8, 80, 78, 71, 13, 10, 26, 10] + rest) == Some("PNG"@),
        known_format(seq![71u8, 73, 70, 56, 55, 97] + rest) == Some("GIF"@),
        known_format(seq![71u8, 73, 70, 56, 57, 97] + rest) == Some("GIF"@),
        known_format(seq![66u8, 77] + rest) == Some("BMP"@),
        known_format(seq![73u8, 73, 42, 0] + rest) == Some("TIFF"@),
        known_format(seq![77u8, 77, 0, 42] + rest) == Some("TIFF"@),
{
    let jpeg = seq![0xffu8, 0xd8, 0xff];
    let png = seq![0x89u8, 80, 78, 71, 13, 10, 26, 10];
    let gif = seq![71u8, 73, 70, 56, 55, 97];
    let gif_too = seq![71u8, 73, 70, 56, 57, 97];
    let riff = seq![82u8, 73, 70, 70];
    let bmp = seq![66u8, 77];
    let tiff = seq![73u8, 73, 42, 0];
    let tiff_too = seq![77u8, 77, 0, 42];
    lemma_first_bytes(jpeg, rest);
    lemma_first_bytes(png, rest);
    lemma_first_bytes(gif, rest);
    lemma_first_bytes(gif_too, rest);
    lemma_first_bytes(bmp, rest);
    lemma_first_bytes(tiff, rest);
    lemma_first_bytes(tiff_too, rest);
    assert((png + rest)[0] == png[0]);
    lemma_not_so(png + rest, jpeg, 0);
    assert((gif + rest)[0] == gif[0]);
    lemma_not_so(gif + rest, jpeg, 0);
    lemma_not_so(gif + rest, png, 0);
    assert((gif_too + rest)[0] == gif_too[0]);
    lemma_not_so(gif_too + rest, jpeg, 0);
    lemma_not_so(gif_too + rest, png, 0);
    assert((bmp + rest)[0] == bmp[0]);
    lemma_not_so(bmp + rest, jpeg, 0);
    lemma_not_so(bmp + rest, png, 0);
    lemma_not_so(bmp + rest, gif, 0);
    lemma_not_so(bmp + rest, gif_too, 0);
    lemma_not_so(bmp + rest, riff, 0);
    assert((tiff + rest)[0] == tiff[0]);
    lemma_not_so(tiff + rest, jpeg, 0);
    lemma_not_so(tiff + rest, png, 0);
    lemma_not_so(tiff + rest, gif, 0);
    lemma_not_so(tiff + rest, gif_too, 0);
    lemma_not_so(tiff + rest, riff, 0);
    lemma_not_so(tiff + rest, bmp, 0);
    assert((tiff_too + rest)[0] == tiff_too[0]);
    lemma_not_so(tiff_too + rest, jpeg, 0);
    lemma_not_so(tiff_too + rest, png, 0);
    lemma_not_so(tiff_too + rest, gif, 0);
    lemma_not_so(tiff_too + rest, gif_too, 0);
    lemma_not_so(tiff_too + rest, riff, 0);
    lemma_not_so(tiff_too + rest, bmp, 0);
}

/// A kept layout is taken again only where nothing that it shows has changed: neither the
/// width, nor what any message says, who sent it, or how far they are trusted.
pub proof fn law_kept_layout_is_current(a: LayoutInputs, b: LayoutInputs, i: int)
    requires
        maps_valid(a),
        maps_valid(b),
        fingerprint(a) == fingerprint(b),
        0 <= i < a.events@.len(),
    ensures
        a.width == b.width,
        a.config_generation == b.config_generation,
        a.events@.len() == b.events@.len(),
        a.sender_labels@.len() == b.sender_labels@.len(),
        a.events@[i]@.event_id == b.events@[i]@.event_id,
        a.events@[i]@.sender == b.events@[i]@.sender,
        a.events@[i]@.origin_ts == b.events@[i]@.origin_ts,
        a.events@[i]@.redacted == b.events@[i]@.redacted,
        a.events@[i]@.sender_trust == b.events@[i]@.sender_trust,
        text_of_event(a.events@[i]@, a.events@[i]@.sender) == text_of_event(
            b.events@[i]@,
            b.events@[i]@.sender,
        ),
        option_view(a.relations.thread_root) == option_view(b.relations.thread_root),
        a.reactions@.dom() == b.reactions@.dom(),
        a.relations.thread_badges@.dom() == b.relations.thread_badges@.dom(),
{
    law_fingerprint_tells(a, b);
    assert(views(a.events@)[i] == a.events@[i]@);
    assert(views(b.events@)[i] == b.events@[i]@);
    assert(inputs_alike(a, b));
    let x = event_tokens(views(a.events@)[i]);
    let y = event_tokens(views(b.events@)[i]);
    assert(x == y);
    assert(x[0] == y[0]);
    assert(x[2] == y[2]);
    assert(x[3] == y[3]);
    assert(x[4] == y[4]);
    assert(x[5] == y[5]);
    assert(x[6] == y[6]);
}

/// The pane is scrolled no further than its last page, and to the end where that is asked
/// for.
pub proof fn law_scroll_of_the_pane(scroll: usize, lines: usize, page: usize)
    requires
        page <= lines,
    ensures
        settled_scroll(usize::MAX, lines as int, page as int) == lines - page,
        scroll <= lines - page && scroll != usize::MAX ==> settled_scroll(
            scroll,
            lines as int,
            page as int,
        ) == scroll,
        scroll > lines - page ==> settled_scroll(scroll, lines as int, page as int) == lines - page,
{
}

} // verus!
