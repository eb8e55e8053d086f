//! Images: what is kept of them and how they are decoded.

use axon_tui::app::media::{
    evict_lru_where, shrink_box, sixel_payloads, sniff_format, touch_lru,
    validate_image_dimensions, CachedProtocol, EncodeSearch, ImageState, MediaCache, MediaKey,
    ProtocolKey, ProtocolRequest, ProtocolState, IMAGE_CACHE_LIMIT, MAX_SIXEL_SHRINK_ATTEMPTS,
    MAX_TMUX_SIXEL_BYTES,
};
use axon_tui::app::picture::{
    decode_image, describe_fault, needs_thumbnail, prepare_image, turn_image, upright_turn, Mirror,
    Turn,
};
use axon_tui::app::upload::{
    check_upload_size, expand_send_path_with_home, file_name, media_kind_and_content_type,
    MAX_UPLOAD_BYTES,
};
use axon_tui::keyed::KeyedMap;

fn key(n: usize) -> MediaKey {
    MediaKey { account_id: 0, mxc_url: format!("mxc://h/{n}") }
}

#[test]
fn rejects_images_with_excessive_decoded_dimensions() {
    assert!(validate_image_dimensions(6000, 6000).is_ok()); // 36 MP: under the limit
    assert!(validate_image_dimensions(7000, 6000).is_err()); // 42 MP: over the limit
    assert!(validate_image_dimensions(0, 100).is_err());
}

/// The box scaled so that a payload of a length falls within the budget.
fn shrink_box_for_bytes(size: (u16, u16), encoded_len: usize) -> Option<(u16, u16)> {
    let scale = (MAX_TMUX_SIXEL_BYTES as f64 / encoded_len as f64).sqrt() * 0.95;
    let scaled = ((f64::from(size.0) * scale) as u16, (f64::from(size.1) * scale) as u16);
    shrink_box(size.0, size.1, encoded_len, scaled)
}

#[test]
fn within_budget_sixel_is_not_shrunk() {
    assert_eq!(shrink_box_for_bytes((120, 36), MAX_TMUX_SIXEL_BYTES), None);
    assert_eq!(shrink_box_for_bytes((120, 36), 1_000), None);
}

#[test]
fn over_budget_sixel_shrinks_toward_budget_keeping_aspect() {
    // ~4x over budget should roughly halve each dimension (sqrt(1/4)).
    let next = shrink_box_for_bytes((120, 36), MAX_TMUX_SIXEL_BYTES * 4)
        .expect("over-budget box must shrink");
    assert!(next.0 < 120 && next.1 < 36);
    // Aspect ratio (10:3) preserved within rounding.
    let ratio = f64::from(next.0) / f64::from(next.1);
    assert!((ratio - 120.0 / 36.0).abs() < 0.25, "ratio drifted: {ratio}");
    assert!(f64::from(next.0) < 120.0 * 0.6);
}

#[test]
fn shrink_converges_and_never_returns_zero() {
    // Repeatedly applying the step to a wildly over-budget box terminates and
    // never produces a zero dimension.
    let mut size = (200, 60);
    for _ in 0..MAX_SIXEL_SHRINK_ATTEMPTS {
        match shrink_box_for_bytes(size, MAX_TMUX_SIXEL_BYTES * 50) {
            Some(next) => {
                assert!(next.0 >= 1 && next.1 >= 1);
                assert!(next.0 <= size.0 && next.1 <= size.1);
                size = next;
            }
            None => break,
        }
    }
}

#[test]
fn encoding_is_tried_again_a_few_times() {
    let mut search = EncodeSearch::start(100, 100);
    assert_eq!(search.next(false, usize::MAX, (1, 1)), None, "only tmux drops payloads");
    let mut tries = 0;
    while let Some(next) = search.next(true, usize::MAX, (search.width / 2, search.height / 2)) {
        search = next;
        tries += 1;
    }
    assert_eq!(tries, MAX_SIXEL_SHRINK_ATTEMPTS + 1);
}

#[test]
fn sixel_inline_payload_alternates_by_generation() {
    let (first, alternate) = sixel_payloads("sixel-data");
    let protocol = CachedProtocol { first, sixel_alternate: Some(alternate) };
    assert_eq!(protocol.inline(0), protocol.inline(2));
    assert_ne!(protocol.inline(0), protocol.inline(1));
    assert_eq!(protocol.inline(1), protocol.preview(1));
    let plain = CachedProtocol { first: "a", sixel_alternate: None };
    assert_eq!(plain.inline(1), &"a");
}

#[test]
fn the_key_used_last_goes_last() {
    let mut order = vec!["a".to_owned(), "b".to_owned(), "c".to_owned()];
    touch_lru(&mut order, &"a".to_owned());
    assert_eq!(order, vec!["b", "c", "a"]);
    touch_lru(&mut order, &"d".to_owned());
    assert_eq!(order, vec!["b", "c", "a", "d"]);
}

#[test]
fn what_was_used_longest_ago_leaves() {
    let mut cache: KeyedMap<String, bool> = KeyedMap::new();
    let mut order: Vec<String> = Vec::new();
    for (name, settled) in [("a", false), ("b", true), ("c", true)] {
        cache.insert(name.to_owned(), settled);
        order.push(name.to_owned());
    }
    assert!(evict_lru_where(&mut cache, &mut order, 3, |settled: &bool| *settled));
    assert!(cache.contains_key(&"a".to_owned()), "what is still under way stays");
    assert!(!cache.contains_key(&"b".to_owned()));
    assert_eq!(order, vec!["a", "c"]);
    assert!(!evict_lru_where(&mut cache, &mut order, 1, |_: &bool| false));
}

#[test]
fn images_are_fetched_once_and_few_are_kept() {
    let mut cache: MediaCache<u8, u8> = MediaCache::new();
    assert!(!cache.request_image(&key(0), false), "nothing is fetched without a wire");
    assert!(cache.request_image(&key(0), true));
    assert!(!cache.request_image(&key(0), true));
    assert_eq!(cache.request_protocol(&key(0), 2, 2, true), ProtocolRequest::ImageNotReady);
    cache.handle_image_result(&key(0), Ok(7));
    assert_eq!(cache.request_protocol(&key(0), 0, 2, true), ProtocolRequest::EmptySize);
    assert_eq!(cache.request_protocol(&key(0), 2, 2, true), ProtocolRequest::Started);
    assert_eq!(cache.request_protocol(&key(0), 2, 2, true), ProtocolRequest::AlreadyPresent);
    let at = ProtocolKey { media: key(0), width: 2, height: 2 };
    cache.handle_protocol_result(&at, Err("no".to_owned()));
    assert!(matches!(cache.protocols.get(&at), Some(ProtocolState::Failed(e)) if e == "no"));
    for n in 1..=IMAGE_CACHE_LIMIT {
        assert!(cache.request_image(&key(n), true));
    }
    assert_eq!(cache.images.count(), IMAGE_CACHE_LIMIT);
    assert!(!cache.images.contains_key(&key(0)));
    assert!(!cache.request_image(&key(99), true), "all that is kept is under way");
    cache.handle_image_result(&key(1), Err("gone".to_owned()));
    assert!(matches!(cache.images.get(&key(1)), Some(ImageState::Failed(e)) if e == "gone"));
}

/// A PNG of the given size, made by the `image` crate.
fn png(width: u32, height: u32) -> Vec<u8> {
    let mut bytes = std::io::Cursor::new(Vec::new());
    image::DynamicImage::new_rgb8(width, height)
        .write_to(&mut bytes, image::ImageFormat::Png)
        .unwrap();
    bytes.into_inner()
}

#[test]
fn bytes_become_an_image_of_bounded_size() {
    let small = decode_image(&png(3, 2), false, "mxc://h/m").unwrap();
    assert_eq!((small.width(), small.height()), (3, 2));
    let large = decode_image(&png(3200, 100), false, "mxc://h/m").unwrap();
    assert_eq!((large.width(), large.height()), (1600, 50));
    assert!(needs_thumbnail(1601, 1));
    assert!(!needs_thumbnail(1600, 1600));
}

#[test]
fn bytes_that_are_no_image_are_told() {
    let text = decode_image(b"hello", false, "mxc://h/m").unwrap_err();
    assert!(text.starts_with("unsupported image format ("), "{text}");
    assert!(text.ends_with(") - mxc://h/m"), "{text}");
    assert_eq!(
        decode_image(&[1, 2, 3, 4], true, "mxc://h/m").unwrap_err(),
        "encrypted media - server could not decrypt (mxc://h/m)"
    );
    let mut cut = png(3, 2);
    cut.truncate(40);
    assert!(decode_image(&cut, false, "mxc://h/m").is_err());
    assert_eq!(describe_fault("bad", "PNG", true, "u"), "bad (PNG) - u");
}

#[test]
fn formats_are_told_by_their_first_bytes() {
    assert!(sniff_format(&png(1, 1)).contains("PNG"));
    assert!(sniff_format(&[0xff, 0xd8, 0xff, 0xe0]).contains("JPEG"));
    assert!(sniff_format(&[]).starts_with("unknown"));
}

/// An image of two pixels side by side: red, then green.
fn two_pixels() -> image::DynamicImage {
    image::DynamicImage::ImageRgb8(
        image::RgbImage::from_raw(2, 1, vec![255, 0, 0, 0, 255, 0]).unwrap(),
    )
}

fn pixel(img: &image::DynamicImage, x: u32, y: u32) -> [u8; 4] {
    image::GenericImageView::get_pixel(img, x, y).0
}

#[test]
fn images_are_turned_upright() {
    let red = [255, 0, 0, 255];
    let green = [0, 255, 0, 255];
    let quarter = turn_image(two_pixels(), upright_turn(Some(6)));
    assert_eq!((quarter.width(), quarter.height()), (1, 2));
    assert_eq!(pixel(&quarter, 0, 0), red);
    assert_eq!(pixel(&quarter, 0, 1), green);
    let other = turn_image(two_pixels(), upright_turn(Some(8)));
    assert_eq!(pixel(&other, 0, 0), green);
    let half = prepare_image(two_pixels(), Some(3));
    assert_eq!(pixel(&half, 0, 0), green);
    let mirrored = prepare_image(two_pixels(), Some(2));
    assert_eq!(pixel(&mirrored, 0, 0), green);
    let upright = prepare_image(two_pixels(), None);
    assert_eq!(pixel(&upright, 0, 0), red);
    assert_eq!(upright_turn(Some(4)), Turn { quarters: 0, mirror: Mirror::TopBottom });
    assert_eq!(upright_turn(Some(9)), upright_turn(None));
}

#[test]
fn files_to_send() {
    assert_eq!(media_kind_and_content_type("Photo.JPG"), ("image", "image/jpeg"));
    assert_eq!(media_kind_and_content_type("notes"), ("file", "application/octet-stream"));
    assert_eq!(file_name("/tmp/a.png").as_deref(), Some("a.png"));
    assert_eq!(expand_send_path_with_home("~/a.png", Some("/home/me")), "/home/me/a.png");
    assert_eq!(expand_send_path_with_home("~/a.png", None), "~/a.png");
    assert!(check_upload_size("a.png", MAX_UPLOAD_BYTES).is_ok());
    assert!(check_upload_size("a.png", MAX_UPLOAD_BYTES + 1).is_err());
}

/// A JPEG of the given size that says how it is to be turned.
fn jpeg_with_orientation(width: u32, height: u32, orientation: u8) -> Vec<u8> {
    let mut bytes = std::io::Cursor::new(Vec::new());
    image::DynamicImage::new_rgb8(width, height)
        .write_to(&mut bytes, image::ImageFormat::Jpeg)
        .unwrap();
    let plain = bytes.into_inner();
    let mut exif: Vec<u8> = b"Exif\0\0II*\0".to_vec();
    exif.extend_from_slice(&[8, 0, 0, 0, 1, 0]);
    exif.extend_from_slice(&[0x12, 0x01, 3, 0, 1, 0, 0, 0, orientation, 0, 0, 0]);
    exif.extend_from_slice(&[0, 0, 0, 0]);
    let mut out = plain[..2].to_vec();
    out.extend_from_slice(&[0xff, 0xe1]);
    out.extend_from_slice(&((exif.len() as u16 + 2).to_be_bytes()));
    out.extend_from_slice(&exif);
    out.extend_from_slice(&plain[2..]);
    out
}

#[test]
fn the_orientation_that_an_image_names_is_followed() {
    let upright = decode_image(&jpeg_with_orientation(6, 4, 1), false, "u").unwrap();
    assert_eq!((upright.width(), upright.height()), (6, 4));
    let turned = decode_image(&jpeg_with_orientation(6, 4, 6), false, "u").unwrap();
    assert_eq!((turned.width(), turned.height()), (4, 6));
    let large = decode_image(&jpeg_with_orientation(3200, 100, 6), false, "u").unwrap();
    assert_eq!((large.width(), large.height()), (50, 1600));
}
