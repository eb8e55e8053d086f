//! How the bytes of an image become one that can be shown.

use vstd::prelude::*;

use crate::app::media::{
    decodable, dimensions_text, sniff_format, sniffed, validate_image_dimensions,
    MAX_DECODED_PIXELS,
};
use crate::text::{begins, cat3, cat5, text_begins};

verus! {

/// The bytes that decoding may take at most.
pub const MAX_DECODE_ALLOC_BYTES: u64 = 209_715_200;

/// The pixels that an image which is kept is wide and high at most.
pub const MAX_CACHED_IMAGE_DIMENSION: u32 = 1600;

/// A decoded image of the `image` crate.
#[verifier::external_type_specification]
#[verifier::external_body]
pub struct ExDynamicImage(image::DynamicImage);

/// Whether `image` tells a format from bytes, or the message of the error.
pub uninterp spec fn format_told(bytes: Seq<u8>) -> Result<bool, Seq<char>>;

/// Looks for the format of an image: `image::ImageReader::with_guessed_format` on the
/// bytes. The result is named.
#[verifier::external_body]
fn tell_format(bytes: &[u8]) -> (out: Result<bool, String>)
    ensures
        match out {
            Ok(known) => format_told(bytes@) == Ok::<bool, Seq<char>>(known),
            Err(e) => format_told(bytes@) == Err::<bool, Seq<char>>(e@),
        },
{
    image::ImageReader::new(std::io::Cursor::new(bytes)).with_guessed_format().map(
        |reader| reader.format().is_some(),
    ).map_err(|err| err.to_string())
}

/// The width and the height that `image` reads from bytes, or the message of the error.
pub uninterp spec fn dimensions_read(bytes: Seq<u8>) -> Result<(u32, u32), Seq<char>>;

/// Reads how large an image is: `image::ImageReader::into_dimensions`, with the format
/// told from the bytes. The result is named.
#[verifier::external_body]
fn read_dimensions(bytes: &[u8]) -> (out: Result<(u32, u32), String>)
    ensures
        match out {
            Ok(size) => dimensions_read(bytes@) == Ok::<(u32, u32), Seq<char>>(size),
            Err(e) => dimensions_read(bytes@) == Err::<(u32, u32), Seq<char>>(e@),
        },
{
    let reader = image::ImageReader::new(std::io::Cursor::new(bytes)).with_guessed_format().map_err(
        |err| err.to_string(),
    )?;
    reader.into_dimensions().map_err(|err| err.to_string())
}

/// The message of the error that `image` decodes bytes with, within limits; none where
/// it decodes them.
pub uninterp spec fn decode_fault(bytes: Seq<u8>, width: u32, height: u32, alloc: u64) -> Option<
    Seq<char>,
>;

/// Whether rows of pixels are what `image` may decode bytes to. A decoder may round the
/// colours differently from one machine to another, so bytes may have several such rows.
pub uninterp spec fn decodes_to(bytes: Seq<u8>, rows: Seq<Seq<(u8, u8, u8, u8)>>) -> bool;

/// Decodes an image: `image::ImageReader::decode`, with the format told from the bytes
/// and the limits given. Whether it can is named, and that the pixels are ones that the
/// bytes decode to. The image is as large as `ImageReader::into_dimensions` reads it from
/// the same bytes, since both ask the same decoder.
#[verifier::external_body]
fn decode_within(bytes: &[u8], width: u32, height: u32, alloc: u64) -> (out: Result<
    image::DynamicImage,
    String,
>)
    ensures
        match out {
            Ok(img) => {
                &&& decode_fault(bytes@, width, height, alloc) is None
                &&& decodes_to(bytes@, pixels_of(img))
                &&& dimensions_read(bytes@) matches Ok((w, h)) ==> sized(
                    pixels_of(img),
                    w as int,
                    h as int,
                )
            },
            Err(e) => decode_fault(bytes@, width, height, alloc) == Some(e@),
        },
{
    let mut limits = image::Limits::default();
    limits.max_image_width = Some(width);
    limits.max_image_height = Some(height);
    limits.max_alloc = Some(alloc);
    let mut reader = image::ImageReader::new(std::io::Cursor::new(bytes)).with_guessed_format().map_err(
        |err| err.to_string(),
    )?;
    reader.limits(limits);
    reader.decode().map_err(|err| err.to_string())
}

/// The orientation that `exif` reads from bytes.
pub uninterp spec fn orientation_read(bytes: Seq<u8>) -> Option<u32>;

/// Reads the orientation of an image: `exif::Reader::read_from_container` and the field
/// of the primary image. The result is named.
#[verifier::external_body]
fn read_orientation(bytes: &[u8]) -> (out: Option<u32>)
    ensures
        out == orientation_read(bytes@),
{
    let exif = exif::Reader::new().read_from_container(&mut std::io::Cursor::new(bytes)).ok()?;
    exif.get_field(exif::Tag::Orientation, exif::In::PRIMARY)?.value.get_uint(0)
}

/// The pixels that an image holds, row by row from the top, as `get_pixel` gives them:
/// red, green, blue and opacity.
pub uninterp spec fn pixels_of(image: image::DynamicImage) -> Seq<Seq<(u8, u8, u8, u8)>>;

/// Whether rows of pixels are all of a width.
pub open spec fn rows_wide(rows: Seq<Seq<(u8, u8, u8, u8)>>, width: int) -> bool {
    forall|y: int| 0 <= y < rows.len() ==> (#[trigger] rows[y]).len() == width
}

/// Whether rows of pixels have a width and a height.
pub open spec fn sized(rows: Seq<Seq<(u8, u8, u8, u8)>>, width: int, height: int) -> bool {
    rows.len() == height && rows_wide(rows, width)
}

/// The width of rows of pixels.
pub open spec fn width_of(rows: Seq<Seq<(u8, u8, u8, u8)>>) -> int {
    if rows.len() > 0 {
        rows[0].len() as int
    } else {
        0
    }
}

/// Rows of pixels with left and right exchanged.
pub open spec fn mirrored(rows: Seq<Seq<(u8, u8, u8, u8)>>) -> Seq<Seq<(u8, u8, u8, u8)>> {
    Seq::new(rows.len(), |y: int| rows[y].reverse())
}

/// Rows of pixels turned a quarter clockwise: the first column, from below, is the first
/// row.
pub open spec fn quarter_turned(rows: Seq<Seq<(u8, u8, u8, u8)>>) -> Seq<Seq<(u8, u8, u8, u8)>> {
    Seq::new(
        width_of(rows) as nat,
        |y: int| Seq::new(rows.len(), |x: int| rows[rows.len() - 1 - x][y]),
    )
}

/// Whether rows of pixels are as large as they can be within a square: both sides fit
/// and one of them fills it.
pub open spec fn fills(rows: Seq<Seq<(u8, u8, u8, u8)>>, side: int) -> bool {
    &&& 1 <= rows.len() <= side
    &&& 1 <= width_of(rows) <= side
    &&& rows_wide(rows, width_of(rows))
    &&& rows.len() == side || width_of(rows) == side
}

/// Whether rows of pixels are those of an image that may be decoded.
pub open spec fn decoded_rows(rows: Seq<Seq<(u8, u8, u8, u8)>>) -> bool {
    &&& rows_wide(rows, width_of(rows))
    &&& 0 < width_of(rows) * rows.len() <= MAX_DECODED_PIXELS
}

/// The width of an image: `image::DynamicImage::width`, the length of each row.
pub assume_specification[ image::DynamicImage::width ](image: &image::DynamicImage) -> (out: u32)
    ensures
        rows_wide(pixels_of(*image), out as int),
;

/// The height of an image: `image::DynamicImage::height`, the number of rows.
pub assume_specification[ image::DynamicImage::height ](image: &image::DynamicImage) -> (out: u32)
    ensures
        out == pixels_of(*image).len(),
;

/// An image with left and right exchanged: `image::DynamicImage::fliph`.
pub assume_specification[ image::DynamicImage::fliph ](image: &image::DynamicImage) -> (out:
    image::DynamicImage)
    ensures
        pixels_of(out) == mirrored(pixels_of(*image)),
;

/// An image with top and bottom exchanged: `image::DynamicImage::flipv`.
pub assume_specification[ image::DynamicImage::flipv ](image: &image::DynamicImage) -> (out:
    image::DynamicImage)
    ensures
        pixels_of(out) == pixels_of(*image).reverse(),
;

/// An image turned a quarter clockwise: `image::DynamicImage::rotate90`. Nothing is said
/// of an image without rows.
pub assume_specification[ image::DynamicImage::rotate90 ](image: &image::DynamicImage) -> (out:
    image::DynamicImage)
    ensures
        pixels_of(*image).len() > 0 ==> pixels_of(out) == quarter_turned(pixels_of(*image)),
;

/// An image turned by half: `image::DynamicImage::rotate180`, which exchanges left and
/// right as well as top and bottom.
pub assume_specification[ image::DynamicImage::rotate180 ](image: &image::DynamicImage) -> (out:
    image::DynamicImage)
    ensures
        pixels_of(out) == mirrored(pixels_of(*image)).reverse(),
;

/// An image turned a quarter the other way: `image::DynamicImage::rotate270`, which is a
/// quarter clockwise after a turn by half. Nothing is said of an image without rows.
pub assume_specification[ image::DynamicImage::rotate270 ](image: &image::DynamicImage) -> (out:
    image::DynamicImage)
    ensures
        pixels_of(*image).len() > 0 ==> pixels_of(out) == quarter_turned(
            mirrored(pixels_of(*image)).reverse(),
        ),
;

/// Whether rows of pixels are what `image` may scale others to, within a width and a
/// height. The averages that it takes are partly of floating-point numbers.
pub uninterp spec fn scaled_to(
    rows: Seq<Seq<(u8, u8, u8, u8)>>,
    width: u32,
    height: u32,
    kept: Seq<Seq<(u8, u8, u8, u8)>>,
) -> bool;

/// An image scaled to the largest size that fits within a square, with a pixel each way
/// at least: `image::DynamicImage::thumbnail`. That its pixels are ones that those of the
/// image are scaled to is named, and its size is stated. The averages are taken over sums of
/// 32 bits, which hold what an image that may be decoded puts into a pixel of a square
/// that is not smaller than this.
pub assume_specification[ image::DynamicImage::thumbnail ](
    image: &image::DynamicImage,
    nwidth: u32,
    nheight: u32,
) -> (out: image::DynamicImage)
    requires
        decoded_rows(pixels_of(*image)),
        1600 <= nwidth <= 8192,
        nheight == nwidth,
    ensures
        fills(pixels_of(out), nwidth as int),
        scaled_to(pixels_of(*image), nwidth, nheight, pixels_of(out)),
;

// ---------------------------------------------------------------------------
// Orientation
// ---------------------------------------------------------------------------

/// What brings an image upright: a turn, and then perhaps an exchange of left and right
/// or of top and bottom.
#[derive(Debug, Clone, Copy, PartialEq, Eq, Structural)]
pub struct Turn {
    /// Quarters, clockwise.
    pub quarters: u8,
    pub mirror: Mirror,
}

#[derive(Debug, Clone, Copy, PartialEq, Eq, Structural)]
pub enum Mirror {
    Nothing,
    LeftRight,
    TopBottom,
}

/// What brings an image upright, by its orientation. Where there is none, or one that is
/// not known, it stands upright.
pub open spec fn turn_for(orientation: Option<u32>) -> Turn {
    match orientation {
        Some(2) => Turn { quarters: 0, mirror: Mirror::LeftRight },
        Some(3) => Turn { quarters: 2, mirror: Mirror::Nothing },
        Some(4) => Turn { quarters: 0, mirror: Mirror::TopBottom },
        Some(5) => Turn { quarters: 1, mirror: Mirror::LeftRight },
        Some(6) => Turn { quarters: 1, mirror: Mirror::Nothing },
        Some(7) => Turn { quarters: 3, mirror: Mirror::LeftRight },
        Some(8) => Turn { quarters: 3, mirror: Mirror::Nothing },
        _ => Turn { quarters: 0, mirror: Mirror::Nothing },
    }
}

pub fn upright_turn(orientation: Option<u32>) -> (out: Turn)
    ensures
        out == turn_for(orientation),
{
    match orientation {
        Some(2) => Turn { quarters: 0, mirror: Mirror::LeftRight },
        Some(3) => Turn { quarters: 2, mirror: Mirror::Nothing },
        Some(4) => Turn { quarters: 0, mirror: Mirror::TopBottom },
        Some(5) => Turn { quarters: 1, mirror: Mirror::LeftRight },
        Some(6) => Turn { quarters: 1, mirror: Mirror::Nothing },
        Some(7) => Turn { quarters: 3, mirror: Mirror::LeftRight },
        Some(8) => Turn { quarters: 3, mirror: Mirror::Nothing },
        _ => Turn { quarters: 0, mirror: Mirror::Nothing },
    }
}

/// The orientations are the eight ways to lay an image, each once.
pub proof fn law_turns_differ(a: u32, b: u32)
    requires
        1 <= a <= 8,
        1 <= b <= 8,
        turn_for(Some(a)) == turn_for(Some(b)),
    ensures
        a == b,
{
}

/// The pixels of an image once it was turned.
pub open spec fn turned_rows(rows: Seq<Seq<(u8, u8, u8, u8)>>, turn: Turn) -> Seq<
    Seq<(u8, u8, u8, u8)>,
> {
    let by_half = mirrored(rows).reverse();
    let rotated = if turn.quarters == 1 {
        quarter_turned(rows)
    } else if turn.quarters == 2 {
        by_half
    } else if turn.quarters == 3 {
        quarter_turned(by_half)
    } else {
        rows
    };
    match turn.mirror {
        Mirror::Nothing => rotated,
        Mirror::LeftRight => mirrored(rotated),
        Mirror::TopBottom => rotated.reverse(),
    }
}

/// Turns an image.
pub fn turn_image(img: image::DynamicImage, turn: Turn) -> (out: image::DynamicImage)
    ensures
        pixels_of(img).len() > 0 ==> pixels_of(out) == turned_rows(pixels_of(img), turn),
{
    let rotated = if turn.quarters == 1 {
        img.rotate90()
    } else if turn.quarters == 2 {
        img.rotate180()
    } else if turn.quarters == 3 {
        img.rotate270()
    } else {
        img
    };
    match turn.mirror {
        Mirror::Nothing => rotated,
        Mirror::LeftRight => rotated.fliph(),
        Mirror::TopBottom => rotated.flipv(),
    }
}

/// Whether an image is made smaller before it is kept. One that is small enough is
/// never made larger.
pub fn needs_thumbnail(width: u32, height: u32) -> (r: bool)
    ensures
        r == (width > MAX_CACHED_IMAGE_DIMENSION || height > MAX_CACHED_IMAGE_DIMENSION),
{
    width > MAX_CACHED_IMAGE_DIMENSION || height > MAX_CACHED_IMAGE_DIMENSION
}

/// Whether rows of pixels are small enough to be kept.
pub open spec fn kept_size(rows: Seq<Seq<(u8, u8, u8, u8)>>) -> bool {
    width_of(rows) <= MAX_CACHED_IMAGE_DIMENSION && rows.len() <= MAX_CACHED_IMAGE_DIMENSION
}

/// Whether rows of pixels are what is kept of others: those themselves where they are
/// small enough, else what they are scaled to, as large as may be kept.
pub open spec fn kept_of(
    rows: Seq<Seq<(u8, u8, u8, u8)>>,
    kept: Seq<Seq<(u8, u8, u8, u8)>>,
) -> bool {
    if kept_size(rows) {
        kept == rows
    } else {
        &&& fills(kept, MAX_CACHED_IMAGE_DIMENSION as int)
        &&& scaled_to(rows, MAX_CACHED_IMAGE_DIMENSION, MAX_CACHED_IMAGE_DIMENSION, kept)
    }
}

/// What is kept of an image is never larger than may be kept.
pub proof fn law_kept_is_small(
    rows: Seq<Seq<(u8, u8, u8, u8)>>,
    kept: Seq<Seq<(u8, u8, u8, u8)>>,
)
    requires
        kept_of(rows, kept),
    ensures
        kept_size(kept),
{
}

/// A turn exchanges width and height where it is by an odd number of quarters, and keeps
/// them otherwise.
pub proof fn law_turned_size(
    rows: Seq<Seq<(u8, u8, u8, u8)>>,
    orientation: Option<u32>,
    width: int,
    height: int,
)
    requires
        sized(rows, width, height),
        width > 0,
        height > 0,
    ensures
        ({
            let turn = turn_for(orientation);
            let (w, h) = turned_size(turn, width, height);
            &&& sized(turned_rows(rows, turn), w, h)
            &&& width_of(turned_rows(rows, turn)) == w
        }),
{
    let turn = turn_for(orientation);
    let by_half = mirrored(rows).reverse();
    assert(rows[0].len() == width);
    assert(by_half[0].len() == width);
    assert(sized(by_half, width, height));
    assert(sized(quarter_turned(rows), height, width));
    assert(sized(quarter_turned(by_half), height, width));
    let (w, h) = turned_size(turn, width, height);
    assert(sized(turned_rows(rows, turn), w, h));
    assert(turned_rows(rows, turn)[0].len() == w);
}

/// The width and the height of an image once it was turned.
pub open spec fn turned_size(turn: Turn, width: int, height: int) -> (int, int) {
    if turn.quarters == 1 || turn.quarters == 3 {
        (height, width)
    } else {
        (width, height)
    }
}

/// Brings a decoded image upright and makes it small enough to be kept. One that is
/// small enough keeps its pixels.
pub fn prepare_image(img: image::DynamicImage, orientation: Option<u32>) -> (out:
    image::DynamicImage)
    requires
        decoded_rows(pixels_of(img)),
    ensures
        kept_of(turned_rows(pixels_of(img), turn_for(orientation)), pixels_of(out)),
{
    let ghost rows = pixels_of(img);
    proof {
        let (w, h) = (width_of(rows), rows.len() as int);
        assert(w > 0 && h > 0) by (nonlinear_arith)
            requires
                0 < w * h,
                w >= 0,
                h >= 0,
        ;
        law_turned_size(rows, orientation, w, h);
        assert(w * h == h * w) by (nonlinear_arith);
    }
    let upright = turn_image(img, upright_turn(orientation));
    let width: u32 = upright.width();
    let height: u32 = upright.height();
    assert(pixels_of(upright)[0].len() == width);
    if needs_thumbnail(width, height) {
        upright.thumbnail(MAX_CACHED_IMAGE_DIMENSION, MAX_CACHED_IMAGE_DIMENSION)
    } else {
        upright
    }
}

// ---------------------------------------------------------------------------
// Decoding
// ---------------------------------------------------------------------------

/// Why an image cannot be decoded, if it cannot: its format is not told, its size is
/// not read, it is too large, or decoding fails.
pub open spec fn image_fault(
    format: Result<bool, Seq<char>>,
    size: Result<(u32, u32), Seq<char>>,
    fault: Option<Seq<char>>,
) -> Option<Seq<char>> {
    match format {
        Err(e) => Some(e),
        Ok(false) => Some("unsupported image format"@),
        Ok(true) => match size {
            Err(e) => Some(e),
            Ok((width, height)) => if !decodable(width, height) {
                Some(dimensions_text(width, height))
            } else {
                fault
            },
        },
    }
}

/// Why bytes are no image that can be shown, if they are none.
pub open spec fn picture_fault(bytes: Seq<u8>) -> Option<Seq<char>> {
    image_fault(
        format_told(bytes),
        dimensions_read(bytes),
        match dimensions_read(bytes) {
            Ok((width, height)) => decode_fault(bytes, width, height, MAX_DECODE_ALLOC_BYTES),
            Err(_) => None,
        },
    )
}

/// Whether rows of pixels are what is kept of the image in bytes: rows that the bytes
/// decode to, with the size that is read from them, brought upright by the orientation
/// that is read from them.
pub open spec fn picture_kept(bytes: Seq<u8>, kept: Seq<Seq<(u8, u8, u8, u8)>>) -> bool {
    exists|rows: Seq<Seq<(u8, u8, u8, u8)>>|
        {
            &&& decodes_to(bytes, rows)
            &&& dimensions_read(bytes) matches Ok((w, h)) && sized(rows, w as int, h as int)
            &&& kept_of(#[trigger] turned_rows(rows, turn_for(orientation_read(bytes))), kept)
        }
}

fn decode_image_with_limits(bytes: &[u8]) -> (out: Result<image::DynamicImage, String>)
    ensures
        match out {
            Ok(img) => picture_fault(bytes@) is None && picture_kept(bytes@, pixels_of(img)),
            Err(e) => picture_fault(bytes@) == Some(e@),
        },
{
    match tell_format(bytes) {
        Ok(true) => {},
        Ok(false) => return Err("unsupported image format".to_owned()),
        Err(e) => return Err(e),
    }
    let (width, height) = match read_dimensions(bytes) {
        Ok(size) => size,
        Err(e) => return Err(e),
    };
    match validate_image_dimensions(width, height) {
        Ok(()) => {},
        Err(e) => return Err(e),
    }
    let img = match decode_within(bytes, width, height, MAX_DECODE_ALLOC_BYTES) {
        Ok(img) => img,
        Err(e) => return Err(e),
    };
    let ghost rows = pixels_of(img);
    proof {
        let (w, h) = (width as int, height as int);
        assert(w > 0 && h > 0) by (nonlinear_arith)
            requires
                0 < w * h,
                w >= 0,
                h >= 0,
        ;
        assert(rows[0].len() == w);
    }
    let orientation = read_orientation(bytes);
    let kept = prepare_image(img, orientation);
    assert(kept_of(turned_rows(rows, turn_for(orientation_read(bytes@))), pixels_of(kept)));
    Ok(kept)
}

/// What is said of bytes that are no image. Those of an encrypted image that begin like
/// none could not be decrypted.
pub open spec fn fault_text(
    fault: Seq<char>,
    format: Seq<char>,
    encrypted: bool,
    url: Seq<char>,
) -> Seq<char> {
    if encrypted && begins(format, "unknown"@) {
        "encrypted media - server could not decrypt ("@ + url + ")"@
    } else {
        fault + " ("@ + format + ") - "@ + url
    }
}

pub fn describe_fault(fault: &str, format: &str, encrypted: bool, url: &str) -> (out: String)
    ensures
        out@ == fault_text(fault@, format@, encrypted, url@),
{
    if encrypted && text_begins(format, "unknown") {
        cat3("encrypted media - server could not decrypt (", url, ")")
    } else {
        cat5(fault, " (", format, ") - ", url)
    }
}

/// Decodes the bytes of an image, upright and no larger than it is kept.
pub fn decode_image(bytes: &[u8], is_encrypted: bool, mxc_url: &str) -> (out: Result<
    image::DynamicImage,
    String,
>)
    ensures
        match out {
            Ok(img) => picture_fault(bytes@) is None && picture_kept(bytes@, pixels_of(img)),
            Err(text) => picture_fault(bytes@) is Some && text@ == fault_text(
                picture_fault(bytes@)->0,
                sniffed(bytes@),
                is_encrypted,
                mxc_url@,
            ),
        },
{
    match decode_image_with_limits(bytes) {
        Ok(img) => Ok(img),
        Err(e) => {
            let format = sniff_format(bytes);
            Err(describe_fault(e.as_str(), format.as_str(), is_encrypted, mxc_url))
        },
    }
}

} // verus!
