//! Token icons: resizing a logo and encoding the two icon sizes as PNG, through
//! the `image` crate.

use vstd::prelude::*;

verus! {

#[verifier::external_type_specification]
#[verifier::external_body]
pub struct ExDynamicImage(image::DynamicImage);

#[verifier::external_type_specification]
#[verifier::external_body]
pub struct ExImageError(image::ImageError);

/// The side, in pixels, of a logo as the token-list repository keeps it, and of the larger icon.
pub const LOGO_SIDE: u32 = 32;

/// The side, in pixels, of the smaller icon.
pub const SMALL_ICON_SIDE: u32 = 24;

/// Why the icons of a token could not be made.
#[derive(Debug)]
pub enum IconError {
    /// The PNG encoder failed; the text is its message.
    Encoding(String),
}

/// The first bytes of every PNG file an encoder writes: the 8-byte PNG
/// signature, then the length (13) and type (`IHDR`) of the image-header chunk.
pub open spec fn png_head() -> Seq<u8> {
    seq![137u8, 80, 78, 71, 13, 10, 26, 10, 0, 0, 0, 13, 73, 72, 68, 82]
}

/// `b` starts as a PNG file: the signature, then a complete image-header chunk
/// (its length and type, 13 bytes of data, and its checksum).
pub open spec fn is_png_start(b: Seq<u8>) -> bool {
    &&& b.len() >= 33
    &&& b.subrange(0, 16) == png_head()
}

/// The big-endian 32-bit number held by the four bytes of `b` from `at`.
pub open spec fn be_u32_at(b: Seq<u8>, at: int) -> nat {
    b[at] as nat * 0x1000000 + b[at + 1] as nat * 0x10000 + b[at + 2] as nat * 0x100 + b[at + 3] as nat
}

/// The width a PNG file's image header gives.
pub open spec fn png_width(b: Seq<u8>) -> nat {
    be_u32_at(b, 16)
}

/// The height a PNG file's image header gives.
pub open spec fn png_height(b: Seq<u8>) -> nat {
    be_u32_at(b, 20)
}

/// The width and height of an image, as `GenericImageView::dimensions` gives them.
pub uninterp spec fn image_dims(img: image::DynamicImage) -> (u32, u32);

/// Whether the colour type that `DynamicImage::color` gives has 8 bits per
/// channel (`L8`, `La8`, `Rgb8` or `Rgba8`).
pub uninterp spec fn image_is_8bit(img: image::DynamicImage) -> bool;

/// The bytes that `DynamicImage::write_with_encoder` writes through a PNG
/// encoder at the best compression and the Sub filter, when it succeeds.
pub uninterp spec fn png_best_bytes(img: image::DynamicImage) -> Seq<u8>;

/// Whether encoding an image as PNG is owed to succeed: both sides are
/// non-zero and the colour type has 8 bits per channel.
pub open spec fn png_encoding_owed(img: image::DynamicImage) -> bool {
    &&& image_dims(img).0 > 0
    &&& image_dims(img).1 > 0
    &&& image_is_8bit(img)
}

/// Whether one side of an image is zero.
pub open spec fn image_is_empty(img: image::DynamicImage) -> bool {
    image_dims(img).0 == 0 || image_dims(img).1 == 0
}

/// The sides `res` that scaling an image of sides `src` to fit a `w` × `h`
/// box (with `w`, `h` non-zero) may give:
/// - both sides are between 1 and the box;
/// - for a non-empty image, one side reaches the box and the other keeps the
///   aspect ratio to within one pixel;
/// - a non-empty image that already fits the box with one side on it keeps its sides.
pub open spec fn scaled_sides(src: (u32, u32), w: u32, h: u32, res: (u32, u32)) -> bool {
    &&& 0 < res.0 <= w
    &&& 0 < res.1 <= h
    &&& src.0 > 0 && src.1 > 0 ==> {
        ||| res.0 == w && res.1 * src.0 - src.1 * w <= src.0 && src.1 * w - res.1 * src.0 <= src.0
        ||| res.1 == h && res.0 * src.1 - src.0 * h <= src.1 && src.0 * h - res.0 * src.1 <= src.1
    }
    &&& (src.0 > 0 && src.1 > 0 && ((src.0 == w && src.1 <= h) || (src.1 == h && src.0 <= w))) ==> res == src
}

/// `image::DynamicImage::resize` with the Lanczos3 filter. For a non-zero box
/// the sides follow `resize_dimensions`: the ratio is the smaller of
/// `w / width` and `h / height`, each side is the old side times the ratio,
/// rounded, and at least 1; an image whose sides already equal the box is
/// kept. So one side reaches the box, the other keeps the aspect ratio up to
/// rounding, and an image already fitting with one side on the box keeps its
/// sides (the ratio is then exactly 1). The pixel type is kept (`dynamic_map!`
/// maps each variant to itself). Nothing is stated of the pixels: the Lanczos3
/// kernel uses `f32::sin`, whose precision std leaves open.
#[verifier::external_body]
fn resize_lanczos3(img: &image::DynamicImage, width: u32, height: u32) -> (res: image::DynamicImage)
    ensures
        width > 0 && height > 0 ==> scaled_sides(image_dims(*img), width, height, image_dims(res)),
        image_is_8bit(res) == image_is_8bit(*img),
{
    img.resize(width, height, image::imageops::FilterType::Lanczos3)
}

/// `image::DynamicImage::write_with_encoder` with a PNG encoder at the best
/// compression and the Sub filter, writing into a fresh buffer. On success the
/// buffer starts with what `png::Writer` writes first: the PNG signature and
/// the whole `IHDR` chunk, whose first eight data bytes are the image's width
/// and height, big-endian. The PNG encoder refuses every empty image
/// (`png::Writer::init`) and colour types it cannot write
/// (`PngEncoder::encode_inner`); for 8-bit colour types no other step can
/// fail, so success is owed there. For 16-bit types the encoder may also fail
/// on an allocation it tries, which is not stated.
#[verifier::external_body]
fn encode_png_best(img: &image::DynamicImage) -> (res: Result<Vec<u8>, image::ImageError>)
    ensures
        res matches Ok(b) ==> b@ == png_best_bytes(*img) && is_png_start(b@) && png_width(b@)
            == image_dims(*img).0 && png_height(b@) == image_dims(*img).1,
        png_encoding_owed(*img) ==> res is Ok,
        image_is_empty(*img) ==> res is Err,
{
    let mut buf: Vec<u8> = Vec::new();
    let encoder = image::codecs::png::PngEncoder::new_with_quality(
        std::io::Cursor::new(&mut buf),
        image::codecs::png::CompressionType::Best,
        image::codecs::png::FilterType::Sub,
    );
    match img.write_with_encoder(encoder) {
        Ok(()) => Ok(buf),
        Err(e) => Err(e),
    }
}

/// The message of an `image::ImageError`, as its `Display` writes it.
#[verifier::external_body]
fn image_error_text(e: &image::ImageError) -> String {
    format!("{}", e)
}

/// A logo scaled to fit the square the token list keeps logos in.
pub fn resize_logo(img: &image::DynamicImage) -> (res: image::DynamicImage)
    ensures
        scaled_sides(image_dims(*img), LOGO_SIDE, LOGO_SIDE, image_dims(res)),
        image_is_8bit(res) == image_is_8bit(*img),
{
    resize_lanczos3(img, LOGO_SIDE, LOGO_SIDE)
}

/// Resizing a logo a second time keeps the sides the first resize gave: a
/// non-empty logo comes out with one side on the square and the other within
/// it, and such a logo is kept as it is.
pub proof fn lemma_resize_logo_sides_settle(src: (u32, u32), once: (u32, u32), twice: (u32, u32))
    requires
        src.0 > 0,
        src.1 > 0,
        scaled_sides(src, LOGO_SIDE, LOGO_SIDE, once),
        scaled_sides(once, LOGO_SIDE, LOGO_SIDE, twice),
    ensures
        twice == once,
{
}

/// `large` is the PNG of `logo`, and `small` the PNG of `scaled`.
pub open spec fn pngs_of(logo: image::DynamicImage, scaled: image::DynamicImage, large: Seq<u8>, small: Seq<u8>) -> bool {
    &&& large == png_best_bytes(logo)
    &&& small == png_best_bytes(scaled)
    &&& is_png_start(large)
    &&& is_png_start(small)
    &&& png_width(large) == image_dims(logo).0
    &&& png_height(large) == image_dims(logo).1
    &&& png_width(small) == image_dims(scaled).0
    &&& png_height(small) == image_dims(scaled).1
}

/// `scaled` is what scaling `logo` to fit the smaller square may give.
pub open spec fn scaled_for_small_icon(logo: image::DynamicImage, scaled: image::DynamicImage) -> bool {
    &&& scaled_sides(image_dims(logo), SMALL_ICON_SIDE, SMALL_ICON_SIDE, image_dims(scaled))
    &&& image_is_8bit(scaled) == image_is_8bit(logo)
}

/// `large` and `small` are the icons of `img`: the PNG of the image as it is,
/// and the PNG of one scaling of the image to fit the smaller square.
pub open spec fn icons_of(img: image::DynamicImage, large: Seq<u8>, small: Seq<u8>) -> bool {
    exists|scaled: image::DynamicImage| #[trigger] scaled_for_small_icon(img, scaled) && pngs_of(img, scaled, large, small)
}

/// The PNG encodings of a logo and of its scaled form: the first encoding
/// error, if any; none when both images are non-empty with 8 bits per
/// channel; always one when the logo or the scaled image is empty.
pub fn encode_icons(logo: &image::DynamicImage, scaled: &image::DynamicImage) -> (res: Result<(Vec<u8>, Vec<u8>), IconError>)
    ensures
        res matches Ok((large, small)) ==> pngs_of(*logo, *scaled, large@, small@),
        png_encoding_owed(*logo) && png_encoding_owed(*scaled) ==> res is Ok,
        image_is_empty(*logo) || image_is_empty(*scaled) ==> res is Err,
{
    let large = match encode_png_best(logo) {
        Ok(b) => b,
        Err(e) => return Err(IconError::Encoding(image_error_text(&e))),
    };
    let small = match encode_png_best(scaled) {
        Ok(b) => b,
        Err(e) => return Err(IconError::Encoding(image_error_text(&e))),
    };
    Ok((large, small))
}

/// The two icons of a token: the logo as it is, and the logo scaled to fit
/// the smaller square, both as PNG. The first encoding error, if any, is
/// returned; there is none for a non-empty logo with 8 bits per channel, and
/// always one for an empty logo.
pub fn make_icons(img: &image::DynamicImage) -> (res: Result<(Vec<u8>, Vec<u8>), IconError>)
    ensures
        res matches Ok((large, small)) ==> icons_of(*img, large@, small@),
        png_encoding_owed(*img) ==> res is Ok,
        image_is_empty(*img) ==> res is Err,
{
    let small_img = resize_lanczos3(img, SMALL_ICON_SIDE, SMALL_ICON_SIDE);
    let res = encode_icons(img, &small_img);
    proof {
        if res is Ok {
            assert(scaled_for_small_icon(*img, small_img));
        }
    }
    res
}

} // verus!
