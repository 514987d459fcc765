//! Turning a downloaded picture into the dithered PNG that is posted back, and
//! naming the file and the URL it is posted to.

use crate::dither::{dither, dithered, on_palette};
use crate::rgb_image::RgbImage;
use std::io::Cursor;
use vstd::prelude::*;
use vstd::string::StringExecFns;

verus! {

/// The number of steps (beyond zero) that each colour channel is quantised to.
pub const QUANT_PER_COLOR: u8 = 4;

/// The width and height of the box that a picture is shrunk into before it is
/// dithered.
pub const WORKING_SIZE: u32 = 200;

#[verifier::external_type_specification]
#[verifier::external_body]
pub struct ExDynamicImage(image::DynamicImage);

#[verifier::external_type_specification]
#[verifier::external_body]
pub struct ExImageError(image::ImageError);

/// The width of a decoded image.
pub uninterp spec fn image_width(img: image::DynamicImage) -> u32;

/// The height of a decoded image.
pub uninterp spec fn image_height(img: image::DynamicImage) -> u32;

/// The raw buffer of a decoded image when it holds 8-bit RGB pixels, `None` when
/// it holds pixels of another kind.
pub uninterp spec fn image_rgb8_raw(img: image::DynamicImage) -> Option<Seq<u8>>;

/// The width, height and raw buffer that `image::DynamicImage::resize` with
/// nearest-neighbour sampling yields for a `width` by `height` 8-bit RGB image
/// with raw buffer `raw`, asked to fit in `nwidth` by `nheight`.
pub uninterp spec fn resized_rgb8(
    width: u32,
    height: u32,
    raw: Seq<u8>,
    nwidth: u32,
    nheight: u32,
) -> (u32, u32, Seq<u8>);

/// The PNG file that encoding a `width` by `height` 8-bit RGB image with raw
/// buffer `raw` writes.
pub uninterp spec fn png_of_rgb8(width: u32, height: u32, raw: Seq<u8>) -> Seq<u8>;

/// Whether `img` is an image that decoding the picture `bytes`, in the format
/// guessed from its leading bytes, can yield. Some decoders pick their
/// arithmetic by what the processor offers, so one picture may decode to
/// slightly different images on different machines; this names the relation,
/// not a single image.
pub uninterp spec fn decodes_as(bytes: Seq<u8>, img: image::DynamicImage) -> bool;

/// Calls `image::io::Reader::with_guessed_format` on a reader over `bytes`, then
/// `image::io::Reader::decode`. Guessing reads at most the first sixteen bytes
/// of an in-memory cursor and seeks back, which cannot fail; its error type is
/// carried over as `ImageError::IoError` all the same. An image that comes back
/// is one that `bytes` decodes as; which pictures decode is left unsaid.
#[verifier::external_body]
fn decode_picture(bytes: Vec<u8>) -> (r: Result<image::DynamicImage, image::ImageError>)
    ensures
        r matches Ok(img) ==> decodes_as(bytes@, img),
{
    match image::io::Reader::new(Cursor::new(bytes)).with_guessed_format() {
        Ok(reader) => reader.decode(),
        Err(e) => Err(image::ImageError::IoError(e)),
    }
}

/// Calls `image::GenericImageView::dimensions` on the image: its width and height.
#[verifier::external_body]
fn image_dimensions(img: &image::DynamicImage) -> (r: (u32, u32))
    ensures
        r == (image_width(*img), image_height(*img)),
{
    image::GenericImageView::dimensions(img)
}

/// Calls `image::DynamicImage::resize` with nearest-neighbour sampling: the image
/// scaled, keeping its aspect ratio, to the largest size that fits in `width`
/// by `height`. The result holds pixels of the same kind as the input, and is a
/// copy of the input when the input already has the size asked for. For an
/// 8-bit RGB image the result is a function of the input's width, height and
/// raw buffer and of the size asked for, and is named; for images of other
/// kinds only the kind of the result is stated. The size computed for a
/// non-empty image and a non-empty box fills the box along one side and fits
/// inside it along the other: the ratio taken is the smaller of the two ratios
/// of box to image, so the side it was taken from scales to the box's side up
/// to a rounding error far below one half, and the other side to at most the
/// box's; each is at least one.
#[verifier::external_body]
fn resize_nearest(img: &image::DynamicImage, width: u32, height: u32) -> (r: image::DynamicImage)
    ensures
        image_rgb8_raw(r) is Some <==> image_rgb8_raw(*img) is Some,
        image_rgb8_raw(*img) matches Some(raw) ==> (
        image_width(r),
        image_height(r),
        image_rgb8_raw(r)->0,
        ) == resized_rgb8(image_width(*img), image_height(*img), raw, width, height),
        width == image_width(*img) && height == image_height(*img) ==> {
            &&& image_width(r) == width
            &&& image_height(r) == height
            &&& image_rgb8_raw(r) == image_rgb8_raw(*img)
        },
        image_width(*img) >= 1 && image_height(*img) >= 1 && width >= 1 && height >= 1 ==> {
            &&& 1 <= image_width(r) <= width
            &&& 1 <= image_height(r) <= height
            &&& image_width(r) == width || image_height(r) == height
        },
{
    img.resize(width, height, image::imageops::FilterType::Nearest)
}

/// Calls `image::DynamicImage::as_rgb8` and, when the image holds 8-bit RGB
/// pixels, returns its width, height and raw buffer. An `ImageBuffer` is only
/// ever built with a buffer that holds all its pixels, so the buffer is at
/// least three bytes per pixel long.
#[verifier::external_body]
fn rgb8_buffer(img: &image::DynamicImage) -> (r: Option<(u32, u32, Vec<u8>)>)
    ensures
        r is Some <==> image_rgb8_raw(*img) is Some,
        r matches Some((w, h, raw)) ==> {
            &&& w == image_width(*img)
            &&& h == image_height(*img)
            &&& image_rgb8_raw(*img) == Some(raw@)
            &&& 3 * (w as int) * (h as int) <= raw@.len()
        },
{
    match img.as_rgb8() {
        Some(buffer) => Some((buffer.width(), buffer.height(), buffer.as_raw().clone())),
        None => None,
    }
}

/// Calls `image::ImageBuffer::from_raw` for 8-bit RGB pixels and wraps the buffer
/// as a `DynamicImage`. `from_raw` accepts the buffer exactly when it holds
/// `width * height` pixels of three bytes.
#[verifier::external_body]
fn image_from_rgb8(width: u32, height: u32, raw: Vec<u8>) -> (r: Option<image::DynamicImage>)
    ensures
        r is Some <==> 3 * (width as int) * (height as int) <= raw@.len(),
        r matches Some(img) ==> {
            &&& image_width(img) == width
            &&& image_height(img) == height
            &&& image_rgb8_raw(img) == Some(raw@)
        },
{
    match image::RgbImage::from_raw(width, height, raw) {
        Some(buffer) => Some(image::DynamicImage::ImageRgb8(buffer)),
        None => None,
    }
}

/// Calls `image::DynamicImage::write_to` with the PNG format on an in-memory
/// cursor and returns what was written, ignoring a failure. For an 8-bit RGB
/// image what is written is a function of its width, height and raw buffer,
/// and is named; for images of other kinds nothing is stated.
#[verifier::external_body]
fn encode_png(img: &image::DynamicImage) -> (r: Vec<u8>)
    ensures
        image_rgb8_raw(*img) matches Some(raw) ==> r@ == png_of_rgb8(
            image_width(*img),
            image_height(*img),
            raw,
        ),
{
    let mut cursor = Cursor::new(Vec::new());
    let _ = img.write_to(&mut cursor, image::ImageOutputFormat::Png);
    cursor.into_inner()
}

/// Why a downloaded picture could not be turned into a dithered image.
#[derive(Clone, Copy, Debug, PartialEq, Eq)]
pub enum ImageJobError {
    /// The picture could not be decoded.
    Decode,
    /// The shrunk picture does not hold 8-bit RGB pixels.
    NotRgb8,
}

/// Dithers the raw buffer of a `width` by `height` 8-bit RGB image with
/// `QUANT_PER_COLOR` steps per channel.
pub fn dither_rgb8(width: u32, height: u32, raw: Vec<u8>) -> (r: Vec<u8>)
    requires
        3 * (width as int) * (height as int) <= raw@.len(),
    ensures
        r@ == dithered(raw@, width as int, height as int, QUANT_PER_COLOR),
        r@.len() == raw@.len(),
        forall|i: int|
            0 <= i < 3 * (width as int) * (height as int) ==> on_palette(
                #[trigger] r@[i],
                QUANT_PER_COLOR,
            ),
{
    let mut img = match RgbImage::from_raw(width, height, raw) {
        Some(img) => img,
        None => {
            proof {
                assert(false);
            }
            return Vec::new();
        },
    };
    dither(&mut img, QUANT_PER_COLOR);
    img.into_raw()
}

/// The width, height and raw buffer of an 8-bit RGB image.
pub open spec fn rgb8_of(img: image::DynamicImage) -> (u32, u32, Seq<u8>) {
    (image_width(img), image_height(img), image_rgb8_raw(img)->0)
}

/// The width, height and raw buffer of an 8-bit RGB image after it has been
/// shrunk to fit in `WORKING_SIZE` by `WORKING_SIZE`, dithered with
/// `QUANT_PER_COLOR` steps per channel and scaled back to its former size.
pub open spec fn dithered_rgb8(width: u32, height: u32, raw: Seq<u8>) -> (u32, u32, Seq<u8>) {
    let small = resized_rgb8(width, height, raw, WORKING_SIZE, WORKING_SIZE);
    resized_rgb8(
        small.0,
        small.1,
        dithered(small.2, small.0 as int, small.1 as int, QUANT_PER_COLOR),
        width,
        height,
    )
}

/// Shrinks a decoded picture to fit in `WORKING_SIZE` by `WORKING_SIZE`, dithers
/// it and scales it back to its former size. `None` when the picture does not
/// hold 8-bit RGB pixels. A picture that already has the working size comes
/// back with exactly its dithered pixels.
pub fn dither_image(image: &image::DynamicImage) -> (r: Option<image::DynamicImage>)
    ensures
        r is None <==> image_rgb8_raw(*image) is None,
        r matches Some(out) ==> {
            &&& image_rgb8_raw(out) is Some
            &&& rgb8_of(out) == dithered_rgb8(
                image_width(*image),
                image_height(*image),
                image_rgb8_raw(*image)->0,
            )
        },
        r matches Some(out) ==> (image_width(*image) >= 1 && image_height(*image) >= 1 ==> {
            &&& image_width(out) <= image_width(*image)
            &&& image_height(out) <= image_height(*image)
            &&& image_width(out) == image_width(*image) || image_height(out)
                == image_height(*image)
        }),
        image_width(*image) == WORKING_SIZE && image_height(*image) == WORKING_SIZE
            && image_rgb8_raw(*image) is Some ==> (r matches Some(out) && {
            &&& image_width(out) == WORKING_SIZE
            &&& image_height(out) == WORKING_SIZE
            &&& image_rgb8_raw(out) == Some(
                dithered(
                    image_rgb8_raw(*image)->0,
                    WORKING_SIZE as int,
                    WORKING_SIZE as int,
                    QUANT_PER_COLOR,
                ),
            )
        }),
{
    let (full_width, full_height) = image_dimensions(image);
    let small = resize_nearest(image, WORKING_SIZE, WORKING_SIZE);
    let (width, height, raw) = match rgb8_buffer(&small) {
        Some(b) => b,
        None => return None,
    };
    let dithered_raw = dither_rgb8(width, height, raw);
    let dithered_image = match image_from_rgb8(width, height, dithered_raw) {
        Some(i) => i,
        None => {
            proof {
                assert(false);
            }
            return None;
        },
    };
    Some(resize_nearest(&dithered_image, full_width, full_height))
}

/// What rendering a decoded picture gives: the PNG file of the picture shrunk,
/// dithered and scaled back, or `NotRgb8` when it does not hold 8-bit RGB
/// pixels.
pub open spec fn rendered(img: image::DynamicImage) -> Result<Seq<u8>, ImageJobError> {
    match image_rgb8_raw(img) {
        None => Err(ImageJobError::NotRgb8),
        Some(raw) => {
            let out = dithered_rgb8(image_width(img), image_height(img), raw);
            Ok(png_of_rgb8(out.0, out.1, out.2))
        },
    }
}

/// A rendering result with the PNG file taken as a sequence of bytes.
pub open spec fn result_bytes(r: Result<Vec<u8>, ImageJobError>) -> Result<Seq<u8>, ImageJobError> {
    match r {
        Ok(png) => Ok(png@),
        Err(e) => Err(e),
    }
}

/// Dithers a decoded picture as `dither_image` does and encodes the result as
/// PNG; `NotRgb8` when the picture does not hold 8-bit RGB pixels.
pub fn render_image(image: &image::DynamicImage) -> (r: Result<Vec<u8>, ImageJobError>)
    ensures
        result_bytes(r) == rendered(*image),
{
    match dither_image(image) {
        Some(full_image) => {
            let png = encode_png(&full_image);
            Ok(png)
        },
        None => Err(ImageJobError::NotRgb8),
    }
}

/// Decodes a downloaded picture and renders it as `render_image` does. Fails
/// with `Decode` when the picture cannot be decoded; which pictures decode, and
/// to exactly which image, is up to the `image` crate on the machine at hand,
/// so what is stated is that any other result is the rendering of an image
/// that `image_bytes` decodes as.
pub fn render_dithered_png(image_bytes: Vec<u8>) -> (r: Result<Vec<u8>, ImageJobError>)
    ensures
        r == Err::<Vec<u8>, _>(ImageJobError::Decode) || exists|img: image::DynamicImage|
            decodes_as(image_bytes@, img) && #[trigger] rendered(img) == result_bytes(r),
{
    let ghost bytes = image_bytes@;
    let image = match decode_picture(image_bytes) {
        Ok(i) => i,
        Err(_) => return Err(ImageJobError::Decode),
    };
    let r = render_image(&image);
    assert(decodes_as(bytes, image) && rendered(image) == result_bytes(r));
    r
}

/// The name of the file that holds the image for the interaction with token
/// `token`.
pub open spec fn image_file_name_spec(token: Seq<char>) -> Seq<char> {
    "image_"@ + token + ".png"@
}

/// The name of the file that holds the image for the interaction with token
/// `token`.
pub fn image_file_name(token: &str) -> (r: String)
    ensures
        r@ == image_file_name_spec(token@),
{
    "image_".to_owned().concat(token).concat(".png")
}

/// The path under which the image file `file_name` is kept.
pub fn image_path(file_name: &str) -> (r: String)
    ensures
        r@ == "image/"@ + file_name@,
{
    "image/".to_owned().concat(file_name)
}

/// The URL of the webhook endpoint that edits the first reply to the interaction
/// with token `token` of the application `application_id`.
pub open spec fn followup_url_spec(application_id: Seq<char>, token: Seq<char>) -> Seq<char> {
    "https://discord.com/api/v10/webhooks/"@ + application_id + "/"@ + token
        + "/messages/@original"@
}

/// The URL of the webhook endpoint that edits the first reply to the interaction
/// with token `token` of the application `application_id`.
pub fn followup_url(application_id: &str, token: &str) -> (r: String)
    ensures
        r@ == followup_url_spec(application_id@, token@),
{
    "https://discord.com/api/v10/webhooks/".to_owned().concat(application_id).concat("/").concat(
        token,
    ).concat("/messages/@original")
}

} // verus!
