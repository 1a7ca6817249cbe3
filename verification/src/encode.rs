use vstd::prelude::*;

use crate::buffer::flip_rows_spec;
use crate::buffer::take_and_flip;
use crate::buffer::PixelBuffer;

verus! {

/// The 64 digits of the standard base64 alphabet, in digit order.
pub open spec fn b64_alphabet() -> Seq<char> {
    "ABCDEFGHIJKLMNOPQRSTUVWXYZabcdefghijklmnopqrstuvwxyz0123456789+/"@
}

/// Standard, padded base64: each group of three bytes becomes four digits of
/// six bits each; a final group of one or two bytes is encoded into two or
/// three digits and padded with `=` to a multiple of four characters.
pub open spec fn b64_encode(bytes: Seq<u8>) -> Seq<char>
    decreases bytes.len(),
{
    let a = b64_alphabet();
    if bytes.len() == 0 {
        Seq::empty()
    } else if bytes.len() == 1 {
        let b0 = bytes[0] as int;
        seq![a[b0 / 4], a[(b0 % 4) * 16], '=', '=']
    } else if bytes.len() == 2 {
        let b0 = bytes[0] as int;
        let b1 = bytes[1] as int;
        seq![a[b0 / 4], a[(b0 % 4) * 16 + b1 / 16], a[(b1 % 16) * 4], '=']
    } else {
        let b0 = bytes[0] as int;
        let b1 = bytes[1] as int;
        let b2 = bytes[2] as int;
        seq![
            a[b0 / 4],
            a[(b0 % 4) * 16 + b1 / 16],
            a[(b1 % 16) * 4 + b2 / 64],
            a[b2 % 64],
        ] + b64_encode(bytes.skip(3))
    }
}

/// Relies on base64's `STANDARD` engine (standard alphabet, `=` padding):
/// its `encode` returns exactly the padded base64 digits of the input.
#[verifier::external_body]
fn base64_encode(data: &Vec<u8>) -> (encoded: String)
    requires
        data@.len() / 3 * 4 + 4 <= usize::MAX,
    ensures
        encoded@ == b64_encode(data@),
{
    base64::Engine::encode(&base64::engine::general_purpose::STANDARD, data)
}

/// The PNG encoding of a row-major RGB byte buffer with the given pixel
/// dimensions, as the image crate's PNG encoder writes it.
pub uninterp spec fn png_bytes(width: nat, height: nat, data: Seq<u8>) -> Seq<u8>;

/// Relies on image's PNG encoder through `write_buffer_with_format`: fed a
/// buffer of exactly `3 * width * height` bytes as 8-bit RGB, with both
/// dimensions in PNG's valid range, it writes the PNG encoding of that
/// buffer — a function of the dimensions and bytes alone — and succeeds: its
/// failure paths (a zero dimension, a wrong buffer length, a failing writer)
/// are all ruled out by the preconditions and the in-memory cursor.
#[verifier::external_body]
fn png_encode(width: u32, height: u32, data: &Vec<u8>) -> (encoded: Vec<u8>)
    requires
        1 <= width <= 0x7fff_ffff,
        1 <= height <= 0x7fff_ffff,
        data@.len() == 3 * width * height,
    ensures
        encoded@ == png_bytes(width as nat, height as nat, data@),
{
    let mut buffer: Vec<u8> = Vec::new();
    let mut cursor = std::io::Cursor::new(&mut buffer);
    image::write_buffer_with_format(
        &mut cursor,
        data,
        width,
        height,
        image::ExtendedColorType::Rgb8,
        image::ImageFormat::Png,
    ).expect("in-memory PNG encoding of a well-sized RGB buffer does not fail");
    buffer
}

/// Wraps already-encoded PNG bytes into a `data:` URL: the fixed scheme and
/// media-type prefix followed by the standard base64 digits of the bytes.
pub fn data_url_from_png(png: &Vec<u8>) -> (url: String)
    requires
        png@.len() / 3 * 4 + 4 <= usize::MAX,
    ensures
        url@ == "data:image/png;base64,"@ + b64_encode(png@),
{
    let mut url = String::from_str("data:image/png;base64,");
    let encoded = base64_encode(png);
    url.append(encoded.as_str());
    url
}

/// Renders a finished buffer into a `data:image/png;base64,...` URL: the rows
/// are flipped from the renderer's bottom-up order into PNG's top-down order,
/// PNG-encoded, and base64-packaged. The one refusal, stated exactly below,
/// is a PNG encoding too large for its base64 text to fit in memory.
pub fn into_data_url(image: PixelBuffer) -> (url: Option<String>)
    requires
        image.wf(),
        1 <= image.width_px <= 0x7fff_ffff,
        1 <= image.height_px <= 0x7fff_ffff,
        3 * image.width_px <= usize::MAX,
    ensures
        url matches Some(u) ==> u@ == "data:image/png;base64,"@ + b64_encode(
            png_bytes(
                image.width_px as nat,
                image.height_px as nat,
                flip_rows_spec(image.data@, 3 * image.width_px as int),
            ),
        ),
        url is Some <==> png_bytes(
            image.width_px as nat,
            image.height_px as nat,
            flip_rows_spec(image.data@, 3 * image.width_px as int),
        ).len() as int / 3 <= (usize::MAX - 4) as int / 4,
{
    let width = image.width_px;
    let height = image.height_px;
    let flipped = take_and_flip(image);
    let png = png_encode(width, height, &flipped);
    if png.len() / 3 <= (usize::MAX - 4) / 4 {
        proof {
            assert(4 * (png@.len() / 3) <= usize::MAX - 4) by (nonlinear_arith)
                requires
                    png@.len() / 3 <= (usize::MAX - 4) / 4,
            ;
        }
        Some(data_url_from_png(&png))
    } else {
        None
    }
}

} // verus!
