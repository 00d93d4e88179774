//! Image bytes as text: PNG encoding of raw pixels and base64 data URLs.

use base64::Engine;
use vstd::prelude::*;

use crate::text::{chars_of, concat, string_of};

verus! {

/// One character of the standard base64 alphabet (RFC 4648): `A`–`Z`,
/// `a`–`z`, `0`–`9`, `+`, `/` for the values 0 to 63.
pub open spec fn base64_digit(v: int) -> char {
    if v < 26 {
        ('A' as int + v) as char
    } else if v < 52 {
        ('a' as int + (v - 26)) as char
    } else if v < 62 {
        ('0' as int + (v - 52)) as char
    } else if v == 62 {
        '+'
    } else {
        '/'
    }
}

/// Standard base64 with `=` padding (RFC 4648): every three bytes become
/// four characters of six bits each; a last group of one or two bytes is
/// filled with zero bits and padded to four characters with `=`. Opaque:
/// `reveal` it where the characters themselves matter.
#[verifier::opaque]
pub open spec fn base64_standard(bytes: Seq<u8>) -> Seq<char>
    decreases bytes.len(),
{
    if bytes.len() == 0 {
        Seq::empty()
    } else if bytes.len() == 1 {
        let a = bytes[0] as int;
        seq![base64_digit(a / 4), base64_digit((a % 4) * 16), '=', '=']
    } else if bytes.len() == 2 {
        let (a, b) = (bytes[0] as int, bytes[1] as int);
        seq![base64_digit(a / 4), base64_digit((a % 4) * 16 + b / 16), base64_digit((b % 16) * 4), '=']
    } else {
        let (a, b, c) = (bytes[0] as int, bytes[1] as int, bytes[2] as int);
        seq![
            base64_digit(a / 4),
            base64_digit((a % 4) * 16 + b / 16),
            base64_digit((b % 16) * 4 + c / 64),
            base64_digit(c % 64),
        ] + base64_standard(bytes.subrange(3, bytes.len() as int))
    }
}

/// `base64::engine::general_purpose::STANDARD.encode`: the standard alphabet
/// with padding (`engine/general_purpose/mod.rs`, `STANDARD`). Claimed: the
/// text is `base64_standard` of the bytes.
#[verifier::external_body]
fn base64_encode(bytes: &Vec<u8>) -> (r: String)
    ensures
        r@ == base64_standard(bytes@),
{
    base64::engine::general_purpose::STANDARD.encode(bytes)
}

/// The PNG file the `image` crate writes for an RGBA image of that size and
/// those pixels (row by row, four bytes a pixel), when it writes one. It
/// depends on its arguments alone.
pub uninterp spec fn png_rgba(width: u32, height: u32, pixels: Seq<u8>) -> Option<Seq<u8>>;

/// `image::DynamicImage::write_to` in PNG of the image that
/// `image::RgbaImage::from_raw` builds from the pixels. The pixels must be
/// exactly what the size needs: `from_raw` keeps a longer buffer whole, and
/// the PNG encoder then stops on an assertion (`codecs/png.rs`,
/// `write_image`). Claimed: what comes out is `png_rgba` of the arguments.
/// That a PNG comes out is not claimed (the encoder refuses a zero size,
/// and its errors are not read here).
#[verifier::external_body]
fn encode_png(width: u32, height: u32, pixels: Vec<u8>) -> (r: Option<Vec<u8>>)
    requires
        pixels@.len() == width * height * 4,
    ensures
        match r {
            Some(png) => png_rgba(width, height, pixels@) == Some(png@),
            None => png_rgba(width, height, pixels@) is None,
        },
{
    let img = image::RgbaImage::from_raw(width, height, pixels)?;
    let mut png: Vec<u8> = Vec::new();
    let written = image::DynamicImage::ImageRgba8(img).write_to(
        std::io::Cursor::new(&mut png),
        image::ImageFormat::Png,
    );
    match written {
        Ok(()) => Some(png),
        Err(_) => None,
    }
}

/// A data URL: `data:`, the type, `;base64,` and the bytes in base64.
pub open spec fn data_url(mime: Seq<char>, bytes: Seq<u8>) -> Seq<char> {
    "data:"@ + mime + ";base64,"@ + base64_standard(bytes)
}

/// The bytes as a data URL of that type.
pub fn data_url_of(mime: &str, bytes: &Vec<u8>) -> (r: String)
    ensures
        r@ == data_url(mime@, bytes@),
{
    proof {
        reveal_strlit("data:");
        reveal_strlit(";base64,");
    }
    let head = concat(&chars_of("data:"), &chars_of(mime));
    let head = concat(&head, &chars_of(";base64,"));
    let body = base64_encode(bytes);
    string_of(&concat(&head, &chars_of(body.as_str())))
}

/// An RGBA image of that size as a PNG data URL: nothing when the pixels are
/// not exactly four bytes for each point of the size, else the encoder's
/// PNG when it writes one.
pub fn png_data_url(width: u32, height: u32, pixels: Vec<u8>) -> (r: Option<String>)
    ensures
        pixels@.len() != width * height * 4 ==> r is None,
        pixels@.len() == width * height * 4 ==> match png_rgba(width, height, pixels@) {
            Some(png) => r matches Some(u) && u@ == data_url("image/png"@, png),
            None => r is None,
        },
{
    let (w, h): (u128, u128) = (width as u128, height as u128);
    assert(w * h <= 0xffff_ffff * 0xffff_ffff) by (nonlinear_arith)
        requires
            w <= 0xffff_ffff,
            h <= 0xffff_ffff,
    ;
    let need: u128 = w * h * 4;
    if pixels.len() as u128 != need {
        return None;
    }
    match encode_png(width, height, pixels) {
        Some(png) => Some(data_url_of("image/png", &png)),
        None => None,
    }
}

} // verus!
