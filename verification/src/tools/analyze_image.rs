//! The `analyze_image` tool: telling URLs from paths, recognizing SVG
//! images, and preparing a local image for the model (its MIME type and
//! base64 text).
use base64::Engine;
use vstd::prelude::*;
use vstd::string::*;
use vstd::utf8::*;

use crate::text::{
    chars_contains,
    spec_ascii_lowercase,
    spec_contains,
    spec_starts_with,
    str_starts_with,
    to_chars,
};

verus! {

broadcast use vstd::string::group_string_axioms, vstd::utf8::group_utf8_lib;

/// The arguments of `analyze_image`.
#[derive(Debug)]
pub struct AnalyzeImageArgs {
    pub image: String,
    pub prompt: String,
}

/// The `analyze_image` tool.
#[derive(Debug)]
pub struct AnalyzeImage;

/// The image formats that the tool names; any other is `Other`.
#[derive(Clone, Copy, Debug, PartialEq, Eq, Structural)]
pub enum ImageFormatKind {
    Png,
    Jpeg,
    Gif,
    WebP,
    Bmp,
    Other,
}

/// `bytes` start with `prefix`.
pub open spec fn starts_with_bytes(bytes: Seq<u8>, prefix: Seq<u8>) -> bool {
    prefix.len() <= bytes.len() && bytes.subrange(0, prefix.len() as int) == prefix
}

/// The format that the magic bytes at the start of `bytes` show, among the
/// formats the tool names (`Other` for any other, and for none): PNG's
/// eight-byte signature, JPEG's `FF D8 FF`, `GIF89a` or `GIF87a`, `RIFF`
/// then any four bytes then `WEBP`, or `BM`.
pub open spec fn guessed_image_format(bytes: Seq<u8>) -> ImageFormatKind {
    if starts_with_bytes(bytes, seq![0x89u8, 0x50u8, 0x4eu8, 0x47u8, 0x0du8, 0x0au8, 0x1au8, 0x0au8]) {
        ImageFormatKind::Png
    } else if starts_with_bytes(bytes, seq![0xffu8, 0xd8u8, 0xffu8]) {
        ImageFormatKind::Jpeg
    } else if starts_with_bytes(bytes, seq![0x47u8, 0x49u8, 0x46u8, 0x38u8, 0x39u8, 0x61u8])
        || starts_with_bytes(bytes, seq![0x47u8, 0x49u8, 0x46u8, 0x38u8, 0x37u8, 0x61u8]) {
        ImageFormatKind::Gif
    } else if bytes.len() >= 12 && bytes.subrange(0, 4) == seq![0x52u8, 0x49u8, 0x46u8, 0x46u8]
        && bytes.subrange(8, 12) == seq![0x57u8, 0x45u8, 0x42u8, 0x50u8] {
        ImageFormatKind::WebP
    } else if starts_with_bytes(bytes, seq![0x42u8, 0x4du8]) {
        ImageFormatKind::Bmp
    } else {
        ImageFormatKind::Other
    }
}

/// What `base64::engine::general_purpose::STANDARD.encode` returns for
/// `bytes`: their standard base64 text, padded.
pub uninterp spec fn standard_base64(bytes: Seq<u8>) -> Seq<char>;

/// The image names a URL: it starts with `http://` or `https://`.
pub open spec fn spec_is_url(s: Seq<char>) -> bool {
    spec_starts_with(s, "http://"@) || spec_starts_with(s, "https://"@)
}

/// Whether `s` names a URL rather than a file.
pub fn is_url(s: &str) -> (r: bool)
    ensures
        r == spec_is_url(s@),
{
    str_starts_with(s, "http://") || str_starts_with(s, "https://")
}

/// The bytes are UTF-8 text that holds `<svg`, ignoring ASCII case.
pub open spec fn spec_is_svg(bytes: Seq<u8>) -> bool {
    valid_utf8(bytes) && spec_contains(spec_ascii_lowercase(decode_utf8(bytes)), "<svg"@)
}

/// Calls `std::str::from_utf8`: the bytes as text when they are valid
/// UTF-8, else `None`.
#[verifier::external_body]
pub(crate) fn utf8_text(bytes: &[u8]) -> (r: Option<&str>)
    ensures
        match r {
            Some(s) => valid_utf8(bytes@) && s.spec_bytes() == bytes@,
            None => !valid_utf8(bytes@),
        },
{
    std::str::from_utf8(bytes).ok()
}

/// `s` with ASCII letters in lower case.
fn ascii_lowercase(v: &Vec<char>) -> (r: Vec<char>)
    ensures
        r@ == spec_ascii_lowercase(v@),
{
    let mut out: Vec<char> = Vec::new();
    let mut i: usize = 0;
    while i < v.len()
        invariant
            i <= v@.len(),
            out@ == spec_ascii_lowercase(v@).subrange(0, i as int),
        decreases v@.len() - i,
    {
        let c = v[i];
        let l = if 'A' <= c && c <= 'Z' {
            (((c as u32) + 32) as u8) as char
        } else {
            c
        };
        proof {
            if 'A' <= c && c <= 'Z' {
                assert((((c as u32) + 32) as u8) as char == ((c as u32) + 32) as char);
            }
        }
        out.push(l);
        assert(out@ =~= spec_ascii_lowercase(v@).subrange(0, i + 1));
        i += 1;
    }
    assert(spec_ascii_lowercase(v@).subrange(0, v@.len() as int) =~= spec_ascii_lowercase(v@));
    out
}

/// Whether the bytes are an SVG image: UTF-8 text holding `<svg` in any
/// ASCII case.
pub fn is_svg(bytes: &[u8]) -> (r: bool)
    ensures
        r == spec_is_svg(bytes@),
{
    match utf8_text(bytes) {
        None => false,
        Some(text) => {
            proof {
                decode_utf8_encode_utf8(bytes@);
                encode_utf8_decode_utf8(text@);
            }
            let v = to_chars(text);
            let lower = ascii_lowercase(&v);
            let needle = to_chars("<svg");
            chars_contains(&lower, &needle)
        },
    }
}

/// The bytes to send: the rasterized image when the bytes are an SVG
/// image and rasterizing it succeeded (`rasterized`), else the bytes as they are.
pub fn image_payload(bytes: Vec<u8>, rasterized: Option<Vec<u8>>) -> (r: Vec<u8>)
    ensures
        r@ == match rasterized {
            Some(png) => if spec_is_svg(bytes@) {
                png@
            } else {
                bytes@
            },
            None => bytes@,
        },
{
    if is_svg(bytes.as_slice()) {
        match rasterized {
            Some(png) => png,
            None => bytes,
        }
    } else {
        bytes
    }
}

/// Calls `image::guess_format` and names the formats the tool knows. The
/// crate checks the buffer against its table of magic bytes in order and
/// answers the first format whose signature matches; the signatures of the
/// five named formats begin with bytes no earlier entry of the table begins
/// with, so the answer is `guessed_image_format`.
#[verifier::external_body]
fn guess_format(bytes: &[u8]) -> (r: ImageFormatKind)
    ensures
        r == guessed_image_format(bytes@),
{
    match image::guess_format(bytes) {
        Ok(image::ImageFormat::Png) => ImageFormatKind::Png,
        Ok(image::ImageFormat::Jpeg) => ImageFormatKind::Jpeg,
        Ok(image::ImageFormat::Gif) => ImageFormatKind::Gif,
        Ok(image::ImageFormat::WebP) => ImageFormatKind::WebP,
        Ok(image::ImageFormat::Bmp) => ImageFormatKind::Bmp,
        _ => ImageFormatKind::Other,
    }
}

/// The MIME type sent for a format: PNG for any the tool does not name.
pub open spec fn spec_mime(f: ImageFormatKind) -> Seq<char> {
    match f {
        ImageFormatKind::Png => "image/png"@,
        ImageFormatKind::Jpeg => "image/jpeg"@,
        ImageFormatKind::Gif => "image/gif"@,
        ImageFormatKind::WebP => "image/webp"@,
        ImageFormatKind::Bmp => "image/bmp"@,
        ImageFormatKind::Other => "image/png"@,
    }
}

/// The MIME type of a format.
pub fn mime_of(f: ImageFormatKind) -> (r: &'static str)
    ensures
        r@ == spec_mime(f),
{
    match f {
        ImageFormatKind::Png => "image/png",
        ImageFormatKind::Jpeg => "image/jpeg",
        ImageFormatKind::Gif => "image/gif",
        ImageFormatKind::WebP => "image/webp",
        ImageFormatKind::Bmp => "image/bmp",
        ImageFormatKind::Other => "image/png",
    }
}

/// Calls `STANDARD.encode` of the `base64` crate.
#[verifier::external_body]
fn encode_base64(bytes: &[u8]) -> (r: String)
    ensures
        r@ == standard_base64(bytes@),
{
    base64::engine::general_purpose::STANDARD.encode(bytes)
}

/// A local image as the model receives it.
#[derive(Debug)]
pub struct ImageData {
    /// Its MIME type.
    pub mime: &'static str,
    /// Its bytes in base64.
    pub data: String,
}

/// The image data of `bytes`: the MIME type of the format their magic
/// bytes show, and their base64 text.
pub fn encode_image(bytes: &[u8]) -> (r: ImageData)
    ensures
        r.mime@ == spec_mime(guessed_image_format(bytes@)),
        r.data@ == standard_base64(bytes@),
{
    let f = guess_format(bytes);
    ImageData { mime: mime_of(f), data: encode_base64(bytes) }
}

} // verus!
