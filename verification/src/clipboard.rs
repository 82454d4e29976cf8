//! Clipboard contents as the desktop pastes them: text with normalized line
//! endings, images as base64-encoded PNG.
use vstd::prelude::*;
use base64::Engine;
use image::ImageEncoder;
use crate::text::{chars_of, string_from_chars};

verus! {

broadcast use vstd::string::group_string_axioms;

/// The text with every CRLF, and then every remaining CR, turned into LF.
pub open spec fn normalized_newlines(s: Seq<char>) -> Seq<char>
    decreases s.len(),
{
    if s.len() == 0 {
        Seq::empty()
    } else if s[0] == '\r' && s.len() > 1 && s[1] == '\n' {
        seq!['\n'] + normalized_newlines(s.skip(2))
    } else if s[0] == '\r' {
        seq!['\n'] + normalized_newlines(s.skip(1))
    } else {
        seq![s[0]] + normalized_newlines(s.skip(1))
    }
}

/// `normalize_clipboard_text`: pasted text with Windows and old Mac line
/// endings turned into `\n`.
pub fn normalize_clipboard_text(text: &str) -> (r: String)
    ensures
        r@ == normalized_newlines(text@),
{
    let s = chars_of(text);
    let mut out: Vec<char> = Vec::new();
    let mut i: usize = 0;
    assert(s@.skip(0) =~= s@);
    assert(out@ + normalized_newlines(s@) =~= normalized_newlines(s@));
    while i < s.len()
        invariant
            i <= s.len(),
            out@ + normalized_newlines(s@.skip(i as int)) == normalized_newlines(s@),
        decreases s.len() - i,
    {
        let ghost rest = s@.skip(i as int);
        assert(rest[0] == s@[i as int]);
        if s[i] == '\r' && i + 1 < s.len() && s[i + 1] == '\n' {
            assert(rest[1] == s@[i + 1int]);
            assert(rest.skip(2) =~= s@.skip(i + 2int));
            out.push('\n');
            i = i + 2;
        } else if s[i] == '\r' {
            assert(rest.skip(1) =~= s@.skip(i + 1int));
            out.push('\n');
            i = i + 1;
        } else {
            assert(rest.skip(1) =~= s@.skip(i + 1int));
            out.push(s[i]);
            i = i + 1;
        }
        assert(out@ + normalized_newlines(s@.skip(i as int)) =~= normalized_newlines(s@));
    }
    assert(s@.skip(s.len() as int) =~= Seq::<char>::empty());
    assert(out@ + Seq::<char>::empty() =~= out@);
    string_from_chars(out.as_slice())
}

/// Normalizing twice changes nothing more: normalized text holds no CR.
pub proof fn lemma_normalized_has_no_cr(s: Seq<char>)
    ensures
        !normalized_newlines(s).contains('\r'),
        normalized_newlines(normalized_newlines(s)) == normalized_newlines(s),
    decreases s.len(),
{
    if s.len() > 0 {
        let rest = if s[0] == '\r' && s.len() > 1 && s[1] == '\n' { s.skip(2) } else { s.skip(1) };
        lemma_normalized_has_no_cr(rest);
        lemma_no_cr_fixed(normalized_newlines(s));
    }
}

proof fn lemma_no_cr_fixed(t: Seq<char>)
    ensures
        !t.contains('\r') ==> normalized_newlines(t) == t,
    decreases t.len(),
{
    if t.len() > 0 && !t.contains('\r') {
        assert(!t.skip(1).contains('\r')) by {
            if t.skip(1).contains('\r') {
                let k = choose|k: int| 0 <= k < t.skip(1).len() && t.skip(1)[k] == '\r';
                assert(t[k + 1] == '\r');
            }
        }
        lemma_no_cr_fixed(t.skip(1));
        assert(t[0] != '\r');
        assert(seq![t[0]] + t.skip(1) =~= t);
    }
}

// ---------------------------------------------------------------------------
// Images
// ---------------------------------------------------------------------------

/// `image::ImageError`, the error the PNG encoder reports; opaque here.
#[verifier::external_type_specification]
#[verifier::external_body]
pub struct ExImageError(image::ImageError);

/// The PNG file the `image` crate writes for an RGBA8 image with these pixels.
pub uninterp spec fn png_rgba8(width: u32, height: u32, pixels: Seq<u8>) -> Seq<u8>;

/// Whether the `image` crate's PNG encoder accepts an RGBA8 image with these
/// dimensions and pixels (it refuses, among others, an empty image).
pub uninterp spec fn png_rgba8_encodes(width: u32, height: u32, pixels: Seq<u8>) -> bool;

/// The standard base64 alphabet: `A`-`Z`, `a`-`z`, `0`-`9`, `+`, `/`.
pub open spec fn base64_digit(v: int) -> char {
    if v < 26 {
        (65 + v) as char
    } else if v < 52 {
        (97 + (v - 26)) as char
    } else if v < 62 {
        (48 + (v - 52)) as char
    } else if v == 62 {
        '+'
    } else {
        '/'
    }
}

/// Standard padded base64: every three bytes become four digits of six bits
/// each, most significant first; a last group of one or two bytes is padded
/// with zero bits and filled up with `=`.
pub open spec fn base64_standard(bytes: Seq<u8>) -> Seq<char>
    decreases bytes.len(),
{
    if bytes.len() == 0 {
        Seq::empty()
    } else if bytes.len() == 1 {
        let b0 = bytes[0] as int;
        seq![base64_digit(b0 / 4), base64_digit((b0 % 4) * 16), '=', '=']
    } else if bytes.len() == 2 {
        let b0 = bytes[0] as int;
        let b1 = bytes[1] as int;
        seq![
            base64_digit(b0 / 4),
            base64_digit((b0 % 4) * 16 + b1 / 16),
            base64_digit((b1 % 16) * 4),
            '=',
        ]
    } else {
        let b0 = bytes[0] as int;
        let b1 = bytes[1] as int;
        let b2 = bytes[2] as int;
        seq![
            base64_digit(b0 / 4),
            base64_digit((b0 % 4) * 16 + b1 / 16),
            base64_digit((b1 % 16) * 4 + b2 / 64),
            base64_digit(b2 % 64),
        ] + base64_standard(bytes.skip(3))
    }
}

/// The length of padded base64 text for `n` bytes.
pub open spec fn base64_padded_len(n: nat) -> nat {
    4 * ((n + 2) / 3)
}

/// `image::codecs::png::PngEncoder::write_image` for an RGBA8 buffer: the
/// encoder `DynamicImage::write_to` uses for `ImageFormat::Png`. The encoder
/// panics unless the buffer holds exactly `4 * width * height` bytes; whether
/// it succeeds, and what it writes, depend on the pixels and dimensions alone.
#[verifier::external_body]
fn encode_rgba8_png(width: u32, height: u32, pixels: &[u8]) -> (r: Result<Vec<u8>, image::ImageError>)
    requires
        pixels@.len() == 4 * width * height,
    ensures
        r is Ok <==> png_rgba8_encodes(width, height, pixels@),
        r matches Ok(png) ==> png@ == png_rgba8(width, height, pixels@),
{
    let mut png: Vec<u8> = Vec::new();
    image::codecs::png::PngEncoder::new(&mut png)
        .write_image(pixels, width, height, image::ExtendedColorType::Rgba8)
        .map(|()| png)
}

/// `base64::engine::general_purpose::STANDARD.encode`: padded standard base64.
/// It panics when the encoded length overflows `usize`; its output is the
/// padded standard base64 text of the bytes.
#[verifier::external_body]
fn base64_standard_encode(bytes: &[u8]) -> (r: String)
    requires
        base64_padded_len(bytes@.len()) <= usize::MAX,
    ensures
        r@ == base64_standard(bytes@),
{
    base64::engine::general_purpose::STANDARD.encode(bytes)
}

/// Why a clipboard image could not be attached.
#[derive(Clone, Copy, Debug, PartialEq, Eq, Structural)]
pub enum ClipboardImageError {
    TooWide,
    TooTall,
    UnexpectedDimensions,
    EncodeFailed,
}

impl ClipboardImageError {
    /// The message shown for the error.
    pub fn message(&self) -> (r: &'static str)
        ensures
            r@ == match self {
                ClipboardImageError::TooWide => "clipboard image is too wide"@,
                ClipboardImageError::TooTall => "clipboard image is too tall"@,
                ClipboardImageError::UnexpectedDimensions => "clipboard image data had unexpected dimensions"@,
                ClipboardImageError::EncodeFailed => "failed to encode clipboard image as png"@,
            },
    {
        match self {
            ClipboardImageError::TooWide => "clipboard image is too wide",
            ClipboardImageError::TooTall => "clipboard image is too tall",
            ClipboardImageError::UnexpectedDimensions => "clipboard image data had unexpected dimensions",
            ClipboardImageError::EncodeFailed => "failed to encode clipboard image as png",
        }
    }
}

/// A clipboard image ready to attach: its media type and base64 data.
#[derive(Clone, Debug)]
pub struct ClipboardImagePng {
    pub media_type: String,
    pub base64_data: String,
}

/// An RGBA8 buffer of `len` bytes holds a `width` x `height` image, as
/// `ImageBuffer::from_raw` requires: the byte count `4 * width * height` fits
/// in `usize` and the buffer is at least that long.
pub open spec fn rgba_buffer_fits(width: nat, height: nat, len: nat) -> bool {
    4 * width <= usize::MAX && 4 * width * height <= usize::MAX && 4 * width * height <= len
}

fn rgba_buffer_fits_exec(width: u32, height: u32, len: usize) -> (r: bool)
    ensures
        r == rgba_buffer_fits(width as nat, height as nat, len as nat),
{
    let w = width as u128;
    let h = height as u128;
    assert(4 * w * h <= 4 * 0xffff_ffffu128 * 0xffff_ffffu128) by (nonlinear_arith)
        requires
            w <= 0xffff_ffff,
            h <= 0xffff_ffff,
    ;
    let row: u128 = 4 * w;
    let total: u128 = row * h;
    row <= usize::MAX as u128 && total <= usize::MAX as u128 && total <= len as u128
}

/// The payload of a PNG the encoder produced.
pub fn clipboard_png_payload(png: &[u8]) -> (r: ClipboardImagePng)
    requires
        base64_padded_len(png@.len()) <= usize::MAX,
    ensures
        r.media_type@ == "image/png"@,
        r.base64_data@ == base64_standard(png@),
{
    ClipboardImagePng {
        media_type: "image/png".to_string(),
        base64_data: base64_standard_encode(png),
    }
}

/// `clipboard_image_png_base64`: a `width` x `height` RGBA8 clipboard image as
/// base64-encoded PNG. Dimensions beyond `u32` and a buffer too short for the
/// dimensions are refused; encoding failures are reported.
pub fn clipboard_image_png_base64(width: usize, height: usize, rgba: Vec<u8>) -> (r: Result<
    ClipboardImagePng,
    ClipboardImageError,
>)
    requires
        width <= u32::MAX && height <= u32::MAX && 4 * width * height <= usize::MAX ==> rgba@.len()
            <= 4 * width * height,
    ensures
        width > u32::MAX ==> r == Err::<ClipboardImagePng, ClipboardImageError>(
            ClipboardImageError::TooWide,
        ),
        width <= u32::MAX && height > u32::MAX ==> r == Err::<ClipboardImagePng, ClipboardImageError>(
            ClipboardImageError::TooTall,
        ),
        width <= u32::MAX && height <= u32::MAX && !rgba_buffer_fits(
            width as nat,
            height as nat,
            rgba@.len(),
        ) ==> r == Err::<ClipboardImagePng, ClipboardImageError>(
            ClipboardImageError::UnexpectedDimensions,
        ),
        width <= u32::MAX && height <= u32::MAX && rgba_buffer_fits(
            width as nat,
            height as nat,
            rgba@.len(),
        ) ==> match r {
            Ok(img) => img.media_type@ == "image/png"@ && img.base64_data@ == base64_standard(
                png_rgba8(width as u32, height as u32, rgba@),
            ),
            Err(e) => e == ClipboardImageError::EncodeFailed,
        },
        width <= u32::MAX && height <= u32::MAX && rgba_buffer_fits(
            width as nat,
            height as nat,
            rgba@.len(),
        ) ==> (r is Ok <==> png_rgba8_encodes(width as u32, height as u32, rgba@)
            && base64_padded_len(png_rgba8(width as u32, height as u32, rgba@).len())
            <= usize::MAX),
{
    if width > u32::MAX as usize {
        return Err(ClipboardImageError::TooWide);
    }
    if height > u32::MAX as usize {
        return Err(ClipboardImageError::TooTall);
    }
    let w = width as u32;
    let h = height as u32;
    if !rgba_buffer_fits_exec(w, h, rgba.len()) {
        return Err(ClipboardImageError::UnexpectedDimensions);
    }
    match encode_rgba8_png(w, h, rgba.as_slice()) {
        Ok(png) => {
            // Base64 text longer than memory can address; no real PNG gets here.
            let groups: usize = png.len() / 3 + if png.len() % 3 > 0 {
                1
            } else {
                0
            };
            proof {
                let n = png@.len() as int;
                assert(groups == (n + 2) / 3) by (nonlinear_arith)
                    requires
                        groups == n / 3 + if n % 3 > 0 { 1int } else { 0int },
                        n >= 0,
                ;
            }
            if groups > usize::MAX / 4 {
                proof {
                    assert(4 * groups > usize::MAX) by (nonlinear_arith)
                        requires
                            groups > usize::MAX / 4,
                    ;
                }
                return Err(ClipboardImageError::EncodeFailed);
            }
            proof {
                assert(4 * groups <= usize::MAX) by (nonlinear_arith)
                    requires
                        groups <= usize::MAX / 4,
                ;
            }
            Ok(clipboard_png_payload(png.as_slice()))
        },
        Err(_) => Err(ClipboardImageError::EncodeFailed),
    }
}

} // verus!
