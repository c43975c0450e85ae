use vstd::prelude::*;
use image::ImageEncoder;
use crate::models::ScreenshotBlob;

verus! {

/// The 8-byte signature that starts every PNG file.
pub open spec fn png_signature() -> Seq<u8> {
    seq![137u8, 80u8, 78u8, 71u8, 13u8, 10u8, 26u8, 10u8]
}

pub open spec fn has_png_signature(b: Seq<u8>) -> bool {
    b.len() >= 8 && b.take(8) == png_signature()
}

/// Whether `bytes` starts with the PNG signature.
pub fn is_png(bytes: &Vec<u8>) -> (r: bool)
    ensures
        r == has_png_signature(bytes@),
{
    let sig: [u8; 8] = [137, 80, 78, 71, 13, 10, 26, 10];
    if bytes.len() < 8 {
        return false;
    }
    let mut i: usize = 0;
    while i < 8
        invariant
            bytes@.len() >= 8,
            i <= 8,
            sig@ == png_signature(),
            forall|k: int| 0 <= k < i ==> bytes@[k] == png_signature()[k],
        decreases 8 - i,
    {
        if bytes[i] != sig[i] {
            assert(bytes@.take(8)[i as int] != png_signature()[i as int]);
            return false;
        }
        i = i + 1;
    }
    assert(bytes@.take(8) =~= png_signature());
    true
}

/// How the samples of an image buffer are laid out: three or four bytes per pixel.
#[derive(Clone, Copy, Debug, PartialEq, Eq, Structural)]
pub enum PixelLayout {
    Rgb8,
    Rgba8,
}

pub open spec fn bytes_per_pixel(layout: PixelLayout) -> int {
    match layout {
        PixelLayout::Rgb8 => 3,
        PixelLayout::Rgba8 => 4,
    }
}

/// The image that `image::load_from_memory` decodes from `b`, as width, height
/// and RGBA samples; `None` where it cannot decode `b`.
pub uninterp spec fn rgba_decoding(b: Seq<u8>) -> Option<(u32, u32, Seq<u8>)>;

/// The PNG file that image's PNG encoder writes for the given samples; `None`
/// where it reports an error.
pub uninterp spec fn png_encoding(width: u32, height: u32, layout: PixelLayout, pixels: Seq<u8>) -> Option<Seq<u8>>;

/// Relies on image::load_from_memory: decodes an image of any format that it
/// recognises; the result is converted to RGBA samples.
#[verifier::external_body]
fn decode_rgba(bytes: &Vec<u8>) -> (r: Option<(u32, u32, Vec<u8>)>)
    ensures
        match r {
            Some((w, h, p)) => rgba_decoding(bytes@) == Some((w, h, p@)),
            None => rgba_decoding(bytes@) is None,
        },
{
    match image::load_from_memory(bytes.as_slice()) {
        Ok(img) => {
            let rgba = img.into_rgba8();
            Some((rgba.width(), rgba.height(), rgba.into_raw()))
        },
        Err(_) => None,
    }
}

/// Relies on image::codecs::png::PngEncoder::write_image: the PNG signature is
/// written before anything else; an error where encoding fails.
#[verifier::external_body]
pub(crate) fn encode_png(width: u32, height: u32, layout: PixelLayout, pixels: &Vec<u8>) -> (r: Option<Vec<u8>>)
    requires
        pixels@.len() == bytes_per_pixel(layout) * (width * height),
    ensures
        match r {
            Some(v) => png_encoding(width, height, layout, pixels@) == Some(v@) && has_png_signature(v@),
            None => png_encoding(width, height, layout, pixels@) is None,
        },
{
    let color = match layout {
        PixelLayout::Rgb8 => image::ExtendedColorType::Rgb8,
        PixelLayout::Rgba8 => image::ExtendedColorType::Rgba8,
    };
    let mut out: Vec<u8> = Vec::new();
    match image::codecs::png::PngEncoder::new(&mut out).write_image(pixels.as_slice(), width, height, color) {
        Ok(()) => Some(out),
        Err(_) => None,
    }
}

/// Decoding `b` and encoding the decoded image as PNG; `None` where either
/// fails, or the decoded samples do not fill the image exactly.
pub open spec fn png_reencoding(b: Seq<u8>) -> Option<Seq<u8>> {
    match rgba_decoding(b) {
        Some((w, h, p)) => if p.len() == 4 * (w * h) {
            png_encoding(w, h, PixelLayout::Rgba8, p)
        } else {
            None
        },
        None => None,
    }
}

/// Decodes `bytes` and encodes the image as PNG.
pub fn reencode_png(bytes: &Vec<u8>) -> (r: Option<Vec<u8>>)
    ensures
        match r {
            Some(v) => png_reencoding(bytes@) == Some(v@),
            None => png_reencoding(bytes@) is None,
        },
        r matches Some(v) ==> has_png_signature(v@),
{
    match decode_rgba(bytes) {
        Some((w, h, p)) => {
            assert((w as int) * (h as int) <= 0xffff_ffff_ffff_ffff) by (nonlinear_arith)
                requires
                    w <= 0xffff_ffff,
                    h <= 0xffff_ffff,
            ;
            if (p.len() as u128) == 4 * ((w as u128) * (h as u128)) {
                encode_png(w, h, PixelLayout::Rgba8, &p)
            } else {
                None
            }
        },
        None => None,
    }
}

/// What the read path returns for stored bytes `bytes`, given the outcome
/// `reencoded` of decoding them and encoding the image as PNG.
pub open spec fn png_or_original(bytes: Seq<u8>, reencoded: Option<Seq<u8>>) -> Seq<u8> {
    if has_png_signature(bytes) {
        bytes
    } else {
        match reencoded {
            Some(out) => if out.len() > 0 {
                out
            } else {
                bytes
            },
            None => bytes,
        }
    }
}

/// Chooses the bytes to return, given the outcome of re-encoding as PNG.
pub fn choose_png(bytes: Vec<u8>, reencoded: Option<Vec<u8>>) -> (r: Vec<u8>)
    ensures
        r@ == png_or_original(
            bytes@,
            match reencoded {
                Some(v) => Some(v@),
                None => None,
            },
        ),
{
    if is_png(&bytes) {
        return bytes;
    }
    match reencoded {
        Some(out) => if out.len() > 0 {
            out
        } else {
            bytes
        },
        None => bytes,
    }
}

/// Best-effort normalization of stored image bytes to PNG: bytes that already
/// carry the PNG signature are returned as they are; others are decoded and
/// re-encoded as PNG, and returned unchanged where that fails.
pub fn normalize_png(bytes: Vec<u8>) -> (r: Vec<u8>)
    ensures
        r@ == png_or_original(bytes@, png_reencoding(bytes@)),
        has_png_signature(bytes@) ==> r@ == bytes@,
        r@ == bytes@ || has_png_signature(r@),
{
    if is_png(&bytes) {
        return bytes;
    }
    let reencoded = reencode_png(&bytes);
    choose_png(bytes, reencoded)
}

/// The screenshot with its image bytes normalized to PNG as `normalize_png` does.
pub fn normalize_screenshot(s: ScreenshotBlob) -> (r: ScreenshotBlob)
    ensures
        r.id == s.id && r.app_id == s.app_id && r.created_at_sec == s.created_at_sec,
        r.png@ == png_or_original(s.png@, png_reencoding(s.png@)),
        has_png_signature(s.png@) ==> r.png@ == s.png@,
        r.png@ == s.png@ || has_png_signature(r.png@),
{
    let ScreenshotBlob { id, app_id, created_at_sec, png } = s;
    ScreenshotBlob { id, app_id, created_at_sec, png: normalize_png(png) }
}

/// Stored bytes that lack the PNG signature come back with it when they could be
/// re-encoded as PNG, and byte for byte unchanged when they could not; `reencoded`
/// is the outcome of the re-encoding, as `reencode_png` reports it.
pub proof fn lemma_read_path_normalizes(bytes: Seq<u8>, reencoded: Option<Seq<u8>>)
    requires
        reencoded == png_reencoding(bytes),
        reencoded matches Some(out) ==> has_png_signature(out),
    ensures
        reencoded is Some ==> has_png_signature(png_or_original(bytes, reencoded)),
        reencoded is None ==> png_or_original(bytes, reencoded) == bytes,
        has_png_signature(bytes) ==> png_or_original(bytes, reencoded) == bytes,
{
}

} // verus!
