use intime::frame::{construct_image, RgbFrame};
use intime::imaging::{is_png, normalize_png, normalize_screenshot, reencode_png};
use intime::models::ScreenshotBlob;

const SIG: [u8; 8] = [137, 80, 78, 71, 13, 10, 26, 10];

fn bmp_bytes() -> Vec<u8> {
    let img = image::RgbImage::from_pixel(2, 2, image::Rgb([200, 10, 30]));
    let mut out = Vec::new();
    image::DynamicImage::ImageRgb8(img)
        .write_to(&mut std::io::Cursor::new(&mut out), image::ImageFormat::Bmp)
        .unwrap();
    out
}

#[test]
fn png_signature_detection() {
    assert!(is_png(&SIG.to_vec()));
    let mut longer = SIG.to_vec();
    longer.extend_from_slice(&[1, 2, 3]);
    assert!(is_png(&longer));
    assert!(!is_png(&SIG[..7].to_vec()));
    assert!(!is_png(&Vec::new()));
    let mut wrong = SIG.to_vec();
    wrong[3] = 0;
    assert!(!is_png(&wrong));
}

#[test]
fn decodable_blob_becomes_png() {
    let bmp = bmp_bytes();
    assert!(!is_png(&bmp));
    let out = normalize_png(bmp.clone());
    assert_ne!(out, bmp);
    assert_eq!(&out[..8], &SIG);
    let back = image::load_from_memory(&out).unwrap().to_rgb8();
    assert_eq!(back.get_pixel(1, 1).0, [200, 10, 30]);
}

#[test]
fn undecodable_blob_is_unchanged() {
    let junk = vec![1u8, 2, 3, 4, 5];
    assert_eq!(normalize_png(junk.clone()), junk);
    assert_eq!(normalize_png(Vec::new()), Vec::<u8>::new());
}

#[test]
fn png_blob_is_unchanged() {
    let mut fake = SIG.to_vec();
    fake.extend_from_slice(&[9, 9, 9]);
    assert_eq!(normalize_png(fake.clone()), fake);
}

#[test]
fn screenshot_normalization_keeps_identity() {
    let s = ScreenshotBlob { id: 4, app_id: 2, created_at_sec: 77, png: bmp_bytes() };
    let r = normalize_screenshot(s);
    assert_eq!((r.id, r.app_id, r.created_at_sec), (4, 2, 77));
    assert_eq!(&r.png[..8], &SIG);
}

#[test]
fn bgra_is_converted_to_rgb() {
    let bgra = vec![1u8, 2, 3, 255, 4, 5, 6, 255];
    let f = construct_image(2, 1, &bgra).unwrap();
    assert_eq!((f.width, f.height), (2, 1));
    assert_eq!(f.pixels, vec![3, 2, 1, 6, 5, 4]);
}

#[test]
fn bgra_extra_bytes_are_ignored() {
    let bgra = vec![1u8, 2, 3, 0, 4, 5, 6, 0, 7, 8, 9, 0];
    let f = construct_image(1, 2, &bgra).unwrap();
    assert_eq!(f.pixels, vec![3, 2, 1, 6, 5, 4]);
}

#[test]
fn bgra_rejects_bad_sizes() {
    let bgra = vec![0u8; 8];
    assert!(construct_image(-1, 1, &bgra).is_none());
    assert!(construct_image(1, -2, &bgra).is_none());
    assert!(construct_image(3, 1, &bgra).is_none());
    assert!(construct_image(0, 0, &bgra).is_some());
}

/// A 4 by 3 frame, black but for the pixels listed.
fn frame_with(lit: &[(u32, u32, [u8; 3])]) -> RgbFrame {
    let (w, h) = (4u32, 3u32);
    let mut pixels = vec![0u8; (3 * w * h) as usize];
    for &(x, y, c) in lit {
        let i = (3 * (y * w + x)) as usize;
        pixels[i..i + 3].copy_from_slice(&c);
    }
    RgbFrame { width: w, height: h, pixels }
}

#[test]
fn black_border_is_removed() {
    let f = frame_with(&[(1, 1, [9, 8, 7]), (2, 1, [1, 0, 0])]);
    assert_eq!(f.black_border_bounds(), (1, 1, 3, 2));
    let c = f.remove_black_borders();
    assert_eq!((c.width, c.height), (2, 1));
    assert_eq!(c.pixels, vec![9, 8, 7, 1, 0, 0]);
}

#[test]
fn border_keeps_inner_black_pixels() {
    let f = frame_with(&[(0, 0, [5, 5, 5]), (3, 2, [0, 0, 6])]);
    assert_eq!(f.black_border_bounds(), (0, 0, 4, 3));
    let c = f.remove_black_borders();
    assert_eq!(c.pixels, f.pixels);
}

#[test]
fn all_black_frame_is_kept_whole() {
    let f = frame_with(&[]);
    assert_eq!(f.black_border_bounds(), (0, 0, 4, 3));
    let c = f.remove_black_borders();
    assert_eq!((c.width, c.height), (4, 3));
}

#[test]
fn crop_copies_the_rectangle() {
    let f = frame_with(&[(2, 2, [1, 2, 3])]);
    let c = f.crop(2, 1, 4, 3);
    assert_eq!((c.width, c.height), (2, 2));
    assert_eq!(c.pixels, vec![0, 0, 0, 0, 0, 0, 1, 2, 3, 0, 0, 0]);
}

#[test]
fn frame_encodes_as_png() {
    let f = frame_with(&[(1, 1, [250, 0, 0])]);
    let png = f.to_png().unwrap();
    assert_eq!(&png[..8], &SIG);
    let back = image::load_from_memory(&png).unwrap().to_rgb8();
    assert_eq!(back.dimensions(), (4, 3));
    assert_eq!(back.get_pixel(1, 1).0, [250, 0, 0]);
}

#[test]
fn reencoding_outcomes() {
    let out = reencode_png(&bmp_bytes()).unwrap();
    assert_eq!(&out[..8], &SIG);
    assert_eq!(normalize_png(bmp_bytes()), out);
    assert!(reencode_png(&vec![7u8, 7, 7]).is_none());
}
