use clipwallet::clipboard::{capture, image_data, sync_write, write_for, ClipboardOffer, ClipboardWrite, RawImage};
use clipwallet::mime::{classify, detect_bytes, normalise_image, str_starts_with, DetectedType};
use clipwallet::types::{ClipData, SpilledKind};
use std::io::Cursor;

const PNG_MAGIC: [u8; 8] = [0x89, 0x50, 0x4E, 0x47, 0x0D, 0x0A, 0x1A, 0x0A];

fn bmp_bytes() -> Vec<u8> {
    let img = image::RgbImage::from_pixel(2, 3, image::Rgb([10, 20, 30]));
    let mut out = Vec::new();
    image::DynamicImage::ImageRgb8(img)
        .write_to(&mut Cursor::new(&mut out), image::ImageOutputFormat::Bmp)
        .unwrap();
    out
}

#[test]
fn detects_images_rtf_text_and_binary() {
    let mut png = PNG_MAGIC.to_vec();
    png.extend_from_slice(&[0, 0, 0, 13, b'I', b'H', b'D', b'R']);
    assert_eq!(detect_bytes(&png), DetectedType::ImagePng);
    assert_eq!(detect_bytes(&[0xFF, 0xD8, 0xFF, 0xAA]), DetectedType::ImageJpeg);
    assert_eq!(detect_bytes(b"GIF89a\x01\x00\x01\x00"), DetectedType::ImageOther);
    assert_eq!(detect_bytes(&bmp_bytes()), DetectedType::ImageOther);
    assert_eq!(detect_bytes(b"{\\rtf1\\ansi hello}"), DetectedType::RichText);
    assert_eq!(detect_bytes("plain text ✓".as_bytes()), DetectedType::PlainText);
    assert_eq!(detect_bytes(&[0x80, 0x81, 0x82]), DetectedType::Binary);
    assert_eq!(detect_bytes(&[]), DetectedType::PlainText);
}

#[test]
fn classification_follows_the_mime_type_first() {
    assert_eq!(classify(b"abc", Some("image/png".to_string())), DetectedType::ImagePng);
    assert_eq!(classify(b"abc", Some("image/webp".to_string())), DetectedType::ImageOther);
    assert_eq!(classify(b"abc", Some("application/pdf".to_string())), DetectedType::PlainText);
    assert_eq!(classify(b"{\\rtf", None), DetectedType::RichText);
    assert!(str_starts_with("image/x", "image/"));
    assert!(!str_starts_with("imag", "image/"));
}

#[test]
fn images_are_normalised_to_png() {
    let bmp = bmp_bytes();
    assert_ne!(bmp[..8], PNG_MAGIC);
    let png = normalise_image(&bmp).expect("a BMP decodes");
    assert_eq!(png[..8], PNG_MAGIC);
    let decoded = image::load_from_memory(&png).unwrap();
    assert_eq!((decoded.width(), decoded.height()), (2, 3));
    assert!(normalise_image(b"not an image").is_none());
}

#[test]
fn captured_image_falls_back_to_binary() {
    let bmp = bmp_bytes();
    let offer = ClipboardOffer {
        file_paths: None,
        rtf: None,
        image: Some(RawImage { bytes: bmp.clone(), width: 2, height: 3 }),
        text: Some("ignored".to_string()),
    };
    match capture(offer) {
        Some(ClipData::Image { bytes, width, height }) => {
            assert_eq!(bytes[..8], PNG_MAGIC);
            assert_eq!((width, height), (2, 3));
        }
        other => panic!("unexpected {:?}", other),
    }
    let raw = vec![1u8, 2, 3, 4];
    let offer = ClipboardOffer {
        file_paths: None,
        rtf: None,
        image: Some(RawImage { bytes: raw.clone(), width: 1, height: 1 }),
        text: None,
    };
    assert_eq!(capture(offer), Some(ClipData::Binary(raw.clone())));
    assert_eq!(image_data(raw.clone(), 1, 1, None), ClipData::Binary(raw));
}

#[test]
fn capture_prefers_paths_then_rtf_then_text() {
    let offer = ClipboardOffer {
        file_paths: Some(vec!["/tmp/a".to_string()]),
        rtf: Some(vec![1]),
        image: None,
        text: Some("t".to_string()),
    };
    assert_eq!(capture(offer), Some(ClipData::FilePath(vec!["/tmp/a".to_string()])));
    let offer = ClipboardOffer { file_paths: None, rtf: Some(vec![1]), image: None, text: Some("t".to_string()) };
    assert_eq!(capture(offer), Some(ClipData::RichText(vec![1])));
    let offer = ClipboardOffer { file_paths: None, rtf: None, image: None, text: Some("t".to_string()) };
    assert_eq!(capture(offer), Some(ClipData::PlainText("t".to_string())));
    let offer = ClipboardOffer { file_paths: None, rtf: None, image: None, text: Some(String::new()) };
    assert_eq!(capture(offer), None);
}

#[test]
fn clipboard_writes_per_variant() {
    assert!(matches!(write_for(&ClipData::PlainText("x".into())), Some(ClipboardWrite::Text(t)) if t == "x"));
    assert!(matches!(write_for(&ClipData::RichText(vec![1])), Some(ClipboardWrite::Rtf(b)) if b == vec![1]));
    assert!(matches!(
        write_for(&ClipData::FilePath(vec!["/a".into()])),
        Some(ClipboardWrite::FilePaths(p)) if p == vec!["/a".to_string()]
    ));
    // Binary that is UTF-8 text goes back as text; other binary is not written.
    assert!(matches!(write_for(&ClipData::Binary(b"hi".to_vec())), Some(ClipboardWrite::Text(t)) if t == "hi"));
    assert!(write_for(&ClipData::Binary(vec![0x80, 0x81])).is_none());
    assert!(write_for(&ClipData::Binary(vec![0xFF, 0xD8, 0xFF, 0xAA])).is_none());
}

#[test]
fn spilled_payloads_are_rebuilt_before_writing() {
    let spilled = ClipData::Spilled { blob_id: 4, kind: SpilledKind::Image { width: 5, height: 6 }, size: 3, hash: 0 };
    match sync_write(&spilled, Some(vec![1, 2, 3])) {
        Some(ClipboardWrite::Image { bytes, width, height }) => {
            assert_eq!(bytes, vec![1, 2, 3]);
            assert_eq!((width, height), (5, 6));
        }
        _ => panic!("expected an image write"),
    }
    assert!(sync_write(&spilled, None).is_none());
    assert!(matches!(sync_write(&ClipData::PlainText("a".into()), None), Some(ClipboardWrite::Text(_))));
}
