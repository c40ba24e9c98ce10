use clipwallet::types::{ClipData, SpilledKind};

#[test]
fn spilled_equality_ignores_blob_id() {
    // Same content spilled under two different ids must compare equal so the
    // ring still dedups consecutive duplicate large copies.
    let a = ClipData::Spilled {
        blob_id: 1,
        kind: SpilledKind::Binary,
        size: 1024,
        hash: 0xDEAD_BEEF,
    };
    let b = ClipData::Spilled {
        blob_id: 2,
        kind: SpilledKind::Binary,
        size: 1024,
        hash: 0xDEAD_BEEF,
    };
    assert_eq!(a, b);
}

#[test]
fn spilled_equality_distinguishes_content() {
    let base = ClipData::Spilled {
        blob_id: 1,
        kind: SpilledKind::Binary,
        size: 1024,
        hash: 0x1111_1111,
    };
    let diff_hash = ClipData::Spilled {
        blob_id: 1,
        kind: SpilledKind::Binary,
        size: 1024,
        hash: 0x2222_2222,
    };
    let diff_size = ClipData::Spilled {
        blob_id: 1,
        kind: SpilledKind::Binary,
        size: 2048,
        hash: 0x1111_1111,
    };
    let diff_kind = ClipData::Spilled {
        blob_id: 1,
        kind: SpilledKind::RichText,
        size: 1024,
        hash: 0x1111_1111,
    };
    assert_ne!(base, diff_hash);
    assert_ne!(base, diff_size);
    assert_ne!(base, diff_kind);
}

#[test]
fn spilled_never_equals_resident() {
    let spilled = ClipData::Spilled {
        blob_id: 1,
        kind: SpilledKind::Binary,
        size: 3,
        hash: crc32fast::hash(&[1, 2, 3]),
    };
    let resident = ClipData::Binary(vec![1, 2, 3]);
    assert_ne!(spilled, resident);
}

#[test]
fn type_label_and_size_reflect_underlying_kind() {
    let img = ClipData::Spilled {
        blob_id: 7,
        kind: SpilledKind::Image { width: 800, height: 600 },
        size: 50_000,
        hash: 0,
    };
    assert_eq!(img.type_label(), "Image");
    assert_eq!(img.size_bytes(), 50_000);
    assert!(img.is_spilled());

    let txt = ClipData::PlainText("hello".into());
    assert_eq!(txt.type_label(), "PlainText");
    assert_eq!(txt.size_bytes(), 5);
    assert!(!txt.is_spilled());
}

#[test]
fn resident_equality_unchanged() {
    assert_eq!(ClipData::PlainText("x".into()), ClipData::PlainText("x".into()));
    assert_ne!(ClipData::PlainText("x".into()), ClipData::PlainText("y".into()));
    assert_eq!(ClipData::Binary(vec![1, 2]), ClipData::Binary(vec![1, 2]));
    assert_ne!(ClipData::Binary(vec![1, 2]), ClipData::Binary(vec![1, 3]));
}

#[test]
fn size_counts_utf8_bytes_and_path_lengths() {
    assert_eq!(ClipData::PlainText("héllo".into()).size_bytes(), 6);
    let paths = ClipData::FilePath(vec!["/tmp/a".to_string(), "/Users/me/b.txt".to_string()]);
    assert_eq!(paths.size_bytes(), 6 + 15);
    assert_eq!(paths.type_label(), "FilePath");
    let rtf = ClipData::Spilled { blob_id: 3, kind: SpilledKind::RichText, size: 9, hash: 1 };
    assert_eq!(rtf.type_label(), "RichText");
    assert_eq!(SpilledKind::Binary.type_label(), "Binary");
}

#[test]
fn content_equality_is_symmetric_and_distinguishes_variants() {
    let a = ClipData::RichText(vec![1, 2, 3]);
    let b = ClipData::Binary(vec![1, 2, 3]);
    assert_ne!(a, b);
    assert_ne!(b, a);
    let i1 = ClipData::Image { bytes: vec![1], width: 2, height: 3 };
    let i2 = ClipData::Image { bytes: vec![1], width: 3, height: 2 };
    assert_ne!(i1, i2);
    assert_eq!(i1.clone(), i1);
}
