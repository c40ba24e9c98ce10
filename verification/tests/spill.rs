use clipwallet::names::blob_file_name;
use clipwallet::ram::RamStore;
use clipwallet::spill::{gc, gc_orphans, hydrate, live_blob_ids, maybe_spill, spill_bytes, spill_target, Hydrated, HydrateError};
use clipwallet::types::{ClipData, ClipEntry, EntryId, SpilledKind};

fn entry(id: EntryId, data: ClipData) -> ClipEntry {
    ClipEntry::new(id, data, 0)
}

#[test]
fn maybe_spill_spills_above_threshold_and_hydrates_back() {
    let original = vec![3u8; 2048];
    let e = entry(100, ClipData::Binary(original.clone()));
    assert!(spill_target(&e, 1024));
    assert_eq!(spill_bytes(&e.data), Some(&original));
    let spilled = maybe_spill(e, 1024, true);

    // Resident payload is now a descriptor, not the bytes.
    match &spilled.data {
        ClipData::Spilled { blob_id, kind, size, hash } => {
            assert_eq!(*blob_id, 100);
            assert_eq!(*kind, SpilledKind::Binary);
            assert_eq!(*size, 2048);
            assert_eq!(*hash, crc32fast::hash(&original));
        }
        other => panic!("expected Spilled, got {:?}", other),
    }
    assert_eq!(blob_file_name(100), "100.blob");

    // Hydrate reconstructs the exact original variant + bytes.
    let hydrated = hydrate(&spilled.data, Some(original.clone())).unwrap();
    assert_eq!(*hydrated.data(), ClipData::Binary(original));
}

#[test]
fn maybe_spill_preserves_image_dimensions() {
    let bytes = vec![9u8; 5000];
    let e = entry(7, ClipData::Image { bytes: bytes.clone(), width: 1920, height: 1080 });
    let spilled = maybe_spill(e, 1024, true);
    let hydrated = hydrate(&spilled.data, Some(bytes.clone())).unwrap();
    assert_eq!(*hydrated.data(), ClipData::Image { bytes, width: 1920, height: 1080 });
}

#[test]
fn maybe_spill_leaves_small_and_nonspillable_entries_resident() {
    // Below threshold → unchanged.
    let small = entry(1, ClipData::Binary(vec![0u8; 100]));
    assert!(!maybe_spill(small, 1024, true).data.is_spilled());

    // PlainText is never spilled even when large.
    let text = entry(2, ClipData::PlainText("x".repeat(10_000)));
    assert!(!maybe_spill(text, 1024, true).data.is_spilled());

    // FilePath is already a pointer.
    let paths = entry(3, ClipData::FilePath(vec!["/tmp/a".to_string()]));
    assert!(!maybe_spill(paths, 1, true).data.is_spilled());

    // threshold 0 disables spilling.
    let big = entry(4, ClipData::Binary(vec![0u8; 100_000]));
    assert!(!maybe_spill(big, 0, true).data.is_spilled());
}

#[test]
fn failed_blob_write_keeps_the_entry_resident() {
    let e = entry(5, ClipData::RichText(vec![1u8; 5000]));
    let kept = maybe_spill(e, 1024, false);
    assert_eq!(kept.data, ClipData::RichText(vec![1u8; 5000]));
    assert_eq!(kept.id, 5);
}

#[test]
fn hydrate_passes_through_resident_data_without_copy() {
    let data = ClipData::PlainText("hello".into());
    let out = hydrate(&data, None).unwrap();
    assert!(matches!(out, Hydrated::Borrowed(_)));
    assert_eq!(*out.data(), data);
}

#[test]
fn hydrate_errors_when_blob_missing() {
    let descriptor = ClipData::Spilled { blob_id: 9999, kind: SpilledKind::Binary, size: 10, hash: 0 };
    assert!(hydrate(&descriptor, None).is_err());
    assert_eq!(hydrate(&descriptor, None).err(), Some(HydrateError::BlobUnreadable(9999)));
}

#[test]
fn gc_reclaims_only_unreferenced_blobs() {
    // Live ring references only blob 2 (spilled); slot references blob 3.
    let mut ram = RamStore::new(10, 0);
    ram.push_dynamic(entry(2, ClipData::Spilled { blob_id: 2, kind: SpilledKind::Binary, size: 64, hash: 0 }));
    ram.set_static(1, entry(3, ClipData::Spilled { blob_id: 3, kind: SpilledKind::Binary, size: 64, hash: 0 }));

    let names = vec!["1.blob".to_string(), "2.blob".to_string(), "3.blob".to_string()];
    let removed = gc_orphans(&ram, &names);
    assert_eq!(removed.len(), 1); // blob 1 only
    assert_eq!(removed, vec!["1.blob".to_string()]);
}

#[test]
fn gc_leaves_tmp_and_foreign_files_alone() {
    let live: Vec<EntryId> = vec![4];
    let names = vec![
        "4.blob".to_string(),
        "5.blob".to_string(),
        "6.tmp".to_string(),
        "notes.txt".to_string(),
        "x.blob".to_string(),
    ];
    assert_eq!(gc(&live, &names), vec!["5.blob".to_string()]);
    let mut ram = RamStore::new(10, 0);
    assert!(live_blob_ids(&ram).is_empty());
    ram.set_static(9, entry(8, ClipData::Spilled { blob_id: 8, kind: SpilledKind::RichText, size: 1, hash: 0 }));
    assert_eq!(live_blob_ids(&ram), vec![8]);
}
