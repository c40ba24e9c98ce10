use clipwallet::chord::HotkeyAction;
use clipwallet::engine::{capture_for, handle, Capture, Effects, SpillPolicy};
use clipwallet::ram::{IdSource, RamStore};
use clipwallet::types::{ClipData, SpilledKind};

const NO_SPILL: SpillPolicy = SpillPolicy { threshold: 0, blob_written: false };

fn act(ram: &mut RamStore, ids: &mut IdSource, action: HotkeyAction, captured: Option<ClipData>, ts: i64, now: u64) -> Effects {
    handle(ram, ids, action, captured, ts, NO_SPILL, now)
}

fn text(s: &str) -> Option<ClipData> {
    Some(ClipData::PlainText(s.to_string()))
}

#[test]
fn copy_and_cut_actions_capture_first() {
    assert_eq!(capture_for(HotkeyAction::StaticCopy(1)), Some(Capture::Copy));
    assert_eq!(capture_for(HotkeyAction::DynamicCopy), Some(Capture::Copy));
    assert_eq!(capture_for(HotkeyAction::StaticCut(4)), Some(Capture::Cut));
    assert_eq!(capture_for(HotkeyAction::DynamicCut), Some(Capture::Cut));
    assert_eq!(capture_for(HotkeyAction::DynamicPaste), None);
    assert_eq!(capture_for(HotkeyAction::CursorReset), None);
}

#[test]
fn static_copy_then_paste() {
    let mut ram = RamStore::new(50, 0);
    let mut ids = IdSource::new();
    let fx = act(&mut ram, &mut ids, HotkeyAction::StaticCopy(4), text("hello"), 1000, 0);
    assert!(fx.sync.is_none());
    assert!(!fx.paste);
    let n = fx.notification.unwrap();
    assert_eq!(n.subtitle, "Copied → Slot 4");
    assert_eq!(n.body, "hello");
    let stored = ram.get_static(4).unwrap();
    assert_eq!(stored.id, 1);
    assert_eq!(stored.timestamp, 1000);
    assert_eq!(ids.last(), 1);

    let fx = act(&mut ram, &mut ids, HotkeyAction::StaticPaste(4), None, 0, 0);
    assert_eq!(fx.sync, text("hello"));
    assert!(fx.paste);
    assert_eq!(fx.notification.unwrap().subtitle, "Pasted from Slot 4");

    let fx = act(&mut ram, &mut ids, HotkeyAction::StaticPaste(5), None, 0, 0);
    assert!(fx.sync.is_none() && !fx.paste && fx.notification.is_none());

    // An empty capture changes nothing.
    let fx = act(&mut ram, &mut ids, HotkeyAction::StaticCut(5), None, 0, 0);
    assert!(fx.notification.is_none());
    assert!(ram.get_static(5).is_none());
    assert_eq!(ids.last(), 1);
}

#[test]
fn static_navigation_and_delete() {
    let mut ram = RamStore::new(50, 0);
    let mut ids = IdSource::new();
    let fx = act(&mut ram, &mut ids, HotkeyAction::StaticNavigateNext, None, 0, 0);
    assert!(fx.notification.is_none());
    act(&mut ram, &mut ids, HotkeyAction::StaticCut(3), text("three"), 1, 0);
    act(&mut ram, &mut ids, HotkeyAction::StaticCopy(7), text("seven"), 2, 0);
    let fx = act(&mut ram, &mut ids, HotkeyAction::StaticNavigateNext, None, 0, 0);
    assert_eq!(fx.sync, text("three"));
    assert_eq!(fx.notification.unwrap().subtitle, "Tab → Slot 3  (Cmd+V ready)");
    let fx = act(&mut ram, &mut ids, HotkeyAction::StaticNavigatePrev, None, 0, 0);
    assert_eq!(fx.sync, text("seven"));
    assert_eq!(ram.static_cursor_slot(), 7);
    let fx = act(&mut ram, &mut ids, HotkeyAction::StaticDeleteCurrent, None, 0, 0);
    assert_eq!(fx.notification.unwrap().subtitle, "Slot 7 cleared");
    assert!(ram.get_static(7).is_none());
    let fx = act(&mut ram, &mut ids, HotkeyAction::StaticDeleteCurrent, None, 0, 0);
    assert!(fx.notification.is_none());
}

#[test]
fn dynamic_copy_paste_navigate_delete() {
    let mut ram = RamStore::new(50, 0);
    let mut ids = IdSource::new();
    let fx = act(&mut ram, &mut ids, HotkeyAction::DynamicCopy, text("a"), 1, 0);
    assert_eq!(fx.sync, text("a"));
    assert_eq!(fx.notification.unwrap().subtitle, "Copied  [1/1]");
    let fx = act(&mut ram, &mut ids, HotkeyAction::DynamicCut, text("b"), 2, 0);
    assert_eq!(fx.notification.unwrap().subtitle, "Cut  [1/2]");
    // The same content again is not stored twice.
    let fx = act(&mut ram, &mut ids, HotkeyAction::DynamicCopy, text("b"), 3, 0);
    assert_eq!(fx.notification.unwrap().subtitle, "Copied  [1/2]");
    assert_eq!(ram.ring_len(), 2);

    let fx = act(&mut ram, &mut ids, HotkeyAction::DynamicNavigateNext, None, 0, 30);
    assert_eq!(fx.sync, text("a"));
    assert_eq!(fx.notification.unwrap().subtitle, "Tab  [2/2]  Cmd+V ready");
    assert!(!ram.cursor_timed_out(39));
    assert!(ram.cursor_timed_out(40));

    let fx = act(&mut ram, &mut ids, HotkeyAction::DynamicPaste, None, 0, 0);
    assert_eq!(fx.sync, text("a"));
    assert!(fx.paste);
    let n = fx.notification.unwrap();
    assert_eq!(n.subtitle, "Paste ready  [2/2]");
    assert_eq!(n.body, "Press Cmd+V");

    let fx = act(&mut ram, &mut ids, HotkeyAction::DynamicDeleteCurrent, None, 0, 0);
    assert_eq!(fx.notification.unwrap().subtitle, "Deleted ring[1]");
    assert_eq!(fx.sync, text("b"));
    assert_eq!(ram.ring_len(), 1);

    let fx = act(&mut ram, &mut ids, HotkeyAction::DynamicDeleteCurrent, None, 0, 0);
    assert!(fx.sync.is_none());
    assert_eq!(fx.notification.unwrap().subtitle, "Deleted ring[0]");
    let fx = act(&mut ram, &mut ids, HotkeyAction::DynamicPaste, None, 0, 0);
    assert!(fx.notification.is_none());
}

#[test]
fn cursor_reset_returns_to_newest() {
    let mut ram = RamStore::new(50, 0);
    let mut ids = IdSource::new();
    act(&mut ram, &mut ids, HotkeyAction::DynamicCopy, text("old"), 1, 0);
    act(&mut ram, &mut ids, HotkeyAction::DynamicCopy, text("new"), 2, 0);
    let fx = act(&mut ram, &mut ids, HotkeyAction::CursorReset, None, 0, 0);
    assert!(fx.sync.is_none());
    act(&mut ram, &mut ids, HotkeyAction::DynamicNavigatePrev, None, 0, 5);
    assert_eq!(ram.dynamic_cursor(), 1);
    let fx = act(&mut ram, &mut ids, HotkeyAction::CursorReset, None, 0, 0);
    assert_eq!(fx.sync, text("new"));
    assert!(fx.notification.is_none());
    assert_eq!(ram.dynamic_cursor(), 0);
}

#[test]
fn large_captures_are_stored_spilled_but_synced_resident() {
    let mut ram = RamStore::new(50, 0);
    let mut ids = IdSource::new();
    let bytes = vec![5u8; 2048];
    let policy = SpillPolicy { threshold: 1024, blob_written: true };
    let fx = handle(&mut ram, &mut ids, HotkeyAction::DynamicCopy, Some(ClipData::Binary(bytes.clone())), 1, policy, 0);
    assert_eq!(fx.sync, Some(ClipData::Binary(bytes.clone())));
    assert_eq!(fx.notification.unwrap().body, "Binary 2048 bytes");
    match &ram.dynamic_ring()[0].data {
        ClipData::Spilled { blob_id, kind, size, hash } => {
            assert_eq!(*blob_id, 1);
            assert_eq!(*kind, SpilledKind::Binary);
            assert_eq!(*size, 2048);
            assert_eq!(*hash, crc32fast::hash(&bytes));
        }
        other => panic!("expected a spilled entry, got {:?}", other),
    }
    // A failed blob write keeps the entry resident.
    let policy = SpillPolicy { threshold: 1024, blob_written: false };
    handle(&mut ram, &mut ids, HotkeyAction::StaticCopy(1), Some(ClipData::RichText(bytes.clone())), 2, policy, 0);
    assert_eq!(ram.get_static(1).unwrap().data, ClipData::RichText(bytes));
}
