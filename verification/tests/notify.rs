use clipwallet::notify::{
    notification_script, notify_dynamic_copy, notify_dynamic_cut, notify_dynamic_delete, notify_dynamic_nav,
    notify_dynamic_paste, notify_encryption_removed, notify_memory_cleared, notify_mode_changed, notify_static_copy,
    notify_static_cut, notify_static_delete, notify_static_nav, notify_static_paste, Notification,
};
use clipwallet::preview::{entry_preview, short_preview};
use clipwallet::types::{ClipData, ClipEntry, SpilledKind};

#[test]
fn static_banners() {
    let n = notify_static_copy(3, "hello");
    assert_eq!(n.title, "ClipWallet");
    assert_eq!(n.subtitle, "Copied → Slot 3");
    assert_eq!(n.body, "hello");
    assert_eq!(notify_static_cut(9, "x").subtitle, "Cut → Slot 9");
    let p = notify_static_paste(1);
    assert_eq!(p.subtitle, "Pasted from Slot 1");
    assert_eq!(p.body, "");
    assert_eq!(notify_static_nav(4, "y").subtitle, "Tab → Slot 4  (Cmd+V ready)");
    assert_eq!(notify_static_delete(7).subtitle, "Slot 7 cleared");
}

#[test]
fn dynamic_banners() {
    assert_eq!(notify_dynamic_copy(1, 12, "p").subtitle, "Copied  [1/12]");
    assert_eq!(notify_dynamic_cut(2, 3, "p").subtitle, "Cut  [2/3]");
    let paste = notify_dynamic_paste(5, 50);
    assert_eq!(paste.subtitle, "Paste ready  [5/50]");
    assert_eq!(paste.body, "Press Cmd+V");
    assert_eq!(notify_dynamic_nav(10, 10, "q").subtitle, "Tab  [10/10]  Cmd+V ready");
    assert_eq!(notify_dynamic_delete(0).subtitle, "Deleted ring[0]");
}

#[test]
fn admin_banners() {
    let m = notify_mode_changed("static");
    assert_eq!(m.subtitle, "Mode changed");
    assert_eq!(m.body, "Now in static mode — restart to apply");
    assert_eq!(notify_memory_cleared().body, "All clipboard history erased");
    let e = notify_encryption_removed();
    assert_eq!(e.subtitle, "Encryption removed");
    assert_eq!(e.body, "Vault data deleted, Keychain key removed");
}

#[test]
fn script_quotes_and_omits_empty_subtitle() {
    let n = Notification {
        title: "ClipWallet".to_string(),
        subtitle: String::new(),
        body: "say \"hi\"".to_string(),
    };
    assert_eq!(notification_script(&n), "display notification \"say 'hi'\" with title \"ClipWallet\"");
    let n = notify_static_copy(2, "a\"b");
    assert_eq!(
        notification_script(&n),
        "display notification \"a'b\" with title \"ClipWallet\" subtitle \"Copied → Slot 2\""
    );
}

#[test]
fn short_previews() {
    assert_eq!(short_preview(&ClipData::PlainText("line one\nline two".into())), "line one line two");
    let long = "a".repeat(45);
    assert_eq!(short_preview(&ClipData::PlainText(long)), format!("{}…", "a".repeat(40)));
    // Forty characters of multi-byte text are more than forty bytes.
    let accents = "é".repeat(30);
    assert_eq!(short_preview(&ClipData::PlainText(accents.clone())), format!("{}…", accents));
    assert_eq!(short_preview(&ClipData::PlainText("é".repeat(20))), "é".repeat(20));
    assert_eq!(short_preview(&ClipData::Image { bytes: vec![], width: 800, height: 600 }), "Image 800×600");
    assert_eq!(short_preview(&ClipData::FilePath(vec!["/a".into(), "/b".into()])), "2 file(s)");
    assert_eq!(short_preview(&ClipData::RichText(vec![0; 12])), "RTF 12 bytes");
    assert_eq!(short_preview(&ClipData::Binary(vec![0; 3])), "Binary 3 bytes");
    let spilled = ClipData::Spilled { blob_id: 1, kind: SpilledKind::Image { width: 1, height: 1 }, size: 5000, hash: 0 };
    assert_eq!(short_preview(&spilled), "Image 5000 bytes");
}

#[test]
fn log_previews() {
    let e = ClipEntry::new(1, ClipData::PlainText("a\nb".into()), 0);
    assert_eq!(entry_preview(&e), "\"a↵b\"");
    let e = ClipEntry::new(2, ClipData::PlainText("x".repeat(41)), 0);
    assert_eq!(entry_preview(&e), format!("\"{}…\"", "x".repeat(40)));
    let e = ClipEntry::new(3, ClipData::Image { bytes: vec![], width: 2, height: 3 }, 0);
    assert_eq!(entry_preview(&e), "[Image 2x3]");
    let e = ClipEntry::new(4, ClipData::Binary(vec![1]), 0);
    assert_eq!(entry_preview(&e), "[Binary 1 bytes]");
    let e = ClipEntry::new(5, ClipData::Spilled { blob_id: 5, kind: SpilledKind::RichText, size: 7, hash: 0 }, 0);
    assert_eq!(entry_preview(&e), "[RichText 7 bytes on disk]");
}
