use clipwallet::answers::{is_yes, mode_change, mode_choice, trim, ModeChange};
use clipwallet::config::ClipMode;
use clipwallet::launchd::{install_path, plist_contents, plist_file_name, plist_label};
use clipwallet::status::{blob_stats, status_report, RingFile, StatusFacts};

#[test]
fn trimming_matches_str_trim() {
    for s in ["", "  y \n", "\t1\r\n", "\u{3000}x\u{a0}", "a b", "   "] {
        assert_eq!(trim(s), s.trim());
    }
}

#[test]
fn yes_answers() {
    assert!(is_yes("y\n"));
    assert!(is_yes("  Y  "));
    assert!(!is_yes("yes"));
    assert!(!is_yes(""));
    assert!(!is_yes("n"));
}

#[test]
fn mode_prompt_answers() {
    assert_eq!(mode_choice("1\n"), Some(ClipMode::Static));
    assert_eq!(mode_choice(" 2 "), Some(ClipMode::Dynamic));
    assert_eq!(mode_choice("3"), None);
    assert_eq!(mode_choice("12"), None);
    assert_eq!(mode_change(ClipMode::Dynamic, "1\n"), ModeChange::Switch(ClipMode::Static));
    assert_eq!(mode_change(ClipMode::Dynamic, "2\n"), ModeChange::Unchanged(ClipMode::Dynamic));
    assert_eq!(mode_change(ClipMode::Static, "x"), ModeChange::Invalid);
}

#[test]
fn blob_statistics_count_only_blob_files() {
    let names = vec!["1.blob".to_string(), "2.tmp".to_string(), ".blob".to_string(), "33.blob".to_string()];
    let sizes = vec![100u64, 5, 7, 23];
    assert_eq!(blob_stats(&names, &sizes), (2, 123));
    assert_eq!(blob_stats(&vec![], &vec![]), (0, 0));
}

#[test]
fn status_report_lines() {
    let facts = StatusFacts {
        pgrep_output: Some("4242\n".to_string()),
        launchd_registered: true,
        slot_files: 3,
        ring_file: RingFile::Size(1024),
        blob_count: 1,
        blob_bytes: 5000,
        vault_files: 2,
        log_dir: "/Users/me/.clipwallet/logs".to_string(),
        store_dir: "/Users/me/.clipwallet/store".to_string(),
        vault_dir: "/Users/me/.clipwallet/vault".to_string(),
    };
    let lines = status_report(&facts);
    assert_eq!(lines.len(), 11);
    assert_eq!(lines[0], "── ClipWallet Status ────────────────────────────");
    assert_eq!(lines[1], "  Process   : Running (PID 4242)");
    assert_eq!(lines[2], "  launchd   : Registered ✓");
    assert_eq!(lines[3], "  Static    : 3/9 slots occupied");
    assert_eq!(lines[4], "  Ring      : 1024 bytes on disk");
    assert_eq!(lines[5], "  Blobs     : 1 large entry on disk (5000 bytes)");
    assert_eq!(lines[6], "  Vault     : 2 encrypted entries");
    assert_eq!(lines[7], "  Logs      : /Users/me/.clipwallet/logs");
    assert_eq!(lines[9], "  Vault     : /Users/me/.clipwallet/vault");

    let idle = StatusFacts {
        pgrep_output: None,
        launchd_registered: false,
        slot_files: 0,
        ring_file: RingFile::Missing,
        blob_count: 0,
        blob_bytes: 0,
        vault_files: 0,
        log_dir: String::new(),
        store_dir: String::new(),
        vault_dir: String::new(),
    };
    let lines = status_report(&idle);
    assert_eq!(lines[1], "  Process   : Not running");
    assert_eq!(lines[2], "  launchd   : Not registered");
    assert_eq!(lines[4], "  Ring      : empty on disk");
    assert_eq!(lines[5], "  Blobs     : 0 large entries on disk (0 bytes)");
    let unknown = StatusFacts { ring_file: RingFile::Unreadable, ..idle };
    assert_eq!(status_report(&unknown)[4], "  Ring      : unknown on disk");
}

#[test]
fn launchd_plist_runs_the_installed_binary() {
    assert_eq!(plist_label(), "com.clipwallet.agent");
    assert_eq!(plist_file_name(), "com.clipwallet.agent.plist");
    assert_eq!(install_path(), "/usr/local/bin/clipwallet");
    let p = plist_contents("/Users/me");
    assert!(p.starts_with("<?xml version=\"1.0\" encoding=\"UTF-8\"?>\n"));
    assert!(p.contains("<string>com.clipwallet.agent</string>"));
    assert!(p.contains("<string>/usr/local/bin/clipwallet</string>\n        <string>run</string>"));
    assert!(p.contains("<string>/Users/me/.clipwallet/logs/out.log</string>"));
    assert!(p.contains("<string>/Users/me/.clipwallet/logs/err.log</string>"));
    assert!(p.ends_with("</dict>\n</plist>"));
}
