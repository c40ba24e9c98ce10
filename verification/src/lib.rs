//! ClipWallet core: the clipboard store (nine addressed slots and a
//! recency ring), chord detection and the key listener's decisions, what
//! each hotkey action does, spilling of large payloads, the on-disk
//! envelope, the encrypted vault's records, and the texts the daemon shows.

pub mod answers;
pub mod chord;
pub mod clipboard;
pub mod config;
pub mod decimal;
pub mod disk;
pub mod engine;
pub mod fallback;
pub mod inject;
pub mod keys;
pub mod keyset;
pub mod launchd;
pub mod mime;
pub mod names;
pub mod notify;
pub mod preview;
pub mod ram;
pub mod spill;
pub mod status;
pub mod tap;
pub mod types;
pub mod vault;
