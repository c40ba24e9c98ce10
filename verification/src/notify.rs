//! The banner notifications shown after each action, and the AppleScript
//! line that displays one.

use vstd::prelude::*;
use vstd::string::*;
use crate::decimal::{push_decimal, spec_decimal, string_push};

verus! {

/// A banner notification.
pub struct Notification {
    pub title: String,
    /// Empty when the banner has no subtitle.
    pub subtitle: String,
    pub body: String,
}

/// The mathematical value of a [`Notification`].
pub struct NotificationView {
    pub title: Seq<char>,
    pub subtitle: Seq<char>,
    pub body: Seq<char>,
}

impl View for Notification {
    type V = NotificationView;

    open spec fn view(&self) -> NotificationView {
        NotificationView { title: self.title@, subtitle: self.subtitle@, body: self.body@ }
    }
}

/// A ClipWallet banner with the given subtitle and body.
pub open spec fn banner(subtitle: Seq<char>, body: Seq<char>) -> NotificationView {
    NotificationView { title: "ClipWallet"@, subtitle, body }
}

/// Decimal text of a count or position.
pub open spec fn dec(n: usize) -> Seq<char> {
    spec_decimal(n as nat)
}

/// `[pos/total]`.
pub open spec fn fraction(pos: usize, total: usize) -> Seq<char> {
    "["@ + dec(pos) + "/"@ + dec(total) + "]"@
}

fn make(subtitle: String, body: String) -> (r: Notification)
    ensures
        r@ == banner(subtitle@, body@),
{
    Notification { title: String::from_str("ClipWallet"), subtitle, body }
}

fn text(s: &str) -> (r: String)
    ensures
        r@ == s@,
{
    String::from_str(s)
}

fn push_usize(out: &mut String, n: usize)
    ensures
        final(out)@ == old(out)@ + dec(n),
{
    push_decimal(out, n as u64);
}

/// `<prefix><n>`.
fn numbered(prefix: &str, n: usize) -> (r: String)
    ensures
        r@ == prefix@ + dec(n),
{
    let mut s = String::from_str(prefix);
    push_usize(&mut s, n);
    s
}

/// `<prefix><n><suffix>`.
fn numbered_with(prefix: &str, n: usize, suffix: &str) -> (r: String)
    ensures
        r@ == prefix@ + dec(n) + suffix@,
{
    let mut s = numbered(prefix, n);
    s.append(suffix);
    s
}

/// `<prefix>[pos/total]`.
fn with_fraction(prefix: &str, pos: usize, total: usize) -> (r: String)
    ensures
        r@ == prefix@ + fraction(pos, total),
{
    let mut s = String::from_str(prefix);
    s.append("[");
    push_usize(&mut s, pos);
    s.append("/");
    push_usize(&mut s, total);
    s.append("]");
    assert(s@ =~= prefix@ + fraction(pos, total));
    s
}

/// `<prefix>[pos/total]<suffix>`.
fn with_fraction_and(prefix: &str, pos: usize, total: usize, suffix: &str) -> (r: String)
    ensures
        r@ == prefix@ + fraction(pos, total) + suffix@,
{
    let mut s = with_fraction(prefix, pos, total);
    s.append(suffix);
    s
}

// ── Static mode ──────────────────────────────────────────────────────────

/// After copying into a slot: subtitle `Copied → Slot <slot>`, the preview
/// as body.
pub fn notify_static_copy(slot: usize, preview: &str) -> (r: Notification)
    ensures
        r@ == banner("Copied → Slot "@ + dec(slot), preview@),
{
    make(numbered("Copied → Slot ", slot), text(preview))
}

/// After cutting into a slot: subtitle `Cut → Slot <slot>`.
pub fn notify_static_cut(slot: usize, preview: &str) -> (r: Notification)
    ensures
        r@ == banner("Cut → Slot "@ + dec(slot), preview@),
{
    make(numbered("Cut → Slot ", slot), text(preview))
}

/// After pasting from a slot: subtitle `Pasted from Slot <slot>`, no body.
pub fn notify_static_paste(slot: usize) -> (r: Notification)
    ensures
        r@ == banner("Pasted from Slot "@ + dec(slot), Seq::empty()),
{
    make(numbered("Pasted from Slot ", slot), String::new())
}

/// After moving the slot cursor: subtitle `Tab → Slot <slot>  (Cmd+V ready)`.
pub fn notify_static_nav(slot: usize, preview: &str) -> (r: Notification)
    ensures
        r@ == banner("Tab → Slot "@ + dec(slot) + "  (Cmd+V ready)"@, preview@),
{
    make(numbered_with("Tab → Slot ", slot, "  (Cmd+V ready)"), text(preview))
}

/// After clearing a slot: subtitle `Slot <slot> cleared`, no body.
pub fn notify_static_delete(slot: usize) -> (r: Notification)
    ensures
        r@ == banner("Slot "@ + dec(slot) + " cleared"@, Seq::empty()),
{
    make(numbered_with("Slot ", slot, " cleared"), String::new())
}

// ── Dynamic mode ─────────────────────────────────────────────────────────

/// After copying into the ring: subtitle `Copied  [pos/total]`.
pub fn notify_dynamic_copy(pos: usize, total: usize, preview: &str) -> (r: Notification)
    ensures
        r@ == banner("Copied  "@ + fraction(pos, total), preview@),
{
    make(with_fraction("Copied  ", pos, total), text(preview))
}

/// After cutting into the ring: subtitle `Cut  [pos/total]`.
pub fn notify_dynamic_cut(pos: usize, total: usize, preview: &str) -> (r: Notification)
    ensures
        r@ == banner("Cut  "@ + fraction(pos, total), preview@),
{
    make(with_fraction("Cut  ", pos, total), text(preview))
}

/// After a dynamic paste: subtitle `Paste ready  [pos/total]`, body
/// `Press Cmd+V`.
pub fn notify_dynamic_paste(pos: usize, total: usize) -> (r: Notification)
    ensures
        r@ == banner("Paste ready  "@ + fraction(pos, total), "Press Cmd+V"@),
{
    make(with_fraction("Paste ready  ", pos, total), text("Press Cmd+V"))
}

/// After moving the ring cursor: subtitle `Tab  [pos/total]  Cmd+V ready`.
pub fn notify_dynamic_nav(pos: usize, total: usize, preview: &str) -> (r: Notification)
    ensures
        r@ == banner("Tab  "@ + fraction(pos, total) + "  Cmd+V ready"@, preview@),
{
    make(with_fraction_and("Tab  ", pos, total, "  Cmd+V ready"), text(preview))
}

/// After deleting from the ring: subtitle `Deleted ring[pos]`, no body.
pub fn notify_dynamic_delete(pos: usize) -> (r: Notification)
    ensures
        r@ == banner("Deleted ring["@ + dec(pos) + "]"@, Seq::empty()),
{
    make(numbered_with("Deleted ring[", pos, "]"), String::new())
}

// ── Admin ────────────────────────────────────────────────────────────────

/// After switching mode: body `Now in <mode> mode — restart to apply`.
pub fn notify_mode_changed(mode: &str) -> (r: Notification)
    ensures
        r@ == banner("Mode changed"@, "Now in "@ + mode@ + " mode — restart to apply"@),
{
    let mut b = String::from_str("Now in ");
    b.append(mode);
    b.append(" mode — restart to apply");
    make(text("Mode changed"), b)
}

/// After wiping the history.
pub fn notify_memory_cleared() -> (r: Notification)
    ensures
        r@ == banner("Memory cleared"@, "All clipboard history erased"@),
{
    make(text("Memory cleared"), text("All clipboard history erased"))
}

/// After removing the vault and its key.
pub fn notify_encryption_removed() -> (r: Notification)
    ensures
        r@ == banner("Encryption removed"@, "Vault data deleted, Keychain key removed"@),
{
    make(text("Encryption removed"), text("Vault data deleted, Keychain key removed"))
}

// ── Display ──────────────────────────────────────────────────────────────

/// `s` with every double quote replaced by a single quote, so it can sit
/// inside an AppleScript string literal.
pub open spec fn unquote(s: Seq<char>) -> Seq<char> {
    s.map_values(|c: char| if c == '"' { '\'' } else { c })
}

/// The AppleScript line that displays a banner: without a subtitle clause
/// when the subtitle is empty.
pub open spec fn spec_script(n: NotificationView) -> Seq<char> {
    let q = "\""@;
    let head = "display notification "@ + q + unquote(n.body) + q + " with title "@ + q + unquote(n.title) + q;
    if n.subtitle.len() == 0 {
        head
    } else {
        head + " subtitle "@ + q + unquote(n.subtitle) + q
    }
}

fn push_unquoted(out: &mut String, s: &str)
    ensures
        final(out)@ == old(out)@ + unquote(s@),
{
    let n = s.unicode_len();
    let mut i: usize = 0;
    while i < n
        invariant
            n == s@.len(),
            0 <= i <= n,
            out@ == old(out)@ + unquote(s@).take(i as int),
        decreases n - i,
    {
        let c = s.get_char(i);
        if c == '"' {
            string_push(out, '\'');
        } else {
            string_push(out, c);
        }
        i += 1;
        assert(out@ =~= old(out)@ + unquote(s@).take(i as int));
    }
    assert(unquote(s@).take(n as int) =~= unquote(s@));
}

/// The AppleScript line (for `osascript -e`) that displays `n`.
pub fn notification_script(n: &Notification) -> (r: String)
    ensures
        r@ == spec_script(n@),
{
    let mut s = String::from_str("display notification \"");
    push_unquoted(&mut s, n.body.as_str());
    s.append("\" with title \"");
    push_unquoted(&mut s, n.title.as_str());
    s.append("\"");
    let empty = n.subtitle.as_str().unicode_len() == 0;
    if !empty {
        s.append(" subtitle \"");
        push_unquoted(&mut s, n.subtitle.as_str());
        s.append("\"");
    }
    proof {
        reveal_strlit("display notification \"");
        reveal_strlit("\" with title \"");
        reveal_strlit("\"");
        reveal_strlit(" subtitle \"");
        reveal_strlit("display notification ");
        reveal_strlit(" with title ");
        reveal_strlit(" subtitle ");
    }
    assert(s@ =~= spec_script(n@));
    s
}

} // verus!
