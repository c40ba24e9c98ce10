//! One-line previews of clipboard payloads, for notifications and logs.

use vstd::prelude::*;
use vstd::string::*;
use crate::decimal::{push_decimal, spec_decimal, string_push};
use crate::types::{ClipData, ClipDataView, ClipEntry, spec_kind_label, utf8_len};

verus! {

/// Characters of text shown before a preview is cut short.
pub const PREVIEW_CHARS: usize = 40;

/// The first `PREVIEW_CHARS` characters of `t` with every newline replaced
/// by `nl`, followed by `…` when `t` is longer than `PREVIEW_CHARS` UTF-8
/// bytes.
pub open spec fn text_head(t: Seq<char>, nl: char) -> Seq<char> {
    let k = if t.len() < PREVIEW_CHARS { t.len() as int } else { PREVIEW_CHARS as int };
    t.take(k).map_values(|c: char| if c == '\n' { nl } else { c })
}

pub open spec fn text_preview(t: Seq<char>, nl: char) -> Seq<char> {
    if utf8_len(t) > PREVIEW_CHARS {
        text_head(t, nl) + "…"@
    } else {
        text_head(t, nl)
    }
}

pub open spec fn dec(n: usize) -> Seq<char> {
    spec_decimal(n as nat)
}

/// The preview shown in notifications.
pub open spec fn spec_short_preview(d: ClipDataView) -> Seq<char> {
    match d {
        ClipDataView::PlainText(t) => text_preview(t, ' '),
        ClipDataView::Image { width, height, .. } => "Image "@ + dec(width) + "×"@ + dec(height),
        ClipDataView::FilePath(p) => dec(p.len() as usize) + " file(s)"@,
        ClipDataView::RichText(b) => "RTF "@ + dec(b.len() as usize) + " bytes"@,
        ClipDataView::Binary(b) => "Binary "@ + dec(b.len() as usize) + " bytes"@,
        ClipDataView::Spilled { kind, size, .. } => spec_kind_label(kind) + " "@ + dec(size)
            + " bytes"@,
    }
}

/// The preview written to the debug log: text in quotes with newlines shown
/// as `↵`, everything else in brackets.
pub open spec fn spec_entry_preview(d: ClipDataView) -> Seq<char> {
    match d {
        ClipDataView::PlainText(t) => "\""@ + text_preview(t, '↵') + "\""@,
        ClipDataView::Image { width, height, .. } => "[Image "@ + dec(width) + "x"@ + dec(height)
            + "]"@,
        ClipDataView::FilePath(p) => "["@ + dec(p.len() as usize) + " file(s)]"@,
        ClipDataView::RichText(b) => "[RTF "@ + dec(b.len() as usize) + " bytes]"@,
        ClipDataView::Binary(b) => "[Binary "@ + dec(b.len() as usize) + " bytes]"@,
        ClipDataView::Spilled { kind, size, .. } => "["@ + spec_kind_label(kind) + " "@ + dec(size)
            + " bytes on disk]"@,
    }
}

fn push_usize(out: &mut String, n: usize)
    ensures
        final(out)@ == old(out)@ + dec(n),
{
    push_decimal(out, n as u64);
}

fn push_text_preview(out: &mut String, t: &str, nl: char)
    ensures
        final(out)@ == old(out)@ + text_preview(t@, nl),
{
    let n = t.unicode_len();
    let k = if n < PREVIEW_CHARS { n } else { PREVIEW_CHARS };
    let ghost head = text_head(t@, nl);
    let mut i: usize = 0;
    while i < k
        invariant
            n == t@.len(),
            k == (if t@.len() < PREVIEW_CHARS { t@.len() as int } else { PREVIEW_CHARS as int }),
            head == text_head(t@, nl),
            head.len() == k,
            0 <= i <= k,
            out@ == old(out)@ + head.take(i as int),
        decreases k - i,
    {
        let c = t.get_char(i);
        if c == '\n' {
            string_push(out, nl);
        } else {
            string_push(out, c);
        }
        i += 1;
        assert(out@ =~= old(out)@ + head.take(i as int));
    }
    assert(head.take(k as int) =~= head);
    let ghost mid = out@;
    if t.as_bytes().len() > PREVIEW_CHARS {
        out.append("…");
        assert(out@ =~= old(out)@ + (head + "…"@));
    }
}

fn labelled_count(prefix: &str, n: usize, suffix: &str) -> (r: String)
    ensures
        r@ == prefix@ + dec(n) + suffix@,
{
    let mut s = String::from_str(prefix);
    push_usize(&mut s, n);
    s.append(suffix);
    s
}

fn dimensions(prefix: &str, w: usize, sep: &str, h: usize, suffix: &str) -> (r: String)
    ensures
        r@ == prefix@ + dec(w) + sep@ + dec(h) + suffix@,
{
    let mut s = String::from_str(prefix);
    push_usize(&mut s, w);
    s.append(sep);
    push_usize(&mut s, h);
    s.append(suffix);
    s
}

/// The preview shown in notifications: the start of a text, or the kind
/// and size of anything else.
pub fn short_preview(data: &ClipData) -> (r: String)
    ensures
        r@ == spec_short_preview(data@),
{
    proof {
        reveal_strlit("");
    }
    match data {
        ClipData::PlainText(t) => {
            let mut s = String::new();
            push_text_preview(&mut s, t.as_str(), ' ');
            assert(s@ =~= text_preview(t@, ' '));
            s
        },
        ClipData::Image { width, height, .. } => {
            let s = dimensions("Image ", *width, "×", *height, "");
            assert(s@ =~= spec_short_preview(data@));
            s
        },
        ClipData::FilePath(p) => {
            let s = labelled_count("", p.len(), " file(s)");
            assert(s@ =~= spec_short_preview(data@));
            s
        },
        ClipData::RichText(b) => labelled_count("RTF ", b.len(), " bytes"),
        ClipData::Binary(b) => labelled_count("Binary ", b.len(), " bytes"),
        ClipData::Spilled { kind, size, .. } => {
            let mut s = String::from_str(kind.type_label());
            s.append(" ");
            push_usize(&mut s, *size);
            s.append(" bytes");
            s
        },
    }
}

/// The preview written to the debug log for an entry.
pub fn entry_preview(entry: &ClipEntry) -> (r: String)
    ensures
        r@ == spec_entry_preview(entry.data@),
{
    match &entry.data {
        ClipData::PlainText(t) => {
            let mut s = String::from_str("\"");
            push_text_preview(&mut s, t.as_str(), '↵');
            s.append("\"");
            s
        },
        ClipData::Image { width, height, .. } => dimensions("[Image ", *width, "x", *height, "]"),
        ClipData::FilePath(p) => labelled_count("[", p.len(), " file(s)]"),
        ClipData::RichText(b) => labelled_count("[RTF ", b.len(), " bytes]"),
        ClipData::Binary(b) => labelled_count("[Binary ", b.len(), " bytes]"),
        ClipData::Spilled { kind, size, .. } => {
            let mut s = String::from_str("[");
            s.append(kind.type_label());
            s.append(" ");
            push_usize(&mut s, *size);
            s.append(" bytes on disk]");
            s
        },
    }
}

} // verus!
