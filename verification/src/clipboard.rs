//! What is taken from the system clipboard after a copy, and what is written
//! back to it before a paste.

use vstd::prelude::*;
use vstd::string::*;
use vstd::utf8::{decode_utf8, valid_utf8};
use crate::mime::{DetectedType, detect_bytes, inferred_mime, normalise_image, png_normalised, spec_detect, utf8_text};
use crate::spill::{hydrate, spec_restore};
use crate::types::{ClipData, ClipDataView, strings_view};
use crate::vault::opt_bytes_view;

verus! {

/// Raw pixels or encoded bytes of an image read from the clipboard, with
/// its dimensions.
pub struct RawImage {
    pub bytes: Vec<u8>,
    pub width: usize,
    pub height: usize,
}

/// The payload stored for an image read from the clipboard: the PNG that
/// normalising produced, or the raw bytes as binary when it failed.
pub open spec fn spec_image_data(raw: Seq<u8>, width: usize, height: usize, png: Option<Seq<u8>>) -> ClipDataView {
    match png {
        Some(p) => ClipDataView::Image { bytes: p, width, height },
        None => ClipDataView::Binary(raw),
    }
}

/// Builds the payload for a clipboard image from the result of normalising
/// it (see [`spec_image_data`]).
pub fn image_data(raw: Vec<u8>, width: usize, height: usize, png: Option<Vec<u8>>) -> (r: ClipData)
    ensures
        r@ == spec_image_data(raw@, width, height, opt_bytes_view(png)),
{
    match png {
        Some(p) => ClipData::Image { bytes: p, width, height },
        None => ClipData::Binary(raw),
    }
}

/// What the clipboard offered, in order of preference.
pub struct ClipboardOffer {
    /// File URLs, as paths (`None` when there were none).
    pub file_paths: Option<Vec<String>>,
    /// RTF bytes.
    pub rtf: Option<Vec<u8>>,
    /// An image.
    pub image: Option<RawImage>,
    /// Plain text.
    pub text: Option<String>,
}

/// The payload captured from an offer: file paths first, then RTF, then an
/// image (normalised to PNG, or kept raw as binary), then non-empty text.
pub open spec fn spec_capture(offer: ClipboardOffer) -> Option<ClipDataView> {
    if offer.file_paths is Some {
        Some(ClipDataView::FilePath(strings_view(offer.file_paths->0@)))
    } else if offer.rtf is Some {
        Some(ClipDataView::RichText(offer.rtf->0@))
    } else if offer.image is Some {
        let img = offer.image->0;
        Some(spec_image_data(img.bytes@, img.width, img.height, png_normalised(img.bytes@)))
    } else if offer.text is Some && offer.text->0@.len() > 0 {
        Some(ClipDataView::PlainText(offer.text->0@))
    } else {
        None
    }
}

pub open spec fn opt_data_view(o: Option<ClipData>) -> Option<ClipDataView> {
    match o {
        Some(d) => Some(d@),
        None => None,
    }
}

/// The payload to store from what the clipboard offered (see
/// [`spec_capture`]); `None` when it was empty or unreadable.
pub fn capture(offer: ClipboardOffer) -> (r: Option<ClipData>)
    ensures
        opt_data_view(r) == spec_capture(offer),
{
    let ClipboardOffer { file_paths, rtf, image, text } = offer;
    if let Some(paths) = file_paths {
        return Some(ClipData::FilePath(paths));
    }
    if let Some(bytes) = rtf {
        return Some(ClipData::RichText(bytes));
    }
    if let Some(img) = image {
        let RawImage { bytes, width, height } = img;
        let png = normalise_image(bytes.as_slice());
        return Some(image_data(bytes, width, height, png));
    }
    if let Some(t) = text {
        if t.as_str().unicode_len() > 0 {
            return Some(ClipData::PlainText(t));
        }
    }
    None
}

/// A write to the system clipboard.
pub enum ClipboardWrite {
    Text(String),
    Rtf(Vec<u8>),
    Image { bytes: Vec<u8>, width: usize, height: usize },
    FilePaths(Vec<String>),
}

/// The mathematical value of a [`ClipboardWrite`].
pub enum ClipboardWriteView {
    Text(Seq<char>),
    Rtf(Seq<u8>),
    Image { bytes: Seq<u8>, width: usize, height: usize },
    FilePaths(Seq<Seq<char>>),
}

impl View for ClipboardWrite {
    type V = ClipboardWriteView;

    open spec fn view(&self) -> ClipboardWriteView {
        match self {
            ClipboardWrite::Text(s) => ClipboardWriteView::Text(s@),
            ClipboardWrite::Rtf(b) => ClipboardWriteView::Rtf(b@),
            ClipboardWrite::Image { bytes, width, height } => ClipboardWriteView::Image {
                bytes: bytes@,
                width: *width,
                height: *height,
            },
            ClipboardWrite::FilePaths(p) => ClipboardWriteView::FilePaths(strings_view(p@)),
        }
    }
}

pub open spec fn opt_write_view(o: Option<ClipboardWrite>) -> Option<ClipboardWriteView> {
    match o {
        Some(w) => Some(w@),
        None => None,
    }
}

/// How a resident payload is put on the system clipboard: text, RTF, image
/// and paths as themselves; binary bytes only when they are detected as
/// UTF-8 text, as that text. Nothing for anything else.
pub open spec fn spec_write_for(d: ClipDataView) -> Option<ClipboardWriteView> {
    match d {
        ClipDataView::PlainText(t) => Some(ClipboardWriteView::Text(t)),
        ClipDataView::RichText(b) => Some(ClipboardWriteView::Rtf(b)),
        ClipDataView::Image { bytes, width, height } => Some(ClipboardWriteView::Image { bytes, width, height }),
        ClipDataView::FilePath(p) => Some(ClipboardWriteView::FilePaths(p)),
        ClipDataView::Binary(b) => if spec_detect(b, inferred_mime(b)) == DetectedType::PlainText {
            Some(ClipboardWriteView::Text(decode_utf8(b)))
        } else {
            None
        },
        ClipDataView::Spilled { .. } => None,
    }
}

/// The clipboard write for a resident payload (see [`spec_write_for`]).
pub fn write_for(data: &ClipData) -> (r: Option<ClipboardWrite>)
    ensures
        opt_write_view(r) == spec_write_for(data@),
{
    let d = data.duplicate();
    match d {
        ClipData::PlainText(t) => Some(ClipboardWrite::Text(t)),
        ClipData::RichText(b) => Some(ClipboardWrite::Rtf(b)),
        ClipData::Image { bytes, width, height } => Some(ClipboardWrite::Image { bytes, width, height }),
        ClipData::FilePath(p) => Some(ClipboardWrite::FilePaths(p)),
        ClipData::Binary(b) => {
            if detect_bytes(b.as_slice()) == DetectedType::PlainText {
                match utf8_text(b.as_slice()) {
                    Some(t) => Some(ClipboardWrite::Text(t)),
                    None => None,
                }
            } else {
                None
            }
        },
        ClipData::Spilled { .. } => None,
    }
}

/// The clipboard write for any payload: a spilled one is first rebuilt from
/// `blob`, the bytes read from its blob file; nothing is written when they
/// could not be read.
pub open spec fn spec_sync_write(d: ClipDataView, blob: Option<Seq<u8>>) -> Option<ClipboardWriteView> {
    match d {
        ClipDataView::Spilled { kind, .. } => match blob {
            Some(b) => spec_write_for(spec_restore(kind, b)),
            None => None,
        },
        _ => spec_write_for(d),
    }
}

/// The clipboard write that syncing `data` performs (see
/// [`spec_sync_write`]).
pub fn sync_write(data: &ClipData, blob: Option<Vec<u8>>) -> (r: Option<ClipboardWrite>)
    ensures
        opt_write_view(r) == spec_sync_write(data@, opt_bytes_view(blob)),
{
    match hydrate(data, blob) {
        Ok(h) => write_for(h.data()),
        Err(_) => None,
    }
}

} // verus!
