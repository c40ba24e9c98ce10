//! Classifying raw clipboard bytes, and normalising images to PNG.

use vstd::prelude::*;
use vstd::string::*;
use vstd::utf8::{decode_utf8, valid_utf8};
use crate::config::str_eq;
use crate::ram::opt_string_view;
use crate::vault::opt_bytes_view;

verus! {

/// The most specific kind found for a byte payload.
#[derive(Debug, Clone, Copy, PartialEq, Eq, Structural)]
pub enum DetectedType {
    PlainText,
    /// RTF.
    RichText,
    ImagePng,
    ImageJpeg,
    ImageOther,
    FilePaths,
    Binary,
}

/// The MIME type that `infer::get` recognises from the magic bytes at the
/// start of `bytes`, if any.
pub uninterp spec fn inferred_mime(bytes: Seq<u8>) -> Option<Seq<char>>;

/// `infer::get` followed by `Type::mime_type`: the MIME type recognised
/// from the magic bytes of `bytes`. The result depends on the bytes alone.
#[verifier::external_body]
fn infer_mime(bytes: &[u8]) -> (r: Option<String>)
    ensures
        opt_string_view(r) == inferred_mime(bytes@),
{
    match infer::get(bytes) {
        Some(kind) => Some(kind.mime_type().to_string()),
        None => None,
    }
}

/// `std::str::from_utf8`: the text that `bytes` encode when they are valid
/// UTF-8, `None` when they are not.
#[verifier::external_body]
pub(crate) fn utf8_text(bytes: &[u8]) -> (r: Option<String>)
    ensures
        match r {
            Some(s) => valid_utf8(bytes@) && s@ == decode_utf8(bytes@),
            None => !valid_utf8(bytes@),
        },
{
    match std::str::from_utf8(bytes) {
        Ok(s) => Some(s.to_string()),
        Err(_) => None,
    }
}

/// The PNG encoding of the image that `bytes` hold (its format guessed from
/// the bytes), as the `image` crate decodes and re-encodes it; `None` when
/// the bytes are not a decodable image.
pub uninterp spec fn png_normalised(bytes: Seq<u8>) -> Option<Seq<u8>>;

/// Converts raw image bytes to PNG with the `image` crate (format guessed
/// from the bytes, decoded, re-encoded as PNG), so every stored image is a
/// PNG whatever its source format. `None` when decoding or encoding fails.
///
/// Trusted, beyond the result being the name applied to the bytes: that the
/// crate's decoders return an error rather than panic on malformed input.
/// Its source does not settle this for every decoder, so nothing here
/// proves that this call returns.
#[verifier::external_body]
pub fn normalise_image(bytes: &[u8]) -> (r: Option<Vec<u8>>)
    ensures
        opt_bytes_view(r) == png_normalised(bytes@),
{
    let reader = image::io::Reader::new(std::io::Cursor::new(bytes)).with_guessed_format().ok()?;
    let img = reader.decode().ok()?;
    let mut out: Vec<u8> = Vec::new();
    img.write_to(&mut std::io::Cursor::new(&mut out), image::ImageOutputFormat::Png).ok()?;
    Some(out)
}

/// The RTF magic, `{\rtf`.
pub open spec fn rtf_magic() -> Seq<u8> {
    seq![0x7bu8, 0x5cu8, 0x72u8, 0x74u8, 0x66u8]
}

/// True when `s` begins with `prefix`.
pub open spec fn seq_starts_with<A>(s: Seq<A>, prefix: Seq<A>) -> bool {
    prefix.len() <= s.len() && s.take(prefix.len() as int) == prefix
}

/// The classification of a payload given the MIME type recognised from its
/// magic bytes: PNG, JPEG and other images by MIME type; then RTF by its
/// magic; then valid UTF-8 as plain text; anything else is binary.
pub open spec fn spec_detect(bytes: Seq<u8>, mime: Option<Seq<char>>) -> DetectedType {
    if mime == Some("image/png"@) {
        DetectedType::ImagePng
    } else if mime == Some("image/jpeg"@) {
        DetectedType::ImageJpeg
    } else if mime is Some && seq_starts_with(mime->0, "image/"@) {
        DetectedType::ImageOther
    } else if seq_starts_with(bytes, rtf_magic()) {
        DetectedType::RichText
    } else if valid_utf8(bytes) {
        DetectedType::PlainText
    } else {
        DetectedType::Binary
    }
}

/// True when `s` begins with `prefix`.
pub fn str_starts_with(s: &str, prefix: &str) -> (r: bool)
    ensures
        r == seq_starts_with(s@, prefix@),
{
    let n = prefix.unicode_len();
    if n > s.unicode_len() {
        return false;
    }
    let mut i: usize = 0;
    while i < n
        invariant
            n == prefix@.len(),
            n <= s@.len(),
            0 <= i <= n,
            forall|j: int| 0 <= j < i ==> s@[j] == prefix@[j],
        decreases n - i,
    {
        if s.get_char(i) != prefix.get_char(i) {
            assert(s@.take(n as int)[i as int] != prefix@[i as int]);
            return false;
        }
        i += 1;
    }
    assert(s@.take(n as int) =~= prefix@);
    true
}

fn bytes_start_with_rtf(bytes: &[u8]) -> (r: bool)
    ensures
        r == seq_starts_with(bytes@, rtf_magic()),
{
    if bytes.len() < 5 {
        return false;
    }
    let r = bytes[0] == 0x7bu8 && bytes[1] == 0x5cu8 && bytes[2] == 0x72u8 && bytes[3] == 0x74u8
        && bytes[4] == 0x66u8;
    proof {
        if r {
            assert(bytes@.take(5) =~= rtf_magic());
        } else {
            assert(bytes@.take(5) != rtf_magic()) by {
                if bytes@.take(5) == rtf_magic() {
                    assert(bytes@.take(5)[0] == bytes@[0]);
                    assert(bytes@.take(5)[1] == bytes@[1]);
                    assert(bytes@.take(5)[2] == bytes@[2]);
                    assert(bytes@.take(5)[3] == bytes@[3]);
                    assert(bytes@.take(5)[4] == bytes@[4]);
                }
            }
        }
    }
    r
}

/// Classifies `bytes` given the MIME type recognised from their magic
/// bytes (see [`spec_detect`]).
pub fn classify(bytes: &[u8], mime: Option<String>) -> (r: DetectedType)
    ensures
        r == spec_detect(bytes@, opt_string_view(mime)),
{
    if let Some(m) = &mime {
        if str_eq(m.as_str(), "image/png") {
            return DetectedType::ImagePng;
        }
        if str_eq(m.as_str(), "image/jpeg") {
            return DetectedType::ImageJpeg;
        }
        if str_starts_with(m.as_str(), "image/") {
            return DetectedType::ImageOther;
        }
    }
    if bytes_start_with_rtf(bytes) {
        return DetectedType::RichText;
    }
    if utf8_text(bytes).is_some() {
        return DetectedType::PlainText;
    }
    DetectedType::Binary
}

/// Detects the kind of a byte payload: image types from the magic bytes
/// (as `infer` recognises them), then RTF, then UTF-8 text, else binary.
pub fn detect_bytes(bytes: &[u8]) -> (r: DetectedType)
    ensures
        r == spec_detect(bytes@, inferred_mime(bytes@)),
{
    let mime = infer_mime(bytes);
    classify(bytes, mime)
}

} // verus!
