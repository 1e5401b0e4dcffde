//! Text decoding for character fields.
//!
//! The transport format stores names, labels and character cells as raw
//! bytes in an encoding chosen by the caller.  The reader supports UTF-8
//! (through `std`) and GBK (through the `encoding` crate); both presets
//! trim surrounding whitespace, as the stored fields are space-padded.

use vstd::prelude::*;

use crate::error::XPTError;

verus! {

/// What `String::from_utf8` yields: `Some` exactly on valid UTF-8 input.
pub uninterp spec fn utf8_of(b: Seq<u8>) -> Option<Seq<char>>;

/// What GBK decoding with ignored errors yields for a byte sequence.
pub uninterp spec fn gbk_of(b: Seq<u8>) -> Seq<char>;

/// What `str::trim` yields for a character sequence.
pub uninterp spec fn trim_of(s: Seq<char>) -> Seq<char>;

/// What `String::from_utf8_lossy` yields for a byte sequence.
pub uninterp spec fn lossy_of(b: Seq<u8>) -> Seq<char>;

/// Relies on `String::from_utf8`: returns `Some` exactly when the bytes
/// are valid UTF-8, and then the decoded characters.
#[verifier::external_body]
fn utf8_decode(b: &[u8]) -> (r: Option<String>)
    ensures
        r is Some <==> utf8_of(b@) is Some,
        r matches Some(s) ==> s@ == utf8_of(b@)->Some_0,
{
    String::from_utf8(b.to_vec()).ok()
}

/// Relies on the `encoding` crate's GBK decoder with `DecoderTrap::Ignore`,
/// which skips malformed sequences and therefore always yields a string.
#[verifier::external_body]
fn gbk_decode(b: &[u8]) -> (r: Option<String>)
    ensures
        r is Some,
        r matches Some(s) ==> s@ == gbk_of(b@),
{
    encoding::Encoding::decode(encoding::all::GBK, b, encoding::DecoderTrap::Ignore).ok()
}

/// Relies on `str::trim`: removes leading and trailing whitespace.
#[verifier::external_body]
fn trim_string(s: &String) -> (r: String)
    ensures
        r@ == trim_of(s@),
{
    s.trim().to_string()
}

/// Relies on `String::from_utf8_lossy`: best-effort text used in error
/// reports, so that every error carries the offending bytes as text.
#[verifier::external_body]
pub(crate) fn lossy_text(b: &[u8]) -> (r: String)
    ensures
        r@ == lossy_of(b@),
{
    String::from_utf8_lossy(b).into_owned()
}

/// The text encodings a reader can be asked to use for character data.
#[derive(Clone, Copy, PartialEq, Eq, Structural)]
pub enum TextCodec {
    Utf8,
    Gbk,
}

/// Whether a byte field decodes at all under `codec`.
pub open spec fn decodes(codec: TextCodec, bytes: Seq<u8>) -> bool {
    match codec {
        TextCodec::Utf8 => utf8_of(bytes) is Some,
        TextCodec::Gbk => true,
    }
}

/// The trimmed text that `decode_text` produces when it succeeds.
pub open spec fn decoded_text(codec: TextCodec, bytes: Seq<u8>) -> Seq<char> {
    match codec {
        TextCodec::Utf8 => trim_of(utf8_of(bytes)->Some_0),
        TextCodec::Gbk => trim_of(gbk_of(bytes)),
    }
}

/// Decode a byte field to trimmed text under the chosen encoding.
pub fn decode_text(codec: TextCodec, bytes: &[u8]) -> (r: Result<String, XPTError>)
    ensures
        r is Ok <==> decodes(codec, bytes@),
        r matches Ok(s) ==> s@ == decoded_text(codec, bytes@),
        r matches Err(e) ==> e is DecodeError && e.text() == lossy_of(bytes@),
{
    match codec {
        TextCodec::Utf8 => match utf8_decode(bytes) {
            Some(s) => Ok(trim_string(&s)),
            None => Err(XPTError::DecodeError(lossy_text(bytes))),
        },
        TextCodec::Gbk => match gbk_decode(bytes) {
            Some(s) => Ok(trim_string(&s)),
            None => Err(XPTError::DecodeError(lossy_text(bytes))),
        },
    }
}

/// Decode a whole card as untrimmed UTF-8 text, as used for the
/// timestamp cards, whose spacing is preserved.
pub fn decode_utf8_raw(bytes: &[u8]) -> (r: Result<String, XPTError>)
    ensures
        r is Ok <==> utf8_of(bytes@) is Some,
        r matches Ok(s) ==> s@ == utf8_of(bytes@)->Some_0,
        r matches Err(e) ==> e is DecodeError && e.text() == lossy_of(bytes@),
{
    match utf8_decode(bytes) {
        Some(s) => Ok(s),
        None => Err(XPTError::DecodeError(lossy_text(bytes))),
    }
}

} // verus!
