//! From the bytes of a log file to its text.

use encoding_rs::UTF_16LE;
use encoding_rs_io::DecodeReaderBytesBuilder;
use std::io::Read;
use vstd::prelude::*;

verus! {

/// What comes of reading the bytes of a log file to their end as UTF-16,
/// little-endian: the text that encoding_rs decodes from them, without a leading
/// byte order mark of that encoding and with the replacement character for each
/// ill-formed sequence; or nothing, where the read ends in an error.
pub uninterp spec fn utf16le_decoded(bytes: Seq<u8>) -> Option<Seq<char>>;

/// Reads `bytes` to their end through the `DecodeReaderBytes` that
/// `DecodeReaderBytesBuilder` of encoding_rs_io builds for the encoding
/// `UTF_16LE` of encoding_rs, with the builder's other settings as they are.
///
/// Trusted: what comes of the read, a text or an error, depends on the bytes
/// alone, and is [`utf16le_decoded`] of them. Nothing is claimed of which bytes
/// give a text.
#[verifier::external_body]
pub(crate) fn read_utf16le(bytes: &[u8]) -> (r: Option<String>)
    ensures
        match r {
            Some(text) => utf16le_decoded(bytes@) == Some(text@),
            None => utf16le_decoded(bytes@) is None,
        },
{
    let mut reader = DecodeReaderBytesBuilder::new().encoding(Some(UTF_16LE)).build(bytes);
    let mut text = String::new();
    match reader.read_to_string(&mut text) {
        Ok(_) => Some(text),
        Err(_) => None,
    }
}

} // verus!
