//! Bytes of log files and upload payloads: text decoding by byte-order
//! mark, log file names, and the compressed payload frame.
use vstd::prelude::*;
use vstd::utf8::{decode_utf8, valid_utf8};
use vstd::slice::slice_subrange;

verus! {

/// Text of bytes read as UTF-16 little-endian, `None` when malformed.
pub uninterp spec fn utf16le_text(b: Seq<u8>) -> Option<Seq<char>>;

/// Text of bytes read as UTF-16 big-endian, `None` when malformed.
pub uninterp spec fn utf16be_text(b: Seq<u8>) -> Option<Seq<char>>;

/// Relies on `encoding_rs::Encoding::decode_without_bom_handling_and_without_replacement`
/// for `UTF_16LE`: the text of the bytes, `None` on a malformed sequence.
#[verifier::external_body]
fn decode_utf16le(bytes: &[u8]) -> (r: Option<String>)
    ensures
        match r {
            Some(s) => utf16le_text(bytes@) == Some(s@),
            None => utf16le_text(bytes@) is None,
        },
{
    match encoding_rs::UTF_16LE.decode_without_bom_handling_and_without_replacement(bytes) {
        Some(text) => Some(text.into_owned()),
        None => None,
    }
}

/// Relies on `encoding_rs::Encoding::decode_without_bom_handling_and_without_replacement`
/// for `UTF_16BE`: the text of the bytes, `None` on a malformed sequence.
#[verifier::external_body]
fn decode_utf16be(bytes: &[u8]) -> (r: Option<String>)
    ensures
        match r {
            Some(s) => utf16be_text(bytes@) == Some(s@),
            None => utf16be_text(bytes@) is None,
        },
{
    match encoding_rs::UTF_16BE.decode_without_bom_handling_and_without_replacement(bytes) {
        Some(text) => Some(text.into_owned()),
        None => None,
    }
}

/// Relies on `encoding_rs::Encoding::decode_without_bom_handling_and_without_replacement`
/// for `UTF_8`: the bytes as text when they are valid UTF-8, else `None`.
#[verifier::external_body]
fn decode_utf8_bytes(bytes: &[u8]) -> (r: Option<String>)
    ensures
        r is Some <==> valid_utf8(bytes@),
        r matches Some(s) ==> s@ == decode_utf8(bytes@),
{
    match encoding_rs::UTF_8.decode_without_bom_handling_and_without_replacement(bytes) {
        Some(text) => Some(text.into_owned()),
        None => None,
    }
}

/// Text of a log file by its byte-order mark: `FF FE` is UTF-16
/// little-endian, `FE FF` UTF-16 big-endian, `EF BB BF` or none UTF-8; the
/// mark is not part of the text. `None` when the bytes are malformed.
pub open spec fn log_text(b: Seq<u8>) -> Option<Seq<char>> {
    if b.len() >= 2 && b[0] == 0xFFu8 && b[1] == 0xFEu8 {
        utf16le_text(b.subrange(2, b.len() as int))
    } else if b.len() >= 3 && b[0] == 0xEFu8 && b[1] == 0xBBu8 && b[2] == 0xBFu8 {
        let rest = b.subrange(3, b.len() as int);
        if valid_utf8(rest) { Some(decode_utf8(rest)) } else { None }
    } else if b.len() >= 2 && b[0] == 0xFEu8 && b[1] == 0xFFu8 {
        utf16be_text(b.subrange(2, b.len() as int))
    } else if valid_utf8(b) {
        Some(decode_utf8(b))
    } else {
        None
    }
}

/// Decodes the bytes of a log file (see `log_text`).
pub fn decode_log_bytes(raw: &[u8]) -> (r: Option<String>)
    ensures
        match r {
            Some(s) => log_text(raw@) == Some(s@),
            None => log_text(raw@) is None,
        },
{
    let n = raw.len();
    if n >= 2 && raw[0] == 0xFF && raw[1] == 0xFE {
        decode_utf16le(slice_subrange(raw, 2, n))
    } else if n >= 3 && raw[0] == 0xEF && raw[1] == 0xBB && raw[2] == 0xBF {
        decode_utf8_bytes(slice_subrange(raw, 3, n))
    } else if n >= 2 && raw[0] == 0xFE && raw[1] == 0xFF {
        decode_utf16be(slice_subrange(raw, 2, n))
    } else {
        decode_utf8_bytes(raw)
    }
}

/// Whether `text` holds a match of the regular expression `pattern`.
pub uninterp spec fn regex_matches(pattern: Seq<char>, text: Seq<char>) -> bool;

/// Relies on `regex::Regex::new` and `regex::Regex::is_match`: the log file
/// name pattern is valid regex syntax, so it compiles, and the result is
/// whether the text holds a match of it anywhere.
#[verifier::external_body]
fn pattern_matches(pattern: &str, text: &str) -> (r: bool)
    requires
        pattern@ == LOG_FILE_NAME_PATTERN@,
    ensures
        r == regex_matches(pattern@, text@),
{
    match regex::Regex::new(pattern) {
        Ok(re) => re.is_match(text),
        Err(_) => false,
    }
}

/// Pattern of the names of log files.
pub const LOG_FILE_NAME_PATTERN: &'static str = "MissionMonitor_([0-9]+).txt";

/// Whether a file name is the name of a log file.
pub fn is_log_file_name(file_name: &str) -> (r: bool)
    ensures
        r == regex_matches(LOG_FILE_NAME_PATTERN@, file_name@),
{
    pattern_matches(LOG_FILE_NAME_PATTERN, file_name)
}

/// The zstd frame of `data` at compression level `level`.
pub uninterp spec fn zstd_frame(data: Seq<u8>, level: int) -> Seq<u8>;

/// The content of a zstd frame, `None` when `data` is not one.
pub uninterp spec fn zstd_content(data: Seq<u8>) -> Option<Seq<u8>>;

/// Relies on `zstd::stream::encode_all`: the data compressed into one zstd
/// frame at the given level, `None` when the encoder fails.
#[verifier::external_body]
fn zstd_encode(data: &[u8], level: i32) -> (r: Option<Vec<u8>>)
    ensures
        r matches Some(v) ==> v@ == zstd_frame(data@, level as int),
{
    match zstd::stream::encode_all(data, level) {
        Ok(v) => Some(v),
        Err(_) => None,
    }
}

/// Relies on `zstd::stream::decode_all`: the decompressed content of the
/// data, `None` when it is not a zstd frame or decoding fails.
#[verifier::external_body]
fn zstd_decode(data: &[u8]) -> (r: Option<Vec<u8>>)
    ensures
        r matches Some(v) ==> zstd_content(data@) == Some(v@),
{
    match zstd::stream::decode_all(data) {
        Ok(v) => Some(v),
        Err(_) => None,
    }
}

/// Compression level of upload payloads.
pub const PAYLOAD_COMPRESSION_LEVEL: i32 = 15;

/// Compresses an upload payload into one zstd frame.
pub fn compress(data: &[u8]) -> (r: Option<Vec<u8>>)
    ensures
        r matches Some(v) ==> v@ == zstd_frame(data@, PAYLOAD_COMPRESSION_LEVEL as int),
{
    zstd_encode(data, PAYLOAD_COMPRESSION_LEVEL)
}

/// Why an upload payload was refused.
#[derive(Clone, Copy, Debug, PartialEq, Eq, Structural)]
pub enum PayloadError {
    /// The payload is not a zstd frame.
    NotCompressed,
}

/// The content of an uploaded payload.
pub fn decompress_zstd_payload(data: &[u8]) -> (r: Result<Vec<u8>, PayloadError>)
    ensures
        r matches Ok(v) ==> zstd_content(data@) == Some(v@),
        zstd_content(data@) is None ==> r == Err::<Vec<u8>, PayloadError>(PayloadError::NotCompressed),
{
    match zstd_decode(data) {
        Some(v) => Ok(v),
        None => Err(PayloadError::NotCompressed),
    }
}

} // verus!
