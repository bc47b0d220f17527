//! What the receiving side reads from the sender: the announcement that
//! names the file and its chunk count, and the quoted base64 payload of each
//! chunk event.

use vstd::prelude::*;
use vstd::utf8::*;
use crate::codec::{base64_decoded, b64_decode, string_from_utf8, trim_both, trim_byte};

verus! {

/// The announcement of an incoming file.
pub struct FileHeader {
    pub chunk_count: u8,
    pub filename: String,
}

/// Why an announcement was refused.
#[derive(Debug, Clone, Copy, PartialEq, Eq, Structural)]
pub enum HeaderError {
    /// The text is not unpadded standard base64.
    InvalidBase64,
    /// Fewer than the three header bytes.
    TooShort,
    /// The name length byte reaches past the end of the data.
    NameOverrun,
    /// The name bytes are not UTF-8.
    InvalidUtf8,
}

/// Why a chunk payload was refused.
#[derive(Debug, Clone, Copy, PartialEq, Eq, Structural)]
pub enum PayloadError {
    /// The trimmed payload is not unpadded standard base64.
    InvalidBase64,
}

/// The announcement layout: byte 1 is the chunk count, byte 2 the length of
/// the name, and the name's UTF-8 bytes start at byte 3.
pub open spec fn header_of(b: Seq<u8>) -> Result<(u8, Seq<char>), HeaderError> {
    if b.len() < 3 {
        Err(HeaderError::TooShort)
    } else if 3 + b[2] > b.len() {
        Err(HeaderError::NameOverrun)
    } else {
        let name = b.subrange(3, 3 + b[2]);
        if valid_utf8(name) {
            Ok((b[1], decode_utf8(name)))
        } else {
            Err(HeaderError::InvalidUtf8)
        }
    }
}

/// The announcement carried by a base64 text.
pub open spec fn header_of_text(t: Seq<u8>) -> Result<(u8, Seq<char>), HeaderError> {
    match base64_decoded(t) {
        None => Err(HeaderError::InvalidBase64),
        Some(b) => header_of(b),
    }
}

/// Relates a parse result to its model.
pub open spec fn header_matches(r: Result<FileHeader, HeaderError>, m: Result<(u8, Seq<char>), HeaderError>) -> bool {
    match r {
        Ok(h) => m == Ok::<(u8, Seq<char>), HeaderError>((h.chunk_count, h.filename@)),
        Err(e) => m == Err::<(u8, Seq<char>), HeaderError>(e),
    }
}

/// Reads an announcement from its decoded bytes.
pub fn parse_file_header(bytes: &[u8]) -> (r: Result<FileHeader, HeaderError>)
    ensures
        header_matches(r, header_of(bytes@)),
{
    if bytes.len() < 3 {
        return Err(HeaderError::TooShort);
    }
    let chunk_count: u8 = bytes[1];
    let name_len: usize = bytes[2] as usize;
    if 3 + name_len > bytes.len() {
        return Err(HeaderError::NameOverrun);
    }
    let name = vstd::slice::slice_to_vec(vstd::slice::slice_subrange(bytes, 3, 3 + name_len));
    match string_from_utf8(name) {
        Ok(filename) => Ok(FileHeader { chunk_count, filename }),
        Err(_) => Err(HeaderError::InvalidUtf8),
    }
}

/// Reads an announcement from the base64 text the peer sent.
pub fn decode_file_header(encoded: &str) -> (r: Result<FileHeader, HeaderError>)
    ensures
        header_matches(r, header_of_text(encode_utf8(encoded@))),
{
    match b64_decode(encoded.as_bytes()) {
        Ok(bytes) => parse_file_header(bytes.as_slice()),
        Err(_) => Err(HeaderError::InvalidBase64),
    }
}

/// The payload of a chunk event with its JSON quotes and escapes removed.
pub open spec fn unquoted(p: Seq<u8>) -> Seq<u8> {
    trim_both(trim_both(trim_both(p, 0x22), 0x5c), 0x22)
}

/// What a chunk payload carries: nothing for an empty chunk, else the chunk
/// index (first byte) and the data (the rest).
pub open spec fn chunk_of(p: Seq<u8>) -> Result<Option<(u8, Seq<u8>)>, PayloadError> {
    match base64_decoded(unquoted(p)) {
        None => Err(PayloadError::InvalidBase64),
        Some(b) => if b.len() == 0 {
            Ok(None)
        } else {
            Ok(Some((b[0], b.drop_first())))
        },
    }
}

/// Strips the quotes from a chunk payload, decodes it and splits off the
/// index byte.
pub fn decode_chunk_payload(payload: &str) -> (r: Result<Option<(u8, Vec<u8>)>, PayloadError>)
    ensures
        match r {
            Ok(None) => chunk_of(encode_utf8(payload@)) == Ok::<Option<(u8, Seq<u8>)>, PayloadError>(None),
            Ok(Some((i, d))) => chunk_of(encode_utf8(payload@)) == Ok::<Option<(u8, Seq<u8>)>, PayloadError>(Some((i, d@))),
            Err(e) => chunk_of(encode_utf8(payload@)) == Err::<Option<(u8, Seq<u8>)>, PayloadError>(e),
        },
{
    let t1 = trim_byte(payload.as_bytes(), 0x22);
    let t2 = trim_byte(t1.as_slice(), 0x5c);
    let t3 = trim_byte(t2.as_slice(), 0x22);
    match b64_decode(t3.as_slice()) {
        Err(_) => Err(PayloadError::InvalidBase64),
        Ok(bytes) => {
            if bytes.len() == 0 {
                Ok(None)
            } else {
                let idx: u8 = bytes[0];
                let data = vstd::slice::slice_to_vec(vstd::slice::slice_subrange(bytes.as_slice(), 1, bytes.len()));
                assert(data@ =~= bytes@.drop_first());
                Ok(Some((idx, data)))
            }
        },
    }
}

/// An announcement is read whole: it is refused as too short exactly
/// below three bytes, as overrunning exactly when the name length reaches
/// past the end, and otherwise read exactly when the name bytes are UTF-8;
/// then the count is byte 1 and the name is the one whose UTF-8 encoding is
/// exactly the `b[2]` bytes from byte 3 on.
pub proof fn lemma_header_reads_whole_name(b: Seq<u8>)
    ensures
        (header_of(b) == Err::<(u8, Seq<char>), HeaderError>(HeaderError::TooShort)) <==> b.len() < 3,
        (header_of(b) == Err::<(u8, Seq<char>), HeaderError>(HeaderError::NameOverrun))
            <==> (b.len() >= 3 && 3 + b[2] > b.len()),
        b.len() >= 3 && 3 + b[2] <= b.len() ==> (header_of(b) is Ok <==> valid_utf8(b.subrange(3, 3 + b[2]))),
        header_of(b) matches Ok((count, name)) ==> {
            &&& count == b[1]
            &&& encode_utf8(name) == b.subrange(3, 3 + b[2])
            &&& encode_utf8(name).len() == b[2]
        },
{
    if b.len() >= 3 && 3 + b[2] <= b.len() {
        let raw = b.subrange(3, 3 + b[2]);
        if valid_utf8(raw) {
            decode_utf8_encode_utf8(raw);
        }
    }
}

/// A chunk payload keeps every decoded byte: it is refused exactly when its
/// unquoted text does not decode, carries nothing exactly when it decodes
/// to no bytes, and otherwise its index followed by its data is exactly the
/// decoded bytes (so the data is all of them after the first).
pub proof fn lemma_chunk_keeps_all_bytes(p: Seq<u8>)
    ensures
        chunk_of(p) is Err <==> base64_decoded(unquoted(p)) is None,
        base64_decoded(unquoted(p)) matches Some(b) ==> {
            &&& (chunk_of(p) == Ok::<Option<(u8, Seq<u8>)>, PayloadError>(None)) <==> b.len() == 0
            &&& chunk_of(p) matches Ok(Some((idx, data))) ==> {
                &&& seq![idx] + data == b
                &&& data.len() == b.len() - 1
                &&& forall|i: int| 0 <= i < data.len() ==> #[trigger] data[i] == b[i + 1]
            }
        },
{
    if let Some(b) = base64_decoded(unquoted(p)) {
        if b.len() > 0 {
            assert(seq![b[0]] + b.drop_first() =~= b);
        }
    }
}

} // verus!
