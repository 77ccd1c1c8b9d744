//! The UTF-8 codec bindings: decoding a window of a byte buffer to a string, with
//! byte-order-mark handling and a fatal or replacing mode, and encoding a string.

use vstd::prelude::*;
use vstd::slice::{slice_subrange, slice_to_vec};
use vstd::utf8::*;

verus! {

/// What `String::from_utf8_lossy` makes of `bytes`: every maximal invalid
/// sequence replaced by U+FFFD.
pub uninterp spec fn lossy_utf8(bytes: Seq<u8>) -> Seq<char>;

/// Relies on std::str::from_utf8: it accepts exactly the valid UTF-8 sequences and
/// then reads their characters.
#[verifier::external_body]
pub(crate) fn utf8_str(bytes: &[u8]) -> (r: Option<&str>)
    ensures
        r is Some <==> valid_utf8(bytes@),
        r is Some ==> r->Some_0@ == decode_utf8(bytes@),
{
    std::str::from_utf8(bytes).ok()
}

/// A byte that can never start a UTF-8 sequence: a continuation byte, a lead
/// byte of an overlong form (0xC0, 0xC1), or one above 0xF4.
pub open spec fn never_leads(b: u8) -> bool {
    (0x80 <= b && b <= 0xC1) || b >= 0xF5
}

/// Every byte of `b` can never start a UTF-8 sequence.
pub open spec fn all_never_lead(b: Seq<u8>) -> bool {
    forall|i: int| 0 <= i < b.len() ==> never_leads(#[trigger] b[i])
}

/// One U+FFFD for each of `n` bytes.
pub open spec fn replacements(n: nat) -> Seq<char> {
    Seq::new(n, |i: int| '\u{FFFD}')
}

/// Relies on String::from_utf8_lossy: valid UTF-8 is read as it stands, anything
/// else has its invalid sequences replaced; a byte that can never start a
/// sequence is one invalid sequence of its own.
#[verifier::external_body]
fn utf8_lossy(bytes: &[u8]) -> (r: String)
    ensures
        r@ == lossy_utf8(bytes@),
        valid_utf8(bytes@) ==> r@ == decode_utf8(bytes@),
        all_never_lead(bytes@) ==> r@ == replacements(bytes@.len()),
{
    String::from_utf8_lossy(bytes).into_owned()
}

/// Why a decode was refused.
#[derive(Debug, Clone, Copy, PartialEq, Eq, Structural)]
pub enum DecodeError {
    /// The offset and length do not lie within the buffer.
    OutOfRange,
    /// Fatal mode met bytes that are not valid UTF-8.
    InvalidData,
}

/// The UTF-8 byte-order mark.
pub open spec fn starts_with_bom(v: Seq<u8>) -> bool {
    v.len() >= 3 && v[0] == 0xEFu8 && v[1] == 0xBBu8 && v[2] == 0xBFu8
}

/// The bytes to decode: the window, less a leading byte-order mark unless it is kept.
pub open spec fn decode_window(buffer: Seq<u8>, offset: nat, length: nat, ignore_bom: bool) -> Seq<u8> {
    let w = buffer.subrange(offset as int, (offset + length) as int);
    if !ignore_bom && starts_with_bom(w) {
        w.subrange(3, w.len() as int)
    } else {
        w
    }
}

/// The outcome of decoding `length` bytes of `buffer` from `offset`: valid UTF-8
/// decodes as it stands in either mode, and in replacing mode each byte that can
/// never start a sequence becomes one U+FFFD.
pub open spec fn decoded(
    buffer: Seq<u8>,
    offset: nat,
    length: nat,
    fatal: bool,
    ignore_bom: bool,
) -> Result<Seq<char>, DecodeError> {
    if offset + length > buffer.len() {
        Err(DecodeError::OutOfRange)
    } else {
        let v = decode_window(buffer, offset, length, ignore_bom);
        if !fatal && all_never_lead(v) {
            Ok(replacements(v.len()))
        } else if valid_utf8(v) {
            Ok(decode_utf8(v))
        } else if !fatal {
            Ok(lossy_utf8(v))
        } else {
            Err(DecodeError::InvalidData)
        }
    }
}

/// Decodes `byte_length` bytes of `buffer` from `byte_offset` as UTF-8. A leading
/// byte-order mark is dropped unless `ignore_bom`. In `fatal` mode invalid data is
/// an error; otherwise each invalid sequence becomes U+FFFD.
pub fn decode_utf8_buffer(
    buffer: &[u8],
    byte_offset: u32,
    byte_length: u32,
    fatal: bool,
    ignore_bom: bool,
) -> (r: Result<String, DecodeError>)
    ensures
        match decoded(buffer@, byte_offset as nat, byte_length as nat, fatal, ignore_bom) {
            Ok(text) => r is Ok && r->Ok_0@ == text,
            Err(e) => r == Err::<String, DecodeError>(e),
        },
{
    let end: u64 = byte_offset as u64 + byte_length as u64;
    if end > buffer.len() as u64 {
        return Err(DecodeError::OutOfRange);
    }
    let mut view = slice_subrange(buffer, byte_offset as usize, end as usize);
    if !ignore_bom && view.len() >= 3 && view[0] == 0xEFu8 && view[1] == 0xBBu8 && view[2] == 0xBFu8 {
        view = slice_subrange(view, 3, view.len());
    }
    assert(view@ == decode_window(buffer@, byte_offset as nat, byte_length as nat, ignore_bom));
    if fatal {
        match utf8_str(view) {
            Some(s) => Ok(s.to_owned()),
            None => Err(DecodeError::InvalidData),
        }
    } else {
        Ok(utf8_lossy(view))
    }
}

/// Encodes `s` as UTF-8 bytes.
pub fn encode_utf8_buffer(s: &str) -> (r: Vec<u8>)
    ensures
        r@ == encode_utf8(s@),
{
    slice_to_vec(s.as_bytes())
}

/// Bytes that begin with a byte that can never start a sequence are not UTF-8.
pub proof fn lemma_never_leading_invalid(b: Seq<u8>)
    requires
        b.len() > 0,
        never_leads(b[0]),
    ensures
        !valid_utf8(b),
{
    let b1 = b[0];
    if b.len() >= 2 && 0xC0 <= b1 <= 0xC1 && is_continuation_byte(b[1]) {
        let b2 = b[1];
        assert((((b1 & 0x1F) as u32) << 6) | ((b2 & 0x3f) as u32) < 0x80) by (bit_vector)
            requires
                0xC0 <= b1 <= 0xC1,
        ;
    }
    if b.len() >= 4 && 0xF5 <= b1 <= 0xF7 {
        let b2 = b[1];
        let b3 = b[2];
        let b4 = b[3];
        assert((((b1 & 0x07) as u32) << 18) | (((b2 & 0x3f) as u32) << 12) | (((b3 & 0x3f) as u32)
            << 6) | ((b4 & 0x3f) as u32) > 0x10ffff) by (bit_vector)
            requires
                0xF5 <= b1 <= 0xF7,
        ;
    }
}

/// Encoding and then decoding in fatal mode, keeping any byte-order mark, gives the
/// text back.
pub proof fn lemma_decode_of_encoded(s: Seq<char>)
    ensures
        decoded(encode_utf8(s), 0, encode_utf8(s).len(), true, true) == Ok::<Seq<char>, DecodeError>(s),
{
    broadcast use vstd::utf8::encode_utf8_valid_utf8, vstd::utf8::encode_utf8_decode_utf8;

    let b = encode_utf8(s);
    assert(b.subrange(0, b.len() as int) =~= b);
}

} // verus!
