//! The engine's text conventions: NUL-terminated strings going in, sized
//! buffers coming out.
use crate::error::DbgError;
use vstd::prelude::*;
use vstd::string::*;
use vstd::utf8::*;

verus! {

/// Size of the buffer that receives a symbol name.
pub const SYMBOL_NAME_CAPACITY: usize = 1024;

/// Most bytes read for one NUL-terminated string of the target, terminator included.
pub const CSTR_MAX_BYTES: usize = 256;

/// No byte of `bytes` is a NUL.
pub open spec fn is_nul_free(bytes: Seq<u8>) -> bool {
    forall|i: int| 0 <= i < bytes.len() ==> bytes[i] != 0
}

/// `i` is the position of the first NUL byte of `bytes`.
pub open spec fn first_nul_at(bytes: Seq<u8>, i: int) -> bool {
    &&& 0 <= i < bytes.len()
    &&& bytes[i] == 0
    &&& is_nul_free(bytes.take(i))
}

/// What encoding `bytes` as a C string gives: the bytes and a terminator, or
/// `InvalidString` at the first NUL.
pub open spec fn cstring_result(bytes: Seq<u8>, r: Result<Vec<u8>, DbgError>) -> bool {
    match r {
        Ok(c) => is_nul_free(bytes) && c@ == bytes.push(0),
        Err(e) => exists|i: int| first_nul_at(bytes, i) && e == DbgError::InvalidString(i as usize),
    }
}

/// `buffer` resized to `len` bytes: cut short, or padded with zeros.
pub open spec fn resized(buffer: Seq<u8>, len: nat) -> Seq<u8> {
    if len <= buffer.len() {
        buffer.take(len as int)
    } else {
        buffer + Seq::new((len - buffer.len()) as nat, |_i: int| 0u8)
    }
}

/// The text that lossy UTF-8 decoding makes of `bytes`.
pub uninterp spec fn lossy_text(bytes: Seq<u8>) -> Seq<char>;

/// What a buffer that the engine filled, with the size it reported
/// (terminator included), stands for.
pub open spec fn sized_text(buffer: Seq<u8>, size: u32) -> Result<Seq<char>, DbgError> {
    if size == 0 {
        Err(DbgError::InvalidSize(0))
    } else {
        Ok(lossy_text(resized(buffer, (size - 1) as nat)))
    }
}

/// The view of a text result.
pub open spec fn text_view(r: Result<String, DbgError>) -> Result<Seq<char>, DbgError> {
    match r {
        Ok(s) => Ok(s@),
        Err(e) => Err(e),
    }
}

/// Relies on `String::from_utf8_lossy`: the decoding depends on the bytes
/// alone, and valid UTF-8 is decoded as it is.
#[verifier::external_body]
fn decode_lossy(bytes: &[u8]) -> (r: String)
    ensures
        r@ == lossy_text(bytes@),
        valid_utf8(bytes@) ==> r@ == decode_utf8(bytes@),
{
    String::from_utf8_lossy(bytes).into_owned()
}

/// Turns `bytes` into a NUL-terminated string for the engine, refusing an
/// embedded NUL.
pub fn to_cstring(bytes: Vec<u8>) -> (r: Result<Vec<u8>, DbgError>)
    ensures
        cstring_result(bytes@, r),
{
    let mut i: usize = 0;
    while i < bytes.len()
        invariant
            0 <= i <= bytes.len(),
            is_nul_free(bytes@.take(i as int)),
        decreases bytes.len() - i,
    {
        if bytes[i] == 0 {
            assert(first_nul_at(bytes@, i as int));
            return Err(DbgError::InvalidString(i));
        }
        assert(bytes@.take(i + 1) =~= bytes@.take(i as int).push(bytes@[i as int]));
        i = i + 1;
    }
    assert(bytes@.take(i as int) =~= bytes@);
    let mut c = bytes;
    c.push(0);
    Ok(c)
}

/// Encodes `text` as a NUL-terminated UTF-8 string for the engine.
pub fn encode_text(text: &str) -> (r: Result<Vec<u8>, DbgError>)
    ensures
        cstring_result(text.spec_bytes(), r),
{
    to_cstring(text.as_bytes_vec())
}

/// Encodes a message for the engine's output, with a line feed after it
/// when `newline` holds.
pub fn output_text(text: &str, newline: bool) -> (r: Result<Vec<u8>, DbgError>)
    ensures
        cstring_result(
            if newline {
                text.spec_bytes().push(10u8)
            } else {
                text.spec_bytes()
            },
            r,
        ),
{
    let mut bytes = text.as_bytes_vec();
    if newline {
        bytes.push(10u8);
    }
    to_cstring(bytes)
}

/// Reads the text out of a buffer that the engine filled and whose size it
/// reported, terminator included: a size of zero means that there was
/// nothing to read; otherwise the terminator is dropped and the rest is
/// decoded lossily.
pub fn text_from_sized_buffer(buffer: Vec<u8>, size: u32) -> (r: Result<String, DbgError>)
    ensures
        text_view(r) == sized_text(buffer@, size),
        size > 0 && valid_utf8(resized(buffer@, (size - 1) as nat)) ==> (r matches Ok(s) && s@
            == decode_utf8(resized(buffer@, (size - 1) as nat))),
{
    if size == 0 {
        return Err(DbgError::InvalidSize(0));
    }
    let len = (size - 1) as usize;
    let mut bytes = buffer;
    let ghost before = bytes@;
    bytes.resize(len, 0u8);
    assert(bytes@ =~= resized(before, len as nat));
    Ok(decode_lossy(bytes.as_slice()))
}

/// A string shorter than the read bound comes back without its terminator,
/// whatever follows it in the buffer; a reported size of zero is refused
/// with `InvalidSize(0)` rather than read as an empty string.
pub proof fn lemma_cstr_read(s: Seq<u8>, buffer: Seq<u8>)
    requires
        is_nul_free(s),
        s.len() < CSTR_MAX_BYTES,
        buffer.len() == CSTR_MAX_BYTES,
        buffer.take(s.len() as int + 1) == s.push(0),
    ensures
        sized_text(buffer, (s.len() + 1) as u32) == Ok::<Seq<char>, DbgError>(lossy_text(s)),
        sized_text(buffer, 0) == Err::<Seq<char>, DbgError>(DbgError::InvalidSize(0)),
{
    assert(buffer.take(s.len() as int) =~= buffer.take(s.len() as int + 1).take(s.len() as int));
    assert(s.push(0).take(s.len() as int) =~= s);
}

/// A symbol name read from the engine goes back to it unchanged: when the
/// bytes written before the terminator are valid UTF-8 without a NUL, the
/// name decoded from them encodes to exactly those bytes and a terminator,
/// so the address lookup is asked about the name the engine produced.
pub proof fn lemma_symbol_name_round_trip(
    buffer: Seq<u8>,
    size: u32,
    name: String,
    lookup: Result<Vec<u8>, DbgError>,
)
    requires
        size > 0,
        valid_utf8(resized(buffer, (size - 1) as nat)),
        is_nul_free(resized(buffer, (size - 1) as nat)),
        text_view(Ok(name)) == sized_text(buffer, size),
        name@ == decode_utf8(resized(buffer, (size - 1) as nat)),
        cstring_result(encode_utf8(name@), lookup),
    ensures
        lookup matches Ok(c) && c@ == resized(buffer, (size - 1) as nat).push(0),
{
    decode_utf8_encode_utf8(resized(buffer, (size - 1) as nat));
    if let Err(e) = lookup {
        let i = choose|i: int| first_nul_at(encode_utf8(name@), i) && e == DbgError::InvalidString(i as usize);
        assert(encode_utf8(name@)[i] == 0);
    }
}

/// The UTF-8 encoding of a text that holds a NUL character holds a NUL byte.
proof fn lemma_nul_char_encodes_nul(text: Seq<char>, k: int)
    requires
        0 <= k < text.len(),
        text[k] == '\0',
    ensures
        !is_nul_free(encode_utf8(text)),
    decreases text.len(),
{
    let head = encode_scalar(text[0] as u32);
    let rest = encode_utf8(text.drop_first());
    assert(encode_utf8(text) == head + rest);
    if k == 0 {
        assert(text[0] as u32 == 0u32);
        assert(leading_byte_width_1(0u32) == 0u8) by (bit_vector);
        assert((head + rest)[0] == 0u8);
    } else {
        lemma_nul_char_encodes_nul(text.drop_first(), k - 1);
        let j = choose|j: int| 0 <= j < rest.len() && rest[j] == 0;
        assert((head + rest)[head.len() + j] == 0u8);
    }
}

/// A text that holds a NUL character is refused with `InvalidString` when it
/// is encoded for the engine, so no call is made with it.
pub proof fn lemma_embedded_nul_refused(text: &str, k: int, r: Result<Vec<u8>, DbgError>)
    requires
        0 <= k < text@.len(),
        text@[k] == '\0',
        cstring_result(text.spec_bytes(), r),
    ensures
        r matches Err(DbgError::InvalidString(_)),
{
    lemma_nul_char_encodes_nul(text@, k);
}

} // verus!
