//! Nul-terminated text: the byte representation in which text crosses into
//! the native recording engine.
//!
//! The engine reads text as the bytes in front of the first zero byte of a
//! buffer. Text goes in as its UTF-8 bytes followed by one zero byte, and is
//! read back by cutting a buffer at its first zero byte and decoding what
//! stands in front of it.

use vstd::prelude::*;
use vstd::slice::*;
use vstd::string::*;
use vstd::utf8::*;

verus! {

/// True when `bytes` holds a zero byte anywhere.
pub open spec fn has_nul(bytes: Seq<u8>) -> bool {
    exists|i: int| 0 <= i < bytes.len() && bytes[i] == 0u8
}

/// True when `at` is the place of the first zero byte of `bytes`.
pub open spec fn is_first_nul(bytes: Seq<u8>, at: int) -> bool {
    &&& 0 <= at < bytes.len()
    &&& bytes[at] == 0u8
    &&& forall|i: int| 0 <= i < at ==> bytes[i] != 0u8
}

/// The place of the first zero byte of `bytes`. Meaningful only where
/// `has_nul(bytes)`.
pub open spec fn first_nul(bytes: Seq<u8>) -> int
    recommends
        has_nul(bytes),
{
    choose|at: int| is_first_nul(bytes, at)
}

/// The bytes that a reader of nul-terminated text takes from `buffer`: those
/// in front of its first zero byte.
pub open spec fn content(buffer: Seq<u8>) -> Seq<u8>
    recommends
        has_nul(buffer),
{
    buffer.take(first_nul(buffer))
}

/// The nul-terminated form of `text`: its UTF-8 bytes and then one zero byte.
pub open spec fn terminated(text: Seq<char>) -> Seq<u8> {
    encode_utf8(text).push(0u8)
}

/// True when `text` has a nul-terminated form: its UTF-8 bytes hold no zero
/// byte, so that a reader gets all of it back.
pub open spec fn nul_free(text: Seq<char>) -> bool {
    !has_nul(encode_utf8(text))
}

/// Why a text has no nul-terminated form.
#[derive(Debug, Clone, Copy, PartialEq, Eq, Structural)]
pub enum EncodeError {
    /// The text's UTF-8 bytes hold a zero byte, the first of them at `at`.
    InteriorNul { at: usize },
}

/// Why a buffer could not be read as nul-terminated text.
#[derive(Debug, Clone, Copy, PartialEq, Eq, Structural)]
pub enum DecodeError {
    /// The buffer holds no zero byte, so the text in it never ends.
    Unterminated,
    /// The bytes in front of the first zero byte are not valid UTF-8.
    InvalidUtf8,
}

/// What encoding `text` gives: its nul-terminated form, unless its UTF-8
/// bytes hold a zero byte already.
pub open spec fn encoded(text: Seq<char>) -> Result<Seq<u8>, EncodeError> {
    if nul_free(text) {
        Ok(terminated(text))
    } else {
        Err(EncodeError::InteriorNul { at: first_nul(encode_utf8(text)) as usize })
    }
}

/// What reading `buffer` as nul-terminated text gives.
pub open spec fn decoded(buffer: Seq<u8>) -> Result<Seq<char>, DecodeError> {
    if !has_nul(buffer) {
        Err(DecodeError::Unterminated)
    } else if !valid_utf8(content(buffer)) {
        Err(DecodeError::InvalidUtf8)
    } else {
        Ok(decode_utf8(content(buffer)))
    }
}

proof fn lemma_first_nul_before(bytes: Seq<u8>, upto: int)
    requires
        0 <= upto < bytes.len(),
        bytes[upto] == 0u8,
    ensures
        exists|at: int| is_first_nul(bytes, at),
    decreases upto,
{
    if exists|i: int| 0 <= i < upto && bytes[i] == 0u8 {
        let earlier = choose|i: int| 0 <= i < upto && bytes[i] == 0u8;
        lemma_first_nul_before(bytes, earlier);
    } else {
        assert(is_first_nul(bytes, upto));
    }
}

/// A sequence that holds a zero byte has a first one, at `first_nul`.
pub proof fn lemma_first_nul_exists(bytes: Seq<u8>)
    requires
        has_nul(bytes),
    ensures
        is_first_nul(bytes, first_nul(bytes)),
{
    let some = choose|i: int| 0 <= i < bytes.len() && bytes[i] == 0u8;
    lemma_first_nul_before(bytes, some);
}

/// A sequence has at most one first zero byte, and `first_nul` names it.
pub proof fn lemma_first_nul_unique(bytes: Seq<u8>, at: int)
    requires
        is_first_nul(bytes, at),
    ensures
        has_nul(bytes),
        first_nul(bytes) == at,
{
    let chosen = first_nul(bytes);
    assert(is_first_nul(bytes, chosen));
    if chosen < at {
        assert(bytes[chosen] != 0u8);
    } else if at < chosen {
        assert(bytes[at] != 0u8);
    }
}

/// A sequence holds a zero byte exactly when one of its two parts does.
pub proof fn lemma_has_nul_concat(front: Seq<u8>, back: Seq<u8>)
    ensures
        has_nul(front + back) <==> has_nul(front) || has_nul(back),
{
    let whole = front + back;
    if has_nul(front) {
        let i = choose|i: int| 0 <= i < front.len() && front[i] == 0u8;
        assert(whole[i] == 0u8);
    }
    if has_nul(back) {
        let i = choose|i: int| 0 <= i < back.len() && back[i] == 0u8;
        assert(whole[front.len() + i] == 0u8);
    }
    if has_nul(whole) {
        let i = choose|i: int| 0 <= i < whole.len() && whole[i] == 0u8;
        if i < front.len() {
            assert(front[i] == 0u8);
        } else {
            assert(back[i - front.len()] == 0u8);
        }
    }
}

proof fn lemma_low_byte_nonzero(scalar: u32)
    by (bit_vector)
    requires
        0 < scalar <= 0x7F,
    ensures
        (scalar & 0x7F) as u8 != 0u8,
{
}

proof fn lemma_marked_byte_nonzero(mark: u8, bits: u8)
    by (bit_vector)
    requires
        mark != 0u8,
    ensures
        mark | bits != 0u8,
{
}

/// The UTF-8 encoding of a character holds a zero byte only when the
/// character is the nul character itself.
pub proof fn lemma_scalar_has_nul(c: char)
    ensures
        has_nul(encode_scalar(c as u32)) <==> c == '\0',
{
    let scalar = c as u32;
    let bytes = encode_scalar(scalar);
    char_is_scalar(c);
    if has_width_1_encoding(scalar) {
        if scalar == 0 {
            assert(leading_byte_width_1(0u32) == 0u8) by (bit_vector);
            assert(bytes[0] == 0u8);
        } else {
            lemma_low_byte_nonzero(scalar);
        }
    } else {
        lemma_marked_byte_nonzero(0xC0u8, ((scalar >> 6) & 0x1F) as u8);
        lemma_marked_byte_nonzero(0xE0u8, ((scalar >> 12) & 0x0F) as u8);
        lemma_marked_byte_nonzero(0xF0u8, ((scalar >> 18) & 0x7) as u8);
        lemma_marked_byte_nonzero(0x80u8, (scalar & 0x3F) as u8);
        lemma_marked_byte_nonzero(0x80u8, ((scalar >> 6) & 0x3F) as u8);
        lemma_marked_byte_nonzero(0x80u8, ((scalar >> 12) & 0x3F) as u8);
    }
}

/// Text has a nul-terminated form exactly when none of its characters is the
/// nul character.
pub proof fn lemma_nul_free_chars(text: Seq<char>)
    ensures
        nul_free(text) <==> forall|i: int| 0 <= i < text.len() ==> text[i] != '\0',
    decreases text.len(),
{
    if text.len() > 0 {
        let rest = text.drop_first();
        lemma_scalar_has_nul(text[0]);
        lemma_nul_free_chars(rest);
        lemma_has_nul_concat(encode_scalar(text[0] as u32), encode_utf8(rest));
        if forall|i: int| 0 <= i < text.len() ==> text[i] != '\0' {
            assert forall|i: int| 0 <= i < rest.len() implies rest[i] != '\0' by {
                assert(rest[i] == text[i + 1]);
            }
        }
        if nul_free(text) {
            assert forall|i: int| 0 <= i < text.len() implies text[i] != '\0' by {
                if i > 0 {
                    assert(text[i] == rest[i - 1]);
                }
            }
        }
    }
}

/// The nul-terminated form of any text ends in a zero byte.
pub proof fn lemma_terminated_has_nul(text: Seq<char>)
    ensures
        has_nul(terminated(text)),
        terminated(text).last() == 0u8,
{
    let buffer = terminated(text);
    assert(buffer[buffer.len() - 1] == 0u8);
}

/// Text that has a nul-terminated form is read back from it unchanged.
pub proof fn lemma_terminated_round_trip(text: Seq<char>)
    requires
        nul_free(text),
    ensures
        decoded(terminated(text)) == Ok::<Seq<char>, DecodeError>(text),
{
    let bytes = encode_utf8(text);
    let buffer = terminated(text);
    assert(is_first_nul(buffer, bytes.len() as int)) by {
        assert forall|i: int| 0 <= i < bytes.len() implies buffer[i] != 0u8 by {
            assert(buffer[i] == bytes[i]);
        }
    }
    lemma_first_nul_unique(buffer, bytes.len() as int);
    assert(content(buffer) =~= bytes);
    encode_utf8_valid_utf8(text);
    encode_utf8_decode_utf8(text);
}

/// Nothing behind the first zero byte is read: a terminated buffer gives the
/// same text whatever is put behind it.
pub proof fn lemma_decoded_ignores_tail(buffer: Seq<u8>, tail: Seq<u8>)
    requires
        has_nul(buffer),
    ensures
        decoded(buffer + tail) == decoded(buffer),
{
    let at = first_nul(buffer);
    let longer = buffer + tail;
    lemma_first_nul_exists(buffer);
    assert(is_first_nul(longer, at)) by {
        assert(longer[at] == buffer[at]);
        assert forall|i: int| 0 <= i < at implies longer[i] != 0u8 by {
            assert(longer[i] == buffer[i]);
        }
    }
    lemma_first_nul_unique(longer, at);
    assert(content(longer) =~= content(buffer));
}

/// Finds the first zero byte of `bytes`, if there is one.
pub fn find_nul(bytes: &[u8]) -> (found: Option<usize>)
    ensures
        match found {
            Some(at) => is_first_nul(bytes@, at as int),
            None => !has_nul(bytes@),
        },
{
    let mut at: usize = 0;
    while at < bytes.len()
        invariant
            at <= bytes@.len(),
            forall|i: int| 0 <= i < at ==> bytes@[i] != 0u8,
        decreases bytes@.len() - at,
    {
        if bytes[at] == 0 {
            return Some(at);
        }
        at += 1;
    }
    None
}

/// Encodes `text` for the engine: its UTF-8 bytes and then one zero byte.
/// Text whose bytes hold a zero byte would be cut short by a reader, and is
/// refused with the place of that byte.
pub fn to_nul_terminated(text: &str) -> (r: Result<Vec<u8>, EncodeError>)
    ensures
        match r {
            Ok(buffer) => encoded(text@) == Ok::<Seq<u8>, EncodeError>(buffer@),
            Err(e) => encoded(text@) == Err::<Seq<u8>, EncodeError>(e),
        },
{
    let bytes = text.as_bytes();
    match find_nul(bytes) {
        Some(at) => {
            proof {
                lemma_first_nul_unique(bytes@, at as int);
            }
            Err(EncodeError::InteriorNul { at })
        },
        None => {
            let mut buffer = slice_to_vec(bytes);
            buffer.push(0);
            Ok(buffer)
        },
    }
}

/// `core::str::Utf8Error`, the error of `core::str::from_utf8`, made known
/// to the verifier as a value that is carried and never looked into.
#[verifier::external_type_specification]
#[verifier::external_body]
pub struct ExUtf8Error(core::str::Utf8Error);

/// `core::str::from_utf8` is taken on trust: it succeeds exactly on valid
/// UTF-8, and the text it then returns is made of the very bytes given.
pub assume_specification[ core::str::from_utf8 ](bytes: &[u8]) -> (r: Result<
    &str,
    core::str::Utf8Error,
>)
    ensures
        r is Ok <==> valid_utf8(bytes@),
        r matches Ok(text) ==> text.spec_bytes() == bytes@,
;

/// Reads `buffer` as nul-terminated text: the bytes in front of its first
/// zero byte, decoded as UTF-8.
pub fn from_nul_terminated(buffer: &[u8]) -> (r: Result<&str, DecodeError>)
    ensures
        match r {
            Ok(text) => decoded(buffer@) == Ok::<Seq<char>, DecodeError>(text@),
            Err(e) => decoded(buffer@) == Err::<Seq<char>, DecodeError>(e),
        },
{
    match find_nul(buffer) {
        None => Err(DecodeError::Unterminated),
        Some(at) => {
            proof {
                lemma_first_nul_unique(buffer@, at as int);
            }
            match core::str::from_utf8(slice_subrange(buffer, 0, at)) {
                Ok(text) => {
                    proof {
                        encode_utf8_decode_utf8(text@);
                    }
                    Ok(text)
                },
                Err(_) => Err(DecodeError::InvalidUtf8),
            }
        },
    }
}

} // verus!
