//! The fixed-length text field: a slot of bytes that holds UTF-8, ended by
//! the first zero byte or by the end of the slot.

use vstd::prelude::*;
use vstd::utf8::{decode_utf8, encode_utf8, valid_utf8};

verus! {

/// `n` is where the text in `buf` ends: at the first zero byte, or at the end
/// of `buf` if it holds none.
pub open spec fn is_c_len(buf: Seq<u8>, n: int) -> bool {
    &&& 0 <= n <= buf.len()
    &&& forall|i: int| 0 <= i < n ==> buf[i] != 0
    &&& n < buf.len() ==> buf[n] == 0
}

/// The number of bytes in front of the first zero byte of `buf`.
pub open spec fn c_len(buf: Seq<u8>) -> int
    decreases buf.len(),
{
    if buf.len() == 0 || buf[0] == 0 {
        0
    } else {
        1 + c_len(buf.skip(1))
    }
}

/// The bytes of the text in a slot: those in front of the first zero byte.
pub open spec fn c_text(buf: Seq<u8>) -> Seq<u8> {
    buf.take(c_len(buf))
}

/// A slot of `size` bytes that holds `text`: the text, then zeros.
pub open spec fn c_padded(text: Seq<u8>, size: nat) -> Seq<u8> {
    text + Seq::new((size - text.len()) as nat, |i: int| 0u8)
}

/// No byte of `text` is zero.
pub open spec fn no_nul(text: Seq<u8>) -> bool {
    forall|i: int| 0 <= i < text.len() ==> text[i] != 0
}

/// A text can be kept in a slot of `size` bytes and read back: its UTF-8
/// form is no longer than the slot and holds no zero byte.
pub open spec fn fits_slot(text: Seq<char>, size: nat) -> bool {
    encode_utf8(text).len() <= size && no_nul(encode_utf8(text))
}

/// `c_len` is the one number that `is_c_len` describes.
pub proof fn lemma_c_len(buf: Seq<u8>, n: int)
    ensures
        is_c_len(buf, c_len(buf)),
        is_c_len(buf, n) ==> n == c_len(buf),
    decreases buf.len(),
{
    if buf.len() == 0 || buf[0] == 0 {
    } else {
        let rest = buf.skip(1);
        lemma_c_len(rest, n - 1);
        let m = c_len(rest);
        assert forall|i: int| 0 <= i < m + 1 implies buf[i] != 0 by {
            if i > 0 {
                assert(rest[i - 1] == buf[i]);
            }
        }
        if m + 1 < buf.len() {
            assert(rest[m] == buf[m + 1]);
        }
        if is_c_len(buf, n) {
            assert(n >= 1);
            assert forall|i: int| 0 <= i < n - 1 implies rest[i] != 0 by {
                assert(rest[i] == buf[i + 1]);
            }
            if n - 1 < rest.len() {
                assert(rest[n - 1] == buf[n]);
            }
            assert(is_c_len(rest, n - 1));
        }
    }
}

/// A text without a zero byte that fits its slot is read back from the slot
/// as it was written.
pub proof fn lemma_c_text_of_padded(text: Seq<u8>, size: nat)
    requires
        text.len() <= size,
        no_nul(text),
    ensures
        c_padded(text, size).len() == size,
        c_text(c_padded(text, size)) == text,
{
    let slot = c_padded(text, size);
    assert(is_c_len(slot, text.len() as int));
    lemma_c_len(slot, text.len() as int);
    assert(slot.take(text.len() as int) =~= text);
}

/// A text that fits its slot survives the trip through the slot: the slot's
/// text is valid UTF-8 and decodes to the same characters.
pub proof fn lemma_slot_round_trip(text: Seq<char>, size: nat)
    requires
        fits_slot(text, size),
    ensures
        c_padded(encode_utf8(text), size).len() == size,
        valid_utf8(c_text(c_padded(encode_utf8(text), size))),
        decode_utf8(c_text(c_padded(encode_utf8(text), size))) == text,
{
    lemma_c_text_of_padded(encode_utf8(text), size);
    vstd::utf8::encode_utf8_valid_utf8(text);
    vstd::utf8::encode_utf8_decode_utf8(text);
}

/// The text that is read from a slot can be kept in a slot of that size, and
/// it is not empty where the slot does not begin with a zero byte.
pub proof fn lemma_text_fits(slot: Seq<u8>)
    requires
        valid_utf8(c_text(slot)),
    ensures
        fits_slot(decode_utf8(c_text(slot)), slot.len()),
        slot.len() > 0 && slot[0] != 0 ==> encode_utf8(decode_utf8(c_text(slot))).len() > 0,
{
    lemma_c_len(slot, 0);
    vstd::utf8::decode_utf8_encode_utf8(c_text(slot));
}

/// `String::from_utf8` of std: the text whose UTF-8 form is `bytes`, or
/// nothing where `bytes` is not valid UTF-8.
#[verifier::external_body]
fn string_from_utf8(bytes: Vec<u8>) -> (r: Option<String>)
    ensures
        r is Some <==> valid_utf8(bytes@),
        r matches Some(s) ==> encode_utf8(s@) == bytes@,
{
    match String::from_utf8(bytes) {
        Ok(s) => Some(s),
        Err(_) => None,
    }
}

/// The text of a slot: the bytes in front of the first zero byte (all of
/// them if there is none), which have to be valid UTF-8.
pub fn str_from_c_padded(buf: &[u8]) -> (r: Option<String>)
    ensures
        r is Some <==> valid_utf8(c_text(buf@)),
        r matches Some(s) ==> s@ == decode_utf8(c_text(buf@)),
{
    let mut text: Vec<u8> = Vec::new();
    let mut i: usize = 0;
    while i < buf.len() && buf[i] != 0
        invariant
            i <= buf@.len(),
            text@ == buf@.take(i as int),
            forall|j: int| 0 <= j < i ==> buf@[j] != 0,
        decreases buf@.len() - i,
    {
        text.push(buf[i]);
        i = i + 1;
        assert(text@ =~= buf@.take(i as int));
    }
    proof {
        lemma_c_len(buf@, i as int);
    }
    let r = string_from_utf8(text);
    proof {
        if let Some(s) = &r {
            vstd::utf8::encode_utf8_decode_utf8(s@);
        }
    }
    r
}

/// The text that fills a buffer from end to end, which has to be valid
/// UTF-8.  A zero byte is a character like any other here.
pub fn str_from_c_sized(buf: &[u8]) -> (r: Option<String>)
    ensures
        r is Some <==> valid_utf8(buf@),
        r matches Some(s) ==> s@ == decode_utf8(buf@),
{
    let mut text: Vec<u8> = Vec::new();
    let mut i: usize = 0;
    while i < buf.len()
        invariant
            i <= buf@.len(),
            text@ == buf@.take(i as int),
        decreases buf@.len() - i,
    {
        text.push(buf[i]);
        i = i + 1;
        assert(text@ =~= buf@.take(i as int));
    }
    assert(text@ =~= buf@);
    let r = string_from_utf8(text);
    proof {
        if let Some(s) = &r {
            vstd::utf8::encode_utf8_decode_utf8(s@);
        }
    }
    r
}

/// A slot of `size` bytes that holds `value`: its UTF-8 form, then zeros.
/// Nothing where the text is longer than the slot.
pub fn str_to_c_padded(value: &str, size: usize) -> (r: Option<Vec<u8>>)
    ensures
        r is Some <==> encode_utf8(value@).len() <= size,
        r matches Some(slot) ==> slot@ == c_padded(encode_utf8(value@), size as nat),
{
    let bytes = value.as_bytes();
    let n = bytes.len();
    if n > size {
        return None;
    }
    let mut slot: Vec<u8> = Vec::new();
    let mut i: usize = 0;
    while i < size
        invariant
            i <= size,
            n <= size,
            n == bytes@.len(),
            slot@.len() == i,
            forall|j: int| 0 <= j < i && j < n ==> slot@[j] == bytes@[j],
            forall|j: int| n <= j < i ==> slot@[j] == 0,
        decreases size - i,
    {
        if i < n {
            slot.push(bytes[i]);
        } else {
            slot.push(0);
        }
        i = i + 1;
    }
    assert(slot@ =~= c_padded(encode_utf8(value@), size as nat));
    Some(slot)
}

} // verus!
