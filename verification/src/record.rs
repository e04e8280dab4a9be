//! The fields of a fixed-size record.
//!
//! A record is a run of little-endian 32-bit words.  A field is named by its
//! byte offset in the record: a word, one half of a word, a number, a tuple of
//! numbers, or a text slot that fills whole words.

use crate::io_ext::{byte_of, le_bytes, le_words};
use crate::types::{Vec2, Vec3, F32};
use vstd::prelude::*;

verus! {

/// The low half of a word: the 16-bit field at the word's own offset.
pub open spec fn low_half(word: u32) -> u16 {
    (word % 65536) as u16
}

/// The high half of a word: the 16-bit field two bytes further.
pub open spec fn high_half(word: u32) -> u16 {
    (word / 65536) as u16
}

/// The word whose halves are `low` and `high`.
pub open spec fn halves(low: u16, high: u16) -> u32 {
    (low + 65536 * high) as u32
}

/// The word at byte offset `at`.
pub open spec fn word_at(rec: Seq<u32>, at: int) -> u32 {
    rec[at / 4]
}

/// The unsigned 16-bit field at byte offset `at`.
pub open spec fn u16_at(rec: Seq<u32>, at: int) -> u16 {
    if at % 4 == 0 {
        low_half(rec[at / 4])
    } else {
        high_half(rec[at / 4])
    }
}

/// The number at byte offset `at`.
pub open spec fn f32_at(rec: Seq<u32>, at: int) -> F32 {
    F32 { bits: rec[at / 4] }
}

/// The pair of numbers at byte offset `at`.
pub open spec fn vec2_at(rec: Seq<u32>, at: int) -> Vec2 {
    Vec2(f32_at(rec, at), f32_at(rec, at + 4))
}

/// The triple of numbers at byte offset `at`.
pub open spec fn vec3_at(rec: Seq<u32>, at: int) -> Vec3 {
    Vec3(f32_at(rec, at), f32_at(rec, at + 4), f32_at(rec, at + 8))
}

/// The bytes of the slot of `len` bytes at byte offset `at`.
pub open spec fn slot_at(rec: Seq<u32>, at: int, len: int) -> Seq<u8> {
    le_bytes(rec.subrange(at / 4, (at + len) / 4))
}

/// `rec` with a triple of numbers behind it.
pub open spec fn with_vec3(rec: Seq<u32>, v: Vec3) -> Seq<u32> {
    rec.push(v.0.bits).push(v.1.bits).push(v.2.bits)
}

/// `rec` with a text slot behind it.
pub open spec fn with_slot(rec: Seq<u32>, slot: Seq<u8>) -> Seq<u32> {
    rec + le_words(slot)
}

/// The halves of a word made of two halves are those halves.
pub proof fn lemma_halves(low: u16, high: u16)
    ensures
        low_half(halves(low, high)) == low,
        high_half(halves(low, high)) == high,
{
}

/// In a record made of words, a slot and more words, the slot is read back
/// from behind the first words, and the words on either side of it stay.
#[verifier::rlimit(40)]
pub proof fn lemma_slot_between(front: Seq<u32>, slot: Seq<u8>, back: Seq<u32>)
    requires
        slot.len() % 4 == 0,
    ensures
        ({
            let rec = front + le_words(slot) + back;
            let n = front.len() as int;
            let m = slot.len() as int / 4;
            &&& rec.len() == n + m + back.len()
            &&& rec.subrange(n, n + m) == le_words(slot)
            &&& slot_at(rec, 4 * n, slot.len() as int) == slot
            &&& forall|i: int| 0 <= i < n ==> rec[i] == front[i]
            &&& forall|i: int| 0 <= i < back.len() ==> rec[n + m + i] == back[i]
        }),
{
    let rec = front + le_words(slot) + back;
    let n = front.len() as int;
    let m = slot.len() as int / 4;
    crate::io_ext::lemma_le_bytes_of_words(slot);
    assert(le_words(slot).len() == m);
    assert(rec.subrange(n, n + m) =~= le_words(slot));
    assert((4 * n) / 4 == n);
    assert((4 * n + slot.len()) / 4 == n + m);
}

/// The word at byte offset `at`.
pub fn get_u32(rec: &Vec<u32>, at: usize) -> (r: u32)
    requires
        at % 4 == 0,
        at + 4 <= 4 * rec@.len() <= usize::MAX,
    ensures
        r == word_at(rec@, at as int),
{
    rec[at / 4]
}

/// The unsigned 16-bit field at byte offset `at`.
pub fn get_u16(rec: &Vec<u32>, at: usize) -> (r: u16)
    requires
        at % 2 == 0,
        at + 2 <= 4 * rec@.len() <= usize::MAX,
    ensures
        r == u16_at(rec@, at as int),
{
    let word = rec[at / 4];
    if at % 4 == 0 {
        (word % 65536) as u16
    } else {
        (word / 65536) as u16
    }
}

/// The number at byte offset `at`.
pub fn get_f32(rec: &Vec<u32>, at: usize) -> (r: F32)
    requires
        at % 4 == 0,
        at + 4 <= 4 * rec@.len() <= usize::MAX,
    ensures
        r == f32_at(rec@, at as int),
{
    F32 { bits: rec[at / 4] }
}

/// The pair of numbers at byte offset `at`.
pub fn get_vec2(rec: &Vec<u32>, at: usize) -> (r: Vec2)
    requires
        at % 4 == 0,
        at + 8 <= 4 * rec@.len() <= usize::MAX,
    ensures
        r == vec2_at(rec@, at as int),
{
    Vec2(get_f32(rec, at), get_f32(rec, at + 4))
}

/// The triple of numbers at byte offset `at`.
pub fn get_vec3(rec: &Vec<u32>, at: usize) -> (r: Vec3)
    requires
        at % 4 == 0,
        at + 12 <= 4 * rec@.len() <= usize::MAX,
    ensures
        r == vec3_at(rec@, at as int),
{
    Vec3(get_f32(rec, at), get_f32(rec, at + 4), get_f32(rec, at + 8))
}

/// The bytes of the slot of `len` bytes at byte offset `at`.
pub fn get_slot(rec: &Vec<u32>, at: usize, len: usize) -> (r: Vec<u8>)
    requires
        at % 4 == 0,
        len % 4 == 0,
        at + len <= 4 * rec@.len() <= usize::MAX,
    ensures
        r@ == slot_at(rec@, at as int, len as int),
{
    let first = at / 4;
    let count = len / 4;
    let mut out: Vec<u8> = Vec::new();
    let mut i: usize = 0;
    while i < count
        invariant
            i <= count,
            first + count <= rec@.len() <= usize::MAX,
            out@.len() == 4 * i,
            forall|j: int| 0 <= j < 4 * i ==> out@[j] == byte_of(rec@[first + j / 4], j % 4),
        decreases count - i,
    {
        let word = rec[first + i];
        out.push((word % 256) as u8);
        out.push(((word / 256) % 256) as u8);
        out.push(((word / 65536) % 256) as u8);
        out.push((word / 16777216) as u8);
        i = i + 1;
    }
    assert(out@ =~= slot_at(rec@, at as int, len as int));
    out
}

/// Puts two 16-bit fields, which share a word, behind the record.
pub fn put_halves(rec: &mut Vec<u32>, low: u16, high: u16)
    ensures
        final(rec)@ == old(rec)@.push(halves(low, high)),
{
    rec.push((low as u32) + 65536 * (high as u32));
}

/// Puts a triple of numbers behind the record.
pub fn put_vec3(rec: &mut Vec<u32>, v: Vec3)
    ensures
        final(rec)@ == with_vec3(old(rec)@, v),
{
    rec.push(v.0.bits);
    rec.push(v.1.bits);
    rec.push(v.2.bits);
}

/// Puts a text slot, which fills whole words, behind the record.
pub fn put_slot(rec: &mut Vec<u32>, slot: &Vec<u8>)
    requires
        slot@.len() % 4 == 0,
    ensures
        final(rec)@ == with_slot(old(rec)@, slot@),
{
    let count = slot.len() / 4;
    let mut i: usize = 0;
    while i < count
        invariant
            i <= count,
            count * 4 == slot@.len() <= usize::MAX,
            rec@ == old(rec)@ + le_words(slot@).take(i as int),
        decreases count - i,
    {
        let at = 4 * i;
        rec.push(
            (slot[at] as u32) + (slot[at + 1] as u32) * 256 + (slot[at + 2] as u32) * 65536 + (
            slot[at + 3] as u32) * 16777216,
        );
        i = i + 1;
        assert(rec@ =~= old(rec)@ + le_words(slot@).take(i as int));
    }
    assert(le_words(slot@).take(count as int) =~= le_words(slot@));
}

} // verus!
