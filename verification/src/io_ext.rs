//! The byte cursor, the byte sink, and the little-endian layout of scalars
//! and records.
//!
//! A cursor walks a buffer that its caller has filled; it counts the bytes it
//! hands out, and remembers where the last transfer began, so that a failed
//! check can name the start of the field that failed.  A sink is a growing
//! byte vector.

use crate::error::{Detail, Error, Result};
use crate::string::str_from_c_sized;
use crate::types::F32;
use vstd::prelude::*;
use vstd::utf8::{decode_utf8, encode_utf8, is_ascii_chars, valid_utf8};

verus! {

/// Byte `k` (0 is the lowest) of a 32-bit word.
pub open spec fn byte_of(word: u32, k: int) -> u8 {
    if k == 0 {
        (word % 256) as u8
    } else if k == 1 {
        ((word / 256) % 256) as u8
    } else if k == 2 {
        ((word / 65536) % 256) as u8
    } else {
        (word / 16777216) as u8
    }
}

/// The word whose bytes, lowest first, are `b0`, `b1`, `b2`, `b3`.
pub open spec fn word_of(b0: u8, b1: u8, b2: u8, b3: u8) -> u32 {
    (b0 + 256 * b1 + 65536 * b2 + 16777216 * b3) as u32
}

/// The unsigned 16-bit number whose bytes, lowest first, are `b0`, `b1`.
pub open spec fn half_of(b0: u8, b1: u8) -> u16 {
    (b0 + 256 * b1) as u16
}

/// A 16-bit pattern read as a two's complement number.
pub open spec fn signed16(x: u16) -> i16 {
    if x >= 32768 {
        (x - 65536) as i16
    } else {
        x as i16
    }
}

/// The 16-bit pattern of a two's complement number.
pub open spec fn unsigned16(x: i16) -> u16 {
    if x < 0 {
        (x + 65536) as u16
    } else {
        x as u16
    }
}

/// A 32-bit pattern read as a two's complement number.
pub open spec fn signed32(x: u32) -> i32 {
    if x >= 0x8000_0000 {
        (x - 0x1_0000_0000) as i32
    } else {
        x as i32
    }
}

/// The 32-bit pattern of a two's complement number.
pub open spec fn unsigned32(x: i32) -> u32 {
    if x < 0 {
        (x + 0x1_0000_0000) as u32
    } else {
        x as u32
    }
}

/// The little-endian 32-bit number at the front of `s`.
pub open spec fn u32_le(s: Seq<u8>) -> u32 {
    word_of(s[0], s[1], s[2], s[3])
}

/// The little-endian 16-bit number at the front of `s`.
pub open spec fn u16_le(s: Seq<u8>) -> u16 {
    half_of(s[0], s[1])
}

/// The four bytes of a word, lowest first.
pub open spec fn u32_bytes(word: u32) -> Seq<u8> {
    seq![byte_of(word, 0), byte_of(word, 1), byte_of(word, 2), byte_of(word, 3)]
}

/// The two bytes of a 16-bit number, lowest first.
pub open spec fn u16_bytes(x: u16) -> Seq<u8> {
    seq![(x % 256) as u8, (x / 256) as u8]
}

/// The bytes of a sequence of words: four per word, lowest first.
pub open spec fn le_bytes(words: Seq<u32>) -> Seq<u8> {
    Seq::new(4 * words.len(), |i: int| byte_of(words[i / 4], i % 4))
}

/// The words of a byte sequence, four bytes per word; up to three bytes at
/// the end that fill no word are left out.
pub open spec fn le_words(bytes: Seq<u8>) -> Seq<u32> {
    Seq::new(
        bytes.len() / 4,
        |i: int| word_of(bytes[4 * i], bytes[4 * i + 1], bytes[4 * i + 2], bytes[4 * i + 3]),
    )
}

/// `count` zero bytes.
pub open spec fn zeros(count: nat) -> Seq<u8> {
    Seq::new(count, |i: int| 0u8)
}

/// A word is the word of its bytes, and the bytes of a word made of four
/// bytes are those bytes.
pub proof fn lemma_word_bytes(word: u32, b0: u8, b1: u8, b2: u8, b3: u8)
    ensures
        word_of(byte_of(word, 0), byte_of(word, 1), byte_of(word, 2), byte_of(word, 3)) == word,
        byte_of(word_of(b0, b1, b2, b3), 0) == b0,
        byte_of(word_of(b0, b1, b2, b3), 1) == b1,
        byte_of(word_of(b0, b1, b2, b3), 2) == b2,
        byte_of(word_of(b0, b1, b2, b3), 3) == b3,
{
    assert(word == (word % 256) + 256 * ((word / 256) % 256) + 65536 * ((word / 65536) % 256)
        + 16777216 * (word / 16777216)) by (bit_vector);
    assert(word % 256 < 256 && (word / 256) % 256 < 256 && (word / 65536) % 256 < 256 && word
        / 16777216 < 256) by (bit_vector);
    let w: u32 = word_of(b0, b1, b2, b3);
    assert(w == b0 + 256 * b1 + 65536 * b2 + 16777216 * b3);
    assert(w % 256 == b0 && (w / 256) % 256 == b1 && (w / 65536) % 256 == b2 && w / 16777216
        == b3) by (bit_vector)
        requires
            w == b0 + 256 * b1 + 65536 * b2 + 16777216 * b3,
    ;
}

/// Words survive the trip through their bytes.
pub proof fn lemma_le_words_of_bytes(words: Seq<u32>)
    ensures
        le_bytes(words).len() == 4 * words.len(),
        le_words(le_bytes(words)) == words,
{
    let bytes = le_bytes(words);
    assert forall|i: int| 0 <= i < words.len() implies le_words(bytes)[i] == words[i] by {
        lemma_word_bytes(words[i], 0, 0, 0, 0);
    }
    assert(le_words(bytes) =~= words);
}

/// Bytes that fill whole words survive the trip through those words.
pub proof fn lemma_le_bytes_of_words(bytes: Seq<u8>)
    requires
        bytes.len() % 4 == 0,
    ensures
        le_words(bytes).len() * 4 == bytes.len(),
        le_bytes(le_words(bytes)) == bytes,
{
    let words = le_words(bytes);
    assert forall|j: int| 0 <= j < bytes.len() implies le_bytes(words)[j] == bytes[j] by {
        let i = j / 4;
        lemma_word_bytes(0, bytes[4 * i], bytes[4 * i + 1], bytes[4 * i + 2], bytes[4 * i + 3]);
    }
    assert(le_bytes(words) =~= bytes);
}

/// A word is read back from its four bytes, whatever comes behind them.
pub proof fn lemma_u32_le_of_bytes(word: u32, rest: Seq<u8>)
    ensures
        u32_bytes(word).len() == 4,
        u32_le(u32_bytes(word) + rest) == word,
{
    lemma_word_bytes(word, 0, 0, 0, 0);
}

fn make_word(b0: u8, b1: u8, b2: u8, b3: u8) -> (r: u32)
    ensures
        r == word_of(b0, b1, b2, b3),
{
    (b0 as u32) + (b1 as u32) * 256 + (b2 as u32) * 65536 + (b3 as u32) * 16777216
}

fn make_half(b0: u8, b1: u8) -> (r: u16)
    ensures
        r == half_of(b0, b1),
{
    (b0 as u16) + (b1 as u16) * 256
}

fn make_signed16(x: u16) -> (r: i16)
    ensures
        r == signed16(x),
{
    if x >= 32768 {
        ((x as i32) - 65536) as i16
    } else {
        x as i16
    }
}

fn make_unsigned16(x: i16) -> (r: u16)
    ensures
        r == unsigned16(x),
{
    if x < 0 {
        ((x as i32) + 65536) as u16
    } else {
        x as u16
    }
}

fn make_signed32(x: u32) -> (r: i32)
    ensures
        r == signed32(x),
{
    if x >= 0x8000_0000 {
        ((x as i64) - 0x1_0000_0000) as i32
    } else {
        x as i32
    }
}

/// The 32-bit pattern of a two's complement number.
pub fn make_unsigned32(x: i32) -> (r: u32)
    ensures
        r == unsigned32(x),
{
    if x < 0 {
        ((x as i64) + 0x1_0000_0000) as u32
    } else {
        x as u32
    }
}

/// A cursor over a buffer of bytes.
///
/// `inner` is the buffer and `pos` the number of its bytes handed out so far.
/// `offset` counts the bytes transferred, from whatever offset the caller has
/// set; `prev` is the value `offset` had when the latest transfer began.  A
/// cursor whose `pos` lies behind the end of the buffer has no bytes left.
#[derive(Clone, Debug, PartialEq, Eq)]
pub struct CountingReader {
    pub inner: Vec<u8>,
    pub pos: usize,
    pub offset: u32,
    pub prev: u32,
}

impl CountingReader {
    /// The whole buffer.
    pub open spec fn data(&self) -> Seq<u8> {
        self.inner@
    }

    /// How many bytes of the buffer have been handed out.
    pub open spec fn position(&self) -> nat {
        self.pos as nat
    }

    /// The bytes not yet handed out.
    pub open spec fn remaining(&self) -> Seq<u8> {
        if self.position() <= self.data().len() {
            self.data().skip(self.position() as int)
        } else {
            Seq::empty()
        }
    }

    /// A transfer of `n` bytes is possible: the bytes are there, and the
    /// offset after it is still a 32-bit number.
    pub open spec fn can_take(&self, n: int) -> bool {
        0 <= n <= self.remaining().len() && self.offset + n <= u32::MAX
    }

    /// The cursor after a transfer of `n` bytes.
    pub open spec fn advanced(self, n: int) -> CountingReader {
        CountingReader {
            inner: self.inner,
            pos: (self.pos + n) as usize,
            offset: (self.offset + n) as u32,
            prev: self.offset,
        }
    }

    /// The cursor after a transfer of `n` bytes if that is possible, and the
    /// cursor itself if not.
    pub open spec fn after_take(self, n: int) -> CountingReader {
        if self.can_take(n) {
            self.advanced(n)
        } else {
            self
        }
    }

    /// After a transfer that is possible, the bytes that were transferred
    /// are no longer left, and the offset has grown by their number.
    pub proof fn lemma_advanced(self, n: int)
        requires
            self.can_take(n),
        ensures
            self.advanced(n).remaining() == self.remaining().skip(n),
            self.advanced(n).offset == self.offset + n,
            self.advanced(n).prev == self.offset,
    {
        vstd::std_specs::vec::axiom_spec_len(&self.inner);
        assert(self.advanced(n).remaining() =~= self.remaining().skip(n));
    }

    /// The next bytes are those of `words`: the bytes of the words, and
    /// room for them in the offset.
    pub open spec fn holds_words(self, words: Seq<u32>) -> bool {
        &&& 4 * words.len() <= self.remaining().len()
        &&& self.remaining().take(4 * (words.len() as int)) == le_bytes(words)
        &&& self.offset + 4 * words.len() <= u32::MAX
    }

    /// On a cursor whose next bytes are those of `words`, the first `n`
    /// words can be transferred and are read as they are, and the next bytes
    /// behind them are those of the other words.
    #[verifier::rlimit(40)]
    pub proof fn lemma_holds_words(self, words: Seq<u32>, n: int)
        requires
            self.holds_words(words),
            0 <= n <= words.len(),
        ensures
            self.can_take(4 * n),
            self.holds_words(words.take(n)),
            le_words(self.remaining().take(4 * n)) == words.take(n),
            n >= 1 ==> u32_le(self.remaining()) == words[0],
            self.advanced(4 * n).holds_words(words.skip(n)),
            self.advanced(4 * n).offset == self.offset + 4 * n,
    {
        let rest = self.remaining();
        let len = 4 * (words.len() as int);
        let bytes = le_bytes(words);
        self.lemma_advanced(4 * n);
        lemma_le_words_of_bytes(words.take(n));
        assert(rest.take(4 * n) =~= le_bytes(words.take(n))) by {
            assert forall|i: int| 0 <= i < 4 * n implies rest.take(4 * n)[i] == le_bytes(
                words.take(n),
            )[i] by {
                assert(rest.take(len)[i] == bytes[i]);
            }
        }
        assert(rest.skip(4 * n).take(len - 4 * n) =~= le_bytes(words.skip(n))) by {
            assert forall|i: int| 0 <= i < len - 4 * n implies rest.skip(4 * n).take(
                len - 4 * n,
            )[i] == le_bytes(words.skip(n))[i] by {
                assert(rest.take(len)[i + 4 * n] == bytes[i + 4 * n]);
            }
        }
        if n >= 1 {
            lemma_word_bytes(words[0], 0, 0, 0, 0);
            assert(rest[0] == rest.take(len)[0]);
            assert(rest[1] == rest.take(len)[1]);
            assert(rest[2] == rest.take(len)[2]);
            assert(rest[3] == rest.take(len)[3]);
        }
    }

    /// `self` is `before` after a transfer of `n` bytes.
    pub open spec fn took(&self, before: &CountingReader, n: int) -> bool {
        &&& *self == before.advanced(n)
        &&& self.data() == before.data()
        &&& self.position() == before.position() + n
        &&& self.remaining() == before.remaining().skip(n)
        &&& self.prev == before.offset
        &&& self.offset == before.offset + n
    }

    /// `self` is `before` after a transfer of `n` bytes if that was possible,
    /// and `before` itself if not.
    pub open spec fn took_if_possible(&self, before: &CountingReader, n: int) -> bool {
        if before.can_take(n) {
            self.took(before, n)
        } else {
            *self == *before
        }
    }

    pub fn new(read: Vec<u8>) -> (r: Self)
        ensures
            r.data() == read@,
            r.position() == 0,
            r.remaining() == read@,
            r.offset == 0,
            r.prev == 0,
    {
        Self { inner: read, pos: 0, offset: 0, prev: 0 }
    }

    pub fn into_inner(self) -> (r: Vec<u8>)
        ensures
            r@ == self.data(),
    {
        self.inner
    }

    pub fn get_ref(&self) -> (r: &Vec<u8>)
        ensures
            r@ == self.data(),
    {
        &self.inner
    }

    /// The buffer itself, to be changed in place.  The position, the offset
    /// and the previous offset stay.
    pub fn get_mut(&mut self) -> (r: &mut Vec<u8>)
        ensures
            r@ == old(self).data(),
            final(self).data() == final(r)@,
            final(self).position() == old(self).position(),
            final(self).offset == old(self).offset,
            final(self).prev == old(self).prev,
    {
        &mut self.inner
    }

    /// Accounts for a transfer of `n` bytes and returns where in the buffer
    /// it begins.
    fn advance(&mut self, n: usize) -> (r: Result<usize>)
        ensures
            r is Ok <==> old(self).can_take(n as int),
            r matches Ok(start) ==> {
                &&& start == old(self).pos
                &&& n == 0 || start + n <= old(self).inner@.len()
                &&& old(self).inner@.len() <= usize::MAX
                &&& final(self).inner == old(self).inner
                &&& final(self).took(old(self), n as int)
            },
            r matches Err(e) ==> e == Error::Transport && *final(self) == *old(self),
    {
        let len = self.inner.len();
        let left = if self.pos <= len {
            len - self.pos
        } else {
            0
        };
        if n > left || n > (u32::MAX - self.offset) as usize {
            return Err(Error::Transport);
        }
        let start = self.pos;
        self.pos = start + n;
        self.prev = self.offset;
        self.offset = self.offset + n as u32;
        assert(self.remaining() =~= old(self).remaining().skip(n as int));
        Ok(start)
    }

    /// Fills `buf` with the next `buf.len()` bytes.
    pub fn read_exact(&mut self, buf: &mut Vec<u8>) -> (r: Result<()>)
        ensures
            r is Ok <==> old(self).can_take(old(buf)@.len() as int),
            r is Err ==> r == Err::<(), Error>(Error::Transport) && *final(buf) == *old(buf),
            r is Ok ==> final(buf)@ == old(self).remaining().take(old(buf)@.len() as int),
            final(self).took_if_possible(old(self), old(buf)@.len() as int),
    {
        let n = buf.len();
        let start = self.advance(n)?;
        let mut i: usize = 0;
        while i < n
            invariant
                i <= n,
                n == buf@.len(),
                n == 0 || start + n <= self.inner@.len(),
                self.inner@.len() <= usize::MAX,
                forall|j: int| 0 <= j < i ==> buf@[j] == self.inner@[start + j],
            decreases n - i,
        {
            buf.set(i, self.inner[start + i]);
            i = i + 1;
        }
        assert(buf@ =~= old(self).remaining().take(n as int));
        Ok(())
    }

    /// The next `count` bytes.
    pub fn read_bytes(&mut self, count: usize) -> (r: Result<Vec<u8>>)
        ensures
            r is Ok <==> old(self).can_take(count as int),
            r is Err ==> r == Err::<Vec<u8>, Error>(Error::Transport),
            r matches Ok(bytes) ==> bytes@ == old(self).remaining().take(count as int),
            final(self).took_if_possible(old(self), count as int),
    {
        let start = self.advance(count)?;
        let mut out: Vec<u8> = Vec::new();
        let mut i: usize = 0;
        while i < count
            invariant
                i <= count,
                count == 0 || start + count <= self.inner@.len(),
                self.inner@.len() <= usize::MAX,
                out@.len() == i,
                forall|j: int| 0 <= j < i ==> out@[j] == self.inner@[start + j],
            decreases count - i,
        {
            out.push(self.inner[start + i]);
            i = i + 1;
        }
        assert(out@ =~= old(self).remaining().take(count as int));
        Ok(out)
    }

    /// The next byte.
    pub fn read_u8(&mut self) -> (r: Result<u8>)
        ensures
            r is Ok <==> old(self).can_take(1),
            r is Err ==> r == Err::<u8, Error>(Error::Transport),
            r matches Ok(v) ==> v == old(self).remaining()[0],
            final(self).took_if_possible(old(self), 1),
    {
        let start = self.advance(1)?;
        Ok(self.inner[start])
    }

    pub fn read_u32(&mut self) -> (r: Result<u32>)
        ensures
            r is Ok <==> old(self).can_take(4),
            r is Err ==> r == Err::<u32, Error>(Error::Transport),
            r matches Ok(v) ==> v == u32_le(old(self).remaining()),
            final(self).took_if_possible(old(self), 4),
    {
        let start = self.advance(4)?;
        Ok(
            make_word(
                self.inner[start],
                self.inner[start + 1],
                self.inner[start + 2],
                self.inner[start + 3],
            ),
        )
    }

    pub fn read_i32(&mut self) -> (r: Result<i32>)
        ensures
            r is Ok <==> old(self).can_take(4),
            r is Err ==> r == Err::<i32, Error>(Error::Transport),
            r matches Ok(v) ==> v == signed32(u32_le(old(self).remaining())),
            final(self).took_if_possible(old(self), 4),
    {
        let word = self.read_u32()?;
        Ok(make_signed32(word))
    }

    /// The next four bytes as the bits of a number.
    pub fn read_f32(&mut self) -> (r: Result<F32>)
        ensures
            r is Ok <==> old(self).can_take(4),
            r is Err ==> r == Err::<F32, Error>(Error::Transport),
            r matches Ok(v) ==> v.bits == u32_le(old(self).remaining()),
            final(self).took_if_possible(old(self), 4),
    {
        let word = self.read_u32()?;
        Ok(F32 { bits: word })
    }

    pub fn read_u16(&mut self) -> (r: Result<u16>)
        ensures
            r is Ok <==> old(self).can_take(2),
            r is Err ==> r == Err::<u16, Error>(Error::Transport),
            r matches Ok(v) ==> v == u16_le(old(self).remaining()),
            final(self).took_if_possible(old(self), 2),
    {
        let start = self.advance(2)?;
        Ok(make_half(self.inner[start], self.inner[start + 1]))
    }

    pub fn read_i16(&mut self) -> (r: Result<i16>)
        ensures
            r is Ok <==> old(self).can_take(2),
            r is Err ==> r == Err::<i16, Error>(Error::Transport),
            r matches Ok(v) ==> v == signed16(u16_le(old(self).remaining())),
            final(self).took_if_possible(old(self), 2),
    {
        let half = self.read_u16()?;
        Ok(make_signed16(half))
    }

    /// One record of `size` bytes in a single transfer, as its words, with no
    /// interpretation.
    pub fn read_struct(&mut self, size: u32) -> (r: Result<Vec<u32>>)
        requires
            size % 4 == 0,
        ensures
            r is Ok <==> old(self).can_take(size as int),
            r is Err ==> r == Err::<Vec<u32>, Error>(Error::Transport),
            r matches Ok(words) ==> words@ == le_words(old(self).remaining().take(size as int)),
            final(self).took_if_possible(old(self), size as int),
    {
        let start = self.advance(size as usize)?;
        let count: usize = (size / 4) as usize;
        let mut out: Vec<u32> = Vec::new();
        let mut i: usize = 0;
        while i < count
            invariant
                i <= count,
                count * 4 == size,
                size == 0 || start + size <= self.inner@.len(),
                self.inner@.len() <= usize::MAX,
                out@.len() == i,
                forall|j: int|
                    0 <= j < i ==> out@[j] == word_of(
                        self.inner@[start + 4 * j],
                        self.inner@[start + 4 * j + 1],
                        self.inner@[start + 4 * j + 2],
                        self.inner@[start + 4 * j + 3],
                    ),
            decreases count - i,
        {
            let at = start + 4 * i;
            out.push(
                make_word(
                    self.inner[at],
                    self.inner[at + 1],
                    self.inner[at + 2],
                    self.inner[at + 3],
                ),
            );
            i = i + 1;
        }
        assert(out@ =~= le_words(old(self).remaining().take(size as int)));
        Ok(out)
    }

    /// How many bytes are left.
    pub fn remaining_len(&self) -> (r: usize)
        ensures
            r == self.remaining().len(),
    {
        let len = self.inner.len();
        if self.pos <= len {
            len - self.pos
        } else {
            0
        }
    }

    /// Fails if bytes are left.  Nothing is transferred either way.
    pub fn assert_end(&mut self) -> (r: Result<()>)
        ensures
            *final(self) == *old(self),
            r is Ok <==> old(self).remaining().len() == 0,
            r is Err ==> r == Err::<(), Error>(
                Error::Assertion { label: "end of data", offset: old(self).offset, detail: Detail::Condition },
            ),
    {
        if self.pos < self.inner.len() {
            Err(Error::Assertion { label: "end of data", offset: self.offset, detail: Detail::Condition })
        } else {
            Ok(())
        }
    }

    /// A text with its length in front: a 32-bit count, then that many bytes,
    /// which have to be valid UTF-8.
    pub fn read_string(&mut self) -> (r: Result<String>)
        ensures
            crate::error::view_ok(r) == sized_text(old(self).remaining(), old(self).offset as int),
            *final(self) == after_sized_text(*old(self)),
    {
        let count = self.read_u32()? as usize;
        let buf = self.read_bytes(count)?;
        proof {
            let rest = old(self).remaining();
            assert(rest.skip(4).take(count as int) =~= rest.subrange(4, 4 + count));
            assert(rest.skip(4).skip(count as int) =~= rest.skip(4 + count));
        }
        match str_from_c_sized(buf.as_slice()) {
            Some(value) => Ok(value),
            None => Err(Error::Encoding { label: "value", offset: self.prev }),
        }
    }
}

/// The bytes of a text with its length in front have been found in `rest`,
/// which begins at `offset`: the count, and that many bytes behind it.
pub open spec fn has_sized_text(rest: Seq<u8>, offset: int) -> bool {
    &&& 4 <= rest.len()
    &&& offset + 4 <= u32::MAX
    &&& 4 + u32_le(rest) <= rest.len()
    &&& offset + 4 + u32_le(rest) <= u32::MAX
}

/// What reading a text with its length in front gives.
pub open spec fn sized_text(rest: Seq<u8>, offset: int) -> core::result::Result<Seq<char>, Error> {
    if !has_sized_text(rest, offset) {
        Err(Error::Transport)
    } else {
        let bytes = rest.subrange(4, 4 + u32_le(rest));
        if valid_utf8(bytes) {
            Ok(decode_utf8(bytes))
        } else {
            Err(Error::Encoding { label: "value", offset: (offset + 4) as u32 })
        }
    }
}

/// The cursor after reading a text with its length in front: behind the
/// count where the count is there, and behind the bytes where they are all
/// there.
pub open spec fn after_sized_text(read: CountingReader) -> CountingReader {
    if read.can_take(4) {
        read.advanced(4).after_take(u32_le(read.remaining()) as int)
    } else {
        read
    }
}

/// The bytes that a text is written as with its length in front.
pub open spec fn sized_text_bytes(text: Seq<char>) -> Seq<u8> {
    u32_bytes(encode_utf8(text).len() as u32) + encode_utf8(text)
}

/// Writing to a sink of bytes.  Every operation puts its bytes behind those
/// already written; none looks at an offset.
pub trait WriteHelper: Sized {
    /// The bytes written so far.
    spec fn written(&self) -> Seq<u8>;

    fn write_u32(&mut self, value: u32)
        ensures
            final(self).written() == old(self).written() + u32_bytes(value),
    ;

    fn write_i32(&mut self, value: i32)
        ensures
            final(self).written() == old(self).written() + u32_bytes(unsigned32(value)),
    ;

    /// The four bytes of the bits of a number.
    fn write_f32(&mut self, value: F32)
        ensures
            final(self).written() == old(self).written() + u32_bytes(value.bits),
    ;

    fn write_u16(&mut self, value: u16)
        ensures
            final(self).written() == old(self).written() + u16_bytes(value),
    ;

    fn write_i16(&mut self, value: i16)
        ensures
            final(self).written() == old(self).written() + u16_bytes(unsigned16(value)),
    ;

    /// One record, given as its words.
    fn write_struct(&mut self, value: &Vec<u32>)
        ensures
            final(self).written() == old(self).written() + le_bytes(value@),
    ;

    /// Bytes as they are.
    fn write_bytes(&mut self, value: &Vec<u8>)
        ensures
            final(self).written() == old(self).written() + value@,
    ;

    /// A text with its length in front.  Only ASCII is written, and only a
    /// text whose length is a 32-bit number; nothing is written otherwise.
    fn write_string(&mut self, value: &str) -> (r: Result<()>)
        ensures
            r is Ok <==> is_ascii_chars(value@) && value@.len() <= u32::MAX,
            r is Ok ==> final(self).written() == old(self).written() + sized_text_bytes(value@),
            r is Err ==> final(self).written() == old(self).written(),
            r is Err ==> r == Err::<(), Error>(
                Error::Encoding { label: "ascii string", offset: 0 },
            ),
    ;

    fn write_zeros(&mut self, count: u32)
        ensures
            final(self).written() == old(self).written() + zeros(count as nat),
    ;
}

impl WriteHelper for Vec<u8> {
    open spec fn written(&self) -> Seq<u8> {
        self@
    }

    fn write_u32(&mut self, value: u32) {
        self.push((value % 256) as u8);
        self.push(((value / 256) % 256) as u8);
        self.push(((value / 65536) % 256) as u8);
        self.push((value / 16777216) as u8);
        assert(self@ =~= old(self)@ + u32_bytes(value));
    }

    fn write_i32(&mut self, value: i32) {
        self.write_u32(make_unsigned32(value));
    }

    fn write_f32(&mut self, value: F32) {
        self.write_u32(value.bits);
    }

    fn write_u16(&mut self, value: u16) {
        self.push((value % 256) as u8);
        self.push((value / 256) as u8);
        assert(self@ =~= old(self)@ + u16_bytes(value));
    }

    fn write_i16(&mut self, value: i16) {
        self.write_u16(make_unsigned16(value));
    }

    fn write_struct(&mut self, value: &Vec<u32>) {
        let mut i: usize = 0;
        while i < value.len()
            invariant
                i <= value@.len(),
                self@ == old(self)@ + le_bytes(value@.take(i as int)),
            decreases value@.len() - i,
        {
            let word = value[i];
            self.push((word % 256) as u8);
            self.push(((word / 256) % 256) as u8);
            self.push(((word / 65536) % 256) as u8);
            self.push((word / 16777216) as u8);
            i = i + 1;
            assert(self@ =~= old(self)@ + le_bytes(value@.take(i as int)));
        }
        assert(value@.take(i as int) =~= value@);
    }

    fn write_bytes(&mut self, value: &Vec<u8>) {
        let mut i: usize = 0;
        while i < value.len()
            invariant
                i <= value@.len(),
                self@ == old(self)@ + value@.take(i as int),
            decreases value@.len() - i,
        {
            self.push(value[i]);
            i = i + 1;
            assert(self@ =~= old(self)@ + value@.take(i as int));
        }
        assert(value@.take(i as int) =~= value@);
    }

    fn write_string(&mut self, value: &str) -> (r: Result<()>) {
        if !value.is_ascii() {
            return Err(Error::Encoding { label: "ascii string", offset: 0 });
        }
        let buf = value.as_bytes();
        proof {
            vstd::utf8::is_ascii_chars_encode_utf8(value@);
        }
        if buf.len() > u32::MAX as usize {
            return Err(Error::Encoding { label: "ascii string", offset: 0 });
        }
        self.write_u32(buf.len() as u32);
        let mut i: usize = 0;
        while i < buf.len()
            invariant
                i <= buf@.len(),
                self@ == old(self)@ + u32_bytes(buf@.len() as u32) + buf@.take(i as int),
            decreases buf@.len() - i,
        {
            self.push(buf[i]);
            i = i + 1;
            assert(self@ =~= old(self)@ + u32_bytes(buf@.len() as u32) + buf@.take(i as int));
        }
        assert(buf@.take(i as int) =~= buf@);
        assert(self@ =~= old(self)@ + sized_text_bytes(value@));
        Ok(())
    }

    fn write_zeros(&mut self, count: u32) {
        let mut i: u32 = 0;
        while i < count
            invariant
                i <= count,
                self@ == old(self)@ + zeros(i as nat),
            decreases count - i,
        {
            self.push(0);
            i = i + 1;
            assert(self@ =~= old(self)@ + zeros(i as nat));
        }
    }
}

} // verus!
