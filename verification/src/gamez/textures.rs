//! The table of textures of a scene-graph asset: one record of 40 bytes for
//! each texture.
//!
//! | offset | field |
//! |---|---|
//! | 0, 4 | always zero |
//! | 8 | name, 20 bytes |
//! | 28 | always 2: the texture is in use |
//! | 32 | always zero: its index is given when the asset is loaded |
//! | 36 | always -1 |

use crate::assertion::{assert_equal, assert_utf8, check_utf8, differs};
use crate::error::{Error, Result};
use crate::io_ext::{le_bytes, le_words, CountingReader, WriteHelper};
use crate::record::{get_slot, get_u32, put_slot, slot_at, word_at};
use crate::string::{c_padded, fits_slot, str_to_c_padded};
use vstd::prelude::*;
use vstd::utf8::encode_utf8;

verus! {

/// The size of the record of a texture, in bytes.
pub const SIZE: u32 = 40;

/// The size of the slot of a name, in bytes.
pub const NAME_SIZE: usize = 20;

/// The value that says a texture is in use.
pub const USED: u32 = 2;

/// The 32-bit pattern of -1.
pub const MINUS_ONE: u32 = 0xFFFF_FFFF;

/// The greatest number of textures whose table has a size of 32 bits.
pub const MAX_COUNT: u32 = 107374182;

/// The texts of a run of names.
pub open spec fn names(list: Seq<String>) -> Seq<Seq<char>> {
    Seq::new(list.len(), |i: int| list[i]@)
}

/// What a record means, where it begins at byte offset `base`: the name of
/// the texture, with each other field holding what it always holds.
pub open spec fn decode(rec: Seq<u32>, base: int) -> core::result::Result<Seq<char>, Error> {
    let name = check_utf8("texture", base + 8, slot_at(rec, 8, 20));
    if word_at(rec, 0) != 0 {
        Err(differs("field 00", word_at(rec, 0), 0, base + 0))
    } else if word_at(rec, 4) != 0 {
        Err(differs("field 04", word_at(rec, 4), 0, base + 4))
    } else if name is Err {
        name
    } else if word_at(rec, 28) != USED {
        Err(differs("used", word_at(rec, 28), USED, base + 28))
    } else if word_at(rec, 32) != 0 {
        Err(differs("index", word_at(rec, 32), 0, base + 32))
    } else if word_at(rec, 36) != MINUS_ONE {
        Err(differs("field 36", word_at(rec, 36), MINUS_ONE, base + 36))
    } else {
        name
    }
}

/// What reading one record gives on a cursor in state `read`.
#[verifier::opaque]
pub open spec fn texture_result(read: CountingReader) -> core::result::Result<Seq<char>, Error> {
    if !read.can_take(40) {
        Err(Error::Transport)
    } else {
        decode(le_words(read.remaining().take(40)), read.offset as int)
    }
}

/// What reading `count` records gives: each in turn, up to the first that
/// fails.
pub open spec fn textures_result(read: CountingReader, count: nat) -> core::result::Result<
    Seq<Seq<char>>,
    Error,
>
    decreases count,
{
    if count == 0 {
        Ok(Seq::empty())
    } else {
        match texture_result(read) {
            Err(e) => Err(e),
            Ok(first) => match textures_result(read.after_take(40), (count - 1) as nat) {
                Err(e) => Err(e),
                Ok(rest) => Ok(seq![first] + rest),
            },
        }
    }
}

/// The cursor after reading `count` records.
pub open spec fn after_textures(read: CountingReader, count: nat) -> CountingReader
    decreases count,
{
    if count == 0 {
        read
    } else if texture_result(read) is Err {
        read.after_take(40)
    } else {
        after_textures(read.after_take(40), (count - 1) as nat)
    }
}

/// A result with the names that were read before it in front.
pub open spec fn behind(
    front: Seq<Seq<char>>,
    result: core::result::Result<Seq<Seq<char>>, Error>,
) -> core::result::Result<Seq<Seq<char>>, Error> {
    match result {
        Err(e) => Err(e),
        Ok(rest) => Ok(front + rest),
    }
}

fn read_texture_info(read: &mut CountingReader) -> (r: Result<String>)
    ensures
        crate::error::view_ok(r) == texture_result(*old(read)),
        *final(read) == old(read).after_take(40),
{
    reveal(texture_result);
    let rec = read.read_struct(SIZE)?;
    let base = read.prev;
    // a pointer, which a file does not hold
    assert_equal("field 00", get_u32(&rec, 0), 0, base + 0)?;
    // anything but zero would make the engine run more code
    assert_equal("field 04", get_u32(&rec, 4), 0, base + 4)?;
    let slot = get_slot(&rec, 8, NAME_SIZE);
    let texture = assert_utf8("texture", base + 8, slot.as_slice())?;
    assert_equal("used", get_u32(&rec, 28), USED, base + 28)?;
    assert_equal("index", get_u32(&rec, 32), 0, base + 32)?;
    assert_equal("field 36", get_u32(&rec, 36), MINUS_ONE, base + 36)?;
    Ok(texture)
}

/// Reads the records of `count` textures and gives their names.
pub fn read_texture_infos(read: &mut CountingReader, count: u32) -> (r: Result<Vec<String>>)
    ensures
        match r {
            Ok(list) => textures_result(*old(read), count as nat) == Ok::<Seq<Seq<char>>, Error>(
                names(list@),
            ),
            Err(e) => textures_result(*old(read), count as nat) == Err::<Seq<Seq<char>>, Error>(
                e,
            ),
        },
        *final(read) == after_textures(*old(read), count as nat),
{
    let mut list: Vec<String> = Vec::new();
    let mut i: u32 = 0;
    while i < count
        invariant
            i <= count,
            list@.len() == i,
            textures_result(*old(read), count as nat) == behind(
                names(list@),
                textures_result(*read, (count - i) as nat),
            ),
            after_textures(*old(read), count as nat) == after_textures(*read, (count - i) as nat),
        decreases count - i,
    {
        let ghost front = names(list@);
        let texture = read_texture_info(read)?;
        list.push(texture);
        i = i + 1;
        proof {
            let rest = textures_result(*read, (count - i) as nat);
            assert(names(list@) =~= front + seq![texture@]);
            if let Ok(rest) = rest {
                assert(front + (seq![texture@] + rest) =~= names(list@) + rest);
            }
        }
    }
    assert(names(list@) + Seq::<Seq<char>>::empty() =~= names(list@));
    Ok(list)
}

/// The words of the record of a texture, for a slot that holds its name.
#[verifier::opaque]
pub open spec fn record_words(slot: Seq<u8>) -> Seq<u32> {
    seq![0u32, 0u32] + le_words(slot) + seq![USED, 0u32, MINUS_ONE]
}

/// The words that the record of a texture is written as.  It is written
/// whenever the name fits the slot.
pub open spec fn encode(name: Seq<char>) -> Result<Seq<u32>> {
    if encode_utf8(name).len() > 20 {
        Err(Error::Encoding { label: "texture", offset: 0 })
    } else {
        Ok(record_words(c_padded(encode_utf8(name), 20)))
    }
}

/// The words that a table of textures is written as, one record behind the
/// other.
pub open spec fn encode_all(list: Seq<Seq<char>>) -> Result<Seq<u32>>
    decreases list.len(),
{
    if list.len() == 0 {
        Ok(Seq::empty())
    } else {
        match encode_all(list.drop_last()) {
            Err(e) => Err(e),
            Ok(front) => match encode(list.last()) {
                Err(e) => Err(e),
                Ok(words) => Ok(front + words),
            },
        }
    }
}

/// Where the front of a table cannot be written, the table cannot be, for
/// the same reason.
pub proof fn lemma_failure_stays(list: Seq<Seq<char>>, n: int)
    requires
        0 <= n <= list.len(),
        encode_all(list.take(n)) is Err,
    ensures
        encode_all(list) == encode_all(list.take(n)),
    decreases list.len() - n,
{
    if n < list.len() {
        assert(list.take(n + 1).drop_last() =~= list.take(n));
        lemma_failure_stays(list, n + 1);
    } else {
        assert(list.take(n) =~= list);
    }
}

/// The words of the records of a table of textures: what `write_texture_infos`
/// writes.
pub fn texture_words(textures: &Vec<String>) -> (r: Result<Vec<u32>>)
    ensures
        crate::error::view_ok(r) == encode_all(names(textures@)),
{
    let mut rec: Vec<u32> = Vec::new();
    let mut i: usize = 0;
    while i < textures.len()
        invariant
            i <= textures@.len(),
            encode_all(names(textures@).take(i as int)) == Ok::<Seq<u32>, Error>(rec@),
        decreases textures@.len() - i,
    {
        let ghost list = names(textures@);
        proof {
            assert(list.take(i + 1).drop_last() =~= list.take(i as int));
            assert(list.take(i + 1).last() == textures@[i as int]@);
        }
        let slot = match str_to_c_padded(textures[i].as_str(), NAME_SIZE) {
            Some(slot) => slot,
            None => {
                proof {
                    lemma_failure_stays(list, i + 1);
                }
                return Err(Error::Encoding { label: "texture", offset: 0 });
            },
        };
        let ghost before = rec@;
        rec.push(0);
        rec.push(0);
        put_slot(&mut rec, &slot);
        rec.push(USED);
        rec.push(0);
        rec.push(MINUS_ONE);
        proof {
            reveal(record_words);
            assert(rec@ =~= before + record_words(slot@));
        }
        i = i + 1;
    }
    assert(names(textures@).take(i as int) =~= names(textures@));
    Ok(rec)
}

/// Writes the records of a table of textures.  Nothing is written where one
/// of them cannot be.
pub fn write_texture_infos(write: &mut Vec<u8>, textures: &Vec<String>) -> (r: Result<()>)
    ensures
        match encode_all(names(textures@)) {
            Ok(words) => r is Ok && final(write)@ == old(write)@ + le_bytes(words),
            Err(e) => r == Err::<(), Error>(e) && final(write)@ == old(write)@,
        },
{
    let rec = texture_words(textures)?;
    write.write_struct(&rec);
    Ok(())
}

/// The size of the table of `count` textures, in bytes.
pub fn size_texture_infos(count: u32) -> (r: u32)
    requires
        count <= MAX_COUNT,
    ensures
        r == 40 * count,
{
    SIZE * count
}

/// A table of `n` textures that can be written is written as `40 * n`
/// bytes.
pub proof fn lemma_fixed_size(list: Seq<Seq<char>>)
    requires
        encode_all(list) is Ok,
    ensures
        encode_all(list)->Ok_0.len() == 10 * list.len(),
        le_bytes(encode_all(list)->Ok_0).len() == 40 * list.len(),
    decreases list.len(),
{
    if list.len() > 0 {
        lemma_fixed_size(list.drop_last());
        lemma_fields(c_padded(encode_utf8(list.last()), 20));
    }
}

/// The fields of a record that was laid out, each at its offset.
#[verifier::rlimit(40)]
pub proof fn lemma_fields(slot: Seq<u8>)
    requires
        slot.len() == 20,
    ensures
        ({
            let rec = record_words(slot);
            &&& rec.len() == 10
            &&& word_at(rec, 0) == 0
            &&& word_at(rec, 4) == 0
            &&& slot_at(rec, 8, 20) == slot
            &&& word_at(rec, 28) == USED
            &&& word_at(rec, 32) == 0
            &&& word_at(rec, 36) == MINUS_ONE
        }),
{
    reveal(record_words);
    let rec = record_words(slot);
    let words = le_words(slot);
    assert(words.len() == 5);
    crate::io_ext::lemma_le_bytes_of_words(slot);
    assert(rec.subrange(2, 7) =~= words);
}

/// The record that was written for a name that can be kept in its slot is
/// decoded to that name, wherever it begins.
pub proof fn lemma_round_trip(name: Seq<char>, base: int)
    requires
        fits_slot(name, 20),
    ensures
        encode(name) matches Ok(words) && words.len() == 10 && decode(words, base) == Ok::<
            Seq<char>,
            Error,
        >(name),
{
    crate::string::lemma_slot_round_trip(name, 20);
    lemma_fields(c_padded(encode_utf8(name), 20));
}

/// Whatever is decoded can be kept in a slot.
pub proof fn lemma_decoded_is_legal(rec: Seq<u32>, base: int)
    requires
        rec.len() == 10,
    ensures
        decode(rec, base) matches Ok(name) ==> fits_slot(name, 20),
{
    let slot = slot_at(rec, 8, 20);
    assert(slot.len() == 20);
    if check_utf8("texture", base + 8, slot) is Ok {
        crate::string::lemma_text_fits(slot);
    }
}

/// Every name of a table can be kept in its slot.
pub open spec fn all_fit(list: Seq<Seq<char>>) -> bool {
    forall|i: int| 0 <= i < list.len() ==> fits_slot(#[trigger] list[i], 20)
}

/// Reading gives back what was written: on a cursor whose next bytes are
/// those that were written for a name that can be kept in its slot, reading
/// one record gives that name and leaves the cursor behind the record.
pub proof fn lemma_read_back(name: Seq<char>, behind: Seq<u32>, read: CountingReader)
    requires
        fits_slot(name, 20),
        encode(name) is Ok,
        read.holds_words(encode(name)->Ok_0 + behind),
    ensures
        texture_result(read) == Ok::<Seq<char>, Error>(name),
        read.after_take(40) == read.advanced(40),
        read.advanced(40).holds_words(behind),
{
    reveal(texture_result);
    let words = encode(name)->Ok_0;
    let all = words + behind;
    lemma_round_trip(name, read.offset as int);
    read.lemma_holds_words(all, 10);
    assert(all.take(10) =~= words);
    assert(all.skip(10) =~= behind);
}

/// The words of a table begin with the words of its first record.
pub proof fn lemma_encode_all_front(list: Seq<Seq<char>>)
    requires
        list.len() > 0,
        encode_all(list) is Ok,
    ensures
        encode(list[0]) is Ok,
        encode_all(list.drop_first()) is Ok,
        encode_all(list)->Ok_0 == encode(list[0])->Ok_0 + encode_all(list.drop_first())->Ok_0,
    decreases list.len(),
{
    let front = list.drop_last();
    if list.len() == 1 {
        assert(front =~= Seq::<Seq<char>>::empty());
        assert(list.drop_first() =~= Seq::<Seq<char>>::empty());
        assert(encode_all(list)->Ok_0 =~= encode(list[0])->Ok_0 + Seq::<u32>::empty());
    } else {
        lemma_encode_all_front(front);
        assert(front.drop_first() =~= list.drop_first().drop_last());
        assert(front[0] == list[0]);
        assert(list.drop_first().last() == list.last());
        assert(encode_all(list)->Ok_0 =~= encode(list[0])->Ok_0 + encode_all(
            list.drop_first(),
        )->Ok_0);
    }
}

/// Reading gives back what was written: on a cursor whose next bytes are
/// those that were written for a table of names that can be kept in their
/// slots, reading as many records as the table has gives the names, and
/// leaves the cursor behind the table.
pub proof fn lemma_read_all_back(list: Seq<Seq<char>>, behind: Seq<u32>, read: CountingReader)
    requires
        all_fit(list),
        encode_all(list) is Ok,
        read.holds_words(encode_all(list)->Ok_0 + behind),
    ensures
        textures_result(read, list.len()) == Ok::<Seq<Seq<char>>, Error>(list),
        after_textures(read, list.len()).holds_words(behind),
        after_textures(read, list.len()).remaining() == read.remaining().skip(40 * (list.len() as int)),
        after_textures(read, list.len()).offset == read.offset + 40 * list.len(),
    decreases list.len(),
{
    if list.len() == 0 {
        assert(list =~= Seq::<Seq<char>>::empty());
        assert(encode_all(list)->Ok_0 + behind =~= behind);
        assert(read.remaining().skip(0) =~= read.remaining());
    } else {
        let rest = list.drop_first();
        lemma_encode_all_front(list);
        let first = encode(list[0])->Ok_0;
        let others = encode_all(rest)->Ok_0;
        assert(first + others + behind =~= first + (others + behind));
        lemma_read_back(list[0], others + behind, read);
        lemma_round_trip(list[0], 0);
        read.lemma_holds_words(first + (others + behind), 10);
        read.lemma_advanced(40);
        assert(textures_result(read, list.len()) == (match textures_result(
            read.after_take(40),
            (list.len() - 1) as nat,
        ) {
            Err(e) => Err(e),
            Ok(names) => Ok(seq![list[0]] + names),
        }));
        assert(after_textures(read, list.len()) == after_textures(
            read.after_take(40),
            (list.len() - 1) as nat,
        ));
        assert(all_fit(rest)) by {
            assert forall|i: int| 0 <= i < rest.len() implies fits_slot(#[trigger] rest[i], 20) by {
                assert(rest[i] == list[i + 1]);
            }
        }
        lemma_read_all_back(rest, behind, read.advanced(40));
        lemma_fixed_size(list);
        assert(seq![list[0]] + rest =~= list);
        assert(read.remaining().skip(40).skip(40 * (rest.len() as int)) =~= read.remaining().skip(
            40 * (list.len() as int),
        ));
    }
}

} // verus!
