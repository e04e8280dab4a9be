//! The scene-graph asset: a header of 36 bytes and four sections.
//!
//! | offset | field of the header |
//! |---|---|
//! | 0 | signature |
//! | 4 | version |
//! | 8 | number of textures, below 4096 |
//! | 12, 16, 20 | offsets of the textures, the materials and the meshes |
//! | 24 | size of the array of nodes |
//! | 28 | number of nodes, below the size of the array |
//! | 32 | offset of the nodes |
//!
//! The four offsets are held against the cursor: each section has to begin
//! where the one in front of it ends.  The table of textures is decoded
//! here; the materials, the meshes and the nodes are handed on as the bytes
//! of their sections, which the offsets delimit.

pub mod textures;

use crate::assertion::{assert_equal, assert_that, broken, differs};
use crate::error::{Detail, Error, Result};
use crate::gamez::textures::{
    after_textures,
    encode_all,
    names,
    read_texture_infos,
    texture_words,
    textures_result,
};
use crate::io_ext::{le_bytes, le_words, CountingReader, WriteHelper};
use crate::record::{get_u32, word_at};
use vstd::prelude::*;

verus! {

/// The size of the header, in bytes.
pub const HEADER_SIZE: u32 = 36;

pub const SIGNATURE: u32 = 0x02971222;

pub const VERSION_RECOIL: u32 = 15;

pub const VERSION_MW: u32 = 27;

pub const VERSION_PM: u32 = 41;

/// One more than the greatest number of textures.
pub const TEXTURE_LIMIT: u32 = 4096;

/// What the header says of the nodes.
#[derive(Clone, Copy, Debug, PartialEq, Eq, Structural)]
pub struct Metadata {
    pub node_array_size: u32,
    pub node_data_count: u32,
}

#[derive(Clone, Debug, PartialEq, Eq)]
pub struct GameZ {
    pub metadata: Metadata,
    pub textures: Vec<String>,
    pub materials: Vec<u8>,
    pub meshes: Vec<u8>,
    pub nodes: Vec<u8>,
}

pub struct GameZView {
    pub metadata: Metadata,
    pub textures: Seq<Seq<char>>,
    pub materials: Seq<u8>,
    pub meshes: Seq<u8>,
    pub nodes: Seq<u8>,
}

impl View for GameZ {
    type V = GameZView;

    open spec fn view(&self) -> GameZView {
        GameZView {
            metadata: self.metadata,
            textures: names(self.textures@),
            materials: self.materials@,
            meshes: self.meshes@,
            nodes: self.nodes@,
        }
    }
}

/// The header as it is checked by itself, where it begins at byte offset
/// `base`: the signature, the version and the two counts.
pub open spec fn header_in(rec: Seq<u32>, base: int) -> Result<()> {
    if word_at(rec, 0) != SIGNATURE {
        Err(differs("signature", word_at(rec, 0), SIGNATURE, base + 0))
    } else if word_at(rec, 4) != VERSION_MW {
        Err(differs("version", word_at(rec, 4), VERSION_MW, base + 4))
    } else if word_at(rec, 8) >= TEXTURE_LIMIT {
        Err(broken("texture count", base + 8))
    } else if word_at(rec, 28) >= word_at(rec, 24) {
        Err(broken("node count", base + 28))
    } else {
        Ok(())
    }
}

/// The bytes of a section that runs from the cursor to the offset `end`,
/// which cannot lie in front of the cursor.
pub open spec fn section_result(read: CountingReader, label: &'static str, end: u32) -> Result<
    Seq<u8>,
> {
    if end < read.offset {
        Err(broken(label, read.offset as int))
    } else if !read.can_take(end - read.offset) {
        Err(Error::Transport)
    } else {
        Ok(read.remaining().take(end - read.offset))
    }
}

/// What `read_gamez` gives on a cursor in state `read`.
#[verifier::opaque]
pub open spec fn gamez_result(read: CountingReader) -> core::result::Result<GameZView, Error> {
    let rec = le_words(read.remaining().take(36));
    let header = header_in(rec, read.offset as int);
    let at_textures = read.advanced(36);
    let count = word_at(rec, 8);
    let textures = textures_result(at_textures, count as nat);
    let at_materials = after_textures(at_textures, count as nat);
    let materials = section_result(at_materials, "meshes offset", word_at(rec, 20));
    let at_meshes = at_materials.advanced(word_at(rec, 20) - at_materials.offset);
    let meshes = section_result(at_meshes, "nodes offset", word_at(rec, 32));
    let at_nodes = at_meshes.advanced(word_at(rec, 32) - at_meshes.offset);
    if !read.can_take(36) {
        Err(Error::Transport)
    } else if header is Err {
        Err(header->Err_0)
    } else if word_at(rec, 12) != at_textures.offset {
        Err(differs("textures offset", word_at(rec, 12), at_textures.offset, at_textures.offset as int))
    } else if textures is Err {
        Err(textures->Err_0)
    } else if word_at(rec, 16) != at_materials.offset {
        Err(differs("materials offset", word_at(rec, 16), at_materials.offset, at_materials.offset as int))
    } else if materials is Err {
        Err(materials->Err_0)
    } else if meshes is Err {
        Err(meshes->Err_0)
    } else if !at_nodes.can_take(at_nodes.remaining().len() as int) {
        Err(Error::Transport)
    } else {
        Ok(
            GameZView {
                metadata: Metadata {
                    node_array_size: word_at(rec, 24),
                    node_data_count: word_at(rec, 28),
                },
                textures: textures->Ok_0,
                materials: materials->Ok_0,
                meshes: meshes->Ok_0,
                nodes: at_nodes.remaining(),
            },
        )
    }
}

/// The cursor after `read_gamez`: behind whatever was transferred.
pub open spec fn after_gamez(read: CountingReader) -> CountingReader {
    let rec = le_words(read.remaining().take(36));
    let header = header_in(rec, read.offset as int);
    let at_textures = read.advanced(36);
    let count = word_at(rec, 8);
    let textures = textures_result(at_textures, count as nat);
    let at_materials = after_textures(at_textures, count as nat);
    let materials = section_result(at_materials, "meshes offset", word_at(rec, 20));
    let at_meshes = at_materials.advanced(word_at(rec, 20) - at_materials.offset);
    let meshes = section_result(at_meshes, "nodes offset", word_at(rec, 32));
    let at_nodes = at_meshes.advanced(word_at(rec, 32) - at_meshes.offset);
    if !read.can_take(36) {
        read
    } else if header is Err || word_at(rec, 12) != at_textures.offset {
        at_textures
    } else if textures is Err || word_at(rec, 16) != at_materials.offset || materials is Err {
        at_materials
    } else if meshes is Err {
        at_meshes
    } else {
        at_nodes.after_take(at_nodes.remaining().len() as int)
    }
}

fn read_header(read: &mut CountingReader) -> (r: Result<Vec<u32>>)
    ensures
        r is Ok <==> old(read).can_take(36) && header_in(
            le_words(old(read).remaining().take(36)),
            old(read).offset as int,
        ) is Ok,
        r matches Ok(rec) ==> rec@ == le_words(old(read).remaining().take(36)),
        *final(read) == old(read).after_take(36),
        r matches Err(e) ==> if old(read).can_take(36) {
            header_in(le_words(old(read).remaining().take(36)), old(read).offset as int) == Err::<
                (),
                Error,
            >(e)
        } else {
            e == Error::Transport
        },
{
    let rec = read.read_struct(HEADER_SIZE)?;
    let base = read.prev;
    assert_equal("signature", get_u32(&rec, 0), SIGNATURE, base + 0)?;
    assert_equal("version", get_u32(&rec, 4), VERSION_MW, base + 4)?;
    assert_that("texture count", get_u32(&rec, 8) < TEXTURE_LIMIT, base + 8)?;
    assert_that("node count", get_u32(&rec, 28) < get_u32(&rec, 24), base + 28)?;
    Ok(rec)
}

fn read_section(read: &mut CountingReader, label: &'static str, end: u32) -> (r: Result<Vec<u8>>)
    ensures
        crate::error::view_ok(r) == section_result(*old(read), label, end),
        r is Ok ==> *final(read) == old(read).advanced(end - old(read).offset),
        r is Err ==> *final(read) == *old(read),
{
    assert_that(label, end >= read.offset, read.offset)?;
    read.read_bytes((end - read.offset) as usize)
}

/// Reads a scene-graph asset to its end.
pub fn read_gamez(read: &mut CountingReader) -> (r: Result<GameZ>)
    ensures
        crate::error::view_ok(r) == gamez_result(*old(read)),
        *final(read) == after_gamez(*old(read)),
        r is Ok ==> final(read).remaining().len() == 0,
{
    reveal(gamez_result);
    let rec = read_header(read)?;
    let count = get_u32(&rec, 8);
    assert_equal("textures offset", get_u32(&rec, 12), read.offset, read.offset)?;
    let textures = read_texture_infos(read, count)?;
    assert_equal("materials offset", get_u32(&rec, 16), read.offset, read.offset)?;
    let materials = read_section(read, "meshes offset", get_u32(&rec, 20))?;
    let meshes = read_section(read, "nodes offset", get_u32(&rec, 32))?;
    let left = read.remaining_len();
    let nodes = read.read_bytes(left)?;
    proof {
        assert(nodes@ =~= gamez_result(*old(read))->Ok_0.nodes);
    }
    read.assert_end()?;
    let metadata = Metadata {
        node_array_size: get_u32(&rec, 24),
        node_data_count: get_u32(&rec, 28),
    };
    Ok(GameZ { metadata, textures, materials, meshes, nodes })
}

/// The header of an asset whose table of textures has `count` records, and
/// whose sections of materials and meshes have the given sizes.
pub open spec fn header_words(metadata: Metadata, count: int, materials: int, meshes: int) -> Seq<
    u32,
> {
    seq![
        SIGNATURE,
        VERSION_MW,
        count as u32,
        HEADER_SIZE,
        (36 + 40 * count) as u32,
        (36 + 40 * count + materials) as u32,
        metadata.node_array_size,
        metadata.node_data_count,
        (36 + 40 * count + materials + meshes) as u32,
    ]
}

/// The bytes that an asset is written as: the header, the table of
/// textures, and the three other sections as they are.  It is written
/// whenever the name of every texture fits its slot and the offset of the
/// nodes is a 32-bit number.
pub open spec fn encode(v: GameZView) -> Result<Seq<u8>> {
    let textures = encode_all(v.textures);
    if textures is Err {
        Err(textures->Err_0)
    } else if 36 + 40 * v.textures.len() + v.materials.len() + v.meshes.len() > u32::MAX {
        Err(broken("nodes offset", 0))
    } else {
        Ok(
            le_bytes(
                header_words(
                    v.metadata,
                    v.textures.len() as int,
                    v.materials.len() as int,
                    v.meshes.len() as int,
                ),
            ) + le_bytes(textures->Ok_0) + v.materials + v.meshes + v.nodes,
        )
    }
}

/// Writes a scene-graph asset.  Nothing is written where it cannot be.
pub fn write_gamez(write: &mut Vec<u8>, gamez: &GameZ) -> (r: Result<()>)
    ensures
        match encode(gamez@) {
            Ok(bytes) => r is Ok && final(write)@ == old(write)@ + bytes,
            Err(e) => r == Err::<(), Error>(e) && final(write)@ == old(write)@,
        },
{
    let textures = texture_words(&gamez.textures)?;
    let count = gamez.textures.len();
    let materials = gamez.materials.len();
    let meshes = gamez.meshes.len();
    let limit = u32::MAX as usize;
    if count > (limit - 36) / 40 || materials > limit - 36 - 40 * count || meshes > limit - 36 - 40
        * count - materials {
        return Err(Error::Assertion { label: "nodes offset", offset: 0, detail: Detail::Condition });
    }
    let textures_offset = HEADER_SIZE;
    let materials_offset = textures_offset + 40 * (count as u32);
    let meshes_offset = materials_offset + materials as u32;
    let nodes_offset = meshes_offset + meshes as u32;
    let mut header: Vec<u32> = Vec::new();
    header.push(SIGNATURE);
    header.push(VERSION_MW);
    header.push(count as u32);
    header.push(textures_offset);
    header.push(materials_offset);
    header.push(meshes_offset);
    header.push(gamez.metadata.node_array_size);
    header.push(gamez.metadata.node_data_count);
    header.push(nodes_offset);
    write.write_struct(&header);
    write.write_struct(&textures);
    write.write_bytes(&gamez.materials);
    write.write_bytes(&gamez.meshes);
    write.write_bytes(&gamez.nodes);
    proof {
        assert(write@ =~= old(write)@ + encode(gamez@)->Ok_0);
    }
    Ok(())
}

/// The assets that `read_gamez` can give: fewer textures than the limit,
/// each with a name that can be kept in its slot, and fewer nodes than the
/// array of nodes has room for.
pub open spec fn legal(v: GameZView) -> bool {
    &&& v.textures.len() < TEXTURE_LIMIT
    &&& crate::gamez::textures::all_fit(v.textures)
    &&& v.metadata.node_data_count < v.metadata.node_array_size
}

/// A section that lies in front of the cursor is read as it is, up to the
/// offset at which it ends.
proof fn lemma_section_back(
    read: CountingReader,
    label: &'static str,
    section: Seq<u8>,
    behind: Seq<u8>,
)
    requires
        read.remaining() == section + behind,
        read.offset + section.len() <= u32::MAX,
    ensures
        section_result(read, label, (read.offset + section.len()) as u32) == Ok::<Seq<u8>, Error>(
            section,
        ),
        read.advanced(section.len() as int).remaining() == behind,
        read.advanced(section.len() as int).offset == read.offset + section.len(),
{
    read.lemma_advanced(section.len() as int);
    assert(read.remaining().take(section.len() as int) =~= section);
    assert(read.remaining().skip(section.len() as int) =~= behind);
}

/// The front of a run of bytes that is made of two runs is the first run,
/// and what is behind it is the second.
proof fn lemma_split(a: Seq<u8>, b: Seq<u8>)
    ensures
        (a + b).take(a.len() as int) == a,
        (a + b).skip(a.len() as int) == b,
{
    assert((a + b).take(a.len() as int) =~= a);
    assert((a + b).skip(a.len() as int) =~= b);
}

/// Five runs of bytes one behind the other are the first run and, behind
/// it, the other four.
proof fn lemma_five(a: Seq<u8>, b: Seq<u8>, c: Seq<u8>, d: Seq<u8>, e: Seq<u8>)
    ensures
        a + b + c + d + e == a + (b + c + d + e),
        b + c + d + e == b + (c + d + e),
{
    assert(a + b + c + d + e =~= a + (b + c + d + e));
    assert(b + c + d + e =~= b + (c + d + e));
}

/// The header passes its checks.
proof fn lemma_header_passes(v: GameZView)
    requires
        legal(v),
        36 + 40 * v.textures.len() + v.materials.len() + v.meshes.len() <= u32::MAX,
    ensures
        ({
            let rec = header_words(
                v.metadata,
                v.textures.len() as int,
                v.materials.len() as int,
                v.meshes.len() as int,
            );
            &&& rec.len() == 9
            &&& header_in(rec, 0) == Ok::<(), Error>(())
            &&& word_at(rec, 8) == v.textures.len()
            &&& word_at(rec, 12) == 36
            &&& word_at(rec, 16) == 36 + 40 * v.textures.len()
            &&& word_at(rec, 20) == 36 + 40 * v.textures.len() + v.materials.len()
            &&& word_at(rec, 24) == v.metadata.node_array_size
            &&& word_at(rec, 28) == v.metadata.node_data_count
            &&& word_at(rec, 32) == 36 + 40 * v.textures.len() + v.materials.len()
                + v.meshes.len()
        }),
{
}

/// The header that was written is read as it is, and the table of textures
/// lies behind it.
proof fn lemma_header_back(v: GameZView, read: CountingReader)
    requires
        legal(v),
        encode(v) is Ok,
        read.offset == 0,
        read.remaining() == encode(v)->Ok_0,
    ensures
        read.can_take(36),
        le_words(read.remaining().take(36)) == header_words(
            v.metadata,
            v.textures.len() as int,
            v.materials.len() as int,
            v.meshes.len() as int,
        ),
        read.advanced(36).offset == 36,
        read.advanced(36).holds_words(encode_all(v.textures)->Ok_0),
        read.advanced(36).remaining() == le_bytes(encode_all(v.textures)->Ok_0) + (v.materials + (
            v.meshes + v.nodes)),
{
    let header = header_words(
        v.metadata,
        v.textures.len() as int,
        v.materials.len() as int,
        v.meshes.len() as int,
    );
    let table = encode_all(v.textures)->Ok_0;
    lemma_header_passes(v);
    crate::gamez::textures::lemma_fixed_size(v.textures);
    crate::io_ext::lemma_le_words_of_bytes(header);
    crate::io_ext::lemma_le_words_of_bytes(table);
    let a = le_bytes(header);
    let b = le_bytes(table);
    lemma_five(a, b, v.materials, v.meshes, v.nodes);
    lemma_five(b, v.materials, v.meshes, v.nodes, Seq::empty());
    assert(v.meshes + v.nodes + Seq::<u8>::empty() =~= v.meshes + v.nodes);
    assert(b + v.materials + v.meshes + v.nodes == b + (v.materials + (v.meshes + v.nodes))) by {
        assert(v.materials + v.meshes + v.nodes =~= v.materials + (v.meshes + v.nodes));
    }
    lemma_split(a, b + (v.materials + (v.meshes + v.nodes)));
    lemma_split(b, v.materials + (v.meshes + v.nodes));
    read.lemma_advanced(36);
}

/// What the steps of reading an asset give together: where the header is
/// there and passes, the table of textures is read, each section begins
/// where the one in front of it ends, and the nodes run to the end, the
/// asset is made of what the steps gave.
proof fn lemma_steps_give(read: CountingReader, v: GameZView)
    requires
        read.can_take(36),
        ({
            let rec = le_words(read.remaining().take(36));
            let at_textures = read.advanced(36);
            let at_materials = after_textures(at_textures, word_at(rec, 8) as nat);
            let at_meshes = at_materials.advanced(word_at(rec, 20) - at_materials.offset);
            let at_nodes = at_meshes.advanced(word_at(rec, 32) - at_meshes.offset);
            &&& header_in(rec, read.offset as int) is Ok
            &&& word_at(rec, 12) == at_textures.offset
            &&& textures_result(at_textures, word_at(rec, 8) as nat) == Ok::<
                Seq<Seq<char>>,
                Error,
            >(v.textures)
            &&& word_at(rec, 16) == at_materials.offset
            &&& section_result(at_materials, "meshes offset", word_at(rec, 20)) == Ok::<
                Seq<u8>,
                Error,
            >(v.materials)
            &&& section_result(at_meshes, "nodes offset", word_at(rec, 32)) == Ok::<Seq<u8>, Error>(
                v.meshes,
            )
            &&& at_nodes.can_take(at_nodes.remaining().len() as int)
            &&& at_nodes.remaining() == v.nodes
            &&& word_at(rec, 24) == v.metadata.node_array_size
            &&& word_at(rec, 28) == v.metadata.node_data_count
        }),
    ensures
        gamez_result(read) == Ok::<GameZView, Error>(v),
{
    reveal(gamez_result);
}

/// The textures that were written are read back, and the three other
/// sections lie behind them.
proof fn lemma_textures_back(v: GameZView, read: CountingReader)
    requires
        legal(v),
        encode(v) is Ok,
        read.offset == 0,
        read.remaining() == encode(v)->Ok_0,
    ensures
        ({
            let at_textures = read.advanced(36);
            let at_materials = after_textures(at_textures, v.textures.len());
            &&& textures_result(at_textures, v.textures.len()) == Ok::<Seq<Seq<char>>, Error>(
                v.textures,
            )
            &&& at_materials.offset == 36 + 40 * v.textures.len()
            &&& at_materials.remaining() == v.materials + (v.meshes + v.nodes)
        }),
{
    let table = encode_all(v.textures)->Ok_0;
    crate::gamez::textures::lemma_fixed_size(v.textures);
    crate::io_ext::lemma_le_words_of_bytes(table);
    lemma_header_back(v, read);
    assert(table + Seq::<u32>::empty() =~= table);
    crate::gamez::textures::lemma_read_all_back(v.textures, Seq::empty(), read.advanced(36));
    lemma_split(le_bytes(table), v.materials + (v.meshes + v.nodes));
}

/// Reading gives back what was written: on a cursor at offset 0 over the
/// bytes that were written for a legal asset, which are fewer than a 32-bit
/// offset can count, `read_gamez` gives that asset.
#[verifier::rlimit(40)]
pub proof fn lemma_read_back(v: GameZView, read: CountingReader)
    requires
        legal(v),
        encode(v) is Ok,
        read.offset == 0,
        read.remaining() == encode(v)->Ok_0,
        read.remaining().len() <= u32::MAX,
    ensures
        gamez_result(read) == Ok::<GameZView, Error>(v),
{
    let n = v.textures.len();
    crate::gamez::textures::lemma_fixed_size(v.textures);
    crate::io_ext::lemma_le_words_of_bytes(encode_all(v.textures)->Ok_0);
    lemma_header_back(v, read);
    lemma_header_passes(v);
    lemma_textures_back(v, read);
    let at_materials = after_textures(read.advanced(36), n);
    lemma_section_back(at_materials, "meshes offset", v.materials, v.meshes + v.nodes);
    let at_meshes = at_materials.advanced(v.materials.len() as int);
    lemma_section_back(at_meshes, "nodes offset", v.meshes, v.nodes);
    lemma_steps_give(read, v);
}

} // verus!
