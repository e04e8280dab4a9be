//! The call-object-connector event: 68 bytes and a flag word that is always
//! the same.
//!
//! | offset | field |
//! |---|---|
//! | 0 | flags, always the one known value |
//! | 4 | name of the node, 32 bytes |
//! | 36 | index of the node, always zero: the node is found by its name |
//! | 38 | always -1, 16 bits |
//! | 40 | index of the node the connector comes from |
//! | 42 | index of the node it goes to, always zero: it goes to the node the event is applied to |
//! | 44 | position it comes from, always zero |
//! | 56 | position it goes to |

use crate::anim_def::{index_from_name, name_from_index, AnimDef, AnimDefView};
use crate::assertion::{
    assert_empty,
    assert_equal,
    assert_utf8,
    broken,
    check_utf8,
    differs,
    not_empty,
};
use crate::error::{Detail, Error, Result};
use crate::io_ext::{le_bytes, le_words, CountingReader, WriteHelper};
use crate::record::{
    get_slot,
    get_u16,
    get_u32,
    get_vec3,
    halves,
    put_halves,
    put_slot,
    put_vec3,
    slot_at,
    u16_at,
    vec3_at,
    word_at,
};
use crate::sequence_event::{after_record, read_record, record_of, INPUT_NODE};
use crate::string::{c_padded, fits_slot, str_to_c_padded};
use crate::types::Vec3;
use vstd::prelude::*;
use vstd::utf8::encode_utf8;

verus! {

/// The tag of this kind of event.
pub const INDEX: u8 = 19;

/// The fixed size of the record, in bytes.
pub const SIZE: u32 = 68;

/// The size of the slot of the name, in bytes.
pub const NAME_SIZE: usize = 32;

/// The one flag word that is known: the bits 1024, 512 and 2.
pub const FLAGS: u32 = 1538;

/// The 16-bit pattern of -1.
pub const MINUS_ONE: u16 = 0xFFFF;

#[derive(Clone, Debug, PartialEq, Eq)]
pub struct CallObjectConnector {
    pub node: String,
    pub from_node: String,
    pub to_node: String,
    pub to_pos: Vec3,
}

pub struct CallObjectConnectorView {
    pub node: Seq<char>,
    pub from_node: Seq<char>,
    pub to_node: Seq<char>,
    pub to_pos: Vec3,
}

impl View for CallObjectConnector {
    type V = CallObjectConnectorView;

    open spec fn view(&self) -> CallObjectConnectorView {
        CallObjectConnectorView {
            node: self.node@,
            from_node: self.from_node@,
            to_node: self.to_node@,
            to_pos: self.to_pos,
        }
    }
}

/// The name of the node, behind the flags.
pub open spec fn node_in(rec: Seq<u32>, base: int) -> core::result::Result<Seq<char>, Error> {
    if word_at(rec, 0) != FLAGS {
        Err(
            Error::UnknownDiscriminant {
                label: "call object connector flags",
                value: word_at(rec, 0),
                offset: base as u32,
            },
        )
    } else {
        check_utf8("call object connector node name", base + 4, slot_at(rec, 4, 32))
    }
}

/// The node the connector comes from, between the fields that are always
/// the same.
pub open spec fn from_node_in(rec: Seq<u32>, ctx: AnimDefView, base: int) -> core::result::Result<
    Seq<char>,
    Error,
> {
    let from_node = name_from_index(ctx.nodes, "node index", u16_at(rec, 40) as int, base + 40);
    if u16_at(rec, 36) != 0 {
        Err(differs("call object connector node index", u16_at(rec, 36) as u32, 0, base + 36))
    } else if u16_at(rec, 38) != MINUS_ONE {
        Err(differs("call object connector save index", u16_at(rec, 38) as u32, MINUS_ONE as u32, base + 38))
    } else if from_node is Err {
        from_node
    } else if u16_at(rec, 42) != 0 {
        Err(differs("call object connector to index", u16_at(rec, 42) as u32, 0, base + 42))
    } else if !vec3_at(rec, 44).spec_is_empty() {
        Err(not_empty("call object connector from pos", vec3_at(rec, 44), base + 44))
    } else {
        from_node
    }
}

/// What a record means, where it begins at byte offset `base`: the checks in
/// the order of the fields, the first broken one giving the error.
pub open spec fn decode(rec: Seq<u32>, ctx: AnimDefView, base: int) -> core::result::Result<
    CallObjectConnectorView,
    Error,
> {
    let node = node_in(rec, base);
    let from_node = from_node_in(rec, ctx, base);
    if node is Err {
        Err(node->Err_0)
    } else if from_node is Err {
        Err(from_node->Err_0)
    } else {
        Ok(
            CallObjectConnectorView {
                node: node->Ok_0,
                from_node: from_node->Ok_0,
                to_node: INPUT_NODE@,
                to_pos: vec3_at(rec, 56),
            },
        )
    }
}

/// What `read` gives on a cursor in state `read`.
pub open spec fn read_result(read: CountingReader, ctx: AnimDefView, size: u32)
    -> core::result::Result<CallObjectConnectorView, Error> {
    match record_of(read, "call object connector size", SIZE, size) {
        Err(e) => Err(e),
        Ok(rec) => decode(rec, ctx, read.offset as int),
    }
}

/// A record as the functions below take it: 17 words, which begin at an
/// offset that leaves room for them.
pub open spec fn is_record(rec: Seq<u32>, base: u32) -> bool {
    rec.len() == 17 && base + SIZE <= u32::MAX
}

fn read_node(rec: &Vec<u32>, base: u32) -> (r: Result<String>)
    requires
        is_record(rec@, base),
    ensures
        crate::error::view_ok(r) == node_in(rec@, base as int),
{
    let flags = get_u32(rec, 0);
    if flags != FLAGS {
        return Err(
            Error::UnknownDiscriminant {
                label: "call object connector flags",
                value: flags,
                offset: base,
            },
        );
    }
    let slot = get_slot(rec, 4, NAME_SIZE);
    assert_utf8("call object connector node name", base + 4, slot.as_slice())
}

fn read_from_node(rec: &Vec<u32>, anim_def: &AnimDef, base: u32) -> (r: Result<String>)
    requires
        is_record(rec@, base),
    ensures
        crate::error::view_ok(r) == from_node_in(rec@, anim_def@, base as int),
{
    // the index of the node is always 0: the node is found by its name
    assert_equal("call object connector node index", get_u16(rec, 36) as u32, 0, base + 36)?;
    assert_equal("call object connector save index", get_u16(rec, 38) as u32, MINUS_ONE as u32, base + 38)?;
    let from_node = anim_def.node_from_index(get_u16(rec, 40) as usize, base + 40)?;
    assert_equal("call object connector to index", get_u16(rec, 42) as u32, 0, base + 42)?;
    assert_empty("call object connector from pos", get_vec3(rec, 44), base + 44)?;
    Ok(from_node)
}

// The record that a value is written as.
/// The words behind the name.
pub open spec fn tail_block(from_index: u16, to_pos: Vec3) -> Seq<u32> {
    seq![
        halves(0, MINUS_ONE),
        halves(from_index, 0),
        0,
        0,
        0,
        to_pos.0.bits,
        to_pos.1.bits,
        to_pos.2.bits,
    ]
}

/// The words of a record: the flags, the slot of the name, then the other
/// fields in the order of their offsets.
#[verifier::opaque]
pub open spec fn layout(slot: Seq<u8>, from_index: u16, to_pos: Vec3) -> Seq<u32> {
    seq![FLAGS] + le_words(slot) + tail_block(from_index, to_pos)
}

/// The record that a value is written as.  It is written whenever the name
/// of the node fits its slot and the node the connector comes from is in the
/// table of nodes, at an index that fits 16 bits.  The node it goes to is
/// not written.
pub open spec fn encode(v: CallObjectConnectorView, ctx: AnimDefView) -> Result<Seq<u32>> {
    let index = index_from_name(ctx.nodes, "node name", v.from_node);
    if encode_utf8(v.node).len() > 32 {
        Err(Error::Encoding { label: "call object connector node name", offset: 0 })
    } else if index is Err {
        Err(index->Err_0)
    } else if index->Ok_0 > u16::MAX {
        Err(broken("node index", 0))
    } else {
        Ok(layout(c_padded(encode_utf8(v.node), 32), index->Ok_0 as u16, v.to_pos))
    }
}

impl CallObjectConnector {
    pub fn read(read: &mut CountingReader, anim_def: &AnimDef, size: u32) -> (r: Result<Self>)
        ensures
            crate::error::view_ok(r) == read_result(*old(read), anim_def@, size),
            after_record(*final(read), *old(read), SIZE, size),
    {
        let rec = read_record(read, "call object connector size", SIZE, size)?;
        let base = read.prev;
        let node = read_node(&rec, base)?;
        let from_node = read_from_node(&rec, anim_def, base)?;
        let to_node = INPUT_NODE.to_owned();
        Ok(Self { node, from_node, to_node, to_pos: get_vec3(&rec, 56) })
    }

    pub fn write(&self, write: &mut Vec<u8>, anim_def: &AnimDef) -> (r: Result<()>)
        ensures
            match encode(self@, anim_def@) {
                Ok(rec) => r is Ok && final(write)@ == old(write)@ + le_bytes(rec),
                Err(e) => r == Err::<(), Error>(e) && final(write)@ == old(write)@,
            },
            writable(self@, anim_def@) ==> r is Ok,
            r is Ok ==> final(write)@.len() == old(write)@.len() + SIZE,
    {
        proof {
            lemma_writable(self@, anim_def@);
            if encode(self@, anim_def@) is Ok {
                lemma_fixed_size(self@, anim_def@);
            }
        }
        let slot = match str_to_c_padded(self.node.as_str(), NAME_SIZE) {
            Some(slot) => slot,
            None => {
                return Err(
                    Error::Encoding { label: "call object connector node name", offset: 0 },
                );
            },
        };
        let from_index = anim_def.node_to_index(&self.from_node)?;
        if from_index > u16::MAX as usize {
            return Err(Error::Assertion { label: "node index", offset: 0, detail: Detail::Condition });
        }
        let mut rec: Vec<u32> = Vec::new();
        rec.push(FLAGS);  // 00
        put_slot(&mut rec, &slot);  // 04
        put_halves(&mut rec, 0, MINUS_ONE);  // 36, 38
        put_halves(&mut rec, from_index as u16, 0);  // 40, 42
        put_vec3(&mut rec, Vec3::empty());  // 44
        put_vec3(&mut rec, self.to_pos);  // 56
        proof {
            reveal(layout);
            assert(rec@ =~= layout(slot@, from_index as u16, self.to_pos));
        }
        write.write_struct(&rec);
        Ok(())
    }
}

// What holds of the two directions together.
/// The values that a decoder can give: the name of the node can be kept in
/// its slot, and the connector goes to the node the event is applied to.
pub open spec fn legal(v: CallObjectConnectorView) -> bool {
    fits_slot(v.node, 32) && v.to_node == INPUT_NODE@
}

/// The fields of a record that was laid out, each at its offset.
pub proof fn lemma_fields(slot: Seq<u8>, from_index: u16, to_pos: Vec3)
    requires
        slot.len() == 32,
    ensures
        ({
            let rec = layout(slot, from_index, to_pos);
            &&& rec.len() == 17
            &&& word_at(rec, 0) == FLAGS
            &&& slot_at(rec, 4, 32) == slot
            &&& u16_at(rec, 36) == 0
            &&& u16_at(rec, 38) == MINUS_ONE
            &&& u16_at(rec, 40) == from_index
            &&& u16_at(rec, 42) == 0
            &&& vec3_at(rec, 44) == Vec3::empty()
            &&& vec3_at(rec, 56) == to_pos
        }),
{
    reveal(layout);
    let rec = layout(slot, from_index, to_pos);
    crate::io_ext::lemma_le_bytes_of_words(slot);
    crate::record::lemma_halves(0, MINUS_ONE);
    crate::record::lemma_halves(from_index, 0);
    assert(rec.subrange(1, 9) =~= le_words(slot));
}

/// What is enough for a value to be written: the name of its node is no
/// longer than the slot, the node it comes from is in the table of nodes,
/// and every index of the table fits 16 bits.
pub open spec fn writable(v: CallObjectConnectorView, ctx: AnimDefView) -> bool {
    &&& encode_utf8(v.node).len() <= 32
    &&& ctx.nodes.contains(v.from_node)
    &&& ctx.nodes.len() <= 0x1_0000
}

/// Whatever is writable is written.
pub proof fn lemma_writable(v: CallObjectConnectorView, ctx: AnimDefView)
    ensures
        writable(v, ctx) ==> encode(v, ctx) is Ok,
{
    ctx.nodes.index_of_first_ensures(v.from_node);
}

/// Whatever is written has the fixed size.
pub proof fn lemma_fixed_size(v: CallObjectConnectorView, ctx: AnimDefView)
    requires
        encode(v, ctx) is Ok,
    ensures
        le_bytes(encode(v, ctx)->Ok_0).len() == SIZE,
{
    let index = index_from_name(ctx.nodes, "node name", v.from_node)->Ok_0;
    lemma_fields(c_padded(encode_utf8(v.node), 32), index as u16, v.to_pos);
}

/// The fields of a record that is written which are the same whatever the
/// value holds: the flags, the two indices that are always zero, the index
/// that is always minus one, and the empty position.
pub proof fn lemma_constant_fields(v: CallObjectConnectorView, ctx: AnimDefView)
    requires
        encode(v, ctx) is Ok,
    ensures
        ({
            let rec = encode(v, ctx)->Ok_0;
            &&& word_at(rec, 0) == 0x0000_0602
            &&& u16_at(rec, 36) == 0
            &&& u16_at(rec, 38) == 0xFFFF
            &&& u16_at(rec, 42) == 0
            &&& vec3_at(rec, 44) == Vec3::empty()
        }),
{
    let index = index_from_name(ctx.nodes, "node name", v.from_node)->Ok_0;
    lemma_fields(c_padded(encode_utf8(v.node), 32), index as u16, v.to_pos);
}

/// A record that was written for a legal value has the fixed size and is
/// decoded to that value, wherever it begins.
pub proof fn lemma_round_trip(v: CallObjectConnectorView, ctx: AnimDefView, base: int)
    requires
        legal(v),
        encode(v, ctx) is Ok,
    ensures
        le_bytes(encode(v, ctx)->Ok_0).len() == SIZE,
        decode(encode(v, ctx)->Ok_0, ctx, base) == Ok::<CallObjectConnectorView, Error>(v),
{
    let rec = encode(v, ctx)->Ok_0;
    let index = index_from_name(ctx.nodes, "node name", v.from_node)->Ok_0;
    crate::anim_def::lemma_index_identity(
        ctx.nodes,
        v.from_node,
        0,
        "node name",
        "node index",
        base + 40,
    );
    crate::string::lemma_slot_round_trip(v.node, 32);
    lemma_fields(c_padded(encode_utf8(v.node), 32), index as u16, v.to_pos);
    assert(node_in(rec, base) == Ok::<Seq<char>, Error>(v.node));
    assert(from_node_in(rec, ctx, base) == Ok::<Seq<char>, Error>(v.from_node));
}

/// Whatever is decoded is legal.
pub proof fn lemma_decoded_is_legal(rec: Seq<u32>, ctx: AnimDefView, base: int)
    requires
        rec.len() == 17,
    ensures
        decode(rec, ctx, base) matches Ok(v) ==> legal(v),
{
    let slot = slot_at(rec, 4, 32);
    assert(slot.len() == 32);
    if check_utf8("call object connector node name", base + 4, slot) is Ok {
        crate::string::lemma_text_fits(slot);
    }
}

/// A record whose flags are anything but the known value is refused for its
/// flags, at the offset of the flags.
pub proof fn lemma_other_flags_refused(rec: Seq<u32>, ctx: AnimDefView, base: int)
    requires
        word_at(rec, 0) != FLAGS,
    ensures
        decode(rec, ctx, base) == Err::<CallObjectConnectorView, Error>(
            Error::UnknownDiscriminant {
                label: "call object connector flags",
                value: word_at(rec, 0),
                offset: base as u32,
            },
        ),
{
}

} // verus!
