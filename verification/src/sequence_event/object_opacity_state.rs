//! The object-opacity-state event: 12 bytes, two strict booleans, an opacity
//! between 0 and 1, and the node it is set on.

use crate::anim_def::{index_from_name, name_from_index, AnimDef, AnimDefView};
use crate::assertion::{assert_between, assert_bool, broken, check_bool, outside};
use crate::error::{Detail, Error, Result};
use crate::io_ext::{le_bytes, CountingReader, WriteHelper};
use crate::record::{f32_at, get_f32, get_u16, get_u32, halves, put_halves, u16_at, word_at};
use crate::sequence_event::{after_record, read_record, record_of};
use crate::types::{F32, ONE_BITS};
use vstd::prelude::*;

verus! {

/// The tag of this kind of event.
pub const INDEX: u8 = 13;

/// The fixed size of the record, in bytes.
pub const SIZE: u32 = 12;

#[derive(Clone, Debug, PartialEq, Eq)]
pub struct ObjectOpacityState {
    pub node: String,
    pub is_set: bool,
    pub state: bool,
    pub opacity: F32,
}

pub struct ObjectOpacityStateView {
    pub node: Seq<char>,
    pub is_set: bool,
    pub state: bool,
    pub opacity: F32,
}

impl View for ObjectOpacityState {
    type V = ObjectOpacityStateView;

    open spec fn view(&self) -> ObjectOpacityStateView {
        ObjectOpacityStateView {
            node: self.node@,
            is_set: self.is_set,
            state: self.state,
            opacity: self.opacity,
        }
    }
}

/// The value 0 or 1 that a boolean is written as.
pub open spec fn bool_c(value: bool) -> u16 {
    if value {
        1
    } else {
        0
    }
}

/// What a record means, where it begins at byte offset `base`: the checks in
/// the order of the fields, the first broken one giving the error.
pub open spec fn decode(rec: Seq<u32>, ctx: AnimDefView, base: int) -> core::result::Result<
    ObjectOpacityStateView,
    Error,
> {
    let is_set = check_bool("object opacity state is set", u16_at(rec, 0) as u32, base + 0);
    let state = check_bool("object opacity state state", u16_at(rec, 2) as u32, base + 2);
    let opacity = f32_at(rec, 4);
    let node = name_from_index(ctx.nodes, "node index", word_at(rec, 8) as int, base + 8);
    if is_set is Err {
        Err(is_set->Err_0)
    } else if state is Err {
        Err(state->Err_0)
    } else if !opacity.spec_is_between(F32::zero(), F32 { bits: ONE_BITS }) {
        Err(outside("object opacity state opacity", F32::zero(), opacity, F32 { bits: ONE_BITS }, base + 4))
    } else if node is Err {
        Err(node->Err_0)
    } else {
        Ok(
            ObjectOpacityStateView {
                node: node->Ok_0,
                is_set: is_set->Ok_0,
                state: state->Ok_0,
                opacity,
            },
        )
    }
}

/// The record that a value is written as.  It is written whenever the node
/// is in the table of nodes.
pub open spec fn encode(v: ObjectOpacityStateView, ctx: AnimDefView) -> Result<Seq<u32>> {
    match index_from_name(ctx.nodes, "node name", v.node) {
        Err(e) => Err(e),
        Ok(index) => if index > u32::MAX {
            Err(broken("node index", 0))
        } else {
            Ok(seq![halves(bool_c(v.is_set), bool_c(v.state)), v.opacity.bits, index as u32])
        },
    }
}

/// The values that a decoder can give: the opacity lies between 0 and 1.
pub open spec fn legal(v: ObjectOpacityStateView) -> bool {
    v.opacity.spec_is_between(F32::zero(), F32 { bits: ONE_BITS })
}

/// What `read` gives on a cursor in state `read`.
pub open spec fn read_result(read: CountingReader, ctx: AnimDefView, size: u32)
    -> core::result::Result<ObjectOpacityStateView, Error> {
    match record_of(read, "object opacity state size", SIZE, size) {
        Err(e) => Err(e),
        Ok(rec) => decode(rec, ctx, read.offset as int),
    }
}

/// A record that was written for a legal value has the fixed size and is
/// decoded to that value, wherever it begins.
pub proof fn lemma_round_trip(v: ObjectOpacityStateView, ctx: AnimDefView, base: int)
    requires
        legal(v),
        encode(v, ctx) is Ok,
    ensures
        le_bytes(encode(v, ctx)->Ok_0).len() == SIZE,
        decode(encode(v, ctx)->Ok_0, ctx, base) == Ok::<ObjectOpacityStateView, Error>(v),
{
    crate::anim_def::lemma_index_identity(ctx.nodes, v.node, 0, "node name", "node index", base + 8);
    crate::record::lemma_halves(bool_c(v.is_set), bool_c(v.state));
}

/// What is enough for a value to be written: its node is in the table of
/// nodes, and every index of the table fits 32 bits.
pub open spec fn writable(v: ObjectOpacityStateView, ctx: AnimDefView) -> bool {
    ctx.nodes.contains(v.node) && ctx.nodes.len() <= 0x1_0000_0000
}

/// Whatever is writable is written.
pub proof fn lemma_writable(v: ObjectOpacityStateView, ctx: AnimDefView)
    ensures
        writable(v, ctx) ==> encode(v, ctx) is Ok,
{
    ctx.nodes.index_of_first_ensures(v.node);
}

/// Whatever is written has the fixed size.
pub proof fn lemma_fixed_size(v: ObjectOpacityStateView, ctx: AnimDefView)
    requires
        encode(v, ctx) is Ok,
    ensures
        le_bytes(encode(v, ctx)->Ok_0).len() == SIZE,
{
}

/// Whatever is decoded is legal.
pub proof fn lemma_decoded_is_legal(rec: Seq<u32>, ctx: AnimDefView, base: int)
    ensures
        decode(rec, ctx, base) matches Ok(v) ==> legal(v),
{
}

impl ObjectOpacityState {
    pub fn read(read: &mut CountingReader, anim_def: &AnimDef, size: u32) -> (r: Result<Self>)
        ensures
            crate::error::view_ok(r) == read_result(*old(read), anim_def@, size),
            after_record(*final(read), *old(read), SIZE, size),
    {
        let rec = read_record(read, "object opacity state size", SIZE, size)?;
        let base = read.prev;
        let is_set = assert_bool("object opacity state is set", get_u16(&rec, 0) as u32, base + 0)?;
        let state = assert_bool("object opacity state state", get_u16(&rec, 2) as u32, base + 2)?;
        let opacity = get_f32(&rec, 4);
        assert_between(
            "object opacity state opacity",
            F32::zero(),
            opacity,
            F32 { bits: ONE_BITS },
            base + 4,
        )?;
        let node = anim_def.node_from_index(get_u32(&rec, 8) as usize, base + 8)?;
        Ok(Self { node, is_set, state, opacity })
    }

    pub fn write(&self, write: &mut Vec<u8>, anim_def: &AnimDef) -> (r: Result<()>)
        ensures
            match encode(self@, anim_def@) {
                Ok(rec) => r is Ok && final(write)@ == old(write)@ + le_bytes(rec),
                Err(e) => r == Err::<(), Error>(e) && final(write)@ == old(write)@,
            },
            writable(self@, anim_def@) ==> r is Ok,
            r is Ok ==> final(write)@.len() == old(write)@.len() + SIZE,
    {
        proof {
            lemma_writable(self@, anim_def@);
            if encode(self@, anim_def@) is Ok {
                lemma_fixed_size(self@, anim_def@);
            }
        }
        let index = anim_def.node_to_index(&self.node)?;
        if index > u32::MAX as usize {
            return Err(Error::Assertion { label: "node index", offset: 0, detail: Detail::Condition });
        }
        let mut rec: Vec<u32> = Vec::new();
        put_halves(
            &mut rec,
            if self.is_set {
                1
            } else {
                0
            },
            if self.state {
                1
            } else {
                0
            },
        );
        rec.push(self.opacity.bits);
        rec.push(index as u32);
        write.write_struct(&rec);
        Ok(())
    }
}

} // verus!
