//! The light: a node of a scene graph, and a record of 208 bytes with one
//! more word behind it.
//!
//! | offset | field |
//! |---|---|
//! | 0 | direction |
//! | 12 | translation, always zero |
//! | 24 .. 136 | always zero |
//! | 136 | always one |
//! | 140 .. 156 | always zero |
//! | 156, 160 | diffuse and ambient, each between 0 and 1 |
//! | 164 | colour, always white |
//! | 176 | flags, always the same |
//! | 180, 184 | range: near, above zero, and far, above near |
//! | 188, 192, 196 | squares of near and far, inverse of the length of the range |
//! | 200 | number of parents, always one |
//! | 204 | pointer to the parent, not zero |
//! | 208 | the parent, always zero |

use crate::assertion::{
    all_zero,
    assert_all_zero,
    assert_between,
    assert_empty,
    assert_equal,
    assert_that,
    assert_zero,
    broken,
    differs,
    not_empty,
    not_zero,
    outside,
};
use crate::error::{Error, Result};
use crate::io_ext::{
    le_bytes,
    le_words,
    make_unsigned32,
    u32_le,
    unsigned32,
    CountingReader,
    WriteHelper,
};
use crate::nodes::types::{
    Block,
    Light,
    LightView,
    NodeBitFlags,
    NodeVariant,
    NodeVariants,
    NodeVariantsView,
    DEFAULT,
    UNK08,
    ZONE_DEFAULT,
};
use crate::record::{
    f32_at,
    get_f32,
    get_slot,
    get_u32,
    get_vec2,
    get_vec3,
    put_vec3,
    slot_at,
    vec2_at,
    vec3_at,
    word_at,
};
use crate::types::{Vec3, F32, ONE_BITS};
use vstd::prelude::*;
use vstd::string::StringExecFns;

verus! {

/// The size of the record of a light, in bytes.
pub const SIZE: u32 = 208;

/// The name of every light.
pub const LIGHT_NAME: &'static str = "sunlight";

/// The flags of a node that is a light: the default flags and one more.
pub const NODE_FLAGS: u32 = 17301788;

/// The greatest word that holds nothing but flags of a light.
pub const LIGHT_FLAGS_ALL: u32 = 2047;

/// The flags of every light: its translation is absolute and it has a
/// range and a direction, is saturated and subdivided.
pub const LIGHT_FLAGS: u32 = 907;

/// The bits of the value 2.
pub const TWO_BITS: u32 = 0x4000_0000;

/// The bits of the value -1.
pub const MINUS_ONE_BITS: u32 = 0xBF80_0000;

/// The bits of the value -2.
pub const MINUS_TWO_BITS: u32 = 0xC000_0000;

/// The flags of a node that is a light are the default flags and one more.
pub proof fn lemma_node_flags()
    ensures
        NODE_FLAGS == DEFAULT + UNK08,
        NODE_FLAGS == DEFAULT | UNK08,
{
    assert(17301788u32 == 17301532u32 | 256u32) by (bit_vector);
}

/// The box of a light.
pub open spec fn spec_block_light() -> Block {
    Block(
        F32 { bits: ONE_BITS },
        F32 { bits: ONE_BITS },
        F32 { bits: MINUS_TWO_BITS },
        F32 { bits: TWO_BITS },
        F32 { bits: TWO_BITS },
        F32 { bits: MINUS_ONE_BITS },
    )
}

/// The box that holds nothing.
pub open spec fn spec_block_empty() -> Block {
    Block(F32::zero(), F32::zero(), F32::zero(), F32::zero(), F32::zero(), F32::zero())
}

/// Two boxes hold the same six numbers.
pub open spec fn spec_same_block(a: Block, b: Block) -> bool {
    &&& a.0.spec_num_eq(b.0)
    &&& a.1.spec_num_eq(b.1)
    &&& a.2.spec_num_eq(b.2)
    &&& a.3.spec_num_eq(b.3)
    &&& a.4.spec_num_eq(b.4)
    &&& a.5.spec_num_eq(b.5)
}

#[verifier::when_used_as_spec(spec_block_light)]
pub fn block_light() -> (r: Block)
    ensures
        r == spec_block_light(),
{
    Block(
        F32 { bits: ONE_BITS },
        F32 { bits: ONE_BITS },
        F32 { bits: MINUS_TWO_BITS },
        F32 { bits: TWO_BITS },
        F32 { bits: TWO_BITS },
        F32 { bits: MINUS_ONE_BITS },
    )
}

#[verifier::when_used_as_spec(spec_block_empty)]
pub fn block_empty() -> (r: Block)
    ensures
        r == spec_block_empty(),
{
    Block(F32::zero(), F32::zero(), F32::zero(), F32::zero(), F32::zero(), F32::zero())
}

#[verifier::when_used_as_spec(spec_same_block)]
pub fn same_block(a: Block, b: Block) -> (r: bool)
    ensures
        r == spec_same_block(a, b),
{
    a.0.num_eq(b.0) && a.1.num_eq(b.1) && a.2.num_eq(b.2) && a.3.num_eq(b.3) && a.4.num_eq(b.4)
        && a.5.num_eq(b.5)
}

/// What the record of a node has to hold for the node to be a light, where
/// the record begins at byte offset `offset`: the checks in the order of the
/// fields, the first broken one giving the error.
pub open spec fn variants_result(node: NodeVariantsView, offset: int) -> Result<NodeVariant> {
    if node.name != LIGHT_NAME@ {
        Err(broken("light name", offset + 0))
    } else if node.flags.bits != NODE_FLAGS {
        Err(differs("light flags", node.flags.bits, NODE_FLAGS, offset + 36))
    } else if node.unk044 != 0 {
        Err(differs("light field 044", node.unk044, 0, offset + 44))
    } else if node.zone_id != ZONE_DEFAULT {
        Err(differs("light zone id", node.zone_id, ZONE_DEFAULT, offset + 48))
    } else if node.data_ptr == 0 {
        Err(broken("light data ptr", offset + 56))
    } else if node.mesh_index != -1 {
        Err(differs("light mesh index", unsigned32(node.mesh_index), 0xFFFF_FFFF, offset + 60))
    } else if node.area_partition is Some {
        Err(broken("light area partition", offset + 76))
    } else if node.has_parent {
        Err(broken("light has parent", offset + 84))
    } else if node.children_count != 0 {
        Err(differs("light children count", node.children_count, 0, offset + 92))
    } else if !spec_same_block(node.unk116, spec_block_light()) {
        Err(broken("light block 1", offset + 116))
    } else if !spec_same_block(node.unk140, spec_block_empty()) {
        Err(broken("light block 2", offset + 140))
    } else if !spec_same_block(node.unk164, spec_block_empty()) {
        Err(broken("light block 3", offset + 164))
    } else if node.unk196 != 0 {
        Err(differs("light field 196", node.unk196, 0, offset + 196))
    } else {
        Ok(NodeVariant::Light(node.data_ptr))
    }
}

/// Checks that the record of a node, which begins at byte offset `offset`,
/// is that of a light.
pub fn assert_variants(node: NodeVariants, offset: u32) -> (r: Result<NodeVariant>)
    requires
        offset + 196 <= u32::MAX,
    ensures
        r == variants_result(node@, offset as int),
{
    let name = String::from_str(LIGHT_NAME);
    assert_that("light name", node.name == name, offset + 0)?;
    assert_equal("light flags", node.flags.bits, NODE_FLAGS, offset + 36)?;
    assert_equal("light field 044", node.unk044, 0, offset + 44)?;
    assert_equal("light zone id", node.zone_id, ZONE_DEFAULT, offset + 48)?;
    assert_that("light data ptr", node.data_ptr != 0, offset + 56)?;
    assert_equal("light mesh index", make_unsigned32(node.mesh_index), 0xFFFF_FFFF, offset + 60)?;
    assert_that("light area partition", node.area_partition.is_none(), offset + 76)?;
    assert_that("light has parent", !node.has_parent, offset + 84)?;
    // the pointer to the parents has been checked with the parents
    assert_equal("light children count", node.children_count, 0, offset + 92)?;
    // the pointer to the children has been checked with the children
    assert_that("light block 1", same_block(node.unk116, block_light()), offset + 116)?;
    assert_that("light block 2", same_block(node.unk140, block_empty()), offset + 140)?;
    assert_that("light block 3", same_block(node.unk164, block_empty()), offset + 164)?;
    assert_equal("light field 196", node.unk196, 0, offset + 196)?;
    Ok(NodeVariant::Light(node.data_ptr))
}

/// What the record of the node of a light holds.
pub open spec fn light_variants(data_ptr: u32) -> NodeVariantsView {
    NodeVariantsView {
        name: LIGHT_NAME@,
        flags: NodeBitFlags { bits: NODE_FLAGS },
        unk044: 0,
        zone_id: ZONE_DEFAULT,
        data_ptr,
        mesh_index: -1i32,
        area_partition: None,
        has_parent: false,
        parent_array_ptr: 0,
        children_count: 0,
        children_array_ptr: 0,
        unk116: spec_block_light(),
        unk140: spec_block_empty(),
        unk164: spec_block_empty(),
        unk196: 0,
    }
}

/// The record of the node of a light.
pub fn make_variants(light: &Light) -> (r: NodeVariants)
    ensures
        r@ == light_variants(light.data_ptr),
{
    NodeVariants {
        name: String::from_str(LIGHT_NAME),
        flags: NodeBitFlags { bits: NODE_FLAGS },
        unk044: 0,
        zone_id: ZONE_DEFAULT,
        data_ptr: light.data_ptr,
        mesh_index: -1,
        area_partition: None,
        has_parent: false,
        parent_array_ptr: 0,
        children_count: 0,
        children_array_ptr: 0,
        unk116: block_light(),
        unk140: block_empty(),
        unk164: block_empty(),
        unk196: 0,
    }
}

/// The record that is made for the node of a light passes the check for a
/// light, wherever it begins, if the pointer of the light is not zero, and
/// is refused for that pointer if it is zero.
pub proof fn lemma_made_variants_pass(data_ptr: u32, offset: int)
    ensures
        data_ptr != 0 ==> variants_result(light_variants(data_ptr), offset) == Ok::<
            NodeVariant,
            Error,
        >(NodeVariant::Light(data_ptr)),
        data_ptr == 0 ==> variants_result(light_variants(data_ptr), offset) == Err::<
            NodeVariant,
            Error,
        >(broken("light data ptr", offset + 56)),
{
}

// What the record of a light means.
/// The fields in front of the flags.
pub open spec fn front_in(rec: Seq<u32>, base: int) -> Result<()> {
    if !vec3_at(rec, 12).spec_is_empty() {
        Err(not_empty("translation", vec3_at(rec, 12), base + 12))
    } else if !all_zero(slot_at(rec, 24, 112)) {
        Err(broken("field 024", base + 24))
    } else if f32_at(rec, 136).bits != ONE_BITS {
        Err(differs("field 136", word_at(rec, 136), ONE_BITS, base + 136))
    } else if !f32_at(rec, 140).spec_is_zero() {
        Err(not_zero("field 140", f32_at(rec, 140), base + 140))
    } else if !f32_at(rec, 144).spec_is_zero() {
        Err(not_zero("field 144", f32_at(rec, 144), base + 144))
    } else if !f32_at(rec, 148).spec_is_zero() {
        Err(not_zero("field 148", f32_at(rec, 148), base + 148))
    } else if !f32_at(rec, 152).spec_is_zero() {
        Err(not_zero("field 152", f32_at(rec, 152), base + 152))
    } else if !f32_at(rec, 156).spec_is_between(F32::zero(), F32 { bits: ONE_BITS }) {
        Err(outside("diffuse", F32::zero(), f32_at(rec, 156), F32 { bits: ONE_BITS }, base + 156))
    } else if !f32_at(rec, 160).spec_is_between(F32::zero(), F32 { bits: ONE_BITS }) {
        Err(outside("ambient", F32::zero(), f32_at(rec, 160), F32 { bits: ONE_BITS }, base + 160))
    } else if f32_at(rec, 164).bits != ONE_BITS {
        Err(differs("color", f32_at(rec, 164).bits, ONE_BITS, base + 164))
    } else if f32_at(rec, 168).bits != ONE_BITS {
        Err(differs("color", f32_at(rec, 168).bits, ONE_BITS, base + 164))
    } else if f32_at(rec, 172).bits != ONE_BITS {
        Err(differs("color", f32_at(rec, 172).bits, ONE_BITS, base + 164))
    } else {
        Ok(())
    }
}

/// The flags and the fields behind them.
pub open spec fn back_in(rec: Seq<u32>, base: int) -> Result<()> {
    if word_at(rec, 176) > LIGHT_FLAGS_ALL {
        Err(
            Error::UnknownDiscriminant {
                label: "light flags",
                value: word_at(rec, 176),
                offset: (base + 176) as u32,
            },
        )
    } else if word_at(rec, 176) != LIGHT_FLAGS {
        Err(differs("flag", word_at(rec, 176), LIGHT_FLAGS, base + 176))
    } else if !f32_at(rec, 180).spec_is_positive() {
        Err(broken("range near", base + 180))
    } else if !f32_at(rec, 180).spec_num_lt(f32_at(rec, 184)) {
        Err(broken("range far", base + 184))
    } else if word_at(rec, 200) != 1 {
        Err(differs("parent count", word_at(rec, 200), 1, base + 200))
    } else if word_at(rec, 204) == 0 {
        Err(broken("parent ptr", base + 204))
    } else {
        Ok(())
    }
}

/// What a record means, where it begins at byte offset `base`.
pub open spec fn decode(rec: Seq<u32>, data_ptr: u32, base: int) -> core::result::Result<
    LightView,
    Error,
> {
    let front = front_in(rec, base);
    let back = back_in(rec, base);
    if front is Err {
        Err(front->Err_0)
    } else if back is Err {
        Err(back->Err_0)
    } else {
        Ok(
            LightView {
                name: LIGHT_NAME@,
                direction: vec3_at(rec, 0),
                diffuse: f32_at(rec, 156),
                ambient: f32_at(rec, 160),
                color: vec3_at(rec, 164),
                range: vec2_at(rec, 180),
                range_near_sq: f32_at(rec, 188),
                range_far_sq: f32_at(rec, 192),
                range_inv: f32_at(rec, 196),
                parent_ptr: word_at(rec, 204),
                data_ptr,
            },
        )
    }
}

/// What `read` gives on a cursor in state `read`: the record, then the word
/// behind it, which is zero.
pub open spec fn light_result(read: CountingReader, data_ptr: u32) -> core::result::Result<
    LightView,
    Error,
> {
    let light = decode(le_words(read.remaining().take(208)), data_ptr, read.offset as int);
    let at_parent = read.advanced(208);
    if !read.can_take(208) {
        Err(Error::Transport)
    } else if light is Err {
        light
    } else if !at_parent.can_take(4) {
        Err(Error::Transport)
    } else if u32_le(at_parent.remaining()) != 0 {
        Err(differs("parent value", u32_le(at_parent.remaining()), 0, at_parent.offset as int))
    } else {
        light
    }
}

/// The cursor after `read`: behind the record where it is there, and
/// behind the word behind it where the record is that of a light.
pub open spec fn after_light(read: CountingReader, data_ptr: u32) -> CountingReader {
    if !read.can_take(208) {
        read
    } else if decode(le_words(read.remaining().take(208)), data_ptr, read.offset as int) is Err {
        read.advanced(208)
    } else {
        read.advanced(208).after_take(4)
    }
}

/// A record as the functions below take it: 52 words, which begin at an
/// offset that leaves room for them.
pub open spec fn is_record(rec: Seq<u32>, base: u32) -> bool {
    rec.len() == 52 && base + SIZE <= u32::MAX
}

fn assert_front(rec: &Vec<u32>, offset: u32) -> (r: Result<()>)
    requires
        is_record(rec@, offset),
    ensures
        r == front_in(rec@, offset as int),
{
    let one = F32 { bits: ONE_BITS };
    assert_empty("translation", get_vec3(rec, 12), offset + 12)?;
    let zeros = get_slot(rec, 24, 112);
    assert_all_zero("field 024", offset + 24, zeros.as_slice())?;
    assert_equal("field 136", get_f32(rec, 136).bits, ONE_BITS, offset + 136)?;
    assert_zero("field 140", get_f32(rec, 140), offset + 140)?;
    assert_zero("field 144", get_f32(rec, 144), offset + 144)?;
    assert_zero("field 148", get_f32(rec, 148), offset + 148)?;
    assert_zero("field 152", get_f32(rec, 152), offset + 152)?;
    assert_between("diffuse", F32::zero(), get_f32(rec, 156), one, offset + 156)?;
    assert_between("ambient", F32::zero(), get_f32(rec, 160), one, offset + 160)?;
    let color = get_vec3(rec, 164);
    assert_equal("color", color.0.bits, ONE_BITS, offset + 164)?;
    assert_equal("color", color.1.bits, ONE_BITS, offset + 164)?;
    assert_equal("color", color.2.bits, ONE_BITS, offset + 164)?;
    Ok(())
}

fn assert_back(rec: &Vec<u32>, offset: u32) -> (r: Result<()>)
    requires
        is_record(rec@, offset),
    ensures
        r == back_in(rec@, offset as int),
{
    let flags = get_u32(rec, 176);
    if flags > LIGHT_FLAGS_ALL {
        return Err(
            Error::UnknownDiscriminant { label: "light flags", value: flags, offset: offset + 176 },
        );
    }
    assert_equal("flag", flags, LIGHT_FLAGS, offset + 176)?;
    let range = get_vec2(rec, 180);
    assert_that("range near", range.0.is_positive(), offset + 180)?;
    assert_that("range far", range.0.num_lt(range.1), offset + 184)?;
    assert_equal("parent count", get_u32(rec, 200), 1, offset + 200)?;
    assert_that("parent ptr", get_u32(rec, 204) != 0, offset + 204)?;
    Ok(())
}

/// Reads the record of a light and the word behind it.
pub fn read(input: &mut CountingReader, data_ptr: u32) -> (r: Result<Light>)
    ensures
        crate::error::view_ok(r) == light_result(*old(input), data_ptr),
        *final(input) == after_light(*old(input), data_ptr),
{
    let rec = input.read_struct(SIZE)?;
    let base = input.prev;
    assert_front(&rec, base)?;
    assert_back(&rec, base)?;
    // one parent is read because of the number of parents; it is always 0
    let zero = input.read_u32()?;
    assert_equal("parent value", zero, 0, input.prev)?;
    Ok(
        Light {
            name: String::from_str(LIGHT_NAME),
            direction: get_vec3(&rec, 0),
            diffuse: get_f32(&rec, 156),
            ambient: get_f32(&rec, 160),
            color: get_vec3(&rec, 164),
            range: get_vec2(&rec, 180),
            range_near_sq: get_f32(&rec, 188),
            range_far_sq: get_f32(&rec, 192),
            range_inv: get_f32(&rec, 196),
            parent_ptr: get_u32(&rec, 204),
            data_ptr,
        },
    )
}

// The record that a light is written as.
/// The fields behind the run of zeros.
pub open spec fn back_block(v: LightView) -> Seq<u32> {
    seq![
        ONE_BITS,
        0,
        0,
        0,
        0,
        v.diffuse.bits,
        v.ambient.bits,
        v.color.0.bits,
        v.color.1.bits,
        v.color.2.bits,
        LIGHT_FLAGS,
        v.range.0.bits,
        v.range.1.bits,
        v.range_near_sq.bits,
        v.range_far_sq.bits,
        v.range_inv.bits,
        1,
        v.parent_ptr,
    ]
}

/// The words that a light is written as: the record, and the word behind
/// it.
#[verifier::opaque]
pub open spec fn encode(v: LightView) -> Seq<u32> {
    seq![v.direction.0.bits, v.direction.1.bits, v.direction.2.bits, 0u32, 0u32, 0u32] + Seq::new(
        28,
        |i: int| 0u32,
    ) + back_block(v) + seq![0u32]
}

/// Writes the record of a light and the word behind it.
pub fn write(output: &mut Vec<u8>, light: &Light)
    ensures
        final(output)@ == old(output)@ + le_bytes(encode(light@)),
{
    let mut rec: Vec<u32> = Vec::new();
    put_vec3(&mut rec, light.direction);  // 000
    put_vec3(&mut rec, Vec3::empty());  // 012
    let mut i: usize = 0;
    while i < 28
        invariant
            i <= 28,
            rec@ == seq![
                light.direction.0.bits,
                light.direction.1.bits,
                light.direction.2.bits,
                0u32,
                0u32,
                0u32,
            ] + Seq::new(i as nat, |i: int| 0u32),
        decreases 28 - i,
    {
        rec.push(0);  // 024
        i = i + 1;
        assert(rec@ =~= seq![
            light.direction.0.bits,
            light.direction.1.bits,
            light.direction.2.bits,
            0u32,
            0u32,
            0u32,
        ] + Seq::new(i as nat, |i: int| 0u32));
    }
    let ghost front = rec@;
    rec.push(ONE_BITS);  // 136
    rec.push(0);  // 140
    rec.push(0);  // 144
    rec.push(0);  // 148
    rec.push(0);  // 152
    rec.push(light.diffuse.bits);  // 156
    rec.push(light.ambient.bits);  // 160
    put_vec3(&mut rec, light.color);  // 164
    rec.push(LIGHT_FLAGS);  // 176
    rec.push(light.range.0.bits);  // 180
    rec.push(light.range.1.bits);  // 184
    rec.push(light.range_near_sq.bits);  // 188
    rec.push(light.range_far_sq.bits);  // 192
    rec.push(light.range_inv.bits);  // 196
    rec.push(1);  // 200
    rec.push(light.parent_ptr);  // 204
    // one parent is written because of the number of parents; it is always 0
    rec.push(0);  // 208
    proof {
        reveal(encode);
        assert(rec@ =~= front + back_block(light@) + seq![0u32]);
    }
    output.write_struct(&rec);
}

/// The size of what a light is written as, in bytes: the record and the
/// word behind it.
pub fn size() -> (r: u32)
    ensures
        r == 212,
{
    SIZE + 4
}

// What holds of the two directions together.
/// The values that a decoder can give.
pub open spec fn legal(v: LightView) -> bool {
    &&& v.name == LIGHT_NAME@
    &&& v.diffuse.spec_is_between(F32::zero(), F32 { bits: ONE_BITS })
    &&& v.ambient.spec_is_between(F32::zero(), F32 { bits: ONE_BITS })
    &&& v.color == Vec3(F32 { bits: ONE_BITS }, F32 { bits: ONE_BITS }, F32 { bits: ONE_BITS })
    &&& v.range.0.spec_is_positive()
    &&& v.range.0.spec_num_lt(v.range.1)
    &&& v.parent_ptr != 0
}

/// The fields of what a light is written as, each at its offset.
pub proof fn lemma_fields(v: LightView)
    ensures
        ({
            let rec = encode(v);
            &&& rec.len() == 53
            &&& vec3_at(rec, 0) == v.direction
            &&& vec3_at(rec, 12) == Vec3::empty()
            &&& all_zero(slot_at(rec, 24, 112))
            &&& rec.subrange(34, 52) == back_block(v)
            &&& rec[52] == 0
        }),
{
    reveal(encode);
    let rec = encode(v);
    assert(rec.subrange(34, 52) =~= back_block(v));
    assert forall|i: int| 0 <= i < 112 implies slot_at(rec, 24, 112)[i] == 0 by {
        assert(rec.subrange(6, 34)[i / 4] == 0);
    }
}

/// What was written for a legal light has the fixed size, and its record is
/// decoded to that light, wherever it begins.
pub proof fn lemma_round_trip(v: LightView, base: int)
    requires
        legal(v),
    ensures
        le_bytes(encode(v)).len() == 212,
        encode(v)[52] == 0,
        decode(encode(v).subrange(0, 52), v.data_ptr, base) == Ok::<LightView, Error>(v),
{
    lemma_fields(v);
    let all = encode(v);
    let rec = all.subrange(0, 52);
    let b = all.subrange(34, 52);
    assert(vec3_at(rec, 0) == vec3_at(all, 0));
    assert(vec3_at(rec, 12) == vec3_at(all, 12));
    assert(slot_at(rec, 24, 112) =~= slot_at(all, 24, 112)) by {
        assert(rec.subrange(6, 34) =~= all.subrange(6, 34));
    }
    assert(rec[34] == b[0]);
    assert(rec[35] == b[1]);
    assert(rec[36] == b[2]);
    assert(rec[37] == b[3]);
    assert(rec[38] == b[4]);
    assert(rec[39] == b[5]);
    assert(rec[40] == b[6]);
    assert(rec[41] == b[7]);
    assert(rec[42] == b[8]);
    assert(rec[43] == b[9]);
    assert(rec[44] == b[10]);
    assert(rec[45] == b[11]);
    assert(rec[46] == b[12]);
    assert(rec[47] == b[13]);
    assert(rec[48] == b[14]);
    assert(rec[49] == b[15]);
    assert(rec[50] == b[16]);
    assert(rec[51] == b[17]);
    assert(front_in(rec, base) == Ok::<(), Error>(()));
    assert(back_in(rec, base) == Ok::<(), Error>(()));
}

/// Whatever is decoded is legal.
pub proof fn lemma_decoded_is_legal(rec: Seq<u32>, data_ptr: u32, base: int)
    ensures
        decode(rec, data_ptr, base) matches Ok(v) ==> legal(v),
{
}

/// Reading gives back what was written: on a cursor whose next bytes are
/// those that were written for a legal light, `read` gives that light and
/// leaves the cursor behind the record and the word behind it.
pub proof fn lemma_read_back(v: LightView, read: CountingReader)
    requires
        legal(v),
        read.holds_words(encode(v)),
    ensures
        light_result(read, v.data_ptr) == Ok::<LightView, Error>(v),
        after_light(read, v.data_ptr) == read.advanced(208).advanced(4),
{
    let words = encode(v);
    lemma_round_trip(v, read.offset as int);
    read.lemma_holds_words(words, 52);
    assert(words.take(52) =~= words.subrange(0, 52));
    let at_parent = read.advanced(208);
    at_parent.lemma_holds_words(words.skip(52), 1);
    assert(words.skip(52)[0] == words[52]);
}

} // verus!
