//! The light-animation event: 100 bytes, no flags.
//!
//! | offset | field |
//! |---|---|
//! | 0 | name of the light, 32 bytes |
//! | 32 | index of the light |
//! | 36, 40 | range: near, far |
//! | 44 .. 60 | always zero |
//! | 60, 64, 68 | colour: red, green, blue, each between -5 and 5 |
//! | 72 .. 96 | always zero |
//! | 96 | run time, above zero |
//!
//! The light is named twice, by its name and by its index, and the two have
//! to agree.

use crate::anim_def::{index_from_name, name_from_index, AnimDef, AnimDefView};
use crate::assertion::{
    assert_between,
    assert_equal,
    assert_that,
    assert_utf8,
    assert_zero,
    broken,
    check_utf8,
    differs,
    not_zero,
    outside,
};
use crate::error::{Detail, Error, Result};
use crate::io_ext::{le_bytes, le_words, CountingReader, WriteHelper};
use crate::record::{
    f32_at,
    get_f32,
    get_slot,
    get_u32,
    get_vec2,
    get_vec3,
    put_slot,
    put_vec3,
    slot_at,
    vec2_at,
    vec3_at,
    word_at,
};
use crate::sequence_event::{after_record, read_record, record_of};
use crate::string::{c_padded, fits_slot, str_to_c_padded};
use crate::types::{Vec2, Vec3, F32, FIVE_BITS, MINUS_FIVE_BITS};
use vstd::prelude::*;
use vstd::utf8::encode_utf8;

verus! {

/// The tag of this kind of event.
pub const INDEX: u8 = 5;

/// The fixed size of the record, in bytes.
pub const SIZE: u32 = 100;

/// The size of the slot of the name, in bytes.
pub const NAME_SIZE: usize = 32;

#[derive(Clone, Debug, PartialEq, Eq)]
pub struct LightAnimation {
    pub name: String,
    pub range: Vec2,
    pub color: Vec3,
    pub runtime: F32,
}

pub struct LightAnimationView {
    pub name: Seq<char>,
    pub range: Vec2,
    pub color: Vec3,
    pub runtime: F32,
}

impl View for LightAnimation {
    type V = LightAnimationView;

    open spec fn view(&self) -> LightAnimationView {
        LightAnimationView {
            name: self.name@,
            range: self.range,
            color: self.color,
            runtime: self.runtime,
        }
    }
}

/// A range runs away from zero: a near end that is not below zero has the
/// far end at or above it, and any other near end has the far end at or
/// below it.
pub open spec fn spec_range_in_order(range: Vec2) -> bool {
    if F32::zero().spec_num_le(range.0) {
        range.0.spec_num_le(range.1)
    } else {
        range.1.spec_num_le(range.0)
    }
}

/// A part of a colour: between -5 and 5.
pub open spec fn spec_channel_in_range(x: F32) -> bool {
    x.spec_is_between(F32 { bits: MINUS_FIVE_BITS }, F32 { bits: FIVE_BITS })
}

/// The name of the light: the text of the slot, which is also the name at
/// the index.
pub open spec fn name_in(rec: Seq<u32>, ctx: AnimDefView, base: int) -> core::result::Result<
    Seq<char>,
    Error,
> {
    let actual = check_utf8("light anim name", base + 0, slot_at(rec, 0, 32));
    let expected = name_from_index(ctx.lights, "light index", word_at(rec, 32) as int, base + 32);
    if actual is Err {
        actual
    } else if expected is Err {
        expected
    } else if actual->Ok_0 != expected->Ok_0 {
        Err(broken("light anim name", base + 32))
    } else {
        actual
    }
}

/// The range, which has to be in order, and the four zeros behind it.
pub open spec fn range_in(rec: Seq<u32>, base: int) -> Result<Vec2> {
    if !spec_range_in_order(vec2_at(rec, 36)) {
        Err(broken("light anim range far", base + 40))
    } else if word_at(rec, 44) != 0 {
        Err(differs("light anim field 44", word_at(rec, 44), 0, base + 44))
    } else if word_at(rec, 48) != 0 {
        Err(differs("light anim field 48", word_at(rec, 48), 0, base + 48))
    } else if word_at(rec, 52) != 0 {
        Err(differs("light anim field 52", word_at(rec, 52), 0, base + 52))
    } else if word_at(rec, 56) != 0 {
        Err(differs("light anim field 56", word_at(rec, 56), 0, base + 56))
    } else {
        Ok(vec2_at(rec, 36))
    }
}

/// The colour, each part of it in range, and the six zeros behind it.
pub open spec fn color_in(rec: Seq<u32>, base: int) -> Result<Vec3> {
    if !spec_channel_in_range(f32_at(rec, 60)) {
        Err(outside("light anim color red", F32 { bits: MINUS_FIVE_BITS }, f32_at(rec, 60), F32 { bits: FIVE_BITS }, base + 60))
    } else if !spec_channel_in_range(f32_at(rec, 64)) {
        Err(outside("light anim color green", F32 { bits: MINUS_FIVE_BITS }, f32_at(rec, 64), F32 { bits: FIVE_BITS }, base + 64))
    } else if !spec_channel_in_range(f32_at(rec, 68)) {
        Err(outside("light anim color blue", F32 { bits: MINUS_FIVE_BITS }, f32_at(rec, 68), F32 { bits: FIVE_BITS }, base + 68))
    } else if !f32_at(rec, 72).spec_is_zero() {
        Err(not_zero("light anim field 72", f32_at(rec, 72), base + 72))
    } else if !f32_at(rec, 76).spec_is_zero() {
        Err(not_zero("light anim field 76", f32_at(rec, 76), base + 76))
    } else if !f32_at(rec, 80).spec_is_zero() {
        Err(not_zero("light anim field 80", f32_at(rec, 80), base + 80))
    } else if !f32_at(rec, 84).spec_is_zero() {
        Err(not_zero("light anim field 84", f32_at(rec, 84), base + 84))
    } else if !f32_at(rec, 88).spec_is_zero() {
        Err(not_zero("light anim field 88", f32_at(rec, 88), base + 88))
    } else if !f32_at(rec, 92).spec_is_zero() {
        Err(not_zero("light anim field 92", f32_at(rec, 92), base + 92))
    } else {
        Ok(vec3_at(rec, 60))
    }
}

/// What a record means, where it begins at byte offset `base`: the groups in
/// the order of their fields, the first that fails giving the error.
pub open spec fn decode(rec: Seq<u32>, ctx: AnimDefView, base: int) -> core::result::Result<
    LightAnimationView,
    Error,
> {
    let name = name_in(rec, ctx, base);
    let range = range_in(rec, base);
    let color = color_in(rec, base);
    if name is Err {
        Err(name->Err_0)
    } else if range is Err {
        Err(range->Err_0)
    } else if color is Err {
        Err(color->Err_0)
    } else if !f32_at(rec, 96).spec_is_positive() {
        Err(broken("light anim runtime", base + 96))
    } else {
        Ok(
            LightAnimationView {
                name: name->Ok_0,
                range: range->Ok_0,
                color: color->Ok_0,
                runtime: f32_at(rec, 96),
            },
        )
    }
}

/// What `read` gives on a cursor in state `read`.
pub open spec fn read_result(read: CountingReader, ctx: AnimDefView, size: u32)
    -> core::result::Result<LightAnimationView, Error> {
    match record_of(read, "light animation size", SIZE, size) {
        Err(e) => Err(e),
        Ok(rec) => decode(rec, ctx, read.offset as int),
    }
}

/// A record as the functions below take it: 25 words, which begin at an
/// offset that leaves room for them.
pub open spec fn is_record(rec: Seq<u32>, base: u32) -> bool {
    rec.len() == 25 && base + SIZE <= u32::MAX
}

fn range_in_order(range: Vec2) -> (r: bool)
    ensures
        r == spec_range_in_order(range),
{
    if F32::zero().num_le(range.0) {
        range.0.num_le(range.1)
    } else {
        range.1.num_le(range.0)
    }
}

fn read_name(rec: &Vec<u32>, anim_def: &AnimDef, base: u32) -> (r: Result<String>)
    requires
        is_record(rec@, base),
    ensures
        crate::error::view_ok(r) == name_in(rec@, anim_def@, base as int),
{
    let slot = get_slot(rec, 0, NAME_SIZE);
    let actual = assert_utf8("light anim name", base + 0, slot.as_slice())?;
    let expected = anim_def.light_from_index(get_u32(rec, 32) as usize, base + 32)?;
    assert_that("light anim name", actual == expected, base + 32)?;
    Ok(actual)
}

fn read_range(rec: &Vec<u32>, base: u32) -> (r: Result<Vec2>)
    requires
        is_record(rec@, base),
    ensures
        r == range_in(rec@, base as int),
{
    let range = get_vec2(rec, 36);
    assert_that("light anim range far", range_in_order(range), base + 40)?;
    assert_equal("light anim field 44", get_u32(rec, 44), 0, base + 44)?;
    assert_equal("light anim field 48", get_u32(rec, 48), 0, base + 48)?;
    assert_equal("light anim field 52", get_u32(rec, 52), 0, base + 52)?;
    assert_equal("light anim field 56", get_u32(rec, 56), 0, base + 56)?;
    Ok(range)
}

fn read_color(rec: &Vec<u32>, base: u32) -> (r: Result<Vec3>)
    requires
        is_record(rec@, base),
    ensures
        r == color_in(rec@, base as int),
{
    let color = get_vec3(rec, 60);
    let low = F32 { bits: MINUS_FIVE_BITS };
    let high = F32 { bits: FIVE_BITS };
    assert_between("light anim color red", low, color.0, high, base + 60)?;
    assert_between("light anim color green", low, color.1, high, base + 64)?;
    assert_between("light anim color blue", low, color.2, high, base + 68)?;
    assert_zero("light anim field 72", get_f32(rec, 72), base + 72)?;
    assert_zero("light anim field 76", get_f32(rec, 76), base + 76)?;
    assert_zero("light anim field 80", get_f32(rec, 80), base + 80)?;
    assert_zero("light anim field 84", get_f32(rec, 84), base + 84)?;
    assert_zero("light anim field 88", get_f32(rec, 88), base + 88)?;
    assert_zero("light anim field 92", get_f32(rec, 92), base + 92)?;
    Ok(color)
}

// The record that a value is written as.
/// The words behind the name.
pub open spec fn tail_block(v: LightAnimationView, index: u32) -> Seq<u32> {
    seq![
        index,
        v.range.0.bits,
        v.range.1.bits,
        0,
        0,
        0,
        0,
        v.color.0.bits,
        v.color.1.bits,
        v.color.2.bits,
        0,
        0,
        0,
        0,
        0,
        0,
        v.runtime.bits,
    ]
}

/// The words of a record: the slot of the name, then the other fields in
/// the order of their offsets.
#[verifier::opaque]
pub open spec fn layout(v: LightAnimationView, slot: Seq<u8>, index: u32) -> Seq<u32> {
    le_words(slot) + tail_block(v, index)
}

/// The record that a value is written as.  It is written whenever the name
/// fits its slot and is in the table of lights.
pub open spec fn encode(v: LightAnimationView, ctx: AnimDefView) -> Result<Seq<u32>> {
    let index = index_from_name(ctx.lights, "light name", v.name);
    if encode_utf8(v.name).len() > 32 {
        Err(Error::Encoding { label: "light anim name", offset: 0 })
    } else if index is Err {
        Err(index->Err_0)
    } else if index->Ok_0 > u32::MAX {
        Err(broken("light index", 0))
    } else {
        Ok(layout(v, c_padded(encode_utf8(v.name), 32), index->Ok_0 as u32))
    }
}

impl LightAnimation {
    pub fn read(read: &mut CountingReader, anim_def: &AnimDef, size: u32) -> (r: Result<Self>)
        ensures
            crate::error::view_ok(r) == read_result(*old(read), anim_def@, size),
            after_record(*final(read), *old(read), SIZE, size),
    {
        let rec = read_record(read, "light animation size", SIZE, size)?;
        let base = read.prev;
        let name = read_name(&rec, anim_def, base)?;
        let range = read_range(&rec, base)?;
        let color = read_color(&rec, base)?;
        let runtime = get_f32(&rec, 96);
        assert_that("light anim runtime", runtime.is_positive(), base + 96)?;
        Ok(Self { name, range, color, runtime })
    }

    pub fn write(&self, write: &mut Vec<u8>, anim_def: &AnimDef) -> (r: Result<()>)
        ensures
            match encode(self@, anim_def@) {
                Ok(rec) => r is Ok && final(write)@ == old(write)@ + le_bytes(rec),
                Err(e) => r == Err::<(), Error>(e) && final(write)@ == old(write)@,
            },
            writable(self@, anim_def@) ==> r is Ok,
            r is Ok ==> final(write)@.len() == old(write)@.len() + SIZE,
    {
        proof {
            lemma_writable(self@, anim_def@);
            if encode(self@, anim_def@) is Ok {
                lemma_fixed_size(self@, anim_def@);
            }
        }
        let slot = match str_to_c_padded(self.name.as_str(), NAME_SIZE) {
            Some(slot) => slot,
            None => {
                return Err(Error::Encoding { label: "light anim name", offset: 0 });
            },
        };
        let index = anim_def.light_to_index(&self.name)?;
        if index > u32::MAX as usize {
            return Err(Error::Assertion { label: "light index", offset: 0, detail: Detail::Condition });
        }
        let mut rec: Vec<u32> = Vec::new();
        put_slot(&mut rec, &slot);  // 00
        rec.push(index as u32);  // 32
        rec.push(self.range.0.bits);  // 36
        rec.push(self.range.1.bits);  // 40
        rec.push(0);  // 44
        rec.push(0);  // 48
        rec.push(0);  // 52
        rec.push(0);  // 56
        put_vec3(&mut rec, self.color);  // 60
        rec.push(0);  // 72
        rec.push(0);  // 76
        rec.push(0);  // 80
        rec.push(0);  // 84
        rec.push(0);  // 88
        rec.push(0);  // 92
        rec.push(self.runtime.bits);  // 96
        proof {
            reveal(layout);
            assert(rec@ =~= layout(self@, slot@, index as u32));
        }
        write.write_struct(&rec);
        Ok(())
    }
}

// What holds of the two directions together.
/// The values that a decoder can give: the name can be kept in its slot, the
/// range is in order, each part of the colour is in range, and the run time
/// is above zero.
pub open spec fn legal(v: LightAnimationView) -> bool {
    &&& fits_slot(v.name, 32)
    &&& spec_range_in_order(v.range)
    &&& spec_channel_in_range(v.color.0)
    &&& spec_channel_in_range(v.color.1)
    &&& spec_channel_in_range(v.color.2)
    &&& v.runtime.spec_is_positive()
}

/// The fields of a record that was laid out, each at its offset.
pub proof fn lemma_fields(v: LightAnimationView, slot: Seq<u8>, index: u32)
    requires
        slot.len() == 32,
    ensures
        ({
            let rec = layout(v, slot, index);
            &&& rec.len() == 25
            &&& slot_at(rec, 0, 32) == slot
            &&& word_at(rec, 32) == index
            &&& vec2_at(rec, 36) == v.range
            &&& word_at(rec, 44) == 0
            &&& word_at(rec, 48) == 0
            &&& word_at(rec, 52) == 0
            &&& word_at(rec, 56) == 0
            &&& vec3_at(rec, 60) == v.color
            &&& f32_at(rec, 72) == F32::zero()
            &&& f32_at(rec, 76) == F32::zero()
            &&& f32_at(rec, 80) == F32::zero()
            &&& f32_at(rec, 84) == F32::zero()
            &&& f32_at(rec, 88) == F32::zero()
            &&& f32_at(rec, 92) == F32::zero()
            &&& f32_at(rec, 96) == v.runtime
        }),
{
    reveal(layout);
    let rec = layout(v, slot, index);
    crate::io_ext::lemma_le_bytes_of_words(slot);
    assert(rec.subrange(0, 8) =~= le_words(slot));
}

/// What is enough for a value to be written: the name of its light is no
/// longer than the slot and is in the table of lights, and every index of
/// the table fits 32 bits.
pub open spec fn writable(v: LightAnimationView, ctx: AnimDefView) -> bool {
    &&& encode_utf8(v.name).len() <= 32
    &&& ctx.lights.contains(v.name)
    &&& ctx.lights.len() <= 0x1_0000_0000
}

/// Whatever is writable is written.
pub proof fn lemma_writable(v: LightAnimationView, ctx: AnimDefView)
    ensures
        writable(v, ctx) ==> encode(v, ctx) is Ok,
{
    ctx.lights.index_of_first_ensures(v.name);
}

/// Whatever is written has the fixed size.
pub proof fn lemma_fixed_size(v: LightAnimationView, ctx: AnimDefView)
    requires
        encode(v, ctx) is Ok,
    ensures
        le_bytes(encode(v, ctx)->Ok_0).len() == SIZE,
{
    let index = index_from_name(ctx.lights, "light name", v.name)->Ok_0;
    lemma_fields(v, c_padded(encode_utf8(v.name), 32), index as u32);
}

/// A record that was written for a legal value has the fixed size and is
/// decoded to that value, wherever it begins.
pub proof fn lemma_round_trip(v: LightAnimationView, ctx: AnimDefView, base: int)
    requires
        legal(v),
        encode(v, ctx) is Ok,
    ensures
        le_bytes(encode(v, ctx)->Ok_0).len() == SIZE,
        decode(encode(v, ctx)->Ok_0, ctx, base) == Ok::<LightAnimationView, Error>(v),
{
    let rec = encode(v, ctx)->Ok_0;
    let index = index_from_name(ctx.lights, "light name", v.name)->Ok_0;
    crate::anim_def::lemma_index_identity(
        ctx.lights,
        v.name,
        0,
        "light name",
        "light index",
        base + 32,
    );
    crate::string::lemma_slot_round_trip(v.name, 32);
    lemma_fields(v, c_padded(encode_utf8(v.name), 32), index as u32);
    assert(name_in(rec, ctx, base) == Ok::<Seq<char>, Error>(v.name));
    assert(range_in(rec, base) == Ok::<Vec2, Error>(v.range));
    assert(color_in(rec, base) == Ok::<Vec3, Error>(v.color));
}

/// Whatever is decoded is legal.
pub proof fn lemma_decoded_is_legal(rec: Seq<u32>, ctx: AnimDefView, base: int)
    requires
        rec.len() == 25,
    ensures
        decode(rec, ctx, base) matches Ok(v) ==> legal(v),
{
    let slot = slot_at(rec, 0, 32);
    assert(slot.len() == 32);
    if check_utf8("light anim name", base + 0, slot) is Ok {
        crate::string::lemma_text_fits(slot);
    }
}

/// A record that is written holds the name of its light twice: as text in
/// its first slot, filled up with zeros, and as the index of that name in
/// the table of lights.
pub proof fn lemma_name_is_written_twice(v: LightAnimationView, ctx: AnimDefView)
    requires
        encode(v, ctx) is Ok,
    ensures
        ({
            let rec = encode(v, ctx)->Ok_0;
            &&& slot_at(rec, 0, 32) == c_padded(encode_utf8(v.name), 32)
            &&& ctx.lights.index_of_first(v.name) == Some(word_at(rec, 32) as int)
            &&& word_at(rec, 32) < ctx.lights.len()
            &&& ctx.lights[word_at(rec, 32) as int] == v.name
        }),
{
    let index = index_from_name(ctx.lights, "light name", v.name)->Ok_0;
    lemma_fields(v, c_padded(encode_utf8(v.name), 32), index as u32);
    ctx.lights.index_of_first_ensures(v.name);
}

/// A record in which the name of the light is not the name at its index is
/// refused, at the offset of the index.
pub proof fn lemma_names_agree(rec: Seq<u32>, ctx: AnimDefView, base: int)
    requires
        check_utf8("light anim name", base + 0, slot_at(rec, 0, 32)) matches Ok(actual)
            && name_from_index(ctx.lights, "light index", word_at(rec, 32) as int, base + 32)
            matches Ok(expected) && actual != expected,
    ensures
        decode(rec, ctx, base) == Err::<LightAnimationView, Error>(
            broken("light anim name", base + 32),
        ),
{
}

} // verus!
