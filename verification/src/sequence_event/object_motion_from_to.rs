//! The object-motion-from-to event: 132 bytes and a word of 4 flags.
//!
//! | offset | field |
//! |---|---|
//! | 0 | flags |
//! | 4 | node index |
//! | 8, 12, 16 | morph: from, to, delta |
//! | 20, 32, 44 | translate: from, to, delta |
//! | 56, 68, 80 | rotate: from, to, delta |
//! | 92, 104, 116 | scale: from, to, delta |
//! | 128 | run time |
//!
//! A group that is switched off holds zeros; the run time is always there
//! and above zero.

use crate::anim_def::{index_from_name, name_from_index, AnimDef, AnimDefView};
use crate::assertion::{
    assert_empty,
    assert_that,
    assert_zero,
    broken,
    not_empty,
    not_zero,
};
use crate::error::{Detail, Error, Result};
use crate::flags::{bit_if, has_bit, make_bit, test_bit};
use crate::io_ext::{le_bytes, CountingReader, WriteHelper};
use crate::record::{f32_at, get_f32, get_u32, get_vec3, put_vec3, vec3_at, word_at};
use crate::sequence_event::{after_record, read_record, record_of};
use crate::types::{Vec3, F32};
use vstd::prelude::*;

verus! {

/// The tag of this kind of event.
pub const INDEX: u8 = 11;

/// The fixed size of the record, in bytes.
pub const SIZE: u32 = 132;

pub const TRANSLATE: u32 = 1;

pub const ROTATE: u32 = 2;

pub const SCALE: u32 = 4;

pub const MORPH: u32 = 8;

/// The flags of an object motion from-to, each by its name.
#[derive(Clone, Copy, Debug, PartialEq, Eq, Structural)]
pub struct ObjectMotionFromToFlags {
    pub translate: bool,
    pub rotate: bool,
    pub scale: bool,
    pub morph: bool,
}

impl ObjectMotionFromToFlags {
    /// The flags that are set in `word`, whatever else is set in it.
    pub open spec fn spec_pick(word: u32) -> ObjectMotionFromToFlags {
        ObjectMotionFromToFlags {
            translate: has_bit(word, TRANSLATE),
            rotate: has_bit(word, ROTATE),
            scale: has_bit(word, SCALE),
            morph: has_bit(word, MORPH),
        }
    }

    /// The word in which exactly these flags are set.
    pub open spec fn spec_bits(self) -> u32 {
        bit_if(self.translate, TRANSLATE) | bit_if(self.rotate, ROTATE) | bit_if(self.scale, SCALE)
            | bit_if(self.morph, MORPH)
    }

    /// The flags of a word in which no other bit is set.
    pub open spec fn spec_from_bits(word: u32) -> Option<ObjectMotionFromToFlags> {
        if Self::spec_pick(word).spec_bits() == word {
            Some(Self::spec_pick(word))
        } else {
            None
        }
    }

    #[verifier::when_used_as_spec(spec_bits)]
    pub fn bits(self) -> (r: u32)
        ensures
            r == self.spec_bits(),
    {
        make_bit(self.translate, TRANSLATE) | make_bit(self.rotate, ROTATE) | make_bit(
            self.scale,
            SCALE,
        ) | make_bit(self.morph, MORPH)
    }

    #[verifier::when_used_as_spec(spec_from_bits)]
    pub fn from_bits(word: u32) -> (r: Option<ObjectMotionFromToFlags>)
        ensures
            r == Self::spec_from_bits(word),
    {
        let flags = ObjectMotionFromToFlags {
            translate: test_bit(word, TRANSLATE),
            rotate: test_bit(word, ROTATE),
            scale: test_bit(word, SCALE),
            morph: test_bit(word, MORPH),
        };
        if flags.bits() == word {
            Some(flags)
        } else {
            None
        }
    }
}

/// In a word made of the four bits, each taken or not, a bit is set exactly
/// where it was taken, and no other bit is set.
proof fn lemma_bits_apart(a: bool, b: bool, c: bool, d: bool)
    by (bit_vector)
    ensures
        ({
            let w: u32 = (if a { 1u32 } else { 0u32 }) | (if b { 2u32 } else { 0u32 }) | (if c { 4u32 } else { 0u32 }) | (if d { 8u32 } else { 0u32 });
            &&& (w & 1u32 != 0) == a
            &&& (w & 2u32 != 0) == b
            &&& (w & 4u32 != 0) == c
            &&& (w & 8u32 != 0) == d
            &&& w <= 15u32
        }),
{
}

/// A set of flags is read back from the word it is written as, and no bit
/// but the four is set in that word.
pub proof fn lemma_flags(flags: ObjectMotionFromToFlags)
    ensures
        ObjectMotionFromToFlags::spec_from_bits(flags.spec_bits()) == Some(flags),
        flags.spec_bits() <= 15,
{
    reveal(has_bit);
    reveal(bit_if);
    lemma_bits_apart(flags.translate, flags.rotate, flags.scale, flags.morph);
    assert(ObjectMotionFromToFlags::spec_pick(flags.spec_bits()) == flags);
}

/// A word with every bit set is the word of no set of flags.
pub proof fn lemma_all_ones_are_no_flags()
    ensures
        ObjectMotionFromToFlags::spec_from_bits(0xFFFF_FFFF) is None,
{
    lemma_flags(ObjectMotionFromToFlags::spec_pick(0xFFFF_FFFF));
}

#[derive(Clone, Copy, Debug, PartialEq, Eq, Structural)]
pub struct FloatFromTo {
    pub from: F32,
    pub to: F32,
    pub delta: F32,
}

#[derive(Clone, Copy, Debug, PartialEq, Eq, Structural)]
pub struct Vec3FromTo {
    pub from: Vec3,
    pub to: Vec3,
    pub delta: Vec3,
}

#[derive(Clone, Debug, PartialEq, Eq)]
pub struct ObjectMotionFromTo {
    pub node: String,
    pub run_time: F32,
    pub morph: Option<FloatFromTo>,
    pub translate: Option<Vec3FromTo>,
    pub rotate: Option<Vec3FromTo>,
    pub scale: Option<Vec3FromTo>,
}

pub struct ObjectMotionFromToView {
    pub node: Seq<char>,
    pub run_time: F32,
    pub morph: Option<FloatFromTo>,
    pub translate: Option<Vec3FromTo>,
    pub rotate: Option<Vec3FromTo>,
    pub scale: Option<Vec3FromTo>,
}

impl View for ObjectMotionFromTo {
    type V = ObjectMotionFromToView;

    open spec fn view(&self) -> ObjectMotionFromToView {
        ObjectMotionFromToView {
            node: self.node@,
            run_time: self.run_time,
            morph: self.morph,
            translate: self.translate,
            rotate: self.rotate,
            scale: self.scale,
        }
    }
}

// What a record means, group by group.  `base` is the byte offset at which
// the record begins.
/// The flags: a word with a bit that has no name is refused.
pub open spec fn flags_in(rec: Seq<u32>, base: int) -> Result<ObjectMotionFromToFlags> {
    match ObjectMotionFromToFlags::spec_from_bits(word_at(rec, 0)) {
        Some(flags) => Ok(flags),
        None => Err(
            Error::UnknownDiscriminant {
                label: "object motion from to flags",
                value: word_at(rec, 0),
                offset: base as u32,
            },
        ),
    }
}

/// The morph: three numbers, or three zeros where the flag is clear.
pub open spec fn morph_in(on: bool, rec: Seq<u32>, base: int) -> Result<Option<FloatFromTo>> {
    if on {
        Ok(Some(FloatFromTo { from: f32_at(rec, 8), to: f32_at(rec, 12), delta: f32_at(rec, 16) }))
    } else if !f32_at(rec, 8).spec_is_zero() {
        Err(not_zero("object motion morph from", f32_at(rec, 8), base + 8))
    } else if !f32_at(rec, 12).spec_is_zero() {
        Err(not_zero("object motion morph to", f32_at(rec, 12), base + 12))
    } else if !f32_at(rec, 16).spec_is_zero() {
        Err(not_zero("object motion morph delta", f32_at(rec, 16), base + 16))
    } else {
        Ok(None)
    }
}

/// A group of three triples at byte offset `at`, or zeros where the flag
/// is clear.
pub open spec fn triples_in(
    on: bool,
    from_label: &'static str,
    to_label: &'static str,
    delta_label: &'static str,
    rec: Seq<u32>,
    at: int,
    base: int,
) -> Result<Option<Vec3FromTo>> {
    if on {
        Ok(
            Some(
                Vec3FromTo {
                    from: vec3_at(rec, at),
                    to: vec3_at(rec, at + 12),
                    delta: vec3_at(rec, at + 24),
                },
            ),
        )
    } else if !vec3_at(rec, at).spec_is_empty() {
        Err(not_empty(from_label, vec3_at(rec, at), base + at))
    } else if !vec3_at(rec, at + 12).spec_is_empty() {
        Err(not_empty(to_label, vec3_at(rec, at + 12), base + at + 12))
    } else if !vec3_at(rec, at + 24).spec_is_empty() {
        Err(not_empty(delta_label, vec3_at(rec, at + 24), base + at + 24))
    } else {
        Ok(None)
    }
}

/// The translation.
pub open spec fn translate_in(on: bool, rec: Seq<u32>, base: int) -> Result<Option<Vec3FromTo>> {
    triples_in(
        on,
        "object motion translate.from",
        "object motion translate to",
        "object motion translate delta",
        rec,
        20,
        base,
    )
}

/// The rotation.
pub open spec fn rotate_in(on: bool, rec: Seq<u32>, base: int) -> Result<Option<Vec3FromTo>> {
    triples_in(
        on,
        "object motion rotate from",
        "object motion rotate to",
        "object motion rotate delta",
        rec,
        56,
        base,
    )
}

/// The scale.
pub open spec fn scale_in(on: bool, rec: Seq<u32>, base: int) -> Result<Option<Vec3FromTo>> {
    triples_in(
        on,
        "object motion scale from",
        "object motion scale to",
        "object motion scale delta",
        rec,
        92,
        base,
    )
}

/// What a record means, where it begins at byte offset `base`: the groups in
/// the order of their fields, the first that fails giving the error.
pub open spec fn decode(rec: Seq<u32>, ctx: AnimDefView, base: int) -> core::result::Result<
    ObjectMotionFromToView,
    Error,
> {
    match flags_in(rec, base) {
        Err(e) => Err(e),
        Ok(flags) => {
            let node = name_from_index(ctx.nodes, "node index", word_at(rec, 4) as int, base + 4);
            let morph = morph_in(flags.morph, rec, base);
            let translate = translate_in(flags.translate, rec, base);
            let rotate = rotate_in(flags.rotate, rec, base);
            let scale = scale_in(flags.scale, rec, base);
            if node is Err {
                Err(node->Err_0)
            } else if morph is Err {
                Err(morph->Err_0)
            } else if translate is Err {
                Err(translate->Err_0)
            } else if rotate is Err {
                Err(rotate->Err_0)
            } else if scale is Err {
                Err(scale->Err_0)
            } else if !f32_at(rec, 128).spec_is_positive() {
                Err(broken("object motion from to runtime", base + 128))
            } else {
                Ok(
                    ObjectMotionFromToView {
                        node: node->Ok_0,
                        run_time: f32_at(rec, 128),
                        morph: morph->Ok_0,
                        translate: translate->Ok_0,
                        rotate: rotate->Ok_0,
                        scale: scale->Ok_0,
                    },
                )
            }
        },
    }
}

/// What `read` gives on a cursor in state `read`.
pub open spec fn read_result(read: CountingReader, ctx: AnimDefView, size: u32)
    -> core::result::Result<ObjectMotionFromToView, Error> {
    match record_of(read, "object motion from to size", SIZE, size) {
        Err(e) => Err(e),
        Ok(rec) => decode(rec, ctx, read.offset as int),
    }
}

/// A record as the functions below take it: 33 words, which begin at an
/// offset that leaves room for them.
pub open spec fn is_record(rec: Seq<u32>, base: u32) -> bool {
    rec.len() == 33 && base + SIZE <= u32::MAX
}

fn read_flags(rec: &Vec<u32>, base: u32) -> (r: Result<ObjectMotionFromToFlags>)
    requires
        is_record(rec@, base),
    ensures
        r == flags_in(rec@, base as int),
{
    let word = get_u32(rec, 0);
    match ObjectMotionFromToFlags::from_bits(word) {
        Some(flags) => Ok(flags),
        None => Err(
            Error::UnknownDiscriminant {
                label: "object motion from to flags",
                value: word,
                offset: base,
            },
        ),
    }
}

fn read_morph(on: bool, rec: &Vec<u32>, base: u32) -> (r: Result<Option<FloatFromTo>>)
    requires
        is_record(rec@, base),
    ensures
        r == morph_in(on, rec@, base as int),
{
    let from = get_f32(rec, 8);
    let to = get_f32(rec, 12);
    let delta = get_f32(rec, 16);
    if on {
        Ok(Some(FloatFromTo { from, to, delta }))
    } else {
        assert_zero("object motion morph from", from, base + 8)?;
        assert_zero("object motion morph to", to, base + 12)?;
        assert_zero("object motion morph delta", delta, base + 16)?;
        Ok(None)
    }
}

fn read_triples(
    on: bool,
    from_label: &'static str,
    to_label: &'static str,
    delta_label: &'static str,
    rec: &Vec<u32>,
    at: usize,
    base: u32,
) -> (r: Result<Option<Vec3FromTo>>)
    requires
        is_record(rec@, base),
        at % 4 == 0,
        at + 36 <= 132,
    ensures
        r == triples_in(on, from_label, to_label, delta_label, rec@, at as int, base as int),
{
    let from = get_vec3(rec, at);
    let to = get_vec3(rec, at + 12);
    let delta = get_vec3(rec, at + 24);
    if on {
        Ok(Some(Vec3FromTo { from, to, delta }))
    } else {
        assert_empty(from_label, from, base + at as u32)?;
        assert_empty(to_label, to, base + at as u32 + 12)?;
        assert_empty(delta_label, delta, base + at as u32 + 24)?;
        Ok(None)
    }
}

// The record that a value is written as.
/// The flags that say which groups a value has.
pub open spec fn flags_of(v: ObjectMotionFromToView) -> ObjectMotionFromToFlags {
    ObjectMotionFromToFlags {
        translate: v.translate is Some,
        rotate: v.rotate is Some,
        scale: v.scale is Some,
        morph: v.morph is Some,
    }
}

/// The three numbers of a morph that may be absent: zeros where it is.
pub open spec fn morph_of(x: Option<FloatFromTo>) -> FloatFromTo {
    match x {
        Some(x) => x,
        None => FloatFromTo { from: F32::zero(), to: F32::zero(), delta: F32::zero() },
    }
}

/// The three triples of a group that may be absent: zeros where it is.
pub open spec fn triples_of(x: Option<Vec3FromTo>) -> Vec3FromTo {
    match x {
        Some(x) => x,
        None => Vec3FromTo { from: Vec3::empty(), to: Vec3::empty(), delta: Vec3::empty() },
    }
}

/// The nine words of a group of three triples.
pub open spec fn triples_block(x: Vec3FromTo) -> Seq<u32> {
    seq![
        x.from.0.bits,
        x.from.1.bits,
        x.from.2.bits,
        x.to.0.bits,
        x.to.1.bits,
        x.to.2.bits,
        x.delta.0.bits,
        x.delta.1.bits,
        x.delta.2.bits,
    ]
}

/// The words of a record: its groups of fields in the order of their
/// offsets.
#[verifier::opaque]
pub open spec fn layout(v: ObjectMotionFromToView, node: u32) -> Seq<u32> {
    seq![
        flags_of(v).spec_bits(),
        node,
        morph_of(v.morph).from.bits,
        morph_of(v.morph).to.bits,
        morph_of(v.morph).delta.bits,
    ] + triples_block(triples_of(v.translate)) + triples_block(triples_of(v.rotate))
        + triples_block(triples_of(v.scale)) + seq![v.run_time.bits]
}

/// The record that a value is written as.  It is written whenever the node
/// is in the table of nodes.
pub open spec fn encode(v: ObjectMotionFromToView, ctx: AnimDefView) -> Result<Seq<u32>> {
    match index_from_name(ctx.nodes, "node name", v.node) {
        Err(e) => Err(e),
        Ok(index) => if index > u32::MAX {
            Err(broken("node index", 0))
        } else {
            Ok(layout(v, index as u32))
        },
    }
}

fn put_triples(rec: &mut Vec<u32>, x: Option<Vec3FromTo>)
    ensures
        final(rec)@ == old(rec)@ + triples_block(triples_of(x)),
{
    let x = match x {
        Some(x) => x,
        None => Vec3FromTo { from: Vec3::empty(), to: Vec3::empty(), delta: Vec3::empty() },
    };
    put_vec3(rec, x.from);
    put_vec3(rec, x.to);
    put_vec3(rec, x.delta);
    assert(rec@ =~= old(rec)@ + triples_block(x));
}

impl ObjectMotionFromTo {
    pub fn read(read: &mut CountingReader, anim_def: &AnimDef, size: u32) -> (r: Result<Self>)
        ensures
            crate::error::view_ok(r) == read_result(*old(read), anim_def@, size),
            after_record(*final(read), *old(read), SIZE, size),
    {
        let rec = read_record(read, "object motion from to size", SIZE, size)?;
        let base = read.prev;
        let flags = read_flags(&rec, base)?;
        let node = anim_def.node_from_index(get_u32(&rec, 4) as usize, base + 4)?;
        let morph = read_morph(flags.morph, &rec, base)?;
        let translate = read_triples(
            flags.translate,
            "object motion translate.from",
            "object motion translate to",
            "object motion translate delta",
            &rec,
            20,
            base,
        )?;
        let rotate = read_triples(
            flags.rotate,
            "object motion rotate from",
            "object motion rotate to",
            "object motion rotate delta",
            &rec,
            56,
            base,
        )?;
        let scale = read_triples(
            flags.scale,
            "object motion scale from",
            "object motion scale to",
            "object motion scale delta",
            &rec,
            92,
            base,
        )?;
        let run_time = get_f32(&rec, 128);
        assert_that("object motion from to runtime", run_time.is_positive(), base + 128)?;
        Ok(Self { node, run_time, morph, translate, rotate, scale })
    }

    pub fn write(&self, write: &mut Vec<u8>, anim_def: &AnimDef) -> (r: Result<()>)
        ensures
            match encode(self@, anim_def@) {
                Ok(rec) => r is Ok && final(write)@ == old(write)@ + le_bytes(rec),
                Err(e) => r == Err::<(), Error>(e) && final(write)@ == old(write)@,
            },
            writable(self@, anim_def@) ==> r is Ok,
            r is Ok ==> final(write)@.len() == old(write)@.len() + SIZE,
    {
        proof {
            lemma_writable(self@, anim_def@);
            if encode(self@, anim_def@) is Ok {
                lemma_fixed_size(self@, anim_def@);
            }
        }
        let flags = ObjectMotionFromToFlags {
            translate: self.translate.is_some(),
            rotate: self.rotate.is_some(),
            scale: self.scale.is_some(),
            morph: self.morph.is_some(),
        };
        let node = anim_def.node_to_index(&self.node)?;
        if node > u32::MAX as usize {
            return Err(Error::Assertion { label: "node index", offset: 0, detail: Detail::Condition });
        }
        let morph = match self.morph {
            Some(x) => x,
            None => FloatFromTo { from: F32::zero(), to: F32::zero(), delta: F32::zero() },
        };
        let mut rec: Vec<u32> = Vec::new();
        rec.push(flags.bits());  // 000
        rec.push(node as u32);  // 004
        rec.push(morph.from.bits);  // 008
        rec.push(morph.to.bits);  // 012
        rec.push(morph.delta.bits);  // 016
        put_triples(&mut rec, self.translate);  // 020
        put_triples(&mut rec, self.rotate);  // 056
        put_triples(&mut rec, self.scale);  // 092
        rec.push(self.run_time.bits);  // 128
        proof {
            reveal(layout);
            assert(rec@ =~= layout(self@, node as u32));
        }
        write.write_struct(&rec);
        Ok(())
    }
}

// What holds of the two directions together.
/// The values that a decoder can give: the run time is above zero.
pub open spec fn legal(v: ObjectMotionFromToView) -> bool {
    v.run_time.spec_is_positive()
}

/// The fields of a record that was laid out, each at its offset.
pub proof fn lemma_fields(v: ObjectMotionFromToView, node: u32)
    ensures
        ({
            let rec = layout(v, node);
            &&& rec.len() == 33
            &&& word_at(rec, 0) == flags_of(v).spec_bits()
            &&& word_at(rec, 4) == node
            &&& FloatFromTo { from: f32_at(rec, 8), to: f32_at(rec, 12), delta: f32_at(rec, 16) }
                == morph_of(v.morph)
            &&& Vec3FromTo { from: vec3_at(rec, 20), to: vec3_at(rec, 32), delta: vec3_at(rec, 44) }
                == triples_of(v.translate)
            &&& Vec3FromTo { from: vec3_at(rec, 56), to: vec3_at(rec, 68), delta: vec3_at(rec, 80) }
                == triples_of(v.rotate)
            &&& Vec3FromTo {
                from: vec3_at(rec, 92),
                to: vec3_at(rec, 104),
                delta: vec3_at(rec, 116),
            } == triples_of(v.scale)
            &&& f32_at(rec, 128) == v.run_time
        }),
{
    reveal(layout);
}

/// What is enough for a value to be written: its node is in the table of
/// nodes, and every index of the table fits 32 bits.
pub open spec fn writable(v: ObjectMotionFromToView, ctx: AnimDefView) -> bool {
    ctx.nodes.contains(v.node) && ctx.nodes.len() <= 0x1_0000_0000
}

/// Whatever is writable is written.
pub proof fn lemma_writable(v: ObjectMotionFromToView, ctx: AnimDefView)
    ensures
        writable(v, ctx) ==> encode(v, ctx) is Ok,
{
    ctx.nodes.index_of_first_ensures(v.node);
}

/// Whatever is written has the fixed size.
pub proof fn lemma_fixed_size(v: ObjectMotionFromToView, ctx: AnimDefView)
    requires
        encode(v, ctx) is Ok,
    ensures
        le_bytes(encode(v, ctx)->Ok_0).len() == SIZE,
{
    lemma_fields(v, index_from_name(ctx.nodes, "node name", v.node)->Ok_0 as u32);
}

/// A record that was written for a legal value has the fixed size and is
/// decoded to that value, wherever it begins.
pub proof fn lemma_round_trip(v: ObjectMotionFromToView, ctx: AnimDefView, base: int)
    requires
        legal(v),
        encode(v, ctx) is Ok,
    ensures
        le_bytes(encode(v, ctx)->Ok_0).len() == SIZE,
        decode(encode(v, ctx)->Ok_0, ctx, base) == Ok::<ObjectMotionFromToView, Error>(v),
{
    let rec = encode(v, ctx)->Ok_0;
    let node = index_from_name(ctx.nodes, "node name", v.node)->Ok_0;
    crate::anim_def::lemma_index_identity(ctx.nodes, v.node, 0, "node name", "node index", base + 4);
    lemma_fields(v, node as u32);
    lemma_flags(flags_of(v));
    assert(flags_in(rec, base) == Ok::<ObjectMotionFromToFlags, Error>(flags_of(v)));
    assert(morph_in(flags_of(v).morph, rec, base) == Ok::<Option<FloatFromTo>, Error>(v.morph));
    assert(translate_in(flags_of(v).translate, rec, base) == Ok::<Option<Vec3FromTo>, Error>(
        v.translate,
    ));
    assert(rotate_in(flags_of(v).rotate, rec, base) == Ok::<Option<Vec3FromTo>, Error>(v.rotate));
    assert(scale_in(flags_of(v).scale, rec, base) == Ok::<Option<Vec3FromTo>, Error>(v.scale));
}

/// Whatever is decoded is legal.
pub proof fn lemma_decoded_is_legal(rec: Seq<u32>, ctx: AnimDefView, base: int)
    ensures
        decode(rec, ctx, base) matches Ok(v) ==> legal(v),
{
}

/// Where a group is absent from a value, its record has the flag clear and
/// zero in every field of the group.
pub proof fn lemma_absent_is_sentinel(v: ObjectMotionFromToView, ctx: AnimDefView)
    requires
        encode(v, ctx) is Ok,
    ensures
        ({
            let rec = encode(v, ctx)->Ok_0;
            let flags = ObjectMotionFromToFlags::spec_from_bits(word_at(rec, 0));
            &&& flags == Some(flags_of(v))
            &&& v.morph is None ==> !flags_of(v).morph && f32_at(rec, 8) == F32::zero() && f32_at(
                rec,
                12,
            ) == F32::zero() && f32_at(rec, 16) == F32::zero()
            &&& v.translate is None ==> !flags_of(v).translate && vec3_at(rec, 20) == Vec3::empty()
                && vec3_at(rec, 32) == Vec3::empty() && vec3_at(rec, 44) == Vec3::empty()
            &&& v.rotate is None ==> !flags_of(v).rotate && vec3_at(rec, 56) == Vec3::empty()
                && vec3_at(rec, 68) == Vec3::empty() && vec3_at(rec, 80) == Vec3::empty()
            &&& v.scale is None ==> !flags_of(v).scale && vec3_at(rec, 92) == Vec3::empty()
                && vec3_at(rec, 104) == Vec3::empty() && vec3_at(rec, 116) == Vec3::empty()
        }),
{
    let node = index_from_name(ctx.nodes, "node name", v.node)->Ok_0;
    lemma_fields(v, node as u32);
    lemma_flags(flags_of(v));
}

/// Where a record is decoded, every group whose flag is clear holds zeros:
/// a record with a flag clear and anything else in the fields of its group
/// is refused.
pub proof fn lemma_sentinel_or_refused(rec: Seq<u32>, ctx: AnimDefView, base: int)
    requires
        decode(rec, ctx, base) is Ok,
    ensures
        ({
            let flags = ObjectMotionFromToFlags::spec_pick(word_at(rec, 0));
            &&& !flags.morph ==> f32_at(rec, 8).spec_is_zero() && f32_at(rec, 12).spec_is_zero()
                && f32_at(rec, 16).spec_is_zero()
            &&& !flags.translate ==> vec3_at(rec, 20).spec_is_empty() && vec3_at(
                rec,
                32,
            ).spec_is_empty() && vec3_at(rec, 44).spec_is_empty()
            &&& !flags.rotate ==> vec3_at(rec, 56).spec_is_empty() && vec3_at(
                rec,
                68,
            ).spec_is_empty() && vec3_at(rec, 80).spec_is_empty()
            &&& !flags.scale ==> vec3_at(rec, 92).spec_is_empty() && vec3_at(
                rec,
                104,
            ).spec_is_empty() && vec3_at(rec, 116).spec_is_empty()
        }),
{
}

/// A record whose flags have every bit set is refused for its flags, at the
/// offset of the flags.
pub proof fn lemma_all_ones_refused(rec: Seq<u32>, ctx: AnimDefView, base: int)
    requires
        word_at(rec, 0) == 0xFFFF_FFFF,
    ensures
        decode(rec, ctx, base) == Err::<ObjectMotionFromToView, Error>(
            Error::UnknownDiscriminant {
                label: "object motion from to flags",
                value: 0xFFFF_FFFF,
                offset: base as u32,
            },
        ),
{
    lemma_all_ones_are_no_flags();
}

} // verus!
