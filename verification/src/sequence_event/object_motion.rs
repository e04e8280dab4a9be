//! The object-motion event: 320 bytes, a word of 14 flags, and ten groups of
//! fields that a flag switches on or off.
//!
//! | offset | field |
//! |---|---|
//! | 0 | flags |
//! | 4 | node index |
//! | 8, 16 | always zero |
//! | 12 | gravity |
//! | 20 .. 52 | translation range: minimum and maximum, component by component in turn |
//! | 52, 64, 100 | translation: delta, initial, third triple |
//! | 76, 88 | copies of the translation, always zero |
//! | 112, 116 | forward rotation |
//! | 120 | always zero |
//! | 124, 136 | rotation: two triples |
//! | 148 | copy of the rotation, always zero |
//! | 160, 172 | scale: two triples |
//! | 184 | copy of the scale, always zero |
//! | 196, 236, 276 | names of the bounce sequences, 32 bytes each |
//! | 228, 268, 308 | always -1, 16 bits |
//! | 230, 232 | bounce sound: index, 16 bits, and volume |
//! | 270 .. 276, 310 .. 316 | two more bounce sounds, never used, always zero |
//! | 316 | run time |
//!
//! A group that is switched off holds its sentinel, zero for all but the
//! fields that are always -1, and a record where it holds anything else is
//! refused.

use crate::anim_def::{index_from_name, name_from_index, AnimDef, AnimDefView};
use crate::assertion::{
    all_zero,
    assert_all_zero,
    assert_empty,
    assert_equal,
    assert_that,
    assert_utf8,
    assert_zero,
    broken,
    check_utf8,
    differs,
    not_empty,
    not_zero,
};
use crate::error::{Detail, Error, Result};
use crate::flags::{bit_if, has_bit, make_bit, test_bit};
use crate::io_ext::{le_bytes, CountingReader, WriteHelper};
use crate::record::{
    f32_at,
    get_f32,
    get_slot,
    get_u16,
    get_u32,
    get_vec3,
    halves,
    put_halves,
    put_slot,
    put_vec3,
    slot_at,
    u16_at,
    vec3_at,
    word_at,
};
use crate::sequence_event::{after_record, read_record, record_of};
use crate::string::{c_padded, fits_slot, str_to_c_padded};
use crate::types::{Vec3, Vec4, F32};
use vstd::prelude::*;
use vstd::utf8::encode_utf8;

verus! {

/// The tag of this kind of event.
pub const INDEX: u8 = 10;

/// The fixed size of the record, in bytes.
pub const SIZE: u32 = 320;

/// The size of the slot of a name, in bytes.
pub const NAME_SIZE: usize = 32;

pub const GRAVITY: u32 = 1;

pub const IMPACT_FORCE: u32 = 2;

pub const TRANSLATION: u32 = 4;

pub const TRANSLATION_MIN: u32 = 8;

pub const TRANSLATION_MAX: u32 = 16;

pub const XYZ_ROTATION: u32 = 32;

pub const FORWARD_ROTATION_DISTANCE: u32 = 64;

pub const FORWARD_ROTATION_TIME: u32 = 128;

pub const SCALE: u32 = 256;

pub const RUNTIME: u32 = 1024;

pub const BOUNCE_SEQ: u32 = 2048;

pub const BOUNCE_SOUND: u32 = 4096;

pub const GRAVITY_COMPLEX: u32 = 8192;

pub const GRAVITY_NO_ALTITUDE: u32 = 16384;

/// The 16-bit pattern of -1.
pub const MINUS_ONE: u16 = 0xFFFF;

/// The flags of an object motion, each by its name.
#[derive(Clone, Copy, Debug, PartialEq, Eq, Structural)]
pub struct ObjectMotionFlags {
    pub gravity: bool,
    pub impact_force: bool,
    pub translation: bool,
    pub translation_min: bool,
    pub translation_max: bool,
    pub xyz_rotation: bool,
    pub forward_rotation_distance: bool,
    pub forward_rotation_time: bool,
    pub scale: bool,
    pub runtime: bool,
    pub bounce_seq: bool,
    pub bounce_sound: bool,
    pub gravity_complex: bool,
    pub gravity_no_altitude: bool,
}

impl ObjectMotionFlags {
    /// The flags that are set in `word`, whatever else is set in it.
    pub open spec fn spec_pick(word: u32) -> ObjectMotionFlags {
        ObjectMotionFlags {
            gravity: has_bit(word, GRAVITY),
            impact_force: has_bit(word, IMPACT_FORCE),
            translation: has_bit(word, TRANSLATION),
            translation_min: has_bit(word, TRANSLATION_MIN),
            translation_max: has_bit(word, TRANSLATION_MAX),
            xyz_rotation: has_bit(word, XYZ_ROTATION),
            forward_rotation_distance: has_bit(word, FORWARD_ROTATION_DISTANCE),
            forward_rotation_time: has_bit(word, FORWARD_ROTATION_TIME),
            scale: has_bit(word, SCALE),
            runtime: has_bit(word, RUNTIME),
            bounce_seq: has_bit(word, BOUNCE_SEQ),
            bounce_sound: has_bit(word, BOUNCE_SOUND),
            gravity_complex: has_bit(word, GRAVITY_COMPLEX),
            gravity_no_altitude: has_bit(word, GRAVITY_NO_ALTITUDE),
        }
    }

    /// The word in which exactly these flags are set.
    pub open spec fn spec_bits(self) -> u32 {
        bit_if(self.gravity, GRAVITY) | bit_if(self.impact_force, IMPACT_FORCE) | bit_if(
            self.translation,
            TRANSLATION,
        ) | bit_if(self.translation_min, TRANSLATION_MIN) | bit_if(
            self.translation_max,
            TRANSLATION_MAX,
        ) | bit_if(self.xyz_rotation, XYZ_ROTATION) | bit_if(
            self.forward_rotation_distance,
            FORWARD_ROTATION_DISTANCE,
        ) | bit_if(self.forward_rotation_time, FORWARD_ROTATION_TIME) | bit_if(self.scale, SCALE)
            | bit_if(self.runtime, RUNTIME) | bit_if(self.bounce_seq, BOUNCE_SEQ) | bit_if(
            self.bounce_sound,
            BOUNCE_SOUND,
        ) | bit_if(self.gravity_complex, GRAVITY_COMPLEX) | bit_if(
            self.gravity_no_altitude,
            GRAVITY_NO_ALTITUDE,
        )
    }

    /// The flags of a word in which no other bit is set.
    pub open spec fn spec_from_bits(word: u32) -> Option<ObjectMotionFlags> {
        if Self::spec_pick(word).spec_bits() == word {
            Some(Self::spec_pick(word))
        } else {
            None
        }
    }

    #[verifier::when_used_as_spec(spec_bits)]
    pub fn bits(self) -> (r: u32)
        ensures
            r == self.spec_bits(),
    {
        make_bit(self.gravity, GRAVITY) | make_bit(self.impact_force, IMPACT_FORCE) | make_bit(
            self.translation,
            TRANSLATION,
        ) | make_bit(self.translation_min, TRANSLATION_MIN) | make_bit(
            self.translation_max,
            TRANSLATION_MAX,
        ) | make_bit(self.xyz_rotation, XYZ_ROTATION) | make_bit(
            self.forward_rotation_distance,
            FORWARD_ROTATION_DISTANCE,
        ) | make_bit(self.forward_rotation_time, FORWARD_ROTATION_TIME) | make_bit(
            self.scale,
            SCALE,
        ) | make_bit(self.runtime, RUNTIME) | make_bit(self.bounce_seq, BOUNCE_SEQ) | make_bit(
            self.bounce_sound,
            BOUNCE_SOUND,
        ) | make_bit(self.gravity_complex, GRAVITY_COMPLEX) | make_bit(
            self.gravity_no_altitude,
            GRAVITY_NO_ALTITUDE,
        )
    }

    #[verifier::when_used_as_spec(spec_from_bits)]
    pub fn from_bits(word: u32) -> (r: Option<ObjectMotionFlags>)
        ensures
            r == Self::spec_from_bits(word),
    {
        let flags = ObjectMotionFlags {
            gravity: test_bit(word, GRAVITY),
            impact_force: test_bit(word, IMPACT_FORCE),
            translation: test_bit(word, TRANSLATION),
            translation_min: test_bit(word, TRANSLATION_MIN),
            translation_max: test_bit(word, TRANSLATION_MAX),
            xyz_rotation: test_bit(word, XYZ_ROTATION),
            forward_rotation_distance: test_bit(word, FORWARD_ROTATION_DISTANCE),
            forward_rotation_time: test_bit(word, FORWARD_ROTATION_TIME),
            scale: test_bit(word, SCALE),
            runtime: test_bit(word, RUNTIME),
            bounce_seq: test_bit(word, BOUNCE_SEQ),
            bounce_sound: test_bit(word, BOUNCE_SOUND),
            gravity_complex: test_bit(word, GRAVITY_COMPLEX),
            gravity_no_altitude: test_bit(word, GRAVITY_NO_ALTITUDE),
        };
        if flags.bits() == word {
            Some(flags)
        } else {
            None
        }
    }
}

/// In a word made of the fourteen bits, each taken or not, a bit is set
/// exactly where it was taken, and no other bit is set.
proof fn lemma_bits_apart(
    g: bool,
    i: bool,
    t: bool,
    tn: bool,
    tx: bool,
    x: bool,
    fd: bool,
    ft: bool,
    s: bool,
    r: bool,
    bq: bool,
    bs: bool,
    gc: bool,
    gn: bool,
)
    by (bit_vector)
    ensures
        ({
            let w: u32 = (if g { 1u32 } else { 0u32 }) | (if i { 2u32 } else { 0u32 }) | (if t { 4u32 } else { 0u32 }) | (if tn { 8u32 } else { 0u32 }) | (if tx { 16u32 } else { 0u32 }) | (if x { 32u32 } else { 0u32 }) | (if fd { 64u32 } else { 0u32 }) | (if ft { 128u32 } else { 0u32 }) | (if s { 256u32 } else { 0u32 }) | (if r { 1024u32 } else { 0u32 }) | (if bq { 2048u32 } else { 0u32 }) | (if bs { 4096u32 } else { 0u32 }) | (if gc { 8192u32 } else { 0u32 }) | (if gn { 16384u32 } else { 0u32 });
            &&& (w & 1u32 != 0) == g
            &&& (w & 2u32 != 0) == i
            &&& (w & 4u32 != 0) == t
            &&& (w & 8u32 != 0) == tn
            &&& (w & 16u32 != 0) == tx
            &&& (w & 32u32 != 0) == x
            &&& (w & 64u32 != 0) == fd
            &&& (w & 128u32 != 0) == ft
            &&& (w & 256u32 != 0) == s
            &&& (w & 1024u32 != 0) == r
            &&& (w & 2048u32 != 0) == bq
            &&& (w & 4096u32 != 0) == bs
            &&& (w & 8192u32 != 0) == gc
            &&& (w & 16384u32 != 0) == gn
            &&& w <= 32255u32
        }),
{
}

/// A set of flags is read back from the word it is written as, and no bit
/// but the fourteen is set in that word.
#[verifier::rlimit(40)]
pub proof fn lemma_flags(flags: ObjectMotionFlags)
    ensures
        ObjectMotionFlags::spec_from_bits(flags.spec_bits()) == Some(flags),
        flags.spec_bits() <= 32255,
{
    reveal(has_bit);
    reveal(bit_if);
    lemma_bits_apart(
        flags.gravity,
        flags.impact_force,
        flags.translation,
        flags.translation_min,
        flags.translation_max,
        flags.xyz_rotation,
        flags.forward_rotation_distance,
        flags.forward_rotation_time,
        flags.scale,
        flags.runtime,
        flags.bounce_seq,
        flags.bounce_sound,
        flags.gravity_complex,
        flags.gravity_no_altitude,
    );
    assert(ObjectMotionFlags::spec_pick(flags.spec_bits()) == flags);
}

/// A word with every bit set is the word of no set of flags.
pub proof fn lemma_all_ones_are_no_flags()
    ensures
        ObjectMotionFlags::spec_from_bits(0xFFFF_FFFF) is None,
{
    lemma_flags(ObjectMotionFlags::spec_pick(0xFFFF_FFFF));
}

#[derive(Clone, Copy, Debug, PartialEq, Eq, Structural)]
pub enum GravityMode {
    Local,
    Complex,
    NoAltitude,
}

#[derive(Clone, Copy, Debug, PartialEq, Eq, Structural)]
pub struct Gravity {
    pub mode: GravityMode,
    pub value: F32,
}

#[derive(Clone, Copy, Debug, PartialEq, Eq, Structural)]
pub enum ForwardRotation {
    Time(F32, F32),
    Distance(F32),
}

#[derive(Clone, Debug, PartialEq, Eq)]
pub struct BounceSound {
    pub name: String,
    pub volume: F32,
}

pub struct BounceSoundView {
    pub name: Seq<char>,
    pub volume: F32,
}

impl View for BounceSound {
    type V = BounceSoundView;

    open spec fn view(&self) -> BounceSoundView {
        BounceSoundView { name: self.name@, volume: self.volume }
    }
}

#[derive(Clone, Debug, PartialEq, Eq)]
pub struct ObjectMotion {
    pub node: String,
    pub impact_force: bool,
    pub gravity: Option<Gravity>,
    pub translation_range_min: Option<Vec4>,
    pub translation_range_max: Option<Vec4>,
    pub translation: Option<(Vec3, Vec3, Vec3)>,
    pub forward_rotation: Option<ForwardRotation>,
    pub xyz_rotation: Option<(Vec3, Vec3)>,
    pub scale: Option<(Vec3, Vec3)>,
    pub bounce_sequence: Option<(Option<String>, Option<String>, Option<String>)>,
    pub bounce_sound: Option<BounceSound>,
    pub runtime: Option<F32>,
}

/// The names of up to three bounce sequences.
pub type BounceNames = (Option<Seq<char>>, Option<Seq<char>>, Option<Seq<char>>);

pub struct ObjectMotionView {
    pub node: Seq<char>,
    pub impact_force: bool,
    pub gravity: Option<Gravity>,
    pub translation_range_min: Option<Vec4>,
    pub translation_range_max: Option<Vec4>,
    pub translation: Option<(Vec3, Vec3, Vec3)>,
    pub forward_rotation: Option<ForwardRotation>,
    pub xyz_rotation: Option<(Vec3, Vec3)>,
    pub scale: Option<(Vec3, Vec3)>,
    pub bounce_sequence: Option<BounceNames>,
    pub bounce_sound: Option<BounceSoundView>,
    pub runtime: Option<F32>,
}

/// The text of a name that may be absent.
pub open spec fn text_of(name: Option<String>) -> Option<Seq<char>> {
    match name {
        Some(s) => Some(s@),
        None => None,
    }
}

/// The texts of the names of the bounce sequences.
pub open spec fn names_of(names: Option<(Option<String>, Option<String>, Option<String>)>)
    -> Option<BounceNames> {
    match names {
        Some((a, b, c)) => Some((text_of(a), text_of(b), text_of(c))),
        None => None,
    }
}

/// The view of a bounce sound that may be absent.
pub open spec fn sound_of(sound: Option<BounceSound>) -> Option<BounceSoundView> {
    match sound {
        Some(s) => Some(s@),
        None => None,
    }
}

impl View for ObjectMotion {
    type V = ObjectMotionView;

    open spec fn view(&self) -> ObjectMotionView {
        ObjectMotionView {
            node: self.node@,
            impact_force: self.impact_force,
            gravity: self.gravity,
            translation_range_min: self.translation_range_min,
            translation_range_max: self.translation_range_max,
            translation: self.translation,
            forward_rotation: self.forward_rotation,
            xyz_rotation: self.xyz_rotation,
            scale: self.scale,
            bounce_sequence: names_of(self.bounce_sequence),
            bounce_sound: sound_of(self.bounce_sound),
            runtime: self.runtime,
        }
    }
}

// What a record means, group by group.  `base` is the byte offset at which
// the record begins.  In each group the checks stand in the order in which
// they are made, and the first broken one gives the error.
/// The flags: a word with a bit that has no name is refused.
pub open spec fn flags_in(rec: Seq<u32>, base: int) -> Result<ObjectMotionFlags> {
    match ObjectMotionFlags::spec_from_bits(word_at(rec, 0)) {
        Some(flags) => Ok(flags),
        None => Err(
            Error::UnknownDiscriminant {
                label: "object motion flags",
                value: word_at(rec, 0),
                offset: base as u32,
            },
        ),
    }
}

/// The node, and the two fields beside the gravity that are always zero.
pub open spec fn node_in(rec: Seq<u32>, ctx: AnimDefView, base: int) -> core::result::Result<
    Seq<char>,
    Error,
> {
    let node = name_from_index(ctx.nodes, "node index", word_at(rec, 4) as int, base + 4);
    if node is Err {
        node
    } else if !f32_at(rec, 8).spec_is_zero() {
        Err(not_zero("object motion field 008", f32_at(rec, 8), base + 8))
    } else if !f32_at(rec, 16).spec_is_zero() {
        Err(not_zero("object motion field 016", f32_at(rec, 16), base + 16))
    } else {
        node
    }
}

/// The gravity.  Its mode comes from two more flags, of which at most one is
/// set, and none where there is no gravity.
pub open spec fn gravity_in(flags: ObjectMotionFlags, rec: Seq<u32>, base: int) -> Result<
    Option<Gravity>,
> {
    if flags.gravity {
        if flags.gravity_no_altitude {
            if flags.gravity_complex {
                Err(broken("object motion gravity complex", base + 0))
            } else {
                Ok(Some(Gravity { mode: GravityMode::NoAltitude, value: f32_at(rec, 12) }))
            }
        } else if flags.gravity_complex {
            Ok(Some(Gravity { mode: GravityMode::Complex, value: f32_at(rec, 12) }))
        } else {
            Ok(Some(Gravity { mode: GravityMode::Local, value: f32_at(rec, 12) }))
        }
    } else if flags.gravity_complex {
        Err(broken("object motion gravity complex", base + 0))
    } else if flags.gravity_no_altitude {
        Err(broken("object motion gravity no altitude", base + 0))
    } else if !f32_at(rec, 12).spec_is_zero() {
        Err(not_zero("object motion gravity value", f32_at(rec, 12), base + 12))
    } else {
        Ok(None)
    }
}

/// The minimum of the translation range.
pub open spec fn range_min_in(flags: ObjectMotionFlags, rec: Seq<u32>, base: int) -> Result<
    Option<Vec4>,
> {
    if flags.translation_min {
        Ok(Some(Vec4(f32_at(rec, 20), f32_at(rec, 28), f32_at(rec, 36), f32_at(rec, 44))))
    } else if !f32_at(rec, 20).spec_is_zero() {
        Err(not_zero("object motion trans range min 1", f32_at(rec, 20), base + 20))
    } else if !f32_at(rec, 28).spec_is_zero() {
        Err(not_zero("object motion trans range min 2", f32_at(rec, 28), base + 28))
    } else if !f32_at(rec, 36).spec_is_zero() {
        Err(not_zero("object motion trans range min 3", f32_at(rec, 36), base + 36))
    } else if !f32_at(rec, 44).spec_is_zero() {
        Err(not_zero("object motion trans range min 4", f32_at(rec, 44), base + 44))
    } else {
        Ok(None)
    }
}

/// The maximum of the translation range.
pub open spec fn range_max_in(flags: ObjectMotionFlags, rec: Seq<u32>, base: int) -> Result<
    Option<Vec4>,
> {
    if flags.translation_max {
        Ok(Some(Vec4(f32_at(rec, 24), f32_at(rec, 32), f32_at(rec, 40), f32_at(rec, 48))))
    } else if !f32_at(rec, 24).spec_is_zero() {
        Err(not_zero("object motion trans range max 1", f32_at(rec, 24), base + 24))
    } else if !f32_at(rec, 32).spec_is_zero() {
        Err(not_zero("object motion trans range max 2", f32_at(rec, 32), base + 32))
    } else if !f32_at(rec, 40).spec_is_zero() {
        Err(not_zero("object motion trans range max 3", f32_at(rec, 40), base + 40))
    } else if !f32_at(rec, 48).spec_is_zero() {
        Err(not_zero("object motion trans range max 4", f32_at(rec, 48), base + 48))
    } else {
        Ok(None)
    }
}

/// The translation, and its two copies, which are always zero.
pub open spec fn translation_in(flags: ObjectMotionFlags, rec: Seq<u32>, base: int) -> Result<
    Option<(Vec3, Vec3, Vec3)>,
> {
    if !flags.translation && !vec3_at(rec, 52).spec_is_empty() {
        Err(not_empty("object motion trans delta", vec3_at(rec, 52), base + 52))
    } else if !flags.translation && !vec3_at(rec, 64).spec_is_empty() {
        Err(not_empty("object motion trans initial", vec3_at(rec, 64), base + 64))
    } else if !flags.translation && !vec3_at(rec, 100).spec_is_empty() {
        Err(not_empty("object motion field 100", vec3_at(rec, 100), base + 100))
    } else if !vec3_at(rec, 76).spec_is_empty() {
        Err(not_empty("object motion trans delta copy", vec3_at(rec, 76), base + 76))
    } else if !vec3_at(rec, 88).spec_is_empty() {
        Err(not_empty("object motion trans initial copy", vec3_at(rec, 88), base + 88))
    } else if flags.translation {
        Ok(Some((vec3_at(rec, 52), vec3_at(rec, 64), vec3_at(rec, 100))))
    } else {
        Ok(None)
    }
}

/// The forward rotation, by time or by distance but not by both, and the
/// field behind it, which is always zero.
pub open spec fn forward_rotation_in(flags: ObjectMotionFlags, rec: Seq<u32>, base: int) -> Result<
    Option<ForwardRotation>,
> {
    if flags.forward_rotation_time && flags.forward_rotation_distance {
        Err(broken("object motion fwd rot dist", base + 0))
    } else if !flags.forward_rotation_time && !flags.forward_rotation_distance && !f32_at(
        rec,
        112,
    ).spec_is_zero() {
        Err(not_zero("object motion fwd rot 1", f32_at(rec, 112), base + 112))
    } else if !flags.forward_rotation_time && !f32_at(rec, 116).spec_is_zero() {
        Err(not_zero("object motion fwd rot 2", f32_at(rec, 116), base + 116))
    } else if !f32_at(rec, 120).spec_is_zero() {
        Err(not_zero("object motion field 120", f32_at(rec, 120), base + 120))
    } else if flags.forward_rotation_time {
        Ok(Some(ForwardRotation::Time(f32_at(rec, 112), f32_at(rec, 116))))
    } else if flags.forward_rotation_distance {
        Ok(Some(ForwardRotation::Distance(f32_at(rec, 112))))
    } else {
        Ok(None)
    }
}

/// The rotation, and its copy, which is always zero.
pub open spec fn xyz_rotation_in(flags: ObjectMotionFlags, rec: Seq<u32>, base: int) -> Result<
    Option<(Vec3, Vec3)>,
> {
    if !flags.xyz_rotation && !vec3_at(rec, 124).spec_is_empty() {
        Err(not_empty("object motion xyz rot", vec3_at(rec, 124), base + 124))
    } else if !flags.xyz_rotation && !vec3_at(rec, 136).spec_is_empty() {
        Err(not_empty("object motion field 136", vec3_at(rec, 136), base + 136))
    } else if !vec3_at(rec, 148).spec_is_empty() {
        Err(not_empty("object motion xyz rot copy", vec3_at(rec, 148), base + 148))
    } else if flags.xyz_rotation {
        Ok(Some((vec3_at(rec, 124), vec3_at(rec, 136))))
    } else {
        Ok(None)
    }
}

/// The scale, and its copy, which is always zero.
pub open spec fn scale_in(flags: ObjectMotionFlags, rec: Seq<u32>, base: int) -> Result<
    Option<(Vec3, Vec3)>,
> {
    if !flags.scale && !vec3_at(rec, 160).spec_is_empty() {
        Err(not_empty("object motion scale", vec3_at(rec, 160), base + 160))
    } else if !flags.scale && !vec3_at(rec, 172).spec_is_empty() {
        Err(not_empty("object motion field 172", vec3_at(rec, 172), base + 172))
    } else if !vec3_at(rec, 184).spec_is_empty() {
        Err(not_empty("object motion scale copy", vec3_at(rec, 184), base + 184))
    } else if flags.scale {
        Ok(Some((vec3_at(rec, 160), vec3_at(rec, 172))))
    } else {
        Ok(None)
    }
}

/// The three fields that are always -1.
pub open spec fn sentinels_in(rec: Seq<u32>, base: int) -> Result<()> {
    if u16_at(rec, 228) != MINUS_ONE {
        Err(differs("object motion bounce seq 0 sentinel", u16_at(rec, 228) as u32, MINUS_ONE as u32, base + 228))
    } else if u16_at(rec, 268) != MINUS_ONE {
        Err(differs("object motion bounce seq 1 sentinel", u16_at(rec, 268) as u32, MINUS_ONE as u32, base + 268))
    } else if u16_at(rec, 308) != MINUS_ONE {
        Err(differs("object motion bounce seq 2 sentinel", u16_at(rec, 308) as u32, MINUS_ONE as u32, base + 308))
    } else {
        Ok(())
    }
}

/// One name of a bounce sequence: absent where the slot begins with a zero
/// byte.
pub open spec fn bounce_name_in(label: &'static str, rec: Seq<u32>, at: int, base: int)
    -> core::result::Result<Option<Seq<char>>, Error> {
    if slot_at(rec, at, 32)[0] == 0 {
        Ok(None)
    } else {
        match check_utf8(label, base + at, slot_at(rec, at, 32)) {
            Ok(name) => Ok(Some(name)),
            Err(e) => Err(e),
        }
    }
}

/// The names of the bounce sequences: at least the first where the flag is
/// set, and three slots of zeros where it is not.
pub open spec fn bounce_sequence_in(flags: ObjectMotionFlags, rec: Seq<u32>, base: int)
    -> core::result::Result<Option<BounceNames>, Error> {
    if flags.bounce_seq {
        let first = bounce_name_in("object motion bounce seq 0 name", rec, 196, base);
        let second = bounce_name_in("object motion bounce seq 1 name", rec, 236, base);
        let third = bounce_name_in("object motion bounce seq 2 name", rec, 276, base);
        if first is Err {
            Err(first->Err_0)
        } else if first->Ok_0 is None {
            Err(broken("object motion at least one bounce seq", base + 196))
        } else if second is Err {
            Err(second->Err_0)
        } else if third is Err {
            Err(third->Err_0)
        } else {
            Ok(Some((first->Ok_0, second->Ok_0, third->Ok_0)))
        }
    } else if !all_zero(slot_at(rec, 196, 32)) {
        Err(broken("object motion bounce seq 0", base + 196))
    } else if !all_zero(slot_at(rec, 236, 32)) {
        Err(broken("object motion bounce seq 1", base + 236))
    } else if !all_zero(slot_at(rec, 276, 32)) {
        Err(broken("object motion bounce seq 2", base + 276))
    } else {
        Ok(None)
    }
}

/// The bounce sound, whose volume is above zero, and the two sounds behind
/// it, which are always zero.
pub open spec fn bounce_sound_in(
    flags: ObjectMotionFlags,
    rec: Seq<u32>,
    ctx: AnimDefView,
    base: int,
) -> core::result::Result<Option<BounceSoundView>, Error> {
    let name = name_from_index(ctx.sounds, "sound index", u16_at(rec, 230) as int, base + 230);
    if flags.bounce_sound && !f32_at(rec, 232).spec_is_positive() {
        Err(broken("object motion bounce snd 0 vol", base + 232))
    } else if flags.bounce_sound && name is Err {
        Err(name->Err_0)
    } else if !flags.bounce_sound && u16_at(rec, 230) != 0 {
        Err(differs("object motion bounce snd 0 index", u16_at(rec, 230) as u32, 0, base + 230))
    } else if !flags.bounce_sound && !f32_at(rec, 232).spec_is_zero() {
        Err(not_zero("object motion bounce snd 0 vol", f32_at(rec, 232), base + 232))
    } else if u16_at(rec, 270) != 0 {
        Err(differs("object motion bounce snd 1 index", u16_at(rec, 270) as u32, 0, base + 270))
    } else if !f32_at(rec, 272).spec_is_zero() {
        Err(not_zero("object motion bounce snd 1 vol", f32_at(rec, 272), base + 272))
    } else if u16_at(rec, 310) != 0 {
        Err(differs("object motion bounce snd 2 index", u16_at(rec, 310) as u32, 0, base + 310))
    } else if !f32_at(rec, 312).spec_is_zero() {
        Err(not_zero("object motion bounce snd 2 vol", f32_at(rec, 312), base + 312))
    } else if flags.bounce_sound {
        Ok(Some(BounceSoundView { name: name->Ok_0, volume: f32_at(rec, 232) }))
    } else {
        Ok(None)
    }
}

/// The run time, which is above zero where there is one.
pub open spec fn runtime_in(flags: ObjectMotionFlags, rec: Seq<u32>, base: int) -> Result<
    Option<F32>,
> {
    if flags.runtime {
        if f32_at(rec, 316).spec_is_positive() {
            Ok(Some(f32_at(rec, 316)))
        } else {
            Err(broken("object motion runtime", base + 316))
        }
    } else if f32_at(rec, 316).spec_is_zero() {
        Ok(None)
    } else {
        Err(not_zero("object motion runtime", f32_at(rec, 316), base + 316))
    }
}

/// What a record means, where it begins at byte offset `base`: the groups in
/// the order of their fields, the first that fails giving the error.
pub open spec fn decode(rec: Seq<u32>, ctx: AnimDefView, base: int) -> core::result::Result<
    ObjectMotionView,
    Error,
> {
    match flags_in(rec, base) {
        Err(e) => Err(e),
        Ok(flags) => {
            let node = node_in(rec, ctx, base);
            let gravity = gravity_in(flags, rec, base);
            let range_min = range_min_in(flags, rec, base);
            let range_max = range_max_in(flags, rec, base);
            let translation = translation_in(flags, rec, base);
            let forward_rotation = forward_rotation_in(flags, rec, base);
            let xyz_rotation = xyz_rotation_in(flags, rec, base);
            let scale = scale_in(flags, rec, base);
            let sentinels = sentinels_in(rec, base);
            let bounce_sequence = bounce_sequence_in(flags, rec, base);
            let bounce_sound = bounce_sound_in(flags, rec, ctx, base);
            let runtime = runtime_in(flags, rec, base);
            if node is Err {
                Err(node->Err_0)
            } else if gravity is Err {
                Err(gravity->Err_0)
            } else if range_min is Err {
                Err(range_min->Err_0)
            } else if range_max is Err {
                Err(range_max->Err_0)
            } else if translation is Err {
                Err(translation->Err_0)
            } else if forward_rotation is Err {
                Err(forward_rotation->Err_0)
            } else if xyz_rotation is Err {
                Err(xyz_rotation->Err_0)
            } else if scale is Err {
                Err(scale->Err_0)
            } else if sentinels is Err {
                Err(sentinels->Err_0)
            } else if bounce_sequence is Err {
                Err(bounce_sequence->Err_0)
            } else if bounce_sound is Err {
                Err(bounce_sound->Err_0)
            } else if runtime is Err {
                Err(runtime->Err_0)
            } else {
                Ok(
                    ObjectMotionView {
                        node: node->Ok_0,
                        impact_force: flags.impact_force,
                        gravity: gravity->Ok_0,
                        translation_range_min: range_min->Ok_0,
                        translation_range_max: range_max->Ok_0,
                        translation: translation->Ok_0,
                        forward_rotation: forward_rotation->Ok_0,
                        xyz_rotation: xyz_rotation->Ok_0,
                        scale: scale->Ok_0,
                        bounce_sequence: bounce_sequence->Ok_0,
                        bounce_sound: bounce_sound->Ok_0,
                        runtime: runtime->Ok_0,
                    },
                )
            }
        },
    }
}

/// What `read` gives on a cursor in state `read`.
pub open spec fn read_result(read: CountingReader, ctx: AnimDefView, size: u32)
    -> core::result::Result<ObjectMotionView, Error> {
    match record_of(read, "object motion size", SIZE, size) {
        Err(e) => Err(e),
        Ok(rec) => decode(rec, ctx, read.offset as int),
    }
}

/// A record as the functions below take it: 80 words, which begin at an
/// offset that leaves room for them.
pub open spec fn is_record(rec: Seq<u32>, base: u32) -> bool {
    rec.len() == 80 && base + SIZE <= u32::MAX
}

fn read_flags(rec: &Vec<u32>, base: u32) -> (r: Result<ObjectMotionFlags>)
    requires
        is_record(rec@, base),
    ensures
        r == flags_in(rec@, base as int),
{
    let word = get_u32(rec, 0);
    match ObjectMotionFlags::from_bits(word) {
        Some(flags) => Ok(flags),
        None => Err(
            Error::UnknownDiscriminant { label: "object motion flags", value: word, offset: base },
        ),
    }
}

fn read_node(rec: &Vec<u32>, anim_def: &AnimDef, base: u32) -> (r: Result<String>)
    requires
        is_record(rec@, base),
    ensures
        crate::error::view_ok(r) == node_in(rec@, anim_def@, base as int),
{
    let node = anim_def.node_from_index(get_u32(rec, 4) as usize, base + 4)?;
    assert_zero("object motion field 008", get_f32(rec, 8), base + 8)?;
    assert_zero("object motion field 016", get_f32(rec, 16), base + 16)?;
    Ok(node)
}

fn read_gravity(flags: ObjectMotionFlags, rec: &Vec<u32>, base: u32) -> (r: Result<Option<Gravity>>)
    requires
        is_record(rec@, base),
    ensures
        r == gravity_in(flags, rec@, base as int),
{
    let value = get_f32(rec, 12);
    if flags.gravity {
        let mode = if flags.gravity_no_altitude {
            assert_that("object motion gravity complex", !flags.gravity_complex, base + 0)?;
            GravityMode::NoAltitude
        } else if flags.gravity_complex {
            GravityMode::Complex
        } else {
            GravityMode::Local
        };
        Ok(Some(Gravity { mode, value }))
    } else {
        assert_that("object motion gravity complex", !flags.gravity_complex, base + 0)?;
        assert_that("object motion gravity no altitude", !flags.gravity_no_altitude, base + 0)?;
        assert_zero("object motion gravity value", value, base + 12)?;
        Ok(None)
    }
}

fn read_range_min(flags: ObjectMotionFlags, rec: &Vec<u32>, base: u32) -> (r: Result<Option<Vec4>>)
    requires
        is_record(rec@, base),
    ensures
        r == range_min_in(flags, rec@, base as int),
{
    let range = Vec4(get_f32(rec, 20), get_f32(rec, 28), get_f32(rec, 36), get_f32(rec, 44));
    if flags.translation_min {
        Ok(Some(range))
    } else {
        assert_zero("object motion trans range min 1", range.0, base + 20)?;
        assert_zero("object motion trans range min 2", range.1, base + 28)?;
        assert_zero("object motion trans range min 3", range.2, base + 36)?;
        assert_zero("object motion trans range min 4", range.3, base + 44)?;
        Ok(None)
    }
}

fn read_range_max(flags: ObjectMotionFlags, rec: &Vec<u32>, base: u32) -> (r: Result<Option<Vec4>>)
    requires
        is_record(rec@, base),
    ensures
        r == range_max_in(flags, rec@, base as int),
{
    let range = Vec4(get_f32(rec, 24), get_f32(rec, 32), get_f32(rec, 40), get_f32(rec, 48));
    if flags.translation_max {
        Ok(Some(range))
    } else {
        assert_zero("object motion trans range max 1", range.0, base + 24)?;
        assert_zero("object motion trans range max 2", range.1, base + 32)?;
        assert_zero("object motion trans range max 3", range.2, base + 40)?;
        assert_zero("object motion trans range max 4", range.3, base + 48)?;
        Ok(None)
    }
}

fn read_translation(flags: ObjectMotionFlags, rec: &Vec<u32>, base: u32) -> (r: Result<
    Option<(Vec3, Vec3, Vec3)>,
>)
    requires
        is_record(rec@, base),
    ensures
        r == translation_in(flags, rec@, base as int),
{
    let delta = get_vec3(rec, 52);
    let initial = get_vec3(rec, 64);
    let third = get_vec3(rec, 100);
    let translation = if flags.translation {
        Some((delta, initial, third))
    } else {
        assert_empty("object motion trans delta", delta, base + 52)?;
        assert_empty("object motion trans initial", initial, base + 64)?;
        assert_empty("object motion field 100", third, base + 100)?;
        None
    };
    assert_empty("object motion trans delta copy", get_vec3(rec, 76), base + 76)?;
    assert_empty("object motion trans initial copy", get_vec3(rec, 88), base + 88)?;
    Ok(translation)
}

fn read_forward_rotation(flags: ObjectMotionFlags, rec: &Vec<u32>, base: u32) -> (r: Result<
    Option<ForwardRotation>,
>)
    requires
        is_record(rec@, base),
    ensures
        r == forward_rotation_in(flags, rec@, base as int),
{
    let first = get_f32(rec, 112);
    let second = get_f32(rec, 116);
    let rotation = if flags.forward_rotation_time {
        assert_that("object motion fwd rot dist", !flags.forward_rotation_distance, base + 0)?;
        Some(ForwardRotation::Time(first, second))
    } else if flags.forward_rotation_distance {
        assert_zero("object motion fwd rot 2", second, base + 116)?;
        Some(ForwardRotation::Distance(first))
    } else {
        assert_zero("object motion fwd rot 1", first, base + 112)?;
        assert_zero("object motion fwd rot 2", second, base + 116)?;
        None
    };
    assert_zero("object motion field 120", get_f32(rec, 120), base + 120)?;
    Ok(rotation)
}

fn read_xyz_rotation(flags: ObjectMotionFlags, rec: &Vec<u32>, base: u32) -> (r: Result<
    Option<(Vec3, Vec3)>,
>)
    requires
        is_record(rec@, base),
    ensures
        r == xyz_rotation_in(flags, rec@, base as int),
{
    let first = get_vec3(rec, 124);
    let second = get_vec3(rec, 136);
    let rotation = if flags.xyz_rotation {
        Some((first, second))
    } else {
        assert_empty("object motion xyz rot", first, base + 124)?;
        assert_empty("object motion field 136", second, base + 136)?;
        None
    };
    assert_empty("object motion xyz rot copy", get_vec3(rec, 148), base + 148)?;
    Ok(rotation)
}

fn read_scale(flags: ObjectMotionFlags, rec: &Vec<u32>, base: u32) -> (r: Result<
    Option<(Vec3, Vec3)>,
>)
    requires
        is_record(rec@, base),
    ensures
        r == scale_in(flags, rec@, base as int),
{
    let first = get_vec3(rec, 160);
    let second = get_vec3(rec, 172);
    let scale = if flags.scale {
        Some((first, second))
    } else {
        assert_empty("object motion scale", first, base + 160)?;
        assert_empty("object motion field 172", second, base + 172)?;
        None
    };
    assert_empty("object motion scale copy", get_vec3(rec, 184), base + 184)?;
    Ok(scale)
}

fn read_sentinels(rec: &Vec<u32>, base: u32) -> (r: Result<()>)
    requires
        is_record(rec@, base),
    ensures
        r == sentinels_in(rec@, base as int),
{
    assert_equal("object motion bounce seq 0 sentinel", get_u16(rec, 228) as u32, MINUS_ONE as u32, base + 228)?;
    assert_equal("object motion bounce seq 1 sentinel", get_u16(rec, 268) as u32, MINUS_ONE as u32, base + 268)?;
    assert_equal("object motion bounce seq 2 sentinel", get_u16(rec, 308) as u32, MINUS_ONE as u32, base + 308)?;
    Ok(())
}

fn read_bounce_name(label: &'static str, rec: &Vec<u32>, at: usize, base: u32) -> (r: Result<
    Option<String>,
>)
    requires
        is_record(rec@, base),
        at % 4 == 0,
        at + 32 <= 320,
    ensures
        match r {
            Ok(name) => bounce_name_in(label, rec@, at as int, base as int) == Ok::<
                Option<Seq<char>>,
                Error,
            >(text_of(name)),
            Err(e) => bounce_name_in(label, rec@, at as int, base as int) == Err::<
                Option<Seq<char>>,
                Error,
            >(e),
        },
{
    let slot = get_slot(rec, at, NAME_SIZE);
    if slot[0] == 0 {
        Ok(None)
    } else {
        let name = assert_utf8(label, base + at as u32, slot.as_slice())?;
        Ok(Some(name))
    }
}

fn read_bounce_sequence(flags: ObjectMotionFlags, rec: &Vec<u32>, base: u32) -> (r: Result<
    Option<(Option<String>, Option<String>, Option<String>)>,
>)
    requires
        is_record(rec@, base),
    ensures
        match r {
            Ok(names) => bounce_sequence_in(flags, rec@, base as int) == Ok::<
                Option<BounceNames>,
                Error,
            >(names_of(names)),
            Err(e) => bounce_sequence_in(flags, rec@, base as int) == Err::<
                Option<BounceNames>,
                Error,
            >(e),
        },
{
    if flags.bounce_seq {
        let first = read_bounce_name("object motion bounce seq 0 name", rec, 196, base)?;
        if first.is_none() {
            return Err(
                Error::Assertion {
                    label: "object motion at least one bounce seq",
                    offset: base + 196,
 detail: Detail::Condition,
},
            );
        }
        let second = read_bounce_name("object motion bounce seq 1 name", rec, 236, base)?;
        let third = read_bounce_name("object motion bounce seq 2 name", rec, 276, base)?;
        Ok(Some((first, second, third)))
    } else {
        let first = get_slot(rec, 196, NAME_SIZE);
        assert_all_zero("object motion bounce seq 0", base + 196, first.as_slice())?;
        let second = get_slot(rec, 236, NAME_SIZE);
        assert_all_zero("object motion bounce seq 1", base + 236, second.as_slice())?;
        let third = get_slot(rec, 276, NAME_SIZE);
        assert_all_zero("object motion bounce seq 2", base + 276, third.as_slice())?;
        Ok(None)
    }
}

fn read_bounce_sound(
    flags: ObjectMotionFlags,
    rec: &Vec<u32>,
    anim_def: &AnimDef,
    base: u32,
) -> (r: Result<Option<BounceSound>>)
    requires
        is_record(rec@, base),
    ensures
        match r {
            Ok(sound) => bounce_sound_in(flags, rec@, anim_def@, base as int) == Ok::<
                Option<BounceSoundView>,
                Error,
            >(sound_of(sound)),
            Err(e) => bounce_sound_in(flags, rec@, anim_def@, base as int) == Err::<
                Option<BounceSoundView>,
                Error,
            >(e),
        },
{
    let index = get_u16(rec, 230);
    let volume = get_f32(rec, 232);
    let sound = if flags.bounce_sound {
        assert_that("object motion bounce snd 0 vol", volume.is_positive(), base + 232)?;
        let name = anim_def.sound_from_index(index as usize, base + 230)?;
        Some(BounceSound { name, volume })
    } else {
        assert_equal("object motion bounce snd 0 index", index as u32, 0, base + 230)?;
        assert_zero("object motion bounce snd 0 vol", volume, base + 232)?;
        None
    };
    // these are never used, whatever the flag says
    assert_equal("object motion bounce snd 1 index", get_u16(rec, 270) as u32, 0, base + 270)?;
    assert_zero("object motion bounce snd 1 vol", get_f32(rec, 272), base + 272)?;
    assert_equal("object motion bounce snd 2 index", get_u16(rec, 310) as u32, 0, base + 310)?;
    assert_zero("object motion bounce snd 2 vol", get_f32(rec, 312), base + 312)?;
    Ok(sound)
}

fn read_runtime(flags: ObjectMotionFlags, rec: &Vec<u32>, base: u32) -> (r: Result<Option<F32>>)
    requires
        is_record(rec@, base),
    ensures
        r == runtime_in(flags, rec@, base as int),
{
    let runtime = get_f32(rec, 316);
    if flags.runtime {
        assert_that("object motion runtime", runtime.is_positive(), base + 316)?;
        Ok(Some(runtime))
    } else {
        assert_zero("object motion runtime", runtime, base + 316)?;
        Ok(None)
    }
}

impl ObjectMotion {
    #[verifier::rlimit(40)]
    pub fn read(read: &mut CountingReader, anim_def: &AnimDef, size: u32) -> (r: Result<Self>)
        ensures
            crate::error::view_ok(r) == read_result(*old(read), anim_def@, size),
            after_record(*final(read), *old(read), SIZE, size),
    {
        let rec = read_record(read, "object motion size", SIZE, size)?;
        let base = read.prev;
        let flags = read_flags(&rec, base)?;
        let node = read_node(&rec, anim_def, base)?;
        let gravity = read_gravity(flags, &rec, base)?;
        let translation_range_min = read_range_min(flags, &rec, base)?;
        let translation_range_max = read_range_max(flags, &rec, base)?;
        let translation = read_translation(flags, &rec, base)?;
        let forward_rotation = read_forward_rotation(flags, &rec, base)?;
        let xyz_rotation = read_xyz_rotation(flags, &rec, base)?;
        let scale = read_scale(flags, &rec, base)?;
        read_sentinels(&rec, base)?;
        let bounce_sequence = read_bounce_sequence(flags, &rec, base)?;
        let bounce_sound = read_bounce_sound(flags, &rec, anim_def, base)?;
        let runtime = read_runtime(flags, &rec, base)?;
        Ok(
            Self {
                node,
                impact_force: flags.impact_force,
                gravity,
                translation_range_min,
                translation_range_max,
                translation,
                forward_rotation,
                xyz_rotation,
                scale,
                bounce_sequence,
                bounce_sound,
                runtime,
            },
        )
    }

    pub fn write(&self, write: &mut Vec<u8>, anim_def: &AnimDef) -> (r: Result<()>)
        ensures
            match encode(self@, anim_def@) {
                Ok(rec) => r is Ok && final(write)@ == old(write)@ + le_bytes(rec),
                Err(e) => r == Err::<(), Error>(e) && final(write)@ == old(write)@,
            },
            writable(self@, anim_def@) ==> r is Ok,
            r is Ok ==> final(write)@.len() == old(write)@.len() + SIZE,
    {
        proof {
            lemma_writable(self@, anim_def@);
            if encode(self@, anim_def@) is Ok {
                lemma_fixed_size(self@, anim_def@);
            }
        }
        let node = anim_def.node_to_index(&self.node)?;
        if node > u32::MAX as usize {
            return Err(Error::Assertion { label: "node index", offset: 0, detail: Detail::Condition });
        }
        let (slot0, slot1, slot2) = match &self.bounce_sequence {
            Some((first, second, third)) => {
                let slot0 = make_slot("object motion bounce seq 0 name", first)?;
                let slot1 = make_slot("object motion bounce seq 1 name", second)?;
                let slot2 = make_slot("object motion bounce seq 2 name", third)?;
                (slot0, slot1, slot2)
            },
            None => {
                let slot0 = make_slot("object motion bounce seq 0 name", &None)?;
                let slot1 = make_slot("object motion bounce seq 1 name", &None)?;
                let slot2 = make_slot("object motion bounce seq 2 name", &None)?;
                (slot0, slot1, slot2)
            },
        };
        let (sound, volume) = match &self.bounce_sound {
            Some(bounce_sound) => {
                let sound = anim_def.sound_to_index(&bounce_sound.name)?;
                if sound > u16::MAX as usize {
                    return Err(Error::Assertion { label: "sound index", offset: 0, detail: Detail::Condition });
                }
                (sound as u16, bounce_sound.volume)
            },
            None => (0, F32::zero()),
        };
        let rec = self.build(node as u32, &slot0, &slot1, &slot2, sound);
        write.write_struct(&rec);
        Ok(())
    }

    /// The words of the record, for a node, slots and a sound that have
    /// been found.
    fn build(&self, node: u32, slot0: &Vec<u8>, slot1: &Vec<u8>, slot2: &Vec<u8>, sound: u16) -> (r:
        Vec<u32>)
        requires
            slot0@.len() == 32,
            slot1@.len() == 32,
            slot2@.len() == 32,
        ensures
            r@ == layout(self@, node, slot0@, slot1@, slot2@, sound),
    {
        let flags = self.flags();
        let gravity = match self.gravity {
            Some(gravity) => gravity.value.bits,
            None => 0,
        };
        let range_min = get_or_zero4(self.translation_range_min);
        let range_max = get_or_zero4(self.translation_range_max);
        let translation = get_or_zero3x3(self.translation);
        let forward = get_forward(self.forward_rotation);
        let rotation = get_or_zero3x2(self.xyz_rotation);
        let scale = get_or_zero3x2(self.scale);
        let volume = match &self.bounce_sound {
            Some(s) => s.volume,
            None => F32::zero(),
        };
        let runtime = get_or_zero(self.runtime);
        assert(volume == volume_of(self@));
        assert(gravity == gravity_of(self@));
        reveal(layout);

        let mut rec = make_head(flags.bits(), node, gravity, range_min, range_max);  // 000
        put_translation(&mut rec, translation);  // 052
        put_forward(&mut rec, forward);  // 112
        put_pair(&mut rec, rotation);  // 124
        put_pair(&mut rec, scale);  // 160
        put_bounce(&mut rec, slot0, sound, volume);  // 196
        put_bounce(&mut rec, slot1, 0, F32::zero());  // 236
        put_bounce(&mut rec, slot2, 0, F32::zero());  // 276
        put_runtime(&mut rec, runtime);  // 316
        rec
    }

    /// The flags that the record of this value is written with.
    pub fn flags(&self) -> (r: ObjectMotionFlags)
        ensures
            r == flags_of(self@),
    {
        ObjectMotionFlags {
            gravity: self.gravity.is_some(),
            impact_force: self.impact_force,
            translation: self.translation.is_some(),
            translation_min: self.translation_range_min.is_some(),
            translation_max: self.translation_range_max.is_some(),
            xyz_rotation: self.xyz_rotation.is_some(),
            forward_rotation_distance: match self.forward_rotation {
                Some(ForwardRotation::Distance(_)) => true,
                _ => false,
            },
            forward_rotation_time: match self.forward_rotation {
                Some(ForwardRotation::Time(_, _)) => true,
                _ => false,
            },
            scale: self.scale.is_some(),
            runtime: self.runtime.is_some(),
            bounce_seq: self.bounce_sequence.is_some(),
            bounce_sound: self.bounce_sound.is_some(),
            gravity_complex: match self.gravity {
                Some(gravity) => match gravity.mode {
                    GravityMode::Complex => true,
                    _ => false,
                },
                None => false,
            },
            gravity_no_altitude: match self.gravity {
                Some(gravity) => match gravity.mode {
                    GravityMode::NoAltitude => true,
                    _ => false,
                },
                None => false,
            },
        }
    }
}

/// The slot of a name of a bounce sequence: zeros where there is none.
fn make_slot(label: &'static str, name: &Option<String>) -> (r: Result<Vec<u8>>)
    ensures
        crate::error::view_ok(r) == name_slot(label, text_of(*name)),
{
    match name {
        Some(text) => match str_to_c_padded(text.as_str(), NAME_SIZE) {
            Some(slot) => Ok(slot),
            None => Err(Error::Encoding { label, offset: 0 }),
        },
        None => {
            let mut slot: Vec<u8> = Vec::new();
            let mut i: usize = 0;
            while i < NAME_SIZE
                invariant
                    i <= NAME_SIZE,
                    slot@ == Seq::new(i as nat, |j: int| 0u8),
                decreases NAME_SIZE - i,
            {
                slot.push(0);
                i = i + 1;
                assert(slot@ =~= Seq::new(i as nat, |j: int| 0u8));
            }
            assert(slot@ =~= c_padded(Seq::empty(), 32));
            Ok(slot)
        },
    }
}

fn get_or_zero(x: Option<F32>) -> (r: F32)
    ensures
        r == or_zero(x),
{
    match x {
        Some(x) => x,
        None => F32::zero(),
    }
}

fn get_or_zero4(x: Option<Vec4>) -> (r: Vec4)
    ensures
        r == or_zero4(x),
{
    match x {
        Some(x) => x,
        None => Vec4::empty(),
    }
}

fn get_or_zero3x2(x: Option<(Vec3, Vec3)>) -> (r: (Vec3, Vec3))
    ensures
        r == or_zero3x2(x),
{
    match x {
        Some(x) => x,
        None => (Vec3::empty(), Vec3::empty()),
    }
}

fn get_or_zero3x3(x: Option<(Vec3, Vec3, Vec3)>) -> (r: (Vec3, Vec3, Vec3))
    ensures
        r == or_zero3x3(x),
{
    match x {
        Some(x) => x,
        None => (Vec3::empty(), Vec3::empty(), Vec3::empty()),
    }
}

fn get_forward(x: Option<ForwardRotation>) -> (r: (F32, F32))
    ensures
        r == forward_of(x),
{
    match x {
        Some(ForwardRotation::Time(first, second)) => (first, second),
        Some(ForwardRotation::Distance(first)) => (first, F32::zero()),
        None => (F32::zero(), F32::zero()),
    }
}

// The record that a value is written as.
/// The flags that say which groups a value has.
pub open spec fn flags_of(v: ObjectMotionView) -> ObjectMotionFlags {
    ObjectMotionFlags {
        gravity: v.gravity is Some,
        impact_force: v.impact_force,
        translation: v.translation is Some,
        translation_min: v.translation_range_min is Some,
        translation_max: v.translation_range_max is Some,
        xyz_rotation: v.xyz_rotation is Some,
        forward_rotation_distance: v.forward_rotation matches Some(ForwardRotation::Distance(_)),
        forward_rotation_time: v.forward_rotation matches Some(ForwardRotation::Time(_, _)),
        scale: v.scale is Some,
        runtime: v.runtime is Some,
        bounce_seq: v.bounce_sequence is Some,
        bounce_sound: v.bounce_sound is Some,
        gravity_complex: v.gravity matches Some(g) && g.mode is Complex,
        gravity_no_altitude: v.gravity matches Some(g) && g.mode is NoAltitude,
    }
}

/// The slot of a name: the name and zeros behind it, or zeros alone where
/// there is no name.  A name longer than the slot cannot be written.
pub open spec fn name_slot(label: &'static str, name: Option<Seq<char>>) -> Result<Seq<u8>> {
    match name {
        None => Ok(c_padded(Seq::empty(), 32)),
        Some(text) => if encode_utf8(text).len() <= 32 {
            Ok(c_padded(encode_utf8(text), 32))
        } else {
            Err(Error::Encoding { label, offset: 0 })
        },
    }
}

/// The number of a group that may be absent: zero where it is.
pub open spec fn or_zero(x: Option<F32>) -> F32 {
    match x {
        Some(x) => x,
        None => F32::zero(),
    }
}

/// The four numbers of a group that may be absent: zeros where it is.
pub open spec fn or_zero4(x: Option<Vec4>) -> Vec4 {
    match x {
        Some(x) => x,
        None => Vec4::empty(),
    }
}

/// The two triples of a group that may be absent: zeros where it is.
pub open spec fn or_zero3x2(x: Option<(Vec3, Vec3)>) -> (Vec3, Vec3) {
    match x {
        Some(x) => x,
        None => (Vec3::empty(), Vec3::empty()),
    }
}

/// The three triples of a group that may be absent: zeros where it is.
pub open spec fn or_zero3x3(x: Option<(Vec3, Vec3, Vec3)>) -> (Vec3, Vec3, Vec3) {
    match x {
        Some(x) => x,
        None => (Vec3::empty(), Vec3::empty(), Vec3::empty()),
    }
}

/// The two numbers of the forward rotation.
pub open spec fn forward_of(x: Option<ForwardRotation>) -> (F32, F32) {
    match x {
        Some(ForwardRotation::Time(first, second)) => (first, second),
        Some(ForwardRotation::Distance(first)) => (first, F32::zero()),
        None => (F32::zero(), F32::zero()),
    }
}

/// The fields in front of the translation: the flags, the node, the
/// gravity between two zeros, and the translation range.
pub open spec fn head_block(
    flags: u32,
    node: u32,
    gravity: u32,
    range_min: Vec4,
    range_max: Vec4,
) -> Seq<u32> {
    seq![
        flags,
        node,
        0,
        gravity,
        0,
        range_min.0.bits,
        range_max.0.bits,
        range_min.1.bits,
        range_max.1.bits,
        range_min.2.bits,
        range_max.2.bits,
        range_min.3.bits,
        range_max.3.bits,
    ]
}

/// The translation: delta, initial, two copies that are zero, third triple.
pub open spec fn translation_block(translation: (Vec3, Vec3, Vec3)) -> Seq<u32> {
    seq![
        translation.0.0.bits,
        translation.0.1.bits,
        translation.0.2.bits,
        translation.1.0.bits,
        translation.1.1.bits,
        translation.1.2.bits,
        0,
        0,
        0,
        0,
        0,
        0,
        translation.2.0.bits,
        translation.2.1.bits,
        translation.2.2.bits,
    ]
}

/// The forward rotation and the zero behind it.
pub open spec fn forward_block(forward: (F32, F32)) -> Seq<u32> {
    seq![forward.0.bits, forward.1.bits, 0]
}

/// Two triples and a copy that is zero: the rotation, the scale.
pub open spec fn pair_block(pair: (Vec3, Vec3)) -> Seq<u32> {
    seq![
        pair.0.0.bits,
        pair.0.1.bits,
        pair.0.2.bits,
        pair.1.0.bits,
        pair.1.1.bits,
        pair.1.2.bits,
        0,
        0,
        0,
    ]
}

/// The name of a bounce sequence, the field that is always -1, and a bounce
/// sound.
pub open spec fn bounce_block(slot: Seq<u8>, sound: u16, volume: F32) -> Seq<u32> {
    crate::io_ext::le_words(slot) + seq![halves(MINUS_ONE, sound), volume.bits]
}

/// The volume of the bounce sound of a value: zero where it has none.
pub open spec fn volume_of(v: ObjectMotionView) -> F32 {
    match v.bounce_sound {
        Some(s) => s.volume,
        None => F32::zero(),
    }
}

/// The bits of the gravity of a value: zero where it has none.
pub open spec fn gravity_of(v: ObjectMotionView) -> u32 {
    match v.gravity {
        Some(g) => g.value.bits,
        None => 0,
    }
}

/// The words of a record: its groups of fields in the order of their
/// offsets.
#[verifier::opaque]
pub open spec fn layout(
    v: ObjectMotionView,
    node: u32,
    slot0: Seq<u8>,
    slot1: Seq<u8>,
    slot2: Seq<u8>,
    sound: u16,
) -> Seq<u32> {
    head_block(
        flags_of(v).spec_bits(),
        node,
        gravity_of(v),
        or_zero4(v.translation_range_min),
        or_zero4(v.translation_range_max),
    ) + translation_block(or_zero3x3(v.translation)) + forward_block(
        forward_of(v.forward_rotation),
    ) + pair_block(or_zero3x2(v.xyz_rotation)) + pair_block(or_zero3x2(v.scale)) + bounce_block(
        slot0,
        sound,
        volume_of(v),
    ) + bounce_block(slot1, 0, F32::zero()) + bounce_block(slot2, 0, F32::zero())
        + seq![or_zero(v.runtime).bits]
}

fn make_head(flags: u32, node: u32, gravity: u32, range_min: Vec4, range_max: Vec4) -> (rec: Vec<
    u32,
>)
    ensures
        rec@ == head_block(flags, node, gravity, range_min, range_max),
{
    let mut rec: Vec<u32> = Vec::new();
    rec.push(flags);
    rec.push(node);
    rec.push(0);
    rec.push(gravity);
    rec.push(0);
    rec.push(range_min.0.bits);
    rec.push(range_max.0.bits);
    rec.push(range_min.1.bits);
    rec.push(range_max.1.bits);
    rec.push(range_min.2.bits);
    rec.push(range_max.2.bits);
    rec.push(range_min.3.bits);
    rec.push(range_max.3.bits);
    rec
}

fn put_translation(rec: &mut Vec<u32>, translation: (Vec3, Vec3, Vec3))
    ensures
        final(rec)@ == old(rec)@ + translation_block(translation),
{
    put_vec3(rec, translation.0);
    put_vec3(rec, translation.1);
    put_vec3(rec, Vec3::empty());
    put_vec3(rec, Vec3::empty());
    put_vec3(rec, translation.2);
    assert(rec@ =~= old(rec)@ + translation_block(translation));
}

fn put_forward(rec: &mut Vec<u32>, forward: (F32, F32))
    ensures
        final(rec)@ == old(rec)@ + forward_block(forward),
{
    rec.push(forward.0.bits);
    rec.push(forward.1.bits);
    rec.push(0);
    assert(rec@ =~= old(rec)@ + forward_block(forward));
}

fn put_pair(rec: &mut Vec<u32>, pair: (Vec3, Vec3))
    ensures
        final(rec)@ == old(rec)@ + pair_block(pair),
{
    put_vec3(rec, pair.0);
    put_vec3(rec, pair.1);
    put_vec3(rec, Vec3::empty());
    assert(rec@ =~= old(rec)@ + pair_block(pair));
}

fn put_bounce(rec: &mut Vec<u32>, slot: &Vec<u8>, sound: u16, volume: F32)
    requires
        slot@.len() == 32,
    ensures
        final(rec)@ == old(rec)@ + bounce_block(slot@, sound, volume),
{
    put_slot(rec, slot);
    put_halves(rec, MINUS_ONE, sound);
    rec.push(volume.bits);
    assert(rec@ =~= old(rec)@ + bounce_block(slot@, sound, volume));
}

fn put_runtime(rec: &mut Vec<u32>, runtime: F32)
    ensures
        final(rec)@ == old(rec)@ + seq![runtime.bits],
{
    rec.push(runtime.bits);
    assert(rec@ =~= old(rec)@ + seq![runtime.bits]);
}

/// The names of the bounce sequences of a value: none of the three where
/// the value has no bounce sequence.
pub open spec fn bounce_names(v: ObjectMotionView) -> BounceNames {
    match v.bounce_sequence {
        Some(names) => names,
        None => (None, None, None),
    }
}

/// The index of the bounce sound of a value: 0 where it has none.
pub open spec fn sound_index(v: ObjectMotionView, ctx: AnimDefView) -> core::result::Result<
    int,
    Error,
> {
    match v.bounce_sound {
        Some(s) => index_from_name(ctx.sounds, "sound name", s.name),
        None => Ok(0),
    }
}

/// The record that a value is written as.  It is written whenever the node
/// and the bounce sound are in their tables, at indices that fit their
/// fields, and no name of a bounce sequence is longer than its slot.
pub open spec fn encode(v: ObjectMotionView, ctx: AnimDefView) -> Result<Seq<u32>> {
    let node = index_from_name(ctx.nodes, "node name", v.node);
    let slot0 = name_slot("object motion bounce seq 0 name", bounce_names(v).0);
    let slot1 = name_slot("object motion bounce seq 1 name", bounce_names(v).1);
    let slot2 = name_slot("object motion bounce seq 2 name", bounce_names(v).2);
    let sound = sound_index(v, ctx);
    if node is Err {
        Err(node->Err_0)
    } else if node->Ok_0 > u32::MAX {
        Err(broken("node index", 0))
    } else if slot0 is Err {
        Err(slot0->Err_0)
    } else if slot1 is Err {
        Err(slot1->Err_0)
    } else if slot2 is Err {
        Err(slot2->Err_0)
    } else if sound is Err {
        Err(sound->Err_0)
    } else if sound->Ok_0 > u16::MAX {
        Err(broken("sound index", 0))
    } else {
        Ok(
            layout(
                v,
                node->Ok_0 as u32,
                slot0->Ok_0,
                slot1->Ok_0,
                slot2->Ok_0,
                sound->Ok_0 as u16,
            ),
        )
    }
}

// What holds of the two directions together.
/// A name that can be kept in a slot and found there again: it fits, and it
/// is not empty.
pub open spec fn is_kept(name: Option<Seq<char>>) -> bool {
    name matches Some(text) ==> fits_slot(text, 32) && encode_utf8(text).len() > 0
}

/// The values that a decoder can give: a bounce sequence has a first name,
/// and each of its names can be kept in a slot; the volume of a bounce sound
/// and a run time are above zero.
pub open spec fn legal(v: ObjectMotionView) -> bool {
    &&& v.bounce_sequence matches Some(names) ==> names.0 is Some && is_kept(names.0) && is_kept(
        names.1,
    ) && is_kept(names.2)
    &&& v.bounce_sound matches Some(s) ==> s.volume.spec_is_positive()
    &&& v.runtime matches Some(t) ==> t.spec_is_positive()
}

/// The groups of a record that was laid out, each where it belongs.
#[verifier::rlimit(40)]
pub proof fn lemma_layout(
    v: ObjectMotionView,
    node: u32,
    slot0: Seq<u8>,
    slot1: Seq<u8>,
    slot2: Seq<u8>,
    sound: u16,
)
    requires
        slot0.len() == 32,
        slot1.len() == 32,
        slot2.len() == 32,
    ensures
        ({
            let rec = layout(v, node, slot0, slot1, slot2, sound);
            &&& rec.len() == 80
            &&& rec.subrange(0, 13) == head_block(
                flags_of(v).spec_bits(),
                node,
                gravity_of(v),
                or_zero4(v.translation_range_min),
                or_zero4(v.translation_range_max),
            )
            &&& rec.subrange(13, 28) == translation_block(or_zero3x3(v.translation))
            &&& rec.subrange(28, 31) == forward_block(forward_of(v.forward_rotation))
            &&& rec.subrange(31, 40) == pair_block(or_zero3x2(v.xyz_rotation))
            &&& rec.subrange(40, 49) == pair_block(or_zero3x2(v.scale))
            &&& rec.subrange(49, 59) == bounce_block(slot0, sound, volume_of(v))
            &&& rec.subrange(59, 69) == bounce_block(slot1, 0, F32::zero())
            &&& rec.subrange(69, 79) == bounce_block(slot2, 0, F32::zero())
            &&& rec[79] == or_zero(v.runtime).bits
        }),
{
    reveal(layout);
    let rec = layout(v, node, slot0, slot1, slot2, sound);
    let b1 = head_block(
        flags_of(v).spec_bits(),
        node,
        gravity_of(v),
        or_zero4(v.translation_range_min),
        or_zero4(v.translation_range_max),
    );
    let b2 = translation_block(or_zero3x3(v.translation));
    let b3 = forward_block(forward_of(v.forward_rotation));
    let b4 = pair_block(or_zero3x2(v.xyz_rotation));
    let b5 = pair_block(or_zero3x2(v.scale));
    let b6 = bounce_block(slot0, sound, volume_of(v));
    let b7 = bounce_block(slot1, 0, F32::zero());
    let b8 = bounce_block(slot2, 0, F32::zero());
    assert(b1.len() == 13);
    assert(b2.len() == 15);
    assert(b3.len() == 3);
    assert(b4.len() == 9);
    assert(b5.len() == 9);
    assert(b6.len() == 10);
    assert(b7.len() == 10);
    assert(b8.len() == 10);
    let r2 = b1 + b2;
    let r3 = r2 + b3;
    let r4 = r3 + b4;
    let r5 = r4 + b5;
    let r6 = r5 + b6;
    let r7 = r6 + b7;
    let r8 = r7 + b8;
    assert(rec == r8 + seq![or_zero(v.runtime).bits]);
    assert(r8.len() == 79);
    assert(rec.subrange(0, 79) =~= r8);
    assert(r8.subrange(0, 69) =~= r7);
    assert(r8.subrange(69, 79) =~= b8);
    assert(r7.subrange(0, 59) =~= r6);
    assert(r7.subrange(59, 69) =~= b7);
    assert(r6.subrange(0, 49) =~= r5);
    assert(r6.subrange(49, 59) =~= b6);
    assert(r5.subrange(0, 40) =~= r4);
    assert(r5.subrange(40, 49) =~= b5);
    assert(r4.subrange(0, 31) =~= r3);
    assert(r4.subrange(31, 40) =~= b4);
    assert(r3.subrange(0, 28) =~= r2);
    assert(r3.subrange(28, 31) =~= b3);
    assert(r2.subrange(0, 13) =~= b1);
    assert(r2.subrange(13, 28) =~= b2);
    assert(rec.subrange(69, 79) =~= rec.subrange(0, 79).subrange(69, 79));
    assert(rec.subrange(59, 69) =~= rec.subrange(0, 79).subrange(0, 69).subrange(59, 69));
    assert(rec.subrange(0, 59) =~= rec.subrange(0, 79).subrange(0, 69).subrange(0, 59));
    assert(rec.subrange(49, 59) =~= rec.subrange(0, 59).subrange(49, 59));
    assert(rec.subrange(0, 49) =~= rec.subrange(0, 59).subrange(0, 49));
    assert(rec.subrange(40, 49) =~= rec.subrange(0, 49).subrange(40, 49));
    assert(rec.subrange(0, 40) =~= rec.subrange(0, 49).subrange(0, 40));
    assert(rec.subrange(31, 40) =~= rec.subrange(0, 40).subrange(31, 40));
    assert(rec.subrange(0, 31) =~= rec.subrange(0, 40).subrange(0, 31));
    assert(rec.subrange(28, 31) =~= rec.subrange(0, 31).subrange(28, 31));
    assert(rec.subrange(0, 28) =~= rec.subrange(0, 31).subrange(0, 28));
    assert(rec.subrange(13, 28) =~= rec.subrange(0, 28).subrange(13, 28));
    assert(rec.subrange(0, 13) =~= rec.subrange(0, 28).subrange(0, 13));
}

/// The fields of the group in front of the translation.
#[verifier::rlimit(40)]
proof fn lemma_head_fields(
    rec: Seq<u32>,
    flags: u32,
    node: u32,
    gravity: u32,
    range_min: Vec4,
    range_max: Vec4,
)
    requires
        rec.len() >= 13,
        rec.subrange(0, 13) == head_block(flags, node, gravity, range_min, range_max),
    ensures
        rec[0] == flags,
        rec[1] == node,
        rec[2] == 0,
        rec[3] == gravity,
        rec[4] == 0,
        Vec4(F32 { bits: rec[5] }, F32 { bits: rec[7] }, F32 { bits: rec[9] }, F32 { bits: rec[11] })
            == range_min,
        Vec4(
            F32 { bits: rec[6] },
            F32 { bits: rec[8] },
            F32 { bits: rec[10] },
            F32 { bits: rec[12] },
        ) == range_max,
{
    let b = rec.subrange(0, 13);
    assert(b[0] == rec[0]);
    assert(b[1] == rec[1]);
    assert(b[2] == rec[2]);
    assert(b[3] == rec[3]);
    assert(b[4] == rec[4]);
    assert(b[5] == rec[5]);
    assert(b[6] == rec[6]);
    assert(b[7] == rec[7]);
    assert(b[8] == rec[8]);
    assert(b[9] == rec[9]);
    assert(b[10] == rec[10]);
    assert(b[11] == rec[11]);
    assert(b[12] == rec[12]);
}

/// The three numbers at words `at`, `at + 1`, `at + 2`.
pub open spec fn triple_at(rec: Seq<u32>, at: int) -> Vec3 {
    Vec3(F32 { bits: rec[at] }, F32 { bits: rec[at + 1] }, F32 { bits: rec[at + 2] })
}

/// The fields of the translation.
#[verifier::rlimit(40)]
proof fn lemma_translation_fields(rec: Seq<u32>, translation: (Vec3, Vec3, Vec3))
    requires
        rec.len() >= 28,
        rec.subrange(13, 28) == translation_block(translation),
    ensures
        triple_at(rec, 13) == translation.0,
        triple_at(rec, 16) == translation.1,
        triple_at(rec, 19) == Vec3::empty(),
        triple_at(rec, 22) == Vec3::empty(),
        triple_at(rec, 25) == translation.2,
{
    let b = rec.subrange(13, 28);
    assert(b[0] == rec[13]);
    assert(b[1] == rec[14]);
    assert(b[2] == rec[15]);
    assert(b[3] == rec[16]);
    assert(b[4] == rec[17]);
    assert(b[5] == rec[18]);
    assert(b[6] == rec[19]);
    assert(b[7] == rec[20]);
    assert(b[8] == rec[21]);
    assert(b[9] == rec[22]);
    assert(b[10] == rec[23]);
    assert(b[11] == rec[24]);
    assert(b[12] == rec[25]);
    assert(b[13] == rec[26]);
    assert(b[14] == rec[27]);
}

/// The fields of a group of two triples and a copy.
proof fn lemma_pair_fields(rec: Seq<u32>, from: int, pair: (Vec3, Vec3))
    requires
        0 <= from,
        rec.len() >= from + 9,
        rec.subrange(from, from + 9) == pair_block(pair),
    ensures
        triple_at(rec, from) == pair.0,
        triple_at(rec, from + 3) == pair.1,
        triple_at(rec, from + 6) == Vec3::empty(),
{
    let b = rec.subrange(from, from + 9);
    assert(b[0] == rec[from]);
    assert(b[1] == rec[from + 1]);
    assert(b[2] == rec[from + 2]);
    assert(b[3] == rec[from + 3]);
    assert(b[4] == rec[from + 4]);
    assert(b[5] == rec[from + 5]);
    assert(b[6] == rec[from + 6]);
    assert(b[7] == rec[from + 7]);
    assert(b[8] == rec[from + 8]);
}

/// The fields of a bounce group.
#[verifier::rlimit(40)]
proof fn lemma_bounce_fields(rec: Seq<u32>, from: int, slot: Seq<u8>, sound: u16, volume: F32)
    requires
        0 <= from,
        rec.len() >= from + 10,
        slot.len() == 32,
        rec.subrange(from, from + 10) == bounce_block(slot, sound, volume),
    ensures
        le_bytes(rec.subrange(from, from + 8)) == slot,
        crate::record::low_half(rec[from + 8]) == MINUS_ONE,
        crate::record::high_half(rec[from + 8]) == sound,
        rec[from + 9] == volume.bits,
{
    let words = crate::io_ext::le_words(slot);
    let tail = seq![halves(MINUS_ONE, sound), volume.bits];
    let b = rec.subrange(from, from + 10);
    assert(words.len() == 8);
    assert(b[8] == tail[0]);
    assert(b[9] == tail[1]);
    assert(b[8] == rec[from + 8]);
    assert(b[9] == rec[from + 9]);
    assert forall|i: int| 0 <= i < 8 implies rec.subrange(from, from + 8)[i] == words[i] by {
        assert(b[i] == rec[from + i]);
        assert(b[i] == words[i]);
    }
    assert(rec.subrange(from, from + 8) =~= words);
    crate::io_ext::lemma_le_bytes_of_words(slot);
    crate::record::lemma_halves(MINUS_ONE, sound);
}

/// The fields of a record that was laid out, each at its offset.
#[verifier::rlimit(40)]
pub proof fn lemma_fields(
    v: ObjectMotionView,
    node: u32,
    slot0: Seq<u8>,
    slot1: Seq<u8>,
    slot2: Seq<u8>,
    sound: u16,
)
    requires
        slot0.len() == 32,
        slot1.len() == 32,
        slot2.len() == 32,
    ensures
        ({
            let rec = layout(v, node, slot0, slot1, slot2, sound);
            &&& rec.len() == 80
            &&& word_at(rec, 0) == flags_of(v).spec_bits()
            &&& word_at(rec, 4) == node
            &&& f32_at(rec, 8) == F32::zero()
            &&& f32_at(rec, 12).bits == gravity_of(v)
            &&& f32_at(rec, 16) == F32::zero()
            &&& Vec4(f32_at(rec, 20), f32_at(rec, 28), f32_at(rec, 36), f32_at(rec, 44))
                == or_zero4(v.translation_range_min)
            &&& Vec4(f32_at(rec, 24), f32_at(rec, 32), f32_at(rec, 40), f32_at(rec, 48))
                == or_zero4(v.translation_range_max)
            &&& (vec3_at(rec, 52), vec3_at(rec, 64), vec3_at(rec, 100)) == or_zero3x3(
                v.translation,
            )
            &&& vec3_at(rec, 76) == Vec3::empty()
            &&& vec3_at(rec, 88) == Vec3::empty()
            &&& (f32_at(rec, 112), f32_at(rec, 116)) == forward_of(v.forward_rotation)
            &&& f32_at(rec, 120) == F32::zero()
            &&& (vec3_at(rec, 124), vec3_at(rec, 136)) == or_zero3x2(v.xyz_rotation)
            &&& vec3_at(rec, 148) == Vec3::empty()
            &&& (vec3_at(rec, 160), vec3_at(rec, 172)) == or_zero3x2(v.scale)
            &&& vec3_at(rec, 184) == Vec3::empty()
            &&& slot_at(rec, 196, 32) == slot0
            &&& u16_at(rec, 228) == MINUS_ONE
            &&& u16_at(rec, 230) == sound
            &&& f32_at(rec, 232) == volume_of(v)
            &&& slot_at(rec, 236, 32) == slot1
            &&& u16_at(rec, 268) == MINUS_ONE
            &&& u16_at(rec, 270) == 0
            &&& f32_at(rec, 272) == F32::zero()
            &&& slot_at(rec, 276, 32) == slot2
            &&& u16_at(rec, 308) == MINUS_ONE
            &&& u16_at(rec, 310) == 0
            &&& f32_at(rec, 312) == F32::zero()
            &&& f32_at(rec, 316) == or_zero(v.runtime)
        }),
{
    let rec = layout(v, node, slot0, slot1, slot2, sound);
    lemma_layout(v, node, slot0, slot1, slot2, sound);
    lemma_head_fields(
        rec,
        flags_of(v).spec_bits(),
        node,
        gravity_of(v),
        or_zero4(v.translation_range_min),
        or_zero4(v.translation_range_max),
    );
    lemma_translation_fields(rec, or_zero3x3(v.translation));
    let forward = rec.subrange(28, 31);
    assert(forward[0] == rec[28]);
    assert(forward[1] == rec[29]);
    assert(forward[2] == rec[30]);
    lemma_pair_fields(rec, 31, or_zero3x2(v.xyz_rotation));
    lemma_pair_fields(rec, 40, or_zero3x2(v.scale));
    lemma_bounce_fields(rec, 49, slot0, sound, volume_of(v));
    lemma_bounce_fields(rec, 59, slot1, 0, F32::zero());
    lemma_bounce_fields(rec, 69, slot2, 0, F32::zero());
    assert(vec3_at(rec, 52) == triple_at(rec, 13));
    assert(vec3_at(rec, 64) == triple_at(rec, 16));
    assert(vec3_at(rec, 76) == triple_at(rec, 19));
    assert(vec3_at(rec, 88) == triple_at(rec, 22));
    assert(vec3_at(rec, 100) == triple_at(rec, 25));
    assert(vec3_at(rec, 124) == triple_at(rec, 31));
    assert(vec3_at(rec, 136) == triple_at(rec, 34));
    assert(vec3_at(rec, 148) == triple_at(rec, 37));
    assert(vec3_at(rec, 160) == triple_at(rec, 40));
    assert(vec3_at(rec, 172) == triple_at(rec, 43));
    assert(vec3_at(rec, 184) == triple_at(rec, 46));
}

/// The fields of a record hold what a value is written as: every field
/// but the flags, the node, the names and the index of the sound.
pub open spec fn holds(rec: Seq<u32>, v: ObjectMotionView) -> bool {
    &&& f32_at(rec, 8) == F32::zero()
    &&& f32_at(rec, 12).bits == gravity_of(v)
    &&& f32_at(rec, 16) == F32::zero()
    &&& Vec4(f32_at(rec, 20), f32_at(rec, 28), f32_at(rec, 36), f32_at(rec, 44)) == or_zero4(
        v.translation_range_min,
    )
    &&& Vec4(f32_at(rec, 24), f32_at(rec, 32), f32_at(rec, 40), f32_at(rec, 48)) == or_zero4(
        v.translation_range_max,
    )
    &&& (vec3_at(rec, 52), vec3_at(rec, 64), vec3_at(rec, 100)) == or_zero3x3(v.translation)
    &&& vec3_at(rec, 76) == Vec3::empty()
    &&& vec3_at(rec, 88) == Vec3::empty()
    &&& (f32_at(rec, 112), f32_at(rec, 116)) == forward_of(v.forward_rotation)
    &&& f32_at(rec, 120) == F32::zero()
    &&& (vec3_at(rec, 124), vec3_at(rec, 136)) == or_zero3x2(v.xyz_rotation)
    &&& vec3_at(rec, 148) == Vec3::empty()
    &&& (vec3_at(rec, 160), vec3_at(rec, 172)) == or_zero3x2(v.scale)
    &&& vec3_at(rec, 184) == Vec3::empty()
    &&& u16_at(rec, 228) == MINUS_ONE
    &&& f32_at(rec, 232) == volume_of(v)
    &&& u16_at(rec, 268) == MINUS_ONE
    &&& u16_at(rec, 270) == 0
    &&& f32_at(rec, 272) == F32::zero()
    &&& u16_at(rec, 308) == MINUS_ONE
    &&& u16_at(rec, 310) == 0
    &&& f32_at(rec, 312) == F32::zero()
    &&& f32_at(rec, 316) == or_zero(v.runtime)
}

/// The groups of numbers are read back from the fields that hold them.
proof fn lemma_numbers_back(v: ObjectMotionView, rec: Seq<u32>, base: int)
    requires
        legal(v),
        holds(rec, v),
    ensures
        gravity_in(flags_of(v), rec, base) == Ok::<Option<Gravity>, Error>(v.gravity),
        range_min_in(flags_of(v), rec, base) == Ok::<Option<Vec4>, Error>(v.translation_range_min),
        range_max_in(flags_of(v), rec, base) == Ok::<Option<Vec4>, Error>(v.translation_range_max),
        translation_in(flags_of(v), rec, base) == Ok::<Option<(Vec3, Vec3, Vec3)>, Error>(
            v.translation,
        ),
        forward_rotation_in(flags_of(v), rec, base) == Ok::<Option<ForwardRotation>, Error>(
            v.forward_rotation,
        ),
        xyz_rotation_in(flags_of(v), rec, base) == Ok::<Option<(Vec3, Vec3)>, Error>(
            v.xyz_rotation,
        ),
        scale_in(flags_of(v), rec, base) == Ok::<Option<(Vec3, Vec3)>, Error>(v.scale),
        sentinels_in(rec, base) == Ok::<(), Error>(()),
        runtime_in(flags_of(v), rec, base) == Ok::<Option<F32>, Error>(v.runtime),
{
}

/// The bounce sound is read back from the fields that hold it.
proof fn lemma_sound_back(v: ObjectMotionView, ctx: AnimDefView, rec: Seq<u32>, base: int)
    requires
        legal(v),
        holds(rec, v),
        sound_index(v, ctx) is Ok,
        u16_at(rec, 230) == sound_index(v, ctx)->Ok_0,
    ensures
        bounce_sound_in(flags_of(v), rec, ctx, base) == Ok::<Option<BounceSoundView>, Error>(
            v.bounce_sound,
        ),
{
    if let Some(s) = v.bounce_sound {
        crate::anim_def::lemma_index_identity(
            ctx.sounds,
            s.name,
            0,
            "sound name",
            "sound index",
            base + 230,
        );
    }
}

/// The names of the bounce sequences are read back from the slots that hold
/// them.
proof fn lemma_names_back(v: ObjectMotionView, rec: Seq<u32>, base: int)
    requires
        legal(v),
        name_slot("object motion bounce seq 0 name", bounce_names(v).0) is Ok,
        name_slot("object motion bounce seq 1 name", bounce_names(v).1) is Ok,
        name_slot("object motion bounce seq 2 name", bounce_names(v).2) is Ok,
        slot_at(rec, 196, 32) == name_slot("object motion bounce seq 0 name", bounce_names(v).0)->Ok_0,
        slot_at(rec, 236, 32) == name_slot("object motion bounce seq 1 name", bounce_names(v).1)->Ok_0,
        slot_at(rec, 276, 32) == name_slot("object motion bounce seq 2 name", bounce_names(v).2)->Ok_0,
    ensures
        bounce_sequence_in(flags_of(v), rec, base) == Ok::<Option<BounceNames>, Error>(
            v.bounce_sequence,
        ),
{
    let names = bounce_names(v);
    lemma_name_kept("object motion bounce seq 0 name", names.0, rec, 196, base);
    lemma_name_kept("object motion bounce seq 1 name", names.1, rec, 236, base);
    lemma_name_kept("object motion bounce seq 2 name", names.2, rec, 276, base);
}

/// The flags and the node are read back from the fields that hold them.
proof fn lemma_head_back(v: ObjectMotionView, ctx: AnimDefView, rec: Seq<u32>, base: int)
    requires
        holds(rec, v),
        word_at(rec, 0) == flags_of(v).spec_bits(),
        index_from_name(ctx.nodes, "node name", v.node) is Ok,
        word_at(rec, 4) == index_from_name(ctx.nodes, "node name", v.node)->Ok_0,
    ensures
        flags_in(rec, base) == Ok::<ObjectMotionFlags, Error>(flags_of(v)),
        node_in(rec, ctx, base) == Ok::<Seq<char>, Error>(v.node),
{
    lemma_flags(flags_of(v));
    crate::anim_def::lemma_index_identity(
        ctx.nodes,
        v.node,
        0,
        "node name",
        "node index",
        base + 4,
    );
}

/// What is enough for a value to be written: its node is in the table of
/// nodes and its bounce sound in the table of sounds, every index fits its
/// field, and no name of a bounce sequence is longer than its slot.
pub open spec fn writable(v: ObjectMotionView, ctx: AnimDefView) -> bool {
    &&& ctx.nodes.contains(v.node)
    &&& ctx.nodes.len() <= 0x1_0000_0000
    &&& bounce_names(v).0 matches Some(name) ==> encode_utf8(name).len() <= 32
    &&& bounce_names(v).1 matches Some(name) ==> encode_utf8(name).len() <= 32
    &&& bounce_names(v).2 matches Some(name) ==> encode_utf8(name).len() <= 32
    &&& v.bounce_sound matches Some(sound) ==> ctx.sounds.contains(sound.name) && ctx.sounds.len()
        <= 0x1_0000
}

/// Whatever is writable is written.
pub proof fn lemma_writable(v: ObjectMotionView, ctx: AnimDefView)
    ensures
        writable(v, ctx) ==> encode(v, ctx) is Ok,
{
    ctx.nodes.index_of_first_ensures(v.node);
    if let Some(sound) = v.bounce_sound {
        ctx.sounds.index_of_first_ensures(sound.name);
    }
}

/// Whatever is written has the fixed size.
pub proof fn lemma_fixed_size(v: ObjectMotionView, ctx: AnimDefView)
    requires
        encode(v, ctx) is Ok,
    ensures
        le_bytes(encode(v, ctx)->Ok_0).len() == SIZE,
{
    let names = bounce_names(v);
    let slot0 = name_slot("object motion bounce seq 0 name", names.0)->Ok_0;
    let slot1 = name_slot("object motion bounce seq 1 name", names.1)->Ok_0;
    let slot2 = name_slot("object motion bounce seq 2 name", names.2)->Ok_0;
    let node = index_from_name(ctx.nodes, "node name", v.node)->Ok_0;
    let sound = sound_index(v, ctx)->Ok_0;
    lemma_fields(v, node as u32, slot0, slot1, slot2, sound as u16);
}

/// A record that was written for a legal value has the fixed size and is
/// decoded to that value, wherever it begins.
#[verifier::rlimit(40)]
pub proof fn lemma_round_trip(v: ObjectMotionView, ctx: AnimDefView, base: int)
    requires
        legal(v),
        encode(v, ctx) is Ok,
    ensures
        le_bytes(encode(v, ctx)->Ok_0).len() == SIZE,
        decode(encode(v, ctx)->Ok_0, ctx, base) == Ok::<ObjectMotionView, Error>(v),
{
    let rec = encode(v, ctx)->Ok_0;
    let names = bounce_names(v);
    let slot0 = name_slot("object motion bounce seq 0 name", names.0)->Ok_0;
    let slot1 = name_slot("object motion bounce seq 1 name", names.1)->Ok_0;
    let slot2 = name_slot("object motion bounce seq 2 name", names.2)->Ok_0;
    let node = index_from_name(ctx.nodes, "node name", v.node)->Ok_0;
    let sound = sound_index(v, ctx)->Ok_0;
    crate::anim_def::lemma_index_identity(ctx.nodes, v.node, 0, "node name", "node index", 0);
    if let Some(s) = v.bounce_sound {
        crate::anim_def::lemma_index_identity(ctx.sounds, s.name, 0, "sound name", "sound index", 0);
    }
    assert(holds(rec, v) && rec.len() == 80 && word_at(rec, 0) == flags_of(v).spec_bits()
        && word_at(rec, 4) == node && u16_at(rec, 230) == sound && slot_at(rec, 196, 32) == slot0
        && slot_at(rec, 236, 32) == slot1 && slot_at(rec, 276, 32) == slot2) by {
        lemma_fields(v, node as u32, slot0, slot1, slot2, sound as u16);
    }
    lemma_head_back(v, ctx, rec, base);
    lemma_numbers_back(v, rec, base);
    lemma_names_back(v, rec, base);
    lemma_sound_back(v, ctx, rec, base);
}

/// A name that can be kept is read back from the slot it was written to, and
/// no name is read from a slot of zeros.
proof fn lemma_name_kept(
    label: &'static str,
    name: Option<Seq<char>>,
    rec: Seq<u32>,
    at: int,
    base: int,
)
    requires
        is_kept(name),
        name_slot(label, name) is Ok,
        slot_at(rec, at, 32) == name_slot(label, name)->Ok_0,
    ensures
        bounce_name_in(label, rec, at, base) == Ok::<Option<Seq<char>>, Error>(name),
        name is None ==> all_zero(slot_at(rec, at, 32)),
{
    match name {
        Some(text) => {
            crate::string::lemma_slot_round_trip(text, 32);
            let bytes = encode_utf8(text);
            assert(c_padded(bytes, 32)[0] == bytes[0]);
        },
        None => {
            assert(c_padded(Seq::empty(), 32)[0] == 0);
        },
    }
}

/// Whatever is decoded is legal.
pub proof fn lemma_decoded_is_legal(rec: Seq<u32>, ctx: AnimDefView, base: int)
    requires
        rec.len() == 80,
    ensures
        decode(rec, ctx, base) matches Ok(v) ==> legal(v),
{
    if let Ok(v) = decode(rec, ctx, base) {
        if v.bounce_sequence is Some {
            lemma_name_is_kept("object motion bounce seq 0 name", rec, 196, base);
            lemma_name_is_kept("object motion bounce seq 1 name", rec, 236, base);
            lemma_name_is_kept("object motion bounce seq 2 name", rec, 276, base);
        }
    }
}

/// A name that is read from a slot can be kept in a slot.
proof fn lemma_name_is_kept(label: &'static str, rec: Seq<u32>, at: int, base: int)
    requires
        0 <= at,
        at % 4 == 0,
        at + 32 <= 4 * rec.len(),
    ensures
        bounce_name_in(label, rec, at, base) matches Ok(name) ==> is_kept(name),
{
    let slot = slot_at(rec, at, 32);
    assert(slot.len() == 32);
    if slot[0] != 0 && crate::assertion::check_utf8(label, base + at, slot) is Ok {
        crate::string::lemma_text_fits(slot);
    }
}

/// Where a group is absent from a value, its record has the flag clear and
/// the sentinel in every field of the group.
pub proof fn lemma_absent_is_sentinel(v: ObjectMotionView, ctx: AnimDefView)
    requires
        encode(v, ctx) is Ok,
    ensures
        ({
            let rec = encode(v, ctx)->Ok_0;
            let flags = ObjectMotionFlags::spec_from_bits(word_at(rec, 0));
            &&& flags == Some(flags_of(v))
            &&& v.gravity is None ==> !flags_of(v).gravity && !flags_of(v).gravity_complex
                && !flags_of(v).gravity_no_altitude && f32_at(rec, 12) == F32::zero()
            &&& v.translation_range_min is None ==> !flags_of(v).translation_min && Vec4(
                f32_at(rec, 20),
                f32_at(rec, 28),
                f32_at(rec, 36),
                f32_at(rec, 44),
            ) == Vec4::empty()
            &&& v.translation_range_max is None ==> !flags_of(v).translation_max && Vec4(
                f32_at(rec, 24),
                f32_at(rec, 32),
                f32_at(rec, 40),
                f32_at(rec, 48),
            ) == Vec4::empty()
            &&& v.translation is None ==> !flags_of(v).translation && vec3_at(rec, 52)
                == Vec3::empty() && vec3_at(rec, 64) == Vec3::empty() && vec3_at(rec, 100)
                == Vec3::empty()
            &&& v.forward_rotation is None ==> !flags_of(v).forward_rotation_time && !flags_of(
                v,
            ).forward_rotation_distance && f32_at(rec, 112) == F32::zero() && f32_at(rec, 116)
                == F32::zero()
            &&& v.xyz_rotation is None ==> !flags_of(v).xyz_rotation && vec3_at(rec, 124)
                == Vec3::empty() && vec3_at(rec, 136) == Vec3::empty()
            &&& v.scale is None ==> !flags_of(v).scale && vec3_at(rec, 160) == Vec3::empty()
                && vec3_at(rec, 172) == Vec3::empty()
            &&& v.bounce_sequence is None ==> !flags_of(v).bounce_seq && all_zero(
                slot_at(rec, 196, 32),
            ) && all_zero(slot_at(rec, 236, 32)) && all_zero(slot_at(rec, 276, 32))
            &&& v.bounce_sound is None ==> !flags_of(v).bounce_sound && u16_at(rec, 230) == 0
                && f32_at(rec, 232) == F32::zero()
            &&& v.runtime is None ==> !flags_of(v).runtime && f32_at(rec, 316) == F32::zero()
            &&& u16_at(rec, 228) == MINUS_ONE && u16_at(rec, 268) == MINUS_ONE && u16_at(rec, 308)
                == MINUS_ONE
        }),
{
    let names = bounce_names(v);
    let slot0 = name_slot("object motion bounce seq 0 name", names.0)->Ok_0;
    let slot1 = name_slot("object motion bounce seq 1 name", names.1)->Ok_0;
    let slot2 = name_slot("object motion bounce seq 2 name", names.2)->Ok_0;
    let node = index_from_name(ctx.nodes, "node name", v.node)->Ok_0;
    let sound = sound_index(v, ctx)->Ok_0;
    lemma_fields(v, node as u32, slot0, slot1, slot2, sound as u16);
    lemma_flags(flags_of(v));
}

/// Where a record is decoded, every group whose flag is clear holds its
/// sentinel: a record with a flag clear and anything else in the fields of
/// its group is refused.
pub proof fn lemma_sentinel_or_refused(rec: Seq<u32>, ctx: AnimDefView, base: int)
    requires
        decode(rec, ctx, base) is Ok,
    ensures
        ({
            let flags = ObjectMotionFlags::spec_pick(word_at(rec, 0));
            &&& !flags.gravity ==> !flags.gravity_complex && !flags.gravity_no_altitude && f32_at(
                rec,
                12,
            ).spec_is_zero()
            &&& !flags.translation_min ==> f32_at(rec, 20).spec_is_zero() && f32_at(
                rec,
                28,
            ).spec_is_zero() && f32_at(rec, 36).spec_is_zero() && f32_at(rec, 44).spec_is_zero()
            &&& !flags.translation_max ==> f32_at(rec, 24).spec_is_zero() && f32_at(
                rec,
                32,
            ).spec_is_zero() && f32_at(rec, 40).spec_is_zero() && f32_at(rec, 48).spec_is_zero()
            &&& !flags.translation ==> vec3_at(rec, 52).spec_is_empty() && vec3_at(
                rec,
                64,
            ).spec_is_empty() && vec3_at(rec, 100).spec_is_empty()
            &&& !flags.forward_rotation_time && !flags.forward_rotation_distance ==> f32_at(
                rec,
                112,
            ).spec_is_zero() && f32_at(rec, 116).spec_is_zero()
            &&& !flags.xyz_rotation ==> vec3_at(rec, 124).spec_is_empty() && vec3_at(
                rec,
                136,
            ).spec_is_empty()
            &&& !flags.scale ==> vec3_at(rec, 160).spec_is_empty() && vec3_at(
                rec,
                172,
            ).spec_is_empty()
            &&& !flags.bounce_seq ==> all_zero(slot_at(rec, 196, 32)) && all_zero(
                slot_at(rec, 236, 32),
            ) && all_zero(slot_at(rec, 276, 32))
            &&& !flags.bounce_sound ==> u16_at(rec, 230) == 0 && f32_at(rec, 232).spec_is_zero()
            &&& !flags.runtime ==> f32_at(rec, 316).spec_is_zero()
            &&& u16_at(rec, 228) == MINUS_ONE && u16_at(rec, 268) == MINUS_ONE && u16_at(rec, 308)
                == MINUS_ONE
        }),
{
}

/// A record whose flags have every bit set is refused for its flags, at the
/// offset of the flags.
pub proof fn lemma_all_ones_refused(rec: Seq<u32>, ctx: AnimDefView, base: int)
    requires
        word_at(rec, 0) == 0xFFFF_FFFF,
    ensures
        decode(rec, ctx, base) == Err::<ObjectMotionView, Error>(
            Error::UnknownDiscriminant {
                label: "object motion flags",
                value: 0xFFFF_FFFF,
                offset: base as u32,
            },
        ),
{
    lemma_all_ones_are_no_flags();
}

} // verus!
