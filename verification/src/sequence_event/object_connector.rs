//! The object-connector event: 76 bytes and a word of 9 flags.
//!
//! | offset | field |
//! |---|---|
//! | 0 | flags |
//! | 4, 6, 8 | indices of the node and of its two end points, 16 bits each |
//! | 10 | always zero, 16 bits |
//! | 12, 24 | positions of the two end points |
//! | 36 .. 52, 60 .. 72 | always zero |
//! | 52, 56 | always one |
//! | 72 | greatest length |
//!
//! Each end point is a node of the table, the node the event is applied to,
//! or a position that comes with the event: exactly one of the three.  The
//! index of an end point that is no node of the table is zero.

use crate::anim_def::{index_from_name, name_from_index, AnimDef, AnimDefView};
use crate::assertion::{
    assert_empty,
    assert_equal,
    assert_that,
    assert_zero,
    broken,
    differs,
    not_empty,
    not_zero,
};
use crate::error::{Detail, Error, Result};
use crate::flags::{bit_if, has_bit, make_bit, test_bit};
use crate::io_ext::{le_bytes, CountingReader, WriteHelper};
use crate::record::{
    f32_at,
    get_f32,
    get_u16,
    get_u32,
    get_vec3,
    halves,
    put_halves,
    put_vec3,
    u16_at,
    vec3_at,
    word_at,
};
use crate::sequence_event::{after_record, read_record, record_of, INPUT_NODE};
use crate::types::{Vec3, F32, ONE_BITS};
use vstd::prelude::*;
use vstd::string::StringExecFns;

verus! {

/// The tag of this kind of event.
pub const INDEX: u8 = 18;

/// The fixed size of the record, in bytes.
pub const SIZE: u32 = 76;

pub const FROM_NODE: u32 = 1;

pub const FROM_INPUT_NODE: u32 = 2;

pub const FROM_POS: u32 = 8;

pub const FROM_INPUT_POS: u32 = 16;

pub const TO_NODE: u32 = 32;

pub const TO_INPUT_NODE: u32 = 64;

pub const TO_POS: u32 = 256;

pub const TO_INPUT_POS: u32 = 512;

pub const MAX_LENGTH: u32 = 32768;

/// The flags of an object connector, each by its name.
#[derive(Clone, Copy, Debug, PartialEq, Eq, Structural)]
pub struct ObjectConnectorFlags {
    pub from_node: bool,
    pub from_input_node: bool,
    pub from_pos: bool,
    pub from_input_pos: bool,
    pub to_node: bool,
    pub to_input_node: bool,
    pub to_pos: bool,
    pub to_input_pos: bool,
    pub max_length: bool,
}

impl ObjectConnectorFlags {
    /// The flags that are set in `word`, whatever else is set in it.
    pub open spec fn spec_pick(word: u32) -> ObjectConnectorFlags {
        ObjectConnectorFlags {
            from_node: has_bit(word, FROM_NODE),
            from_input_node: has_bit(word, FROM_INPUT_NODE),
            from_pos: has_bit(word, FROM_POS),
            from_input_pos: has_bit(word, FROM_INPUT_POS),
            to_node: has_bit(word, TO_NODE),
            to_input_node: has_bit(word, TO_INPUT_NODE),
            to_pos: has_bit(word, TO_POS),
            to_input_pos: has_bit(word, TO_INPUT_POS),
            max_length: has_bit(word, MAX_LENGTH),
        }
    }

    /// The word in which exactly these flags are set.
    pub open spec fn spec_bits(self) -> u32 {
        bit_if(self.from_node, FROM_NODE) | bit_if(self.from_input_node, FROM_INPUT_NODE) | bit_if(
            self.from_pos,
            FROM_POS,
        ) | bit_if(self.from_input_pos, FROM_INPUT_POS) | bit_if(self.to_node, TO_NODE) | bit_if(
            self.to_input_node,
            TO_INPUT_NODE,
        ) | bit_if(self.to_pos, TO_POS) | bit_if(self.to_input_pos, TO_INPUT_POS) | bit_if(
            self.max_length,
            MAX_LENGTH,
        )
    }

    /// The flags of a word in which no other bit is set.
    pub open spec fn spec_from_bits(word: u32) -> Option<ObjectConnectorFlags> {
        if Self::spec_pick(word).spec_bits() == word {
            Some(Self::spec_pick(word))
        } else {
            None
        }
    }

    #[verifier::when_used_as_spec(spec_bits)]
    pub fn bits(self) -> (r: u32)
        ensures
            r == self.spec_bits(),
    {
        make_bit(self.from_node, FROM_NODE) | make_bit(self.from_input_node, FROM_INPUT_NODE)
            | make_bit(self.from_pos, FROM_POS) | make_bit(self.from_input_pos, FROM_INPUT_POS)
            | make_bit(self.to_node, TO_NODE) | make_bit(self.to_input_node, TO_INPUT_NODE)
            | make_bit(self.to_pos, TO_POS) | make_bit(self.to_input_pos, TO_INPUT_POS) | make_bit(
            self.max_length,
            MAX_LENGTH,
        )
    }

    #[verifier::when_used_as_spec(spec_from_bits)]
    pub fn from_bits(word: u32) -> (r: Option<ObjectConnectorFlags>)
        ensures
            r == Self::spec_from_bits(word),
    {
        let flags = ObjectConnectorFlags {
            from_node: test_bit(word, FROM_NODE),
            from_input_node: test_bit(word, FROM_INPUT_NODE),
            from_pos: test_bit(word, FROM_POS),
            from_input_pos: test_bit(word, FROM_INPUT_POS),
            to_node: test_bit(word, TO_NODE),
            to_input_node: test_bit(word, TO_INPUT_NODE),
            to_pos: test_bit(word, TO_POS),
            to_input_pos: test_bit(word, TO_INPUT_POS),
            max_length: test_bit(word, MAX_LENGTH),
        };
        if flags.bits() == word {
            Some(flags)
        } else {
            None
        }
    }
}

/// In a word made of the nine bits, each taken or not, a bit is set exactly
/// where it was taken, and no other bit is set.
proof fn lemma_bits_apart(
    a: bool,
    b: bool,
    c: bool,
    d: bool,
    e: bool,
    f: bool,
    g: bool,
    h: bool,
    i: bool,
)
    by (bit_vector)
    ensures
        ({
            let w: u32 = (if a { 1u32 } else { 0u32 }) | (if b { 2u32 } else { 0u32 }) | (if c { 8u32 } else { 0u32 }) | (if d { 16u32 } else { 0u32 }) | (if e { 32u32 } else { 0u32 }) | (if f { 64u32 } else { 0u32 }) | (if g { 256u32 } else { 0u32 }) | (if h { 512u32 } else { 0u32 }) | (if i { 32768u32 } else { 0u32 });
            &&& (w & 1u32 != 0) == a
            &&& (w & 2u32 != 0) == b
            &&& (w & 8u32 != 0) == c
            &&& (w & 16u32 != 0) == d
            &&& (w & 32u32 != 0) == e
            &&& (w & 64u32 != 0) == f
            &&& (w & 256u32 != 0) == g
            &&& (w & 512u32 != 0) == h
            &&& (w & 32768u32 != 0) == i
            &&& w <= 33659u32
        }),
{
}

/// A set of flags is read back from the word it is written as, and no bit
/// but the nine is set in that word.
pub proof fn lemma_flags(flags: ObjectConnectorFlags)
    ensures
        ObjectConnectorFlags::spec_from_bits(flags.spec_bits()) == Some(flags),
        flags.spec_bits() <= 33659,
{
    reveal(has_bit);
    reveal(bit_if);
    lemma_bits_apart(
        flags.from_node,
        flags.from_input_node,
        flags.from_pos,
        flags.from_input_pos,
        flags.to_node,
        flags.to_input_node,
        flags.to_pos,
        flags.to_input_pos,
        flags.max_length,
    );
    assert(ObjectConnectorFlags::spec_pick(flags.spec_bits()) == flags);
}

/// A word with every bit set is the word of no set of flags.
pub proof fn lemma_all_ones_are_no_flags()
    ensures
        ObjectConnectorFlags::spec_from_bits(0xFFFF_FFFF) is None,
{
    lemma_flags(ObjectConnectorFlags::spec_pick(0xFFFF_FFFF));
}

#[derive(Clone, Debug, PartialEq, Eq)]
pub struct ObjectConnector {
    pub node: String,
    pub from_node: Option<String>,
    pub to_node: Option<String>,
    pub from_pos: Option<Vec3>,
    pub to_pos: Option<Vec3>,
    pub max_length: Option<F32>,
}

pub struct ObjectConnectorView {
    pub node: Seq<char>,
    pub from_node: Option<Seq<char>>,
    pub to_node: Option<Seq<char>>,
    pub from_pos: Option<Vec3>,
    pub to_pos: Option<Vec3>,
    pub max_length: Option<F32>,
}

/// The text of a name that may be absent.
pub open spec fn text_of(name: Option<String>) -> Option<Seq<char>> {
    match name {
        Some(s) => Some(s@),
        None => None,
    }
}

impl View for ObjectConnector {
    type V = ObjectConnectorView;

    open spec fn view(&self) -> ObjectConnectorView {
        ObjectConnectorView {
            node: self.node@,
            from_node: text_of(self.from_node),
            to_node: text_of(self.to_node),
            from_pos: self.from_pos,
            to_pos: self.to_pos,
            max_length: self.max_length,
        }
    }
}

// What a record means, group by group.  `base` is the byte offset at which
// the record begins.
/// The flags: a word with a bit that has no name is refused.
pub open spec fn flags_in(rec: Seq<u32>, base: int) -> Result<ObjectConnectorFlags> {
    match ObjectConnectorFlags::spec_from_bits(word_at(rec, 0)) {
        Some(flags) => Ok(flags),
        None => Err(
            Error::UnknownDiscriminant {
                label: "object connector flags",
                value: word_at(rec, 0),
                offset: base as u32,
            },
        ),
    }
}

/// The node, behind the field that is always zero.
pub open spec fn node_in(rec: Seq<u32>, ctx: AnimDefView, base: int) -> core::result::Result<
    Seq<char>,
    Error,
> {
    if u16_at(rec, 10) != 0 {
        Err(differs("object connector field 10", u16_at(rec, 10) as u32, 0, base + 10))
    } else {
        name_from_index(ctx.nodes, "node index", u16_at(rec, 4) as int, base + 4)
    }
}

/// One end point: a node of the table at `index`, the node the event is
/// applied to, or neither, where a position comes with the event.  Of the
/// three flags exactly one is set, and the index is zero where the end point
/// is no node of the table.
pub open spec fn end_in(
    node: bool,
    input_node: bool,
    input_pos: bool,
    node_label: &'static str,
    pos_label: &'static str,
    index_label: &'static str,
    index: u16,
    at: int,
    ctx: AnimDefView,
    base: int,
) -> core::result::Result<Option<Seq<char>>, Error> {
    if node {
        if input_node {
            Err(broken(node_label, base + 0))
        } else if input_pos {
            Err(broken(pos_label, base + 0))
        } else {
            match name_from_index(ctx.nodes, "node index", index as int, base + at) {
                Ok(name) => Ok(Some(name)),
                Err(e) => Err(e),
            }
        }
    } else if input_node {
        if input_pos {
            Err(broken(pos_label, base + 0))
        } else if index != 0 {
        Err(differs(index_label, index as u32, 0, base + at))
        } else {
            Ok(Some(INPUT_NODE@))
        }
    } else if !input_pos {
        Err(broken(pos_label, base + 0))
    } else if index != 0 {
        Err(differs(index_label, index as u32, 0, base + at))
    } else {
        Ok(None)
    }
}

/// The position of one end point: given by the record, and then not to come
/// with the event, or zero.
pub open spec fn pos_in(
    pos: bool,
    input_pos: bool,
    flag_label: &'static str,
    label: &'static str,
    rec: Seq<u32>,
    at: int,
    base: int,
) -> Result<Option<Vec3>> {
    if pos {
        if input_pos {
            Err(broken(flag_label, base + 0))
        } else {
            Ok(Some(vec3_at(rec, at)))
        }
    } else if vec3_at(rec, at).spec_is_empty() {
        Ok(None)
    } else {
        Err(not_empty(label, vec3_at(rec, at), base + at))
    }
}

/// The nine fields that are always zero or one.
pub open spec fn fixed_in(rec: Seq<u32>, base: int) -> Result<()> {
    if !f32_at(rec, 36).spec_is_zero() {
        Err(not_zero("object connector field 36", f32_at(rec, 36), base + 36))
    } else if !f32_at(rec, 40).spec_is_zero() {
        Err(not_zero("object connector field 40", f32_at(rec, 40), base + 40))
    } else if !f32_at(rec, 44).spec_is_zero() {
        Err(not_zero("object connector field 44", f32_at(rec, 44), base + 44))
    } else if !f32_at(rec, 48).spec_is_zero() {
        Err(not_zero("object connector field 48", f32_at(rec, 48), base + 48))
    } else if f32_at(rec, 52).bits != ONE_BITS {
        Err(differs("object connector field 52", f32_at(rec, 52).bits, ONE_BITS, base + 52))
    } else if f32_at(rec, 56).bits != ONE_BITS {
        Err(differs("object connector field 56", f32_at(rec, 56).bits, ONE_BITS, base + 56))
    } else if !f32_at(rec, 60).spec_is_zero() {
        Err(not_zero("object connector field 60", f32_at(rec, 60), base + 60))
    } else if !f32_at(rec, 64).spec_is_zero() {
        Err(not_zero("object connector field 64", f32_at(rec, 64), base + 64))
    } else if !f32_at(rec, 68).spec_is_zero() {
        Err(not_zero("object connector field 68", f32_at(rec, 68), base + 68))
    } else {
        Ok(())
    }
}

/// The greatest length, which is above zero where there is one.
pub open spec fn max_length_in(flags: ObjectConnectorFlags, rec: Seq<u32>, base: int) -> Result<
    Option<F32>,
> {
    if flags.max_length {
        if f32_at(rec, 72).spec_is_positive() {
            Ok(Some(f32_at(rec, 72)))
        } else {
            Err(broken("object connector max length", base + 72))
        }
    } else if f32_at(rec, 72).spec_is_zero() {
        Ok(None)
    } else {
        Err(not_zero("object connector max length", f32_at(rec, 72), base + 72))
    }
}

/// The end point the connector comes from.
pub open spec fn from_node_in(
    flags: ObjectConnectorFlags,
    rec: Seq<u32>,
    ctx: AnimDefView,
    base: int,
) -> core::result::Result<Option<Seq<char>>, Error> {
    end_in(
        flags.from_node,
        flags.from_input_node,
        flags.from_input_pos,
        "object connector from input node",
        "object connector from input pos",
        "object connector from index",
        u16_at(rec, 6),
        6,
        ctx,
        base,
    )
}

/// The end point the connector goes to.
pub open spec fn to_node_in(
    flags: ObjectConnectorFlags,
    rec: Seq<u32>,
    ctx: AnimDefView,
    base: int,
) -> core::result::Result<Option<Seq<char>>, Error> {
    end_in(
        flags.to_node,
        flags.to_input_node,
        flags.to_input_pos,
        "object connector to input node",
        "object connector to input pos",
        "object connector to index",
        u16_at(rec, 8),
        8,
        ctx,
        base,
    )
}

/// What a record means, where it begins at byte offset `base`: the groups in
/// the order of their checks, the first that fails giving the error.
pub open spec fn decode(rec: Seq<u32>, ctx: AnimDefView, base: int) -> core::result::Result<
    ObjectConnectorView,
    Error,
> {
    match flags_in(rec, base) {
        Err(e) => Err(e),
        Ok(flags) => {
            let node = node_in(rec, ctx, base);
            let from_node = from_node_in(flags, rec, ctx, base);
            let to_node = to_node_in(flags, rec, ctx, base);
            let from_pos = pos_in(
                flags.from_pos,
                flags.from_input_pos,
                "object connector from input pos",
                "object connector from pos",
                rec,
                12,
                base,
            );
            let to_pos = pos_in(
                flags.to_pos,
                flags.to_input_pos,
                "object connector to input pos",
                "object connector to pos",
                rec,
                24,
                base,
            );
            let fixed = fixed_in(rec, base);
            let max_length = max_length_in(flags, rec, base);
            if node is Err {
                Err(node->Err_0)
            } else if from_node is Err {
                Err(from_node->Err_0)
            } else if to_node is Err {
                Err(to_node->Err_0)
            } else if from_pos is Err {
                Err(from_pos->Err_0)
            } else if to_pos is Err {
                Err(to_pos->Err_0)
            } else if fixed is Err {
                Err(fixed->Err_0)
            } else if max_length is Err {
                Err(max_length->Err_0)
            } else {
                Ok(
                    ObjectConnectorView {
                        node: node->Ok_0,
                        from_node: from_node->Ok_0,
                        to_node: to_node->Ok_0,
                        from_pos: from_pos->Ok_0,
                        to_pos: to_pos->Ok_0,
                        max_length: max_length->Ok_0,
                    },
                )
            }
        },
    }
}

/// What `read` gives on a cursor in state `read`.
pub open spec fn read_result(read: CountingReader, ctx: AnimDefView, size: u32)
    -> core::result::Result<ObjectConnectorView, Error> {
    match record_of(read, "object connector size", SIZE, size) {
        Err(e) => Err(e),
        Ok(rec) => decode(rec, ctx, read.offset as int),
    }
}

/// A record as the functions below take it: 19 words, which begin at an
/// offset that leaves room for them.
pub open spec fn is_record(rec: Seq<u32>, base: u32) -> bool {
    rec.len() == 19 && base + SIZE <= u32::MAX
}

fn read_flags(rec: &Vec<u32>, base: u32) -> (r: Result<ObjectConnectorFlags>)
    requires
        is_record(rec@, base),
    ensures
        r == flags_in(rec@, base as int),
{
    let word = get_u32(rec, 0);
    match ObjectConnectorFlags::from_bits(word) {
        Some(flags) => Ok(flags),
        None => Err(
            Error::UnknownDiscriminant {
                label: "object connector flags",
                value: word,
                offset: base,
            },
        ),
    }
}

fn read_end(
    node: bool,
    input_node: bool,
    input_pos: bool,
    node_label: &'static str,
    pos_label: &'static str,
    index_label: &'static str,
    index: u16,
    at: u32,
    anim_def: &AnimDef,
    base: u32,
) -> (r: Result<Option<String>>)
    requires
        base + at <= u32::MAX,
    ensures
        match r {
            Ok(name) => end_in(
                node,
                input_node,
                input_pos,
                node_label,
                pos_label,
                index_label,
                index,
                at as int,
                anim_def@,
                base as int,
            ) == Ok::<Option<Seq<char>>, Error>(text_of(name)),
            Err(e) => end_in(
                node,
                input_node,
                input_pos,
                node_label,
                pos_label,
                index_label,
                index,
                at as int,
                anim_def@,
                base as int,
            ) == Err::<Option<Seq<char>>, Error>(e),
        },
{
    if node {
        assert_that(node_label, !input_node, base + 0)?;
        assert_that(pos_label, !input_pos, base + 0)?;
        let name = anim_def.node_from_index(index as usize, base + at)?;
        Ok(Some(name))
    } else if input_node {
        assert_that(pos_label, !input_pos, base + 0)?;
        assert_equal(index_label, index as u32, 0, base + at)?;
        Ok(Some(INPUT_NODE.to_owned()))
    } else {
        // the record has to say that the position comes with the event
        assert_that(pos_label, input_pos, base + 0)?;
        assert_equal(index_label, index as u32, 0, base + at)?;
        Ok(None)
    }
}

fn read_pos(
    pos: bool,
    input_pos: bool,
    flag_label: &'static str,
    label: &'static str,
    rec: &Vec<u32>,
    at: usize,
    base: u32,
) -> (r: Result<Option<Vec3>>)
    requires
        is_record(rec@, base),
        at % 4 == 0,
        at + 12 <= 76,
    ensures
        r == pos_in(pos, input_pos, flag_label, label, rec@, at as int, base as int),
{
    let value = get_vec3(rec, at);
    if pos {
        assert_that(flag_label, !input_pos, base + 0)?;
        Ok(Some(value))
    } else {
        assert_empty(label, value, base + at as u32)?;
        Ok(None)
    }
}

fn read_fixed(rec: &Vec<u32>, base: u32) -> (r: Result<()>)
    requires
        is_record(rec@, base),
    ensures
        r == fixed_in(rec@, base as int),
{
    assert_zero("object connector field 36", get_f32(rec, 36), base + 36)?;
    assert_zero("object connector field 40", get_f32(rec, 40), base + 40)?;
    assert_zero("object connector field 44", get_f32(rec, 44), base + 44)?;
    assert_zero("object connector field 48", get_f32(rec, 48), base + 48)?;
    assert_equal("object connector field 52", get_f32(rec, 52).bits, ONE_BITS, base + 52)?;
    assert_equal("object connector field 56", get_f32(rec, 56).bits, ONE_BITS, base + 56)?;
    assert_zero("object connector field 60", get_f32(rec, 60), base + 60)?;
    assert_zero("object connector field 64", get_f32(rec, 64), base + 64)?;
    assert_zero("object connector field 68", get_f32(rec, 68), base + 68)?;
    Ok(())
}

fn read_max_length(flags: ObjectConnectorFlags, rec: &Vec<u32>, base: u32) -> (r: Result<
    Option<F32>,
>)
    requires
        is_record(rec@, base),
    ensures
        r == max_length_in(flags, rec@, base as int),
{
    let value = get_f32(rec, 72);
    if flags.max_length {
        assert_that("object connector max length", value.is_positive(), base + 72)?;
        Ok(Some(value))
    } else {
        assert_zero("object connector max length", value, base + 72)?;
        Ok(None)
    }
}

// The record that a value is written as.
/// The flags and the index of one end point: a node of the table, the node
/// the event is applied to, or a position that comes with the event.
#[derive(Clone, Copy, Debug, PartialEq, Eq)]
pub enum End {
    Node(u16),
    InputNode,
    InputPos,
}

/// How one end point is written.  A node that is not the node the event is
/// applied to has to be in the table, at an index that fits 16 bits.
pub open spec fn end_of(name: Option<Seq<char>>, ctx: AnimDefView) -> Result<End> {
    match name {
        None => Ok(End::InputPos),
        Some(name) => if name == INPUT_NODE@ {
            Ok(End::InputNode)
        } else {
            match index_from_name(ctx.nodes, "node name", name) {
                Err(e) => Err(e),
                Ok(index) => if index > u16::MAX {
                    Err(broken("node index", 0))
                } else {
                    Ok(End::Node(index as u16))
                },
            }
        },
    }
}

/// The index that an end point is written with.
pub open spec fn end_index(end: End) -> u16 {
    match end {
        End::Node(index) => index,
        _ => 0,
    }
}

/// The flags that say which groups a value has.
pub open spec fn flags_of(v: ObjectConnectorView, from: End, to: End) -> ObjectConnectorFlags {
    ObjectConnectorFlags {
        from_node: from is Node,
        from_input_node: from is InputNode,
        from_pos: v.from_pos is Some,
        from_input_pos: from is InputPos,
        to_node: to is Node,
        to_input_node: to is InputNode,
        to_pos: v.to_pos is Some,
        to_input_pos: to is InputPos,
        max_length: v.max_length is Some,
    }
}

/// The triple of a position that may be absent: zeros where it is.
pub open spec fn or_empty(x: Option<Vec3>) -> Vec3 {
    match x {
        Some(x) => x,
        None => Vec3::empty(),
    }
}

/// The number of a group that may be absent: zero where it is.
pub open spec fn or_zero(x: Option<F32>) -> F32 {
    match x {
        Some(x) => x,
        None => F32::zero(),
    }
}

/// The words of a record, field by field in the order of their offsets.
#[verifier::opaque]
pub open spec fn layout(v: ObjectConnectorView, node: u16, from: End, to: End) -> Seq<u32> {
    seq![
        flags_of(v, from, to).spec_bits(),
        halves(node, end_index(from)),
        halves(end_index(to), 0),
        or_empty(v.from_pos).0.bits,
        or_empty(v.from_pos).1.bits,
        or_empty(v.from_pos).2.bits,
        or_empty(v.to_pos).0.bits,
        or_empty(v.to_pos).1.bits,
        or_empty(v.to_pos).2.bits,
        0,
        0,
        0,
        0,
        ONE_BITS,
        ONE_BITS,
        0,
        0,
        0,
        or_zero(v.max_length).bits,
    ]
}

/// The record that a value is written as.  It is written whenever the node
/// and the two end points are found, at indices that fit 16 bits.
pub open spec fn encode(v: ObjectConnectorView, ctx: AnimDefView) -> Result<Seq<u32>> {
    let node = index_from_name(ctx.nodes, "node name", v.node);
    let from = end_of(v.from_node, ctx);
    let to = end_of(v.to_node, ctx);
    if node is Err {
        Err(node->Err_0)
    } else if node->Ok_0 > u16::MAX {
        Err(broken("node index", 0))
    } else if from is Err {
        Err(from->Err_0)
    } else if to is Err {
        Err(to->Err_0)
    } else {
        Ok(layout(v, node->Ok_0 as u16, from->Ok_0, to->Ok_0))
    }
}

fn make_end(name: &Option<String>, anim_def: &AnimDef) -> (r: Result<End>)
    ensures
        r == end_of(text_of(*name), anim_def@),
{
    match name {
        None => Ok(End::InputPos),
        Some(name) => {
            let input = String::from_str(INPUT_NODE);
            if *name == input {
                Ok(End::InputNode)
            } else {
                let index = anim_def.node_to_index(name)?;
                if index > u16::MAX as usize {
                    return Err(Error::Assertion { label: "node index", offset: 0, detail: Detail::Condition });
                }
                Ok(End::Node(index as u16))
            }
        },
    }
}

fn get_or_empty(x: Option<Vec3>) -> (r: Vec3)
    ensures
        r == or_empty(x),
{
    match x {
        Some(x) => x,
        None => Vec3::empty(),
    }
}

impl ObjectConnector {
    pub fn read(read: &mut CountingReader, anim_def: &AnimDef, size: u32) -> (r: Result<Self>)
        ensures
            crate::error::view_ok(r) == read_result(*old(read), anim_def@, size),
            after_record(*final(read), *old(read), SIZE, size),
    {
        let rec = read_record(read, "object connector size", SIZE, size)?;
        let base = read.prev;
        let flags = read_flags(&rec, base)?;
        assert_equal("object connector field 10", get_u16(&rec, 10) as u32, 0, base + 10)?;
        let node = anim_def.node_from_index(get_u16(&rec, 4) as usize, base + 4)?;
        let from_node = read_end(
            flags.from_node,
            flags.from_input_node,
            flags.from_input_pos,
            "object connector from input node",
            "object connector from input pos",
            "object connector from index",
            get_u16(&rec, 6),
            6,
            anim_def,
            base,
        )?;
        let to_node = read_end(
            flags.to_node,
            flags.to_input_node,
            flags.to_input_pos,
            "object connector to input node",
            "object connector to input pos",
            "object connector to index",
            get_u16(&rec, 8),
            8,
            anim_def,
            base,
        )?;
        let from_pos = read_pos(
            flags.from_pos,
            flags.from_input_pos,
            "object connector from input pos",
            "object connector from pos",
            &rec,
            12,
            base,
        )?;
        let to_pos = read_pos(
            flags.to_pos,
            flags.to_input_pos,
            "object connector to input pos",
            "object connector to pos",
            &rec,
            24,
            base,
        )?;
        read_fixed(&rec, base)?;
        let max_length = read_max_length(flags, &rec, base)?;
        Ok(Self { node, from_node, to_node, from_pos, to_pos, max_length })
    }

    pub fn write(&self, write: &mut Vec<u8>, anim_def: &AnimDef) -> (r: Result<()>)
        ensures
            match encode(self@, anim_def@) {
                Ok(rec) => r is Ok && final(write)@ == old(write)@ + le_bytes(rec),
                Err(e) => r == Err::<(), Error>(e) && final(write)@ == old(write)@,
            },
            writable(self@, anim_def@) ==> r is Ok,
            r is Ok ==> final(write)@.len() == old(write)@.len() + SIZE,
    {
        proof {
            lemma_writable(self@, anim_def@);
            if encode(self@, anim_def@) is Ok {
                lemma_fixed_size(self@, anim_def@);
            }
        }
        let node = anim_def.node_to_index(&self.node)?;
        if node > u16::MAX as usize {
            return Err(Error::Assertion { label: "node index", offset: 0, detail: Detail::Condition });
        }
        let from = make_end(&self.from_node, anim_def)?;
        let to = make_end(&self.to_node, anim_def)?;
        let rec = self.build(node as u16, from, to);
        write.write_struct(&rec);
        Ok(())
    }

    /// The words of the record, for a node and end points that have been
    /// found.
    fn build(&self, node: u16, from: End, to: End) -> (r: Vec<u32>)
        ensures
            r@ == layout(self@, node, from, to),
    {
        reveal(layout);
        let flags = ObjectConnectorFlags {
            from_node: match from {
                End::Node(_) => true,
                _ => false,
            },
            from_input_node: match from {
                End::InputNode => true,
                _ => false,
            },
            from_pos: self.from_pos.is_some(),
            from_input_pos: match from {
                End::InputPos => true,
                _ => false,
            },
            to_node: match to {
                End::Node(_) => true,
                _ => false,
            },
            to_input_node: match to {
                End::InputNode => true,
                _ => false,
            },
            to_pos: self.to_pos.is_some(),
            to_input_pos: match to {
                End::InputPos => true,
                _ => false,
            },
            max_length: self.max_length.is_some(),
        };
        let from_index = match from {
            End::Node(index) => index,
            _ => 0,
        };
        let to_index = match to {
            End::Node(index) => index,
            _ => 0,
        };
        let from_pos = get_or_empty(self.from_pos);
        let to_pos = get_or_empty(self.to_pos);
        let max_length = match self.max_length {
            Some(x) => x,
            None => F32::zero(),
        };
        let mut rec: Vec<u32> = Vec::new();
        rec.push(flags.bits());  // 00
        put_halves(&mut rec, node, from_index);  // 04, 06
        put_halves(&mut rec, to_index, 0);  // 08, 10
        put_vec3(&mut rec, from_pos);  // 12
        put_vec3(&mut rec, to_pos);  // 24
        rec.push(0);  // 36
        rec.push(0);  // 40
        rec.push(0);  // 44
        rec.push(0);  // 48
        rec.push(ONE_BITS);  // 52
        rec.push(ONE_BITS);  // 56
        rec.push(0);  // 60
        rec.push(0);  // 64
        rec.push(0);  // 68
        rec.push(max_length.bits);  // 72
        rec
    }
}

// What holds of the two directions together.
/// The values that a decoder can give: an end point with a position of its
/// own is a node, and a greatest length is above zero.
pub open spec fn legal(v: ObjectConnectorView) -> bool {
    &&& v.from_pos is Some ==> v.from_node is Some
    &&& v.to_pos is Some ==> v.to_node is Some
    &&& v.max_length matches Some(x) ==> x.spec_is_positive()
}

/// The fields of a record that was laid out, each at its offset.
pub proof fn lemma_fields(v: ObjectConnectorView, node: u16, from: End, to: End)
    ensures
        ({
            let rec = layout(v, node, from, to);
            &&& rec.len() == 19
            &&& word_at(rec, 0) == flags_of(v, from, to).spec_bits()
            &&& u16_at(rec, 4) == node
            &&& u16_at(rec, 6) == end_index(from)
            &&& u16_at(rec, 8) == end_index(to)
            &&& u16_at(rec, 10) == 0
            &&& vec3_at(rec, 12) == or_empty(v.from_pos)
            &&& vec3_at(rec, 24) == or_empty(v.to_pos)
            &&& f32_at(rec, 36) == F32::zero()
            &&& f32_at(rec, 40) == F32::zero()
            &&& f32_at(rec, 44) == F32::zero()
            &&& f32_at(rec, 48) == F32::zero()
            &&& f32_at(rec, 52).bits == ONE_BITS
            &&& f32_at(rec, 56).bits == ONE_BITS
            &&& f32_at(rec, 60) == F32::zero()
            &&& f32_at(rec, 64) == F32::zero()
            &&& f32_at(rec, 68) == F32::zero()
            &&& f32_at(rec, 72) == or_zero(v.max_length)
        }),
{
    reveal(layout);
    crate::record::lemma_halves(node, end_index(from));
    crate::record::lemma_halves(end_index(to), 0);
}

/// An end point is read back as it was written.
proof fn lemma_end_back(
    name: Option<Seq<char>>,
    ctx: AnimDefView,
    node_label: &'static str,
    pos_label: &'static str,
    index_label: &'static str,
    at: int,
    base: int,
)
    requires
        end_of(name, ctx) is Ok,
    ensures
        ({
            let end = end_of(name, ctx)->Ok_0;
            end_in(
                end is Node,
                end is InputNode,
                end is InputPos,
                node_label,
                pos_label,
                index_label,
                end_index(end),
                at,
                ctx,
                base,
            ) == Ok::<Option<Seq<char>>, Error>(name)
        }),
{
    if let Some(text) = name {
        if text != INPUT_NODE@ {
            crate::anim_def::lemma_index_identity(
                ctx.nodes,
                text,
                0,
                "node name",
                "node index",
                base + at,
            );
        }
    }
}

/// What is enough for a value to be written: its node and every end point
/// that is a node of the table are in the table of nodes, and every index of
/// the table fits 16 bits.
pub open spec fn writable(v: ObjectConnectorView, ctx: AnimDefView) -> bool {
    &&& ctx.nodes.contains(v.node)
    &&& ctx.nodes.len() <= 0x1_0000
    &&& v.from_node matches Some(name) ==> name == INPUT_NODE@ || ctx.nodes.contains(name)
    &&& v.to_node matches Some(name) ==> name == INPUT_NODE@ || ctx.nodes.contains(name)
}

/// Whatever is writable is written.
pub proof fn lemma_writable(v: ObjectConnectorView, ctx: AnimDefView)
    ensures
        writable(v, ctx) ==> encode(v, ctx) is Ok,
{
    ctx.nodes.index_of_first_ensures(v.node);
    if let Some(name) = v.from_node {
        ctx.nodes.index_of_first_ensures(name);
    }
    if let Some(name) = v.to_node {
        ctx.nodes.index_of_first_ensures(name);
    }
}

/// Whatever is written has the fixed size.
pub proof fn lemma_fixed_size(v: ObjectConnectorView, ctx: AnimDefView)
    requires
        encode(v, ctx) is Ok,
    ensures
        le_bytes(encode(v, ctx)->Ok_0).len() == SIZE,
{
    let node = index_from_name(ctx.nodes, "node name", v.node)->Ok_0;
    lemma_fields(v, node as u16, end_of(v.from_node, ctx)->Ok_0, end_of(v.to_node, ctx)->Ok_0);
}

/// A record that was written for a legal value has the fixed size and is
/// decoded to that value, wherever it begins.
pub proof fn lemma_round_trip(v: ObjectConnectorView, ctx: AnimDefView, base: int)
    requires
        legal(v),
        encode(v, ctx) is Ok,
    ensures
        le_bytes(encode(v, ctx)->Ok_0).len() == SIZE,
        decode(encode(v, ctx)->Ok_0, ctx, base) == Ok::<ObjectConnectorView, Error>(v),
{
    let rec = encode(v, ctx)->Ok_0;
    let node = index_from_name(ctx.nodes, "node name", v.node)->Ok_0;
    let from = end_of(v.from_node, ctx)->Ok_0;
    let to = end_of(v.to_node, ctx)->Ok_0;
    crate::anim_def::lemma_index_identity(ctx.nodes, v.node, 0, "node name", "node index", base + 4);
    lemma_fields(v, node as u16, from, to);
    lemma_flags(flags_of(v, from, to));
    lemma_end_back(
        v.from_node,
        ctx,
        "object connector from input node",
        "object connector from input pos",
        "object connector from index",
        6,
        base,
    );
    lemma_end_back(
        v.to_node,
        ctx,
        "object connector to input node",
        "object connector to input pos",
        "object connector to index",
        8,
        base,
    );
    let flags = flags_of(v, from, to);
    assert(flags_in(rec, base) == Ok::<ObjectConnectorFlags, Error>(flags));
    assert(node_in(rec, ctx, base) == Ok::<Seq<char>, Error>(v.node));
    assert(from_node_in(flags, rec, ctx, base) == Ok::<Option<Seq<char>>, Error>(v.from_node));
    assert(to_node_in(flags, rec, ctx, base) == Ok::<Option<Seq<char>>, Error>(v.to_node));
    assert(fixed_in(rec, base) == Ok::<(), Error>(()));
    assert(max_length_in(flags, rec, base) == Ok::<Option<F32>, Error>(v.max_length));
}

/// Whatever is decoded is legal.
pub proof fn lemma_decoded_is_legal(rec: Seq<u32>, ctx: AnimDefView, base: int)
    ensures
        decode(rec, ctx, base) matches Ok(v) ==> legal(v),
{
}

/// Where a group is absent from a value, its record has the flag clear and
/// zero in every field of the group.
pub proof fn lemma_absent_is_sentinel(v: ObjectConnectorView, ctx: AnimDefView)
    requires
        encode(v, ctx) is Ok,
    ensures
        ({
            let rec = encode(v, ctx)->Ok_0;
            let flags = ObjectConnectorFlags::spec_from_bits(word_at(rec, 0));
            &&& flags is Some
            &&& v.from_pos is None ==> !flags->Some_0.from_pos && vec3_at(rec, 12) == Vec3::empty()
            &&& v.to_pos is None ==> !flags->Some_0.to_pos && vec3_at(rec, 24) == Vec3::empty()
            &&& v.max_length is None ==> !flags->Some_0.max_length && f32_at(rec, 72)
                == F32::zero()
            &&& v.from_node is None ==> !flags->Some_0.from_node && !flags->Some_0.from_input_node
                && u16_at(rec, 6) == 0
            &&& v.to_node is None ==> !flags->Some_0.to_node && !flags->Some_0.to_input_node
                && u16_at(rec, 8) == 0
        }),
{
    let node = index_from_name(ctx.nodes, "node name", v.node)->Ok_0;
    let from = end_of(v.from_node, ctx)->Ok_0;
    let to = end_of(v.to_node, ctx)->Ok_0;
    lemma_fields(v, node as u16, from, to);
    lemma_flags(flags_of(v, from, to));
}

/// Where a record is decoded, every group whose flag is clear holds zero: a
/// record with a flag clear and anything else in the fields of its group is
/// refused, the index of an end point that is no node of the table among
/// them.  So is a record that names two kinds of end point at once.
pub proof fn lemma_sentinel_or_refused(rec: Seq<u32>, ctx: AnimDefView, base: int)
    requires
        decode(rec, ctx, base) is Ok,
    ensures
        ({
            let flags = ObjectConnectorFlags::spec_pick(word_at(rec, 0));
            &&& !flags.from_pos ==> vec3_at(rec, 12).spec_is_empty()
            &&& !flags.to_pos ==> vec3_at(rec, 24).spec_is_empty()
            &&& !flags.max_length ==> f32_at(rec, 72).spec_is_zero()
            &&& !flags.from_node ==> u16_at(rec, 6) == 0
            &&& !flags.to_node ==> u16_at(rec, 8) == 0
            &&& !(flags.from_node && flags.from_input_node)
            &&& !(flags.from_node && flags.from_input_pos)
            &&& !(flags.from_input_node && flags.from_input_pos)
            &&& !(flags.to_node && flags.to_input_node)
            &&& !(flags.to_node && flags.to_input_pos)
            &&& !(flags.to_input_node && flags.to_input_pos)
        }),
{
}

/// A record whose flags have every bit set is refused for its flags, at the
/// offset of the flags.
pub proof fn lemma_all_ones_refused(rec: Seq<u32>, ctx: AnimDefView, base: int)
    requires
        word_at(rec, 0) == 0xFFFF_FFFF,
    ensures
        decode(rec, ctx, base) == Err::<ObjectConnectorView, Error>(
            Error::UnknownDiscriminant {
                label: "object connector flags",
                value: 0xFFFF_FFFF,
                offset: base as u32,
            },
        ),
{
    lemma_all_ones_are_no_flags();
}

} // verus!
