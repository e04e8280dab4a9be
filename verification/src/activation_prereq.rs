//! Activation prerequisites: what has to hold before an animation starts.
//!
//! A prerequisite is 48 bytes: a strict boolean that says whether it is
//! optional, its kind, and a record of 40 bytes.
//!
//! | kind | record |
//! |---|---|
//! | 1, animation | name, 32 bytes; two zeros |
//! | 2, object | active, a strict boolean; name, 32 bytes; pointer, not zero |
//! | 3, parent | always zero; name, 32 bytes; pointer, not zero |
//!
//! A value says "required" where the bytes say "optional", so the boolean is
//! turned round on the way.  An animation is always required.

use crate::assertion::{
    assert_bool,
    assert_equal,
    assert_that,
    assert_utf8,
    broken,
    check_bool,
    check_utf8,
    differs,
};
use crate::error::{Error, Result};
use crate::io_ext::{le_bytes, le_words, u32_le, CountingReader, WriteHelper};
use crate::record::{get_slot, get_u32, put_slot, slot_at, word_at};
use crate::string::{c_padded, fits_slot, str_to_c_padded};
use vstd::prelude::*;
use vstd::utf8::encode_utf8;

verus! {

/// The kind of a prerequisite on an animation.
pub const ANIMATION: u32 = 1;

/// The kind of a prerequisite on an object.
pub const OBJECT: u32 = 2;

/// The kind of a prerequisite on a parent.
pub const PARENT: u32 = 3;

/// The size of the record of a prerequisite, in bytes.
pub const SIZE: u32 = 40;

/// The size of the slot of a name, in bytes.
pub const NAME_SIZE: usize = 32;

#[derive(Clone, Debug, PartialEq, Eq)]
pub struct PrereqObject {
    pub name: String,
    pub required: bool,
    pub active: bool,
    pub pointer: u32,
}

pub struct PrereqObjectView {
    pub name: Seq<char>,
    pub required: bool,
    pub active: bool,
    pub pointer: u32,
}

impl View for PrereqObject {
    type V = PrereqObjectView;

    open spec fn view(&self) -> PrereqObjectView {
        PrereqObjectView {
            name: self.name@,
            required: self.required,
            active: self.active,
            pointer: self.pointer,
        }
    }
}

#[derive(Clone, Debug, PartialEq, Eq)]
pub enum ActivationPrereq {
    Animation(String),
    Parent(PrereqObject),
    Object(PrereqObject),
}

pub enum ActivationPrereqView {
    Animation(Seq<char>),
    Parent(PrereqObjectView),
    Object(PrereqObjectView),
}

impl View for ActivationPrereq {
    type V = ActivationPrereqView;

    open spec fn view(&self) -> ActivationPrereqView {
        match self {
            ActivationPrereq::Animation(name) => ActivationPrereqView::Animation(name@),
            ActivationPrereq::Parent(object) => ActivationPrereqView::Parent(object@),
            ActivationPrereq::Object(object) => ActivationPrereqView::Object(object@),
        }
    }
}

/// The views of a run of prerequisites.
pub open spec fn views(list: Seq<ActivationPrereq>) -> Seq<ActivationPrereqView> {
    Seq::new(list.len(), |i: int| list[i]@)
}

/// The value 0 or 1 that a boolean is written as.
pub open spec fn bool_c(value: bool) -> u32 {
    if value {
        1
    } else {
        0
    }
}

// What the bytes mean.
/// The record of an animation, where it begins at byte offset `base`.
pub open spec fn decode_anim(rec: Seq<u32>, base: int) -> core::result::Result<
    ActivationPrereqView,
    Error,
> {
    let name = check_utf8("anim def activ prereq a name", base + 0, slot_at(rec, 0, 32));
    if name is Err {
        Err(name->Err_0)
    } else if word_at(rec, 32) != 0 {
        Err(differs("anim def activ prereq a field 32", word_at(rec, 32), 0, base + 32))
    } else if word_at(rec, 36) != 0 {
        Err(differs("anim def activ prereq a field 36", word_at(rec, 36), 0, base + 36))
    } else {
        Ok(ActivationPrereqView::Animation(name->Ok_0))
    }
}

/// The record of a parent, where it begins at byte offset `base`.
pub open spec fn decode_parent(rec: Seq<u32>, required: bool, base: int) -> core::result::Result<
    ActivationPrereqView,
    Error,
> {
    let name = check_utf8("anim def activ prereq p name", base + 4, slot_at(rec, 4, 32));
    if word_at(rec, 0) != 0 {
        Err(differs("anim def activ prereq p active", word_at(rec, 0), 0, base + 0))
    } else if name is Err {
        Err(name->Err_0)
    } else if word_at(rec, 36) == 0 {
        Err(broken("anim def activ prereq p pointer", base + 36))
    } else {
        Ok(
            ActivationPrereqView::Parent(
                PrereqObjectView {
                    name: name->Ok_0,
                    required,
                    active: false,
                    pointer: word_at(rec, 36),
                },
            ),
        )
    }
}

/// The record of an object, where it begins at byte offset `base`.
pub open spec fn decode_object(rec: Seq<u32>, required: bool, base: int) -> core::result::Result<
    ActivationPrereqView,
    Error,
> {
    let active = check_bool("anim def activ prereq o active", word_at(rec, 0), base + 0);
    let name = check_utf8("anim def activ prereq o name", base + 4, slot_at(rec, 4, 32));
    if active is Err {
        Err(active->Err_0)
    } else if name is Err {
        Err(name->Err_0)
    } else if word_at(rec, 36) == 0 {
        Err(broken("anim def activ prereq o pointer", base + 36))
    } else {
        Ok(
            ActivationPrereqView::Object(
                PrereqObjectView {
                    name: name->Ok_0,
                    required,
                    active: active->Ok_0,
                    pointer: word_at(rec, 36),
                },
            ),
        )
    }
}

/// The record of a prerequisite of kind `kind`.
pub open spec fn decode(kind: u32, required: bool, rec: Seq<u32>, base: int)
    -> core::result::Result<ActivationPrereqView, Error> {
    if kind == ANIMATION {
        decode_anim(rec, base)
    } else if kind == PARENT {
        decode_parent(rec, required, base)
    } else {
        decode_object(rec, required, base)
    }
}

/// What reading one prerequisite gives on a cursor in state `read`: the
/// boolean, the kind, then the record, each checked before the next is
/// transferred.
#[verifier::opaque]
pub open spec fn prereq_result(read: CountingReader) -> core::result::Result<
    ActivationPrereqView,
    Error,
> {
    let optional = check_bool(
        "anim def activ prereq optional",
        u32_le(read.remaining()),
        read.offset as int,
    );
    let at_kind = read.advanced(4);
    let kind = u32_le(at_kind.remaining());
    let at_record = at_kind.advanced(4);
    if !read.can_take(4) {
        Err(Error::Transport)
    } else if optional is Err {
        Err(optional->Err_0)
    } else if !at_kind.can_take(4) {
        Err(Error::Transport)
    } else if kind != ANIMATION && kind != OBJECT && kind != PARENT {
        Err(
            Error::UnknownDiscriminant {
                label: "anim def activ prereq type",
                value: kind,
                offset: at_kind.offset,
            },
        )
    } else if kind == ANIMATION && optional->Ok_0 {
        Err(broken("anim def activ prereq required", read.offset as int))
    } else if !at_record.can_take(40) {
        Err(Error::Transport)
    } else {
        decode(
            kind,
            !optional->Ok_0,
            le_words(at_record.remaining().take(40)),
            at_record.offset as int,
        )
    }
}

/// The cursor after reading one prerequisite: behind whatever was
/// transferred.
#[verifier::opaque]
pub open spec fn after_prereq(read: CountingReader) -> CountingReader {
    let optional = check_bool(
        "anim def activ prereq optional",
        u32_le(read.remaining()),
        read.offset as int,
    );
    let at_kind = read.advanced(4);
    let kind = u32_le(at_kind.remaining());
    if !read.can_take(4) {
        read
    } else if optional is Err || !at_kind.can_take(4) {
        at_kind
    } else if (kind != ANIMATION && kind != OBJECT && kind != PARENT) || (kind == ANIMATION
        && optional->Ok_0) {
        at_kind.advanced(4)
    } else {
        at_kind.advanced(4).after_take(40)
    }
}

/// What reading `count` prerequisites gives: each in turn, up to the first
/// that fails.
pub open spec fn prereqs_result(read: CountingReader, count: nat) -> core::result::Result<
    Seq<ActivationPrereqView>,
    Error,
>
    decreases count,
{
    if count == 0 {
        Ok(Seq::empty())
    } else {
        match prereq_result(read) {
            Err(e) => Err(e),
            Ok(first) => match prereqs_result(after_prereq(read), (count - 1) as nat) {
                Err(e) => Err(e),
                Ok(rest) => Ok(seq![first] + rest),
            },
        }
    }
}

/// The cursor after reading `count` prerequisites.
pub open spec fn after_prereqs(read: CountingReader, count: nat) -> CountingReader
    decreases count,
{
    if count == 0 {
        read
    } else if prereq_result(read) is Err {
        after_prereq(read)
    } else {
        after_prereqs(after_prereq(read), (count - 1) as nat)
    }
}

/// A record as the functions below take it: 10 words, which begin at an
/// offset that leaves room for them.
pub open spec fn is_record(rec: Seq<u32>, base: u32) -> bool {
    rec.len() == 10 && base + SIZE <= u32::MAX
}

fn read_activ_prereq_anim(rec: &Vec<u32>, base: u32) -> (r: Result<ActivationPrereq>)
    requires
        is_record(rec@, base),
    ensures
        crate::error::view_ok(r) == decode_anim(rec@, base as int),
{
    let slot = get_slot(rec, 0, NAME_SIZE);
    let name = assert_utf8("anim def activ prereq a name", base + 0, slot.as_slice())?;
    assert_equal("anim def activ prereq a field 32", get_u32(rec, 32), 0, base + 32)?;
    assert_equal("anim def activ prereq a field 36", get_u32(rec, 36), 0, base + 36)?;
    Ok(ActivationPrereq::Animation(name))
}

fn read_activ_prereq_parent(rec: &Vec<u32>, required: bool, base: u32) -> (r: Result<
    ActivationPrereq,
>)
    requires
        is_record(rec@, base),
    ensures
        crate::error::view_ok(r) == decode_parent(rec@, required, base as int),
{
    assert_equal("anim def activ prereq p active", get_u32(rec, 0), 0, base + 0)?;
    let slot = get_slot(rec, 4, NAME_SIZE);
    let name = assert_utf8("anim def activ prereq p name", base + 4, slot.as_slice())?;
    let pointer = get_u32(rec, 36);
    assert_that("anim def activ prereq p pointer", pointer != 0, base + 36)?;
    Ok(ActivationPrereq::Parent(PrereqObject { name, required, active: false, pointer }))
}

fn read_activ_prereq_object(rec: &Vec<u32>, required: bool, base: u32) -> (r: Result<
    ActivationPrereq,
>)
    requires
        is_record(rec@, base),
    ensures
        crate::error::view_ok(r) == decode_object(rec@, required, base as int),
{
    let active = assert_bool("anim def activ prereq o active", get_u32(rec, 0), base + 0)?;
    let slot = get_slot(rec, 4, NAME_SIZE);
    let name = assert_utf8("anim def activ prereq o name", base + 4, slot.as_slice())?;
    let pointer = get_u32(rec, 36);
    assert_that("anim def activ prereq o pointer", pointer != 0, base + 36)?;
    Ok(ActivationPrereq::Object(PrereqObject { name, required, active, pointer }))
}

fn read_activ_prereq(read: &mut CountingReader) -> (r: Result<ActivationPrereq>)
    ensures
        crate::error::view_ok(r) == prereq_result(*old(read)),
        *final(read) == after_prereq(*old(read)),
{
    reveal(prereq_result);
    reveal(after_prereq);
    let optional = read.read_u32()?;
    let start = read.prev;
    let optional = assert_bool("anim def activ prereq optional", optional, start)?;
    let required = !optional;
    let kind = read.read_u32()?;
    if kind != ANIMATION && kind != OBJECT && kind != PARENT {
        return Err(
            Error::UnknownDiscriminant {
                label: "anim def activ prereq type",
                value: kind,
                offset: read.prev,
            },
        );
    }
    if kind == ANIMATION {
        assert_that("anim def activ prereq required", required, start)?;
    }
    let rec = read.read_struct(SIZE)?;
    let base = read.prev;
    if kind == ANIMATION {
        read_activ_prereq_anim(&rec, base)
    } else if kind == PARENT {
        read_activ_prereq_parent(&rec, required, base)
    } else {
        read_activ_prereq_object(&rec, required, base)
    }
}

/// What reading one more prerequisite adds to a result so far.
proof fn lemma_one_more(read: CountingReader, count: nat)
    requires
        count > 0,
    ensures
        prereq_result(read) matches Err(e) ==> prereqs_result(read, count) == Err::<
            Seq<ActivationPrereqView>,
            Error,
        >(e) && after_prereqs(read, count) == after_prereq(read),
        prereq_result(read) matches Ok(first) ==> after_prereqs(read, count) == after_prereqs(
            after_prereq(read),
            (count - 1) as nat,
        ) && prereqs_result(read, count) == (match prereqs_result(
            after_prereq(read),
            (count - 1) as nat,
        ) {
            Err(e) => Err(e),
            Ok(rest) => Ok(seq![first] + rest),
        }),
{
}

/// A result with the prerequisites that were read before it in front.
pub open spec fn behind(
    front: Seq<ActivationPrereqView>,
    result: core::result::Result<Seq<ActivationPrereqView>, Error>,
) -> core::result::Result<Seq<ActivationPrereqView>, Error> {
    match result {
        Err(e) => Err(e),
        Ok(rest) => Ok(front + rest),
    }
}

/// Reads `count` prerequisites, one behind the other.
pub fn read_activ_prereqs(read: &mut CountingReader, count: u8) -> (r: Result<
    Vec<ActivationPrereq>,
>)
    ensures
        match r {
            Ok(list) => prereqs_result(*old(read), count as nat) == Ok::<
                Seq<ActivationPrereqView>,
                Error,
            >(views(list@)),
            Err(e) => prereqs_result(*old(read), count as nat) == Err::<
                Seq<ActivationPrereqView>,
                Error,
            >(e),
        },
        *final(read) == after_prereqs(*old(read), count as nat),
{
    let mut list: Vec<ActivationPrereq> = Vec::new();
    let mut i: u8 = 0;
    while i < count
        invariant
            i <= count,
            list@.len() == i,
            prereqs_result(*old(read), count as nat) == behind(
                views(list@),
                prereqs_result(*read, (count - i) as nat),
            ),
            after_prereqs(*old(read), count as nat) == after_prereqs(*read, (count - i) as nat),
        decreases count - i,
    {
        let ghost before = *read;
        let ghost front = views(list@);
        proof {
            lemma_one_more(before, (count - i) as nat);
        }
        let prereq = read_activ_prereq(read)?;
        list.push(prereq);
        i = i + 1;
        proof {
            let rest = prereqs_result(*read, (count - i) as nat);
            assert(views(list@) =~= front + seq![prereq@]);
            if let Ok(rest) = rest {
                assert(front + (seq![prereq@] + rest) =~= views(list@) + rest);
            }
        }
    }
    assert(views(list@) + Seq::<ActivationPrereqView>::empty() =~= views(list@));
    Ok(list)
}

// The bytes that a value is written as.
/// The kind of a prerequisite.
pub open spec fn kind_of(v: ActivationPrereqView) -> u32 {
    match v {
        ActivationPrereqView::Animation(_) => ANIMATION,
        ActivationPrereqView::Parent(_) => PARENT,
        ActivationPrereqView::Object(_) => OBJECT,
    }
}

/// Whether a prerequisite is required.
pub open spec fn required_of(v: ActivationPrereqView) -> bool {
    match v {
        ActivationPrereqView::Animation(_) => true,
        ActivationPrereqView::Parent(object) => object.required,
        ActivationPrereqView::Object(object) => object.required,
    }
}

/// The name of a prerequisite.
pub open spec fn name_of(v: ActivationPrereqView) -> Seq<char> {
    match v {
        ActivationPrereqView::Animation(name) => name,
        ActivationPrereqView::Parent(object) => object.name,
        ActivationPrereqView::Object(object) => object.name,
    }
}

/// The words of the record of a prerequisite, for a slot that holds its
/// name.
#[verifier::opaque]
pub open spec fn record_words(v: ActivationPrereqView, slot: Seq<u8>) -> Seq<u32> {
    match v {
        ActivationPrereqView::Animation(_) => le_words(slot) + seq![0u32, 0u32],
        ActivationPrereqView::Parent(object) => seq![bool_c(object.active)] + le_words(slot)
            + seq![object.pointer],
        ActivationPrereqView::Object(object) => seq![bool_c(object.active)] + le_words(slot)
            + seq![object.pointer],
    }
}

/// The words that a prerequisite is written as: the boolean, the kind, the
/// record.  It is written whenever its name fits the slot.
pub open spec fn encode(v: ActivationPrereqView) -> Result<Seq<u32>> {
    if encode_utf8(name_of(v)).len() > 32 {
        Err(Error::Encoding { label: "anim def activ prereq name", offset: 0 })
    } else {
        Ok(
            seq![bool_c(!required_of(v)), kind_of(v)] + record_words(
                v,
                c_padded(encode_utf8(name_of(v)), 32),
            ),
        )
    }
}

/// The words that a run of prerequisites is written as, one behind the
/// other.
pub open spec fn encode_all(list: Seq<ActivationPrereqView>) -> Result<Seq<u32>>
    decreases list.len(),
{
    if list.len() == 0 {
        Ok(Seq::empty())
    } else {
        match encode_all(list.drop_last()) {
            Err(e) => Err(e),
            Ok(front) => match encode(list.last()) {
                Err(e) => Err(e),
                Ok(words) => Ok(front + words),
            },
        }
    }
}

fn write_name(rec: &mut Vec<u32>, name: &String) -> (r: Result<()>)
    ensures
        encode_utf8(name@).len() <= 32 ==> r is Ok && final(rec)@ == old(rec)@ + le_words(
            c_padded(encode_utf8(name@), 32),
        ),
        encode_utf8(name@).len() > 32 ==> r == Err::<(), Error>(
            Error::Encoding { label: "anim def activ prereq name", offset: 0 },
        ),
{
    match str_to_c_padded(name.as_str(), NAME_SIZE) {
        Some(slot) => {
            put_slot(rec, &slot);
            Ok(())
        },
        None => Err(Error::Encoding { label: "anim def activ prereq name", offset: 0 }),
    }
}

fn write_activ_prereq_anim(rec: &mut Vec<u32>, name: &String) -> (r: Result<()>)
    ensures
        match encode(ActivationPrereqView::Animation(name@)) {
            Ok(words) => r is Ok && final(rec)@ == old(rec)@ + words,
            Err(e) => r == Err::<(), Error>(e),
        },
{
    // always required, never optional
    rec.push(0);
    rec.push(ANIMATION);
    write_name(rec, name)?;
    rec.push(0);
    rec.push(0);
    proof {
        reveal(record_words);
        let v = ActivationPrereqView::Animation(name@);
        assert(rec@ =~= old(rec)@ + encode(v)->Ok_0);
    }
    Ok(())
}

fn write_activ_prereq_object(rec: &mut Vec<u32>, object: &PrereqObject, kind: u32) -> (r: Result<
    (),
>)
    requires
        kind == OBJECT || kind == PARENT,
    ensures
        match encode(
            if kind == OBJECT {
                ActivationPrereqView::Object(object@)
            } else {
                ActivationPrereqView::Parent(object@)
            },
        ) {
            Ok(words) => r is Ok && final(rec)@ == old(rec)@ + words,
            Err(e) => r == Err::<(), Error>(e),
        },
{
    rec.push(
        if object.required {
            0
        } else {
            1
        },
    );
    rec.push(kind);
    rec.push(
        if object.active {
            1
        } else {
            0
        },
    );
    write_name(rec, &object.name)?;
    rec.push(object.pointer);
    proof {
        reveal(record_words);
        let v = if kind == OBJECT {
            ActivationPrereqView::Object(object@)
        } else {
            ActivationPrereqView::Parent(object@)
        };
        assert(rec@ =~= old(rec)@ + encode(v)->Ok_0);
    }
    Ok(())
}

/// Writes a run of prerequisites, one behind the other.  Nothing is written
/// where one of them cannot be.
pub fn write_activ_prereqs(write: &mut Vec<u8>, activ_prereqs: &Vec<ActivationPrereq>) -> (r:
    Result<()>)
    ensures
        match encode_all(views(activ_prereqs@)) {
            Ok(words) => r is Ok && final(write)@ == old(write)@ + le_bytes(words),
            Err(e) => r == Err::<(), Error>(e) && final(write)@ == old(write)@,
        },
{
    let mut rec: Vec<u32> = Vec::new();
    let mut i: usize = 0;
    while i < activ_prereqs.len()
        invariant
            i <= activ_prereqs@.len(),
            encode_all(views(activ_prereqs@).take(i as int)) == Ok::<Seq<u32>, Error>(rec@),
        decreases activ_prereqs@.len() - i,
    {
        let ghost list = views(activ_prereqs@);
        proof {
            assert(list.take(i + 1).drop_last() =~= list.take(i as int));
            assert(list.take(i + 1).last() == activ_prereqs@[i as int]@);
        }
        let ghost all = views(activ_prereqs@);
        let r = match &activ_prereqs[i] {
            ActivationPrereq::Animation(name) => write_activ_prereq_anim(&mut rec, name),
            ActivationPrereq::Object(object) => write_activ_prereq_object(&mut rec, object, OBJECT),
            ActivationPrereq::Parent(object) => write_activ_prereq_object(&mut rec, object, PARENT),
        };
        if r.is_err() {
            proof {
                lemma_failure_stays(all, i + 1);
            }
            return r;
        }
        i = i + 1;
    }
    assert(views(activ_prereqs@).take(i as int) =~= views(activ_prereqs@));
    write.write_struct(&rec);
    Ok(())
}

/// Where the front of a run cannot be written, the run cannot be.
proof fn lemma_failure_stays(list: Seq<ActivationPrereqView>, n: int)
    requires
        0 <= n <= list.len(),
        encode_all(list.take(n)) is Err,
    ensures
        encode_all(list) == encode_all(list.take(n)),
    decreases list.len() - n,
{
    if n < list.len() {
        assert(list.take(n + 1).drop_last() =~= list.take(n));
        lemma_failure_stays(list, n + 1);
    } else {
        assert(list.take(n) =~= list);
    }
}

// What holds of the two directions together.
/// The values that a decoder can give: the name can be kept in its slot, a
/// pointer is not zero, and a parent is not active.
pub open spec fn legal(v: ActivationPrereqView) -> bool {
    &&& fits_slot(name_of(v), 32)
    &&& v matches ActivationPrereqView::Parent(object) ==> !object.active && object.pointer != 0
    &&& v matches ActivationPrereqView::Object(object) ==> object.pointer != 0
}

/// A prerequisite is written as 48 bytes, and a run of `n` of them that can
/// be written as `48 * n` bytes.
pub proof fn lemma_fixed_size(list: Seq<ActivationPrereqView>)
    requires
        encode_all(list) is Ok,
    ensures
        encode_all(list)->Ok_0.len() == 12 * list.len(),
        le_bytes(encode_all(list)->Ok_0).len() == 48 * list.len(),
    decreases list.len(),
{
    if list.len() > 0 {
        lemma_fixed_size(list.drop_last());
        let v = list.last();
        lemma_fields(v, c_padded(encode_utf8(name_of(v)), 32));
    }
}

/// The fields of a record that was laid out, each at its offset.
#[verifier::rlimit(40)]
pub proof fn lemma_fields(v: ActivationPrereqView, slot: Seq<u8>)
    requires
        slot.len() == 32,
    ensures
        ({
            let rec = record_words(v, slot);
            &&& rec.len() == 10
            &&& v is Animation ==> slot_at(rec, 0, 32) == slot && word_at(rec, 32) == 0 && word_at(
                rec,
                36,
            ) == 0
            &&& v matches ActivationPrereqView::Parent(object) ==> word_at(rec, 0) == bool_c(
                object.active,
            ) && slot_at(rec, 4, 32) == slot && word_at(rec, 36) == object.pointer
            &&& v matches ActivationPrereqView::Object(object) ==> word_at(rec, 0) == bool_c(
                object.active,
            ) && slot_at(rec, 4, 32) == slot && word_at(rec, 36) == object.pointer
        }),
{
    reveal(record_words);
    match v {
        ActivationPrereqView::Animation(_) => {
            crate::record::lemma_slot_between(Seq::empty(), slot, seq![0u32, 0u32]);
            assert(Seq::<u32>::empty() + le_words(slot) =~= le_words(slot));
        },
        ActivationPrereqView::Parent(object) => {
            crate::record::lemma_slot_between(
                seq![bool_c(object.active)],
                slot,
                seq![object.pointer],
            );
        },
        ActivationPrereqView::Object(object) => {
            crate::record::lemma_slot_between(
                seq![bool_c(object.active)],
                slot,
                seq![object.pointer],
            );
        },
    }
}

/// The record that was written for a legal prerequisite is decoded to it,
/// with the kind and the boolean that were written in front of it.
pub proof fn lemma_round_trip(v: ActivationPrereqView, base: int)
    requires
        legal(v),
    ensures
        encode(v) matches Ok(words) && words.len() == 12 && check_bool(
            "anim def activ prereq optional",
            words[0],
            base,
        ) == Ok::<bool, Error>(!required_of(v)) && words[1] == kind_of(v) && decode(
            words[1],
            required_of(v),
            words.skip(2),
            base,
        ) == Ok::<ActivationPrereqView, Error>(v),
{
    let slot = c_padded(encode_utf8(name_of(v)), 32);
    crate::string::lemma_slot_round_trip(name_of(v), 32);
    lemma_fields(v, slot);
    let words = encode(v)->Ok_0;
    assert(words.skip(2) =~= record_words(v, slot));
}

/// Whatever is decoded is legal.
pub proof fn lemma_decoded_is_legal(kind: u32, required: bool, rec: Seq<u32>, base: int)
    requires
        rec.len() == 10,
    ensures
        decode(kind, required, rec, base) matches Ok(v) ==> legal(v),
{
    let first = slot_at(rec, 0, 32);
    let second = slot_at(rec, 4, 32);
    assert(first.len() == 32);
    assert(second.len() == 32);
    if check_utf8("anim def activ prereq a name", base + 0, first) is Ok {
        crate::string::lemma_text_fits(first);
    }
    if check_utf8("anim def activ prereq p name", base + 4, second) is Ok {
        crate::string::lemma_text_fits(second);
    }
}

/// Every prerequisite of a run is legal.
pub open spec fn all_legal(list: Seq<ActivationPrereqView>) -> bool {
    forall|i: int| 0 <= i < list.len() ==> legal(#[trigger] list[i])
}

/// On a cursor whose next bytes are those of the twelve words of a
/// prerequisite, the three transfers are possible and give the words.
proof fn lemma_three_transfers(words: Seq<u32>, behind: Seq<u32>, read: CountingReader)
    requires
        words.len() == 12,
        read.holds_words(words + behind),
    ensures
        ({
            let at_kind = read.advanced(4);
            let at_record = at_kind.advanced(4);
            &&& read.can_take(4)
            &&& u32_le(read.remaining()) == words[0]
            &&& at_kind.can_take(4)
            &&& at_kind.offset == read.offset + 4
            &&& u32_le(at_kind.remaining()) == words[1]
            &&& at_record.can_take(40)
            &&& at_record.offset == read.offset + 8
            &&& le_words(at_record.remaining().take(40)) == words.skip(2)
            &&& at_record.after_take(40) == at_record.advanced(40)
            &&& at_record.advanced(40).holds_words(behind)
        }),
{
    let all = words + behind;
    let at_kind = read.advanced(4);
    let at_record = at_kind.advanced(4);
    read.lemma_holds_words(all, 1);
    at_kind.lemma_holds_words(all.skip(1), 1);
    at_record.lemma_holds_words(all.skip(1).skip(1), 10);
    assert(all.skip(1).skip(1).take(10) =~= words.skip(2));
    assert(all.skip(1).skip(1).skip(10) =~= behind);
    assert(all.skip(1)[0] == words[1]);
    assert(all[0] == words[0]);
}

/// Reading gives back what was written: on a cursor whose next bytes are
/// those that were written for a legal prerequisite, reading one
/// prerequisite gives that prerequisite and leaves the cursor behind it.
#[verifier::rlimit(40)]
pub proof fn lemma_read_back(v: ActivationPrereqView, behind: Seq<u32>, read: CountingReader)
    requires
        legal(v),
        encode(v) is Ok,
        read.holds_words(encode(v)->Ok_0 + behind),
    ensures
        prereq_result(read) == Ok::<ActivationPrereqView, Error>(v),
        after_prereq(read) == read.advanced(4).advanced(4).advanced(40),
        after_prereq(read).holds_words(behind),
{
    let words = encode(v)->Ok_0;
    let at_record = read.advanced(4).advanced(4);
    lemma_round_trip(v, at_record.offset as int);
    lemma_three_transfers(words, behind, read);
    reveal(prereq_result);
    reveal(after_prereq);
}

/// The words of a run begin with the words of its first prerequisite.
pub proof fn lemma_encode_all_front(list: Seq<ActivationPrereqView>)
    requires
        list.len() > 0,
        encode_all(list) is Ok,
    ensures
        encode(list[0]) is Ok,
        encode_all(list.drop_first()) is Ok,
        encode_all(list)->Ok_0 == encode(list[0])->Ok_0 + encode_all(list.drop_first())->Ok_0,
    decreases list.len(),
{
    let front = list.drop_last();
    if list.len() == 1 {
        assert(front =~= Seq::<ActivationPrereqView>::empty());
        assert(list.drop_first() =~= Seq::<ActivationPrereqView>::empty());
        assert(encode_all(list)->Ok_0 =~= encode(list[0])->Ok_0 + Seq::<u32>::empty());
    } else {
        lemma_encode_all_front(front);
        assert(front.drop_first() =~= list.drop_first().drop_last());
        assert(front[0] == list[0]);
        assert(list.drop_first().last() == list.last());
        assert(encode_all(list)->Ok_0 =~= encode(list[0])->Ok_0 + encode_all(
            list.drop_first(),
        )->Ok_0);
    }
}

/// Reading gives back what was written: on a cursor whose next bytes are
/// those that were written for a run of legal prerequisites, reading as
/// many prerequisites as the run has gives the run.
pub proof fn lemma_read_all_back(list: Seq<ActivationPrereqView>, read: CountingReader)
    requires
        all_legal(list),
        encode_all(list) is Ok,
        read.holds_words(encode_all(list)->Ok_0),
    ensures
        prereqs_result(read, list.len()) == Ok::<Seq<ActivationPrereqView>, Error>(list),
        after_prereqs(read, list.len()).holds_words(Seq::empty()),
    decreases list.len(),
{
    if list.len() == 0 {
        assert(list =~= Seq::<ActivationPrereqView>::empty());
    } else {
        let rest = list.drop_first();
        lemma_encode_all_front(list);
        lemma_one_more(read, list.len());
        lemma_read_back(list[0], encode_all(rest)->Ok_0, read);
        assert(all_legal(rest)) by {
            assert forall|i: int| 0 <= i < rest.len() implies legal(#[trigger] rest[i]) by {
                assert(rest[i] == list[i + 1]);
            }
        }
        lemma_read_all_back(rest, after_prereq(read));
        assert(seq![list[0]] + rest =~= list);
    }
}

} // verus!
