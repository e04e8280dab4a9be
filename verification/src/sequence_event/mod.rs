//! The events of an animation script: one module per kind of record, and the
//! registry that maps the tag of a chunk to its kind.
//!
//! A chunk is one byte of tag, four bytes of declared size, and the record.
//! Each kind has a tag and a fixed size; a chunk with an unknown tag, or with
//! a declared size other than the fixed size of its kind, is refused before
//! any field of the record is looked at.

pub mod call_object_connector;
pub mod light_animation;
pub mod object_connector;
pub mod object_motion;
pub mod object_motion_from_to;
pub mod object_opacity_state;

use crate::anim_def::{AnimDef, AnimDefView};
use crate::error::{Error, Result};
use crate::io_ext::{le_bytes, le_words, u32_bytes, u32_le, CountingReader, WriteHelper};
use crate::sequence_event::call_object_connector::{CallObjectConnector, CallObjectConnectorView};
use crate::sequence_event::light_animation::{LightAnimation, LightAnimationView};
use crate::sequence_event::object_connector::{ObjectConnector, ObjectConnectorView};
use crate::sequence_event::object_motion::{ObjectMotion, ObjectMotionView};
use crate::sequence_event::object_motion_from_to::{ObjectMotionFromTo, ObjectMotionFromToView};
use crate::sequence_event::object_opacity_state::{ObjectOpacityState, ObjectOpacityStateView};
use vstd::prelude::*;

verus! {

/// The name that stands for the node an event is applied to.
pub const INPUT_NODE: &'static str = "INPUT_NODE";

/// The size of the header of a chunk, in bytes.
pub const HEADER_SIZE: u32 = 5;

/// What the transfer of one record of `size` bytes gives, where the chunk
/// declares `declared` bytes: the record's words.  A declared size other
/// than the fixed size of the kind fails before any byte is transferred.
pub open spec fn record_of(read: CountingReader, label: &'static str, size: u32, declared: u32)
    -> Result<Seq<u32>> {
    if declared != size {
        Err(Error::SizeMismatch { label, expected: size, actual: declared, offset: read.offset })
    } else if !read.can_take(size as int) {
        Err(Error::Transport)
    } else {
        Ok(le_words(read.remaining().take(size as int)))
    }
}

/// The cursor after the transfer of one record of `size` bytes, where the
/// chunk declares `declared` bytes.
pub open spec fn after_record(
    after: CountingReader,
    before: CountingReader,
    size: u32,
    declared: u32,
) -> bool {
    if declared == size {
        after.took_if_possible(&before, size as int)
    } else {
        after == before
    }
}

/// Transfers one record of `size` bytes, after checking the declared size.
pub fn read_record(read: &mut CountingReader, label: &'static str, size: u32, declared: u32) -> (r:
    Result<Vec<u32>>)
    requires
        size % 4 == 0,
    ensures
        crate::error::view_ok(r) == record_of(*old(read), label, size, declared),
        after_record(*final(read), *old(read), size, declared),
        r matches Ok(rec) ==> rec@.len() * 4 == size && final(read).prev + size <= u32::MAX,
{
    if declared != size {
        return Err(
            Error::SizeMismatch { label, expected: size, actual: declared, offset: read.offset },
        );
    }
    read.read_struct(size)
}

/// One event of a script, of one of the kinds that are known.
#[derive(Clone, Debug, PartialEq, Eq)]
pub enum EventData {
    LightAnimation(LightAnimation),
    ObjectMotion(ObjectMotion),
    ObjectMotionFromTo(ObjectMotionFromTo),
    ObjectOpacityState(ObjectOpacityState),
    ObjectConnector(ObjectConnector),
    CallObjectConnector(CallObjectConnector),
}

pub enum EventDataView {
    LightAnimation(LightAnimationView),
    ObjectMotion(ObjectMotionView),
    ObjectMotionFromTo(ObjectMotionFromToView),
    ObjectOpacityState(ObjectOpacityStateView),
    ObjectConnector(ObjectConnectorView),
    CallObjectConnector(CallObjectConnectorView),
}

impl View for EventData {
    type V = EventDataView;

    open spec fn view(&self) -> EventDataView {
        match self {
            EventData::LightAnimation(e) => EventDataView::LightAnimation(e@),
            EventData::ObjectMotion(e) => EventDataView::ObjectMotion(e@),
            EventData::ObjectMotionFromTo(e) => EventDataView::ObjectMotionFromTo(e@),
            EventData::ObjectOpacityState(e) => EventDataView::ObjectOpacityState(e@),
            EventData::ObjectConnector(e) => EventDataView::ObjectConnector(e@),
            EventData::CallObjectConnector(e) => EventDataView::CallObjectConnector(e@),
        }
    }
}

/// The registry: the fixed size of the kind with tag `index`, or nothing
/// where no kind has that tag.
pub open spec fn spec_size_of(index: u8) -> Option<u32> {
    if index == light_animation::INDEX {
        Some(light_animation::SIZE)
    } else if index == object_motion::INDEX {
        Some(object_motion::SIZE)
    } else if index == object_motion_from_to::INDEX {
        Some(object_motion_from_to::SIZE)
    } else if index == object_opacity_state::INDEX {
        Some(object_opacity_state::SIZE)
    } else if index == object_connector::INDEX {
        Some(object_connector::SIZE)
    } else if index == call_object_connector::INDEX {
        Some(call_object_connector::SIZE)
    } else {
        None
    }
}

/// The registry: the fixed size of the kind with tag `index`, or nothing
/// where no kind has that tag.
#[verifier::when_used_as_spec(spec_size_of)]
pub fn size_of(index: u8) -> (r: Option<u32>)
    ensures
        r == spec_size_of(index),
{
    if index == light_animation::INDEX {
        Some(light_animation::SIZE)
    } else if index == object_motion::INDEX {
        Some(object_motion::SIZE)
    } else if index == object_motion_from_to::INDEX {
        Some(object_motion_from_to::SIZE)
    } else if index == object_opacity_state::INDEX {
        Some(object_opacity_state::SIZE)
    } else if index == object_connector::INDEX {
        Some(object_connector::SIZE)
    } else if index == call_object_connector::INDEX {
        Some(call_object_connector::SIZE)
    } else {
        None
    }
}

/// The tag of the kind of an event.
pub open spec fn index_of(v: EventDataView) -> u8 {
    match v {
        EventDataView::LightAnimation(_) => light_animation::INDEX,
        EventDataView::ObjectMotion(_) => object_motion::INDEX,
        EventDataView::ObjectMotionFromTo(_) => object_motion_from_to::INDEX,
        EventDataView::ObjectOpacityState(_) => object_opacity_state::INDEX,
        EventDataView::ObjectConnector(_) => object_connector::INDEX,
        EventDataView::CallObjectConnector(_) => call_object_connector::INDEX,
    }
}

/// What a record of the kind with tag `index` means, where it begins at byte
/// offset `base`.
pub open spec fn decode(index: u8, rec: Seq<u32>, ctx: AnimDefView, base: int)
    -> core::result::Result<EventDataView, Error> {
    if index == light_animation::INDEX {
        match light_animation::decode(rec, ctx, base) {
            Ok(e) => Ok(EventDataView::LightAnimation(e)),
            Err(e) => Err(e),
        }
    } else if index == object_motion::INDEX {
        match object_motion::decode(rec, ctx, base) {
            Ok(e) => Ok(EventDataView::ObjectMotion(e)),
            Err(e) => Err(e),
        }
    } else if index == object_motion_from_to::INDEX {
        match object_motion_from_to::decode(rec, ctx, base) {
            Ok(e) => Ok(EventDataView::ObjectMotionFromTo(e)),
            Err(e) => Err(e),
        }
    } else if index == object_opacity_state::INDEX {
        match object_opacity_state::decode(rec, ctx, base) {
            Ok(e) => Ok(EventDataView::ObjectOpacityState(e)),
            Err(e) => Err(e),
        }
    } else if index == object_connector::INDEX {
        match object_connector::decode(rec, ctx, base) {
            Ok(e) => Ok(EventDataView::ObjectConnector(e)),
            Err(e) => Err(e),
        }
    } else {
        match call_object_connector::decode(rec, ctx, base) {
            Ok(e) => Ok(EventDataView::CallObjectConnector(e)),
            Err(e) => Err(e),
        }
    }
}

/// The record that an event is written as.
pub open spec fn encode(v: EventDataView, ctx: AnimDefView) -> Result<Seq<u32>> {
    match v {
        EventDataView::LightAnimation(e) => light_animation::encode(e, ctx),
        EventDataView::ObjectMotion(e) => object_motion::encode(e, ctx),
        EventDataView::ObjectMotionFromTo(e) => object_motion_from_to::encode(e, ctx),
        EventDataView::ObjectOpacityState(e) => object_opacity_state::encode(e, ctx),
        EventDataView::ObjectConnector(e) => object_connector::encode(e, ctx),
        EventDataView::CallObjectConnector(e) => call_object_connector::encode(e, ctx),
    }
}

/// The values that a decoder can give.
pub open spec fn legal(v: EventDataView) -> bool {
    match v {
        EventDataView::LightAnimation(e) => light_animation::legal(e),
        EventDataView::ObjectMotion(e) => object_motion::legal(e),
        EventDataView::ObjectMotionFromTo(e) => object_motion_from_to::legal(e),
        EventDataView::ObjectOpacityState(e) => object_opacity_state::legal(e),
        EventDataView::ObjectConnector(e) => object_connector::legal(e),
        EventDataView::CallObjectConnector(e) => call_object_connector::legal(e),
    }
}

/// What `read_event` gives on a cursor in state `read`: the tag is read
/// and looked up, then the declared size is read and held against the fixed
/// size of the kind, and only then the record is transferred and decoded.
pub open spec fn read_event_result(read: CountingReader, ctx: AnimDefView)
    -> core::result::Result<EventDataView, Error> {
    if !read.can_take(1) {
        Err(Error::Transport)
    } else {
        let index = read.remaining()[0];
        let at_size = read.advanced(1);
        match spec_size_of(index) {
            None => Err(
                Error::UnknownDiscriminant {
                    label: "event type",
                    value: index as u32,
                    offset: read.offset,
                },
            ),
            Some(size) => if !at_size.can_take(4) {
                Err(Error::Transport)
            } else {
                let declared = u32_le(at_size.remaining());
                let at_record = at_size.advanced(4);
                if declared != size {
                    Err(
                        Error::SizeMismatch {
                            label: "event size",
                            expected: size,
                            actual: declared,
                            offset: at_size.offset,
                        },
                    )
                } else if !at_record.can_take(size as int) {
                    Err(Error::Transport)
                } else {
                    decode(
                        index,
                        le_words(at_record.remaining().take(size as int)),
                        ctx,
                        at_record.offset as int,
                    )
                }
            },
        }
    }
}

/// The cursor after `read_event`: behind whatever was transferred, which is
/// the tag, the declared size where the tag is known, and the record where
/// the declared size is right.
pub open spec fn after_event(read: CountingReader) -> CountingReader {
    if !read.can_take(1) {
        read
    } else {
        let at_size = read.advanced(1);
        match spec_size_of(read.remaining()[0]) {
            None => at_size,
            Some(size) => if !at_size.can_take(4) {
                at_size
            } else if u32_le(at_size.remaining()) != size {
                at_size.advanced(4)
            } else {
                at_size.advanced(4).after_take(size as int)
            },
        }
    }
}

/// Reads one chunk: the header, and the record of the kind that the tag
/// names.
pub fn read_event(read: &mut CountingReader, anim_def: &AnimDef) -> (r: Result<EventData>)
    ensures
        crate::error::view_ok(r) == read_event_result(*old(read), anim_def@),
        *final(read) == after_event(*old(read)),
{
    let start = read.offset;
    let index = read.read_u8()?;
    let size = match size_of(index) {
        Some(size) => size,
        None => {
            return Err(
                Error::UnknownDiscriminant {
                    label: "event type",
                    value: index as u32,
                    offset: start,
                },
            );
        },
    };
    let declared = read.read_u32()?;
    if declared != size {
        return Err(
            Error::SizeMismatch {
                label: "event size",
                expected: size,
                actual: declared,
                offset: read.prev,
            },
        );
    }
    if index == light_animation::INDEX {
        Ok(EventData::LightAnimation(LightAnimation::read(read, anim_def, declared)?))
    } else if index == object_motion::INDEX {
        Ok(EventData::ObjectMotion(ObjectMotion::read(read, anim_def, declared)?))
    } else if index == object_motion_from_to::INDEX {
        Ok(EventData::ObjectMotionFromTo(ObjectMotionFromTo::read(read, anim_def, declared)?))
    } else if index == object_opacity_state::INDEX {
        Ok(EventData::ObjectOpacityState(ObjectOpacityState::read(read, anim_def, declared)?))
    } else if index == object_connector::INDEX {
        Ok(EventData::ObjectConnector(ObjectConnector::read(read, anim_def, declared)?))
    } else {
        Ok(EventData::CallObjectConnector(CallObjectConnector::read(read, anim_def, declared)?))
    }
}

/// The bytes that an event is written as: the tag, the fixed size of its
/// kind, and the record.
pub open spec fn chunk_bytes(v: EventDataView, ctx: AnimDefView) -> Result<Seq<u8>> {
    match encode(v, ctx) {
        Err(e) => Err(e),
        Ok(rec) => Ok(seq![index_of(v)] + u32_bytes(spec_size_of(index_of(v))->Some_0) + le_bytes(rec)),
    }
}

/// Writes one chunk.  Nothing is written where the record cannot be.
pub fn write_event(write: &mut Vec<u8>, event: &EventData, anim_def: &AnimDef) -> (r: Result<()>)
    ensures
        match chunk_bytes(event@, anim_def@) {
            Ok(bytes) => r is Ok && final(write)@ == old(write)@ + bytes,
            Err(e) => r == Err::<(), Error>(e) && final(write)@ == old(write)@,
        },
{
    let mut record: Vec<u8> = Vec::new();
    let (index, size) = match event {
        EventData::LightAnimation(e) => {
            e.write(&mut record, anim_def)?;
            (light_animation::INDEX, light_animation::SIZE)
        },
        EventData::ObjectMotion(e) => {
            e.write(&mut record, anim_def)?;
            (object_motion::INDEX, object_motion::SIZE)
        },
        EventData::ObjectMotionFromTo(e) => {
            e.write(&mut record, anim_def)?;
            (object_motion_from_to::INDEX, object_motion_from_to::SIZE)
        },
        EventData::ObjectOpacityState(e) => {
            e.write(&mut record, anim_def)?;
            (object_opacity_state::INDEX, object_opacity_state::SIZE)
        },
        EventData::ObjectConnector(e) => {
            e.write(&mut record, anim_def)?;
            (object_connector::INDEX, object_connector::SIZE)
        },
        EventData::CallObjectConnector(e) => {
            e.write(&mut record, anim_def)?;
            (call_object_connector::INDEX, call_object_connector::SIZE)
        },
    };
    write.push(index);
    write.write_u32(size);
    write.write_bytes(&record);
    proof {
        let rec = encode(event@, anim_def@)->Ok_0;
        assert(record@ =~= le_bytes(rec));
        assert(write@ =~= old(write)@ + (seq![index] + u32_bytes(size) + le_bytes(rec)));
    }
    Ok(())
}

/// Whatever is written has the fixed size of its kind, behind a header of
/// five bytes.
pub proof fn lemma_fixed_size(v: EventDataView, ctx: AnimDefView)
    requires
        encode(v, ctx) is Ok,
    ensures
        spec_size_of(index_of(v)) is Some,
        le_bytes(encode(v, ctx)->Ok_0).len() == spec_size_of(index_of(v))->Some_0,
        chunk_bytes(v, ctx) is Ok,
        chunk_bytes(v, ctx)->Ok_0.len() == HEADER_SIZE + spec_size_of(index_of(v))->Some_0,
{
    match v {
        EventDataView::LightAnimation(e) => light_animation::lemma_fixed_size(e, ctx),
        EventDataView::ObjectMotion(e) => object_motion::lemma_fixed_size(e, ctx),
        EventDataView::ObjectMotionFromTo(e) => object_motion_from_to::lemma_fixed_size(e, ctx),
        EventDataView::ObjectOpacityState(e) => object_opacity_state::lemma_fixed_size(e, ctx),
        EventDataView::ObjectConnector(e) => object_connector::lemma_fixed_size(e, ctx),
        EventDataView::CallObjectConnector(e) => call_object_connector::lemma_fixed_size(e, ctx),
    }
}

/// The record that was written for a legal event is decoded to that event
/// under the tag of its kind, wherever it begins.
pub proof fn lemma_round_trip(v: EventDataView, ctx: AnimDefView, base: int)
    requires
        legal(v),
        encode(v, ctx) is Ok,
    ensures
        decode(index_of(v), encode(v, ctx)->Ok_0, ctx, base) == Ok::<EventDataView, Error>(v),
{
    match v {
        EventDataView::LightAnimation(e) => light_animation::lemma_round_trip(e, ctx, base),
        EventDataView::ObjectMotion(e) => object_motion::lemma_round_trip(e, ctx, base),
        EventDataView::ObjectMotionFromTo(e) => object_motion_from_to::lemma_round_trip(
            e,
            ctx,
            base,
        ),
        EventDataView::ObjectOpacityState(e) => object_opacity_state::lemma_round_trip(
            e,
            ctx,
            base,
        ),
        EventDataView::ObjectConnector(e) => object_connector::lemma_round_trip(e, ctx, base),
        EventDataView::CallObjectConnector(e) => call_object_connector::lemma_round_trip(
            e,
            ctx,
            base,
        ),
    }
}

/// Reading gives back what was written: on a cursor whose next bytes are
/// the chunk that was written for a legal event, `read_event` gives that
/// event and leaves the cursor behind the chunk.
#[verifier::rlimit(40)]
pub proof fn lemma_chunk_round_trip(v: EventDataView, ctx: AnimDefView, read: CountingReader)
    requires
        legal(v),
        chunk_bytes(v, ctx) is Ok,
        chunk_bytes(v, ctx)->Ok_0.len() <= read.remaining().len(),
        read.remaining().take(chunk_bytes(v, ctx)->Ok_0.len() as int) == chunk_bytes(v, ctx)->Ok_0,
        read.offset + chunk_bytes(v, ctx)->Ok_0.len() <= u32::MAX,
    ensures
        read_event_result(read, ctx) == Ok::<EventDataView, Error>(v),
        after_event(read) == read.advanced(1).advanced(4).advanced(
            spec_size_of(index_of(v))->Some_0 as int,
        ),
{
    let bytes = chunk_bytes(v, ctx)->Ok_0;
    let rec = encode(v, ctx)->Ok_0;
    let size = spec_size_of(index_of(v))->Some_0;
    let words = seq![size] + rec;
    lemma_fixed_size(v, ctx);
    crate::io_ext::lemma_le_words_of_bytes(rec);
    let rest = read.remaining();
    assert(rest[0] == rest.take(bytes.len() as int)[0]);
    read.lemma_advanced(1);
    let at_size = read.advanced(1);
    assert(at_size.holds_words(words)) by {
        lemma_chunk_words(size, rec);
        assert(at_size.remaining().take(4 * (words.len() as int)) =~= bytes.skip(1));
    }
    at_size.lemma_holds_words(words, 1);
    let at_record = at_size.advanced(4);
    assert(words.skip(1) =~= rec);
    at_record.lemma_holds_words(rec, rec.len() as int);
    assert(rec.take(rec.len() as int) =~= rec);
    lemma_round_trip(v, ctx, at_record.offset as int);
}

/// The bytes behind the tag of a chunk are the bytes of its size and of its
/// record, word by word.
proof fn lemma_chunk_words(size: u32, rec: Seq<u32>)
    ensures
        le_bytes(seq![size] + rec) == u32_bytes(size) + le_bytes(rec),
        forall|tag: u8|
            (#[trigger] (seq![tag] + u32_bytes(size)) + le_bytes(rec)).skip(1) == u32_bytes(size)
                + le_bytes(rec),
{
    assert(le_bytes(seq![size] + rec) =~= u32_bytes(size) + le_bytes(rec));
    assert forall|tag: u8|
        (#[trigger] (seq![tag] + u32_bytes(size)) + le_bytes(rec)).skip(1) == u32_bytes(size)
            + le_bytes(rec) by {
        assert(((seq![tag] + u32_bytes(size)) + le_bytes(rec)).skip(1) =~= u32_bytes(size)
            + le_bytes(rec));
    }
}

} // verus!
