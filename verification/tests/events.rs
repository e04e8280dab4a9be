use mech3ax::anim_def::AnimDef;
use mech3ax::error::{Detail, Error};
use mech3ax::io_ext::CountingReader;
use mech3ax::sequence_event::call_object_connector::CallObjectConnector;
use mech3ax::sequence_event::light_animation::LightAnimation;
use mech3ax::sequence_event::object_connector::ObjectConnector;
use mech3ax::sequence_event::object_motion::ObjectMotion;
use mech3ax::sequence_event::object_motion_from_to::ObjectMotionFromTo;
use mech3ax::sequence_event::object_opacity_state::ObjectOpacityState;
use mech3ax::sequence_event::{read_event, read_record, size_of, write_event, EventData, INPUT_NODE};
use mech3ax::types::{Vec2, Vec3, F32};

fn f(x: f32) -> F32 {
    F32::from_bits(x.to_bits())
}

fn anim_def() -> AnimDef {
    AnimDef {
        nodes: ["n0", "n1", "n2"].iter().map(|s| s.to_string()).collect(),
        lights: ["l0"].iter().map(|s| s.to_string()).collect(),
        sounds: ["s0"].iter().map(|s| s.to_string()).collect(),
    }
}

fn events() -> Vec<EventData> {
    vec![
        EventData::LightAnimation(LightAnimation {
            name: "l0".to_string(),
            range: Vec2(f(1.0), f(2.0)),
            color: Vec3(f(1.0), f(1.0), f(1.0)),
            runtime: f(1.0),
        }),
        EventData::ObjectMotion(ObjectMotion {
            node: "n1".to_string(),
            impact_force: true,
            gravity: None,
            translation_range_min: None,
            translation_range_max: None,
            translation: None,
            forward_rotation: None,
            xyz_rotation: None,
            scale: None,
            bounce_sequence: None,
            bounce_sound: None,
            runtime: Some(f(2.0)),
        }),
        EventData::ObjectMotionFromTo(ObjectMotionFromTo {
            node: "n2".to_string(),
            run_time: f(1.0),
            morph: None,
            translate: None,
            rotate: None,
            scale: None,
        }),
        EventData::ObjectOpacityState(ObjectOpacityState {
            node: "n0".to_string(),
            is_set: true,
            state: true,
            opacity: f(1.0),
        }),
        EventData::ObjectConnector(ObjectConnector {
            node: "n0".to_string(),
            from_node: Some("n1".to_string()),
            to_node: None,
            from_pos: None,
            to_pos: None,
            max_length: None,
        }),
        EventData::CallObjectConnector(CallObjectConnector {
            node: "beam".to_string(),
            from_node: "n2".to_string(),
            to_node: INPUT_NODE.to_string(),
            to_pos: Vec3(f(0.0), f(0.0), f(1.0)),
        }),
    ]
}

#[test]
fn registry_holds_the_six_kinds() {
    assert_eq!(size_of(5), Some(100));
    assert_eq!(size_of(10), Some(320));
    assert_eq!(size_of(11), Some(132));
    assert_eq!(size_of(13), Some(12));
    assert_eq!(size_of(18), Some(76));
    assert_eq!(size_of(19), Some(68));
    let known = (0..=255u8).filter(|index| size_of(*index).is_some()).count();
    assert_eq!(known, 6);
}

#[test]
fn chunk_is_tag_size_and_record() {
    let event = &events()[3];
    let mut out: Vec<u8> = Vec::new();
    write_event(&mut out, event, &anim_def()).unwrap();
    assert_eq!(out, vec![13, 12, 0, 0, 0, 1, 0, 1, 0, 0, 0, 0x80, 0x3F, 0, 0, 0, 0]);
}

#[test]
fn every_kind_has_its_fixed_size() {
    for event in events() {
        let mut out: Vec<u8> = Vec::new();
        write_event(&mut out, &event, &anim_def()).unwrap();
        let size = size_of(out[0]).unwrap();
        assert_eq!(out.len(), 5 + size as usize);
        assert_eq!(&out[1..5], &size.to_le_bytes());
    }
}

#[test]
fn stream_round_trip() {
    let mut out: Vec<u8> = Vec::new();
    for event in events() {
        write_event(&mut out, &event, &anim_def()).unwrap();
    }
    let len = out.len();
    let mut cursor = CountingReader::new(out);
    for event in events() {
        assert_eq!(read_event(&mut cursor, &anim_def()), Ok(event));
    }
    assert_eq!(cursor.offset as usize, len);
    assert_eq!(cursor.assert_end(), Ok(()));
    assert_eq!(read_event(&mut cursor, &anim_def()), Err(Error::Transport));
}

#[test]
fn unknown_tag_names_the_value_and_the_offset() {
    let mut cursor = CountingReader::new(vec![7, 12, 0, 0, 0, 0, 0, 0, 0, 0, 0, 0, 0, 0, 0, 0, 0]);
    cursor.offset = 30;
    assert_eq!(
        read_event(&mut cursor, &anim_def()),
        Err(Error::UnknownDiscriminant { label: "event type", value: 7, offset: 30 })
    );
    assert_eq!(cursor.offset, 31);
}

#[test]
fn declared_size_is_held_against_the_registry() {
    let mut bytes = vec![13, 16, 0, 0, 0];
    bytes.extend_from_slice(&[0; 16]);
    let mut cursor = CountingReader::new(bytes);
    cursor.offset = 30;
    assert_eq!(
        read_event(&mut cursor, &anim_def()),
        Err(Error::SizeMismatch { label: "event size", expected: 12, actual: 16, offset: 31 })
    );
    // no byte of the record has been transferred
    assert_eq!(cursor.offset, 35);
    assert_eq!(cursor.remaining_len(), 16);
}

#[test]
fn truncated_chunks_are_transport_errors() {
    let mut out: Vec<u8> = Vec::new();
    write_event(&mut out, &events()[3], &anim_def()).unwrap();
    for len in [0, 1, 4, 5, 16] {
        let mut cursor = CountingReader::new(out[..len].to_vec());
        assert_eq!(read_event(&mut cursor, &anim_def()), Err(Error::Transport), "{}", len);
    }
}

#[test]
fn errors_of_the_record_carry_the_offset_in_the_stream() {
    let mut out: Vec<u8> = vec![13, 12, 0, 0, 0, 1, 0, 0, 0, 0, 0, 0, 0x40, 0, 0, 0, 0];
    let mut cursor = CountingReader::new(out.clone());
    cursor.offset = 100;
    assert_eq!(
        read_event(&mut cursor, &anim_def()),
        Err(Error::Assertion {
            label: "object opacity state opacity",
            offset: 109,
            detail: Detail::Range { low: f(0.0), value: f(2.0), high: f(1.0) },
        })
    );
    assert_eq!(cursor.offset, 117);
    out[0] = 10;
    out[1] = 0x40;
    out[2] = 1;
    out[8] = 0x40;
    out.resize(325, 0xFF);
    let mut cursor = CountingReader::new(out);
    assert_eq!(
        read_event(&mut cursor, &anim_def()),
        Err(Error::UnknownDiscriminant {
            label: "object motion flags",
            value: 0x4000_0001,
            offset: 5
        })
    );
}

#[test]
fn event_that_cannot_be_written_writes_nothing() {
    let event = EventData::ObjectOpacityState(ObjectOpacityState {
        node: "nobody".to_string(),
        is_set: true,
        state: true,
        opacity: f(1.0),
    });
    let mut out: Vec<u8> = vec![42];
    assert_eq!(
        write_event(&mut out, &event, &anim_def()),
        Err(Error::Assertion { label: "node name", offset: 0, detail: Detail::Condition })
    );
    assert_eq!(out, vec![42]);
}

#[test]
fn read_record_checks_the_size_first() {
    let mut cursor = CountingReader::new(vec![1, 0, 0, 0, 2, 0, 0, 0]);
    assert_eq!(
        read_record(&mut cursor, "size", 8, 4),
        Err(Error::SizeMismatch { label: "size", expected: 8, actual: 4, offset: 0 })
    );
    assert_eq!(read_record(&mut cursor, "size", 8, 8), Ok(vec![1, 2]));
    assert_eq!(read_record(&mut cursor, "size", 4, 4), Err(Error::Transport));
}
