use mech3ax::anim_def::AnimDef;
use mech3ax::error::{Detail, Error};
use mech3ax::io_ext::CountingReader;
use mech3ax::sequence_event::object_motion_from_to::{
    FloatFromTo, ObjectMotionFromTo, ObjectMotionFromToFlags, Vec3FromTo, INDEX, MORPH, ROTATE,
    SCALE, SIZE, TRANSLATE,
};
use mech3ax::types::{Vec3, F32};

fn f(x: f32) -> F32 {
    F32::from_bits(x.to_bits())
}

fn triple(x: f32) -> Vec3FromTo {
    Vec3FromTo {
        from: Vec3(f(x), f(x + 1.0), f(x + 2.0)),
        to: Vec3(f(x + 3.0), f(x + 4.0), f(x + 5.0)),
        delta: Vec3(f(x + 6.0), f(x + 7.0), f(x + 8.0)),
    }
}

fn anim_def() -> AnimDef {
    AnimDef {
        nodes: ["n0", "n1", "n2"].iter().map(|s| s.to_string()).collect(),
        lights: vec![],
        sounds: vec![],
    }
}

fn put_u32(rec: &mut Vec<u8>, at: usize, value: u32) {
    rec[at..at + 4].copy_from_slice(&value.to_le_bytes());
}

fn put_f32(rec: &mut Vec<u8>, at: usize, value: f32) {
    rec[at..at + 4].copy_from_slice(&value.to_le_bytes());
}

fn plain() -> Vec<u8> {
    let mut rec = vec![0u8; 132];
    put_u32(&mut rec, 4, 1);
    put_f32(&mut rec, 128, 2.5);
    rec
}

fn plain_value() -> ObjectMotionFromTo {
    ObjectMotionFromTo {
        node: "n1".to_string(),
        run_time: f(2.5),
        morph: None,
        translate: None,
        rotate: None,
        scale: None,
    }
}

fn read(rec: Vec<u8>) -> Result<ObjectMotionFromTo, Error> {
    ObjectMotionFromTo::read(&mut CountingReader::new(rec), &anim_def(), SIZE)
}

fn written(value: &ObjectMotionFromTo) -> Vec<u8> {
    let mut out: Vec<u8> = Vec::new();
    value.write(&mut out, &anim_def()).unwrap();
    out
}

#[test]
fn from_to_tag_and_size() {
    assert_eq!(INDEX, 11);
    assert_eq!(SIZE, 132);
}

#[test]
fn from_to_plain_record() {
    assert_eq!(read(plain()), Ok(plain_value()));
    assert_eq!(written(&plain_value()), plain());
}

#[test]
fn from_to_full_round_trip() {
    let value = ObjectMotionFromTo {
        node: "n2".to_string(),
        run_time: f(1.0),
        morph: Some(FloatFromTo { from: f(0.0), to: f(1.0), delta: f(0.5) }),
        translate: Some(triple(10.0)),
        rotate: Some(triple(20.0)),
        scale: Some(triple(30.0)),
    };
    let bytes = written(&value);
    assert_eq!(bytes.len(), 132);
    assert_eq!(&bytes[0..8], &[15, 0, 0, 0, 2, 0, 0, 0]);
    assert_eq!(&bytes[12..16], &1.0f32.to_le_bytes());
    assert_eq!(&bytes[20..24], &10.0f32.to_le_bytes());
    assert_eq!(&bytes[52..56], &18.0f32.to_le_bytes());
    assert_eq!(&bytes[56..60], &20.0f32.to_le_bytes());
    assert_eq!(&bytes[92..96], &30.0f32.to_le_bytes());
    assert_eq!(&bytes[124..128], &38.0f32.to_le_bytes());
    assert_eq!(&bytes[128..132], &1.0f32.to_le_bytes());
    assert_eq!(read(bytes), Ok(value));
}

#[test]
fn from_to_each_group_round_trips_alone() {
    for (flag, at) in [(MORPH, 8usize), (TRANSLATE, 20), (ROTATE, 56), (SCALE, 92)] {
        let mut value = plain_value();
        match flag {
            MORPH => value.morph = Some(FloatFromTo { from: f(1.0), to: f(2.0), delta: f(3.0) }),
            TRANSLATE => value.translate = Some(triple(1.0)),
            ROTATE => value.rotate = Some(triple(1.0)),
            _ => value.scale = Some(triple(1.0)),
        }
        let bytes = written(&value);
        assert_eq!(&bytes[0..4], &flag.to_le_bytes());
        assert_eq!(&bytes[at..at + 4], &1.0f32.to_le_bytes());
        assert_eq!(read(bytes), Ok(value));
    }
}

#[test]
fn from_to_absent_groups_are_zero() {
    let bytes = written(&plain_value());
    assert_eq!(&bytes[0..4], &[0, 0, 0, 0]);
    assert!(bytes[8..128].iter().all(|b| *b == 0));
}

#[test]
fn from_to_absent_group_with_a_payload_is_refused() {
    for (at, label) in [
        (8, "object motion morph from"),
        (12, "object motion morph to"),
        (16, "object motion morph delta"),
    ] {
        let mut rec = plain();
        put_f32(&mut rec, at, 1.0);
        assert_eq!(
            read(rec),
            Err(Error::Assertion {
                label,
                offset: at as u32,
                detail: Detail::Zero { number: f(1.0) },
            }),
            "{}",
            label
        );
    }
    for (at, offset, label) in [
        (20, 20, "object motion translate.from"),
        (36, 32, "object motion translate to"),
        (52, 44, "object motion translate delta"),
        (56, 56, "object motion rotate from"),
        (68, 68, "object motion rotate to"),
        (80, 80, "object motion rotate delta"),
        (92, 92, "object motion scale from"),
        (104, 104, "object motion scale to"),
        (124, 116, "object motion scale delta"),
    ] {
        let mut rec = plain();
        put_f32(&mut rec, at, 1.0);
        let mut triple = [f(0.0); 3];
        triple[(at - offset as usize) / 4] = f(1.0);
        let triple = Vec3(triple[0], triple[1], triple[2]);
        assert_eq!(
            read(rec),
            Err(Error::Assertion { label, offset, detail: Detail::Empty { triple } }),
            "{}",
            label
        );
    }
}

#[test]
fn from_to_run_time_is_above_zero() {
    for run_time in [0.0f32, -1.0, f32::NAN] {
        let mut rec = plain();
        put_f32(&mut rec, 128, run_time);
        assert_eq!(
            read(rec),
            Err(Error::Assertion { label: "object motion from to runtime", offset: 128, detail: Detail::Condition })
        );
    }
}

#[test]
fn from_to_all_ones_flags_are_unknown() {
    let mut rec = plain();
    put_u32(&mut rec, 0, u32::MAX);
    let mut cursor = CountingReader::new(rec);
    cursor.offset = 12;
    assert_eq!(
        ObjectMotionFromTo::read(&mut cursor, &anim_def(), SIZE),
        Err(Error::UnknownDiscriminant {
            label: "object motion from to flags",
            value: u32::MAX,
            offset: 12
        })
    );
}

#[test]
fn from_to_flags_round_trip() {
    for word in 0..16u32 {
        assert_eq!(ObjectMotionFromToFlags::from_bits(word).unwrap().bits(), word);
    }
    assert_eq!(ObjectMotionFromToFlags::from_bits(16), None);
    let flags = ObjectMotionFromToFlags::from_bits(TRANSLATE | MORPH).unwrap();
    assert!(flags.translate && flags.morph && !flags.rotate && !flags.scale);
}

#[test]
fn from_to_node_and_size_and_transport() {
    let mut rec = plain();
    put_u32(&mut rec, 4, 3);
    assert_eq!(read(rec), Err(Error::Assertion { label: "node index", offset: 4, detail: Detail::Condition }));
    let mut rec = plain();
    rec.truncate(100);
    assert_eq!(read(rec), Err(Error::Transport));
    assert_eq!(
        ObjectMotionFromTo::read(&mut CountingReader::new(plain()), &anim_def(), 128),
        Err(Error::SizeMismatch {
            label: "object motion from to size",
            expected: 132,
            actual: 128,
            offset: 0
        })
    );
}

#[test]
fn from_to_unknown_node_is_not_written() {
    let mut value = plain_value();
    value.node = "x".to_string();
    let mut out: Vec<u8> = Vec::new();
    assert_eq!(
        value.write(&mut out, &anim_def()),
        Err(Error::Assertion { label: "node name", offset: 0, detail: Detail::Condition })
    );
    assert!(out.is_empty());
}
