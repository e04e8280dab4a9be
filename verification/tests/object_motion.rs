use mech3ax::anim_def::AnimDef;
use mech3ax::error::{Detail, Error};
use mech3ax::io_ext::CountingReader;
use mech3ax::sequence_event::object_motion::{
    BounceSound, ForwardRotation, Gravity, GravityMode, ObjectMotion, ObjectMotionFlags,
    BOUNCE_SEQ, BOUNCE_SOUND, FORWARD_ROTATION_DISTANCE, FORWARD_ROTATION_TIME, GRAVITY,
    GRAVITY_COMPLEX, GRAVITY_NO_ALTITUDE, IMPACT_FORCE, INDEX, RUNTIME, SCALE, SIZE, TRANSLATION,
    TRANSLATION_MAX, TRANSLATION_MIN, XYZ_ROTATION,
};
use mech3ax::types::{Vec3, Vec4, F32};

fn f(x: f32) -> F32 {
    F32::from_bits(x.to_bits())
}

fn v3(x: f32, y: f32, z: f32) -> Vec3 {
    Vec3(f(x), f(y), f(z))
}

fn names(list: &[&str]) -> Vec<String> {
    list.iter().map(|s| s.to_string()).collect()
}

fn anim_def() -> AnimDef {
    AnimDef {
        nodes: names(&["n0", "n1", "n2", "n3", "n4", "n5"]),
        lights: names(&["l0", "l1"]),
        sounds: names(&["s0", "s1", "s2"]),
    }
}

fn put_u32(rec: &mut Vec<u8>, at: usize, value: u32) {
    rec[at..at + 4].copy_from_slice(&value.to_le_bytes());
}

fn put_u16(rec: &mut Vec<u8>, at: usize, value: u16) {
    rec[at..at + 2].copy_from_slice(&value.to_le_bytes());
}

fn put_f32(rec: &mut Vec<u8>, at: usize, value: f32) {
    rec[at..at + 4].copy_from_slice(&value.to_le_bytes());
}

fn put_name(rec: &mut Vec<u8>, at: usize, name: &str) {
    rec[at..at + name.len()].copy_from_slice(name.as_bytes());
}

/// The record of a motion of node 2 with no group at all.
fn plain() -> Vec<u8> {
    let mut rec = vec![0u8; 320];
    put_u32(&mut rec, 4, 2);
    put_u16(&mut rec, 228, 0xFFFF);
    put_u16(&mut rec, 268, 0xFFFF);
    put_u16(&mut rec, 308, 0xFFFF);
    rec
}

fn plain_value() -> ObjectMotion {
    ObjectMotion {
        node: "n2".to_string(),
        impact_force: false,
        gravity: None,
        translation_range_min: None,
        translation_range_max: None,
        translation: None,
        forward_rotation: None,
        xyz_rotation: None,
        scale: None,
        bounce_sequence: None,
        bounce_sound: None,
        runtime: None,
    }
}

fn full_value() -> ObjectMotion {
    ObjectMotion {
        node: "n4".to_string(),
        impact_force: true,
        gravity: Some(Gravity { mode: GravityMode::Complex, value: f(-9.8) }),
        translation_range_min: Some(Vec4(f(1.0), f(2.0), f(3.0), f(4.0))),
        translation_range_max: Some(Vec4(f(5.0), f(6.0), f(7.0), f(8.0))),
        translation: Some((v3(1.0, 2.0, 3.0), v3(4.0, 5.0, 6.0), v3(7.0, 8.0, 9.0))),
        forward_rotation: Some(ForwardRotation::Time(f(0.25), f(0.75))),
        xyz_rotation: Some((v3(0.1, 0.2, 0.3), v3(0.4, 0.5, 0.6))),
        scale: Some((v3(1.5, 2.5, 3.5), v3(4.5, 5.5, 6.5))),
        bounce_sequence: Some((Some("first".to_string()), None, Some("third".to_string()))),
        bounce_sound: Some(BounceSound { name: "s2".to_string(), volume: f(0.5) }),
        runtime: Some(f(12.0)),
    }
}

fn read(rec: Vec<u8>) -> Result<ObjectMotion, Error> {
    let mut cursor = CountingReader::new(rec);
    ObjectMotion::read(&mut cursor, &anim_def(), SIZE)
}

fn written(value: &ObjectMotion) -> Vec<u8> {
    let mut out: Vec<u8> = Vec::new();
    value.write(&mut out, &anim_def()).unwrap();
    out
}

fn differs<T>(label: &'static str, actual: u32, expected: u32, offset: u32) -> Result<T, Error> {
    Err(Error::Assertion { label, offset, detail: Detail::Equal { actual, expected } })
}

fn not_zero<T>(label: &'static str, value: f32, offset: u32) -> Result<T, Error> {
    Err(Error::Assertion {
        label,
        offset,
        detail: Detail::Zero { number: F32::from_bits(value.to_bits()) },
    })
}

/// The error of a triple at `offset` whose component at `at` is `value`.
fn not_empty<T>(label: &'static str, at: usize, value: f32, offset: u32) -> Result<T, Error> {
    let mut triple = [0.0f32; 3];
    triple[(at - offset as usize) / 4] = value;
    Err(Error::Assertion {
        label,
        offset,
        detail: Detail::Empty {
            triple: Vec3(
                F32::from_bits(triple[0].to_bits()),
                F32::from_bits(triple[1].to_bits()),
                F32::from_bits(triple[2].to_bits()),
            ),
        },
    })
}

fn broken(label: &'static str, offset: u32) -> Result<ObjectMotion, Error> {
    Err(Error::Assertion { label, offset, detail: Detail::Condition })
}

#[test]
fn tag_and_size() {
    assert_eq!(INDEX, 10);
    assert_eq!(SIZE, 320);
}

#[test]
fn plain_record_is_read() {
    assert_eq!(read(plain()), Ok(plain_value()));
}

#[test]
fn plain_value_is_written_as_the_plain_record() {
    assert_eq!(written(&plain_value()), plain());
}

#[test]
fn full_value_round_trip() {
    let value = full_value();
    let bytes = written(&value);
    assert_eq!(bytes.len(), 320);
    assert_eq!(read(bytes), Ok(value));
}

#[test]
fn full_value_is_laid_out_field_by_field() {
    let bytes = written(&full_value());
    let word = |at: usize| u32::from_le_bytes([bytes[at], bytes[at + 1], bytes[at + 2], bytes[at + 3]]);
    let number = |at: usize| f32::from_bits(word(at));
    assert_eq!(
        word(0),
        GRAVITY | IMPACT_FORCE | TRANSLATION | TRANSLATION_MIN | TRANSLATION_MAX | XYZ_ROTATION
            | FORWARD_ROTATION_TIME | SCALE | RUNTIME | BOUNCE_SEQ | BOUNCE_SOUND | GRAVITY_COMPLEX
    );
    assert_eq!(word(4), 4);
    assert_eq!(word(8), 0);
    assert_eq!(number(12), -9.8);
    assert_eq!(word(16), 0);
    assert_eq!(number(20), 1.0);
    assert_eq!(number(24), 5.0);
    assert_eq!(number(28), 2.0);
    assert_eq!(number(32), 6.0);
    assert_eq!(number(36), 3.0);
    assert_eq!(number(40), 7.0);
    assert_eq!(number(44), 4.0);
    assert_eq!(number(48), 8.0);
    assert_eq!((number(52), number(56), number(60)), (1.0, 2.0, 3.0));
    assert_eq!((number(64), number(68), number(72)), (4.0, 5.0, 6.0));
    assert!(bytes[76..100].iter().all(|b| *b == 0));
    assert_eq!((number(100), number(104), number(108)), (7.0, 8.0, 9.0));
    assert_eq!((number(112), number(116), word(120)), (0.25, 0.75, 0));
    assert_eq!((number(124), number(128), number(132)), (0.1, 0.2, 0.3));
    assert_eq!((number(136), number(140), number(144)), (0.4, 0.5, 0.6));
    assert!(bytes[148..160].iter().all(|b| *b == 0));
    assert_eq!((number(160), number(164), number(168)), (1.5, 2.5, 3.5));
    assert_eq!((number(172), number(176), number(180)), (4.5, 5.5, 6.5));
    assert!(bytes[184..196].iter().all(|b| *b == 0));
    assert_eq!(&bytes[196..201], b"first");
    assert!(bytes[201..228].iter().all(|b| *b == 0));
    assert_eq!(&bytes[228..232], &[0xFF, 0xFF, 2, 0]);
    assert_eq!(number(232), 0.5);
    assert!(bytes[236..268].iter().all(|b| *b == 0));
    assert_eq!(&bytes[268..276], &[0xFF, 0xFF, 0, 0, 0, 0, 0, 0]);
    assert_eq!(&bytes[276..281], b"third");
    assert!(bytes[281..308].iter().all(|b| *b == 0));
    assert_eq!(&bytes[308..316], &[0xFF, 0xFF, 0, 0, 0, 0, 0, 0]);
    assert_eq!(number(316), 12.0);
}

#[test]
fn each_group_round_trips_alone() {
    let mut values = Vec::new();
    for mode in [GravityMode::Local, GravityMode::Complex, GravityMode::NoAltitude] {
        let mut value = plain_value();
        value.gravity = Some(Gravity { mode, value: f(0.0) });
        values.push(value);
    }
    let mut value = plain_value();
    value.impact_force = true;
    values.push(value);
    let mut value = plain_value();
    value.translation_range_min = Some(Vec4(f(0.0), f(0.0), f(0.0), f(0.0)));
    values.push(value);
    let mut value = plain_value();
    value.translation_range_max = Some(Vec4(f(-1.0), f(f32::NAN), f(0.0), f(3.0)));
    values.push(value);
    let mut value = plain_value();
    value.translation = Some((v3(0.0, 0.0, 0.0), v3(0.0, 0.0, 0.0), v3(0.0, 0.0, 0.0)));
    values.push(value);
    let mut value = plain_value();
    value.forward_rotation = Some(ForwardRotation::Distance(f(2.0)));
    values.push(value);
    let mut value = plain_value();
    value.forward_rotation = Some(ForwardRotation::Time(f(0.0), f(0.0)));
    values.push(value);
    let mut value = plain_value();
    value.xyz_rotation = Some((v3(1.0, 0.0, 0.0), v3(0.0, 0.0, 1.0)));
    values.push(value);
    let mut value = plain_value();
    value.scale = Some((v3(1.0, 1.0, 1.0), v3(0.0, 0.0, 0.0)));
    values.push(value);
    let mut value = plain_value();
    value.bounce_sequence = Some((
        Some("a".to_string()),
        Some("exactly_thirty_two_bytes_long_ab".to_string()),
        Some("c".to_string()),
    ));
    values.push(value);
    let mut value = plain_value();
    value.bounce_sound = Some(BounceSound { name: "s0".to_string(), volume: f(f32::INFINITY) });
    values.push(value);
    let mut value = plain_value();
    value.runtime = Some(f(f32::MIN_POSITIVE));
    values.push(value);
    for value in values {
        let bytes = written(&value);
        assert_eq!(bytes.len(), 320);
        assert_eq!(read(bytes), Ok(value));
    }
}

#[test]
fn declared_size_has_to_be_the_fixed_size() {
    let mut cursor = CountingReader::new(plain());
    cursor.offset = 40;
    assert_eq!(
        ObjectMotion::read(&mut cursor, &anim_def(), 316),
        Err(Error::SizeMismatch {
            label: "object motion size",
            expected: 320,
            actual: 316,
            offset: 40
        })
    );
    assert_eq!(cursor.offset, 40);
    assert_eq!(cursor.remaining_len(), 320);
}

#[test]
fn short_record_is_a_transport_error() {
    let mut rec = plain();
    rec.pop();
    assert_eq!(read(rec), Err(Error::Transport));
}

#[test]
fn record_is_consumed_even_if_it_is_refused() {
    let mut rec = plain();
    put_f32(&mut rec, 8, 1.0);
    rec.push(7);
    let mut cursor = CountingReader::new(rec);
    cursor.offset = 1000;
    assert_eq!(
        ObjectMotion::read(&mut cursor, &anim_def(), SIZE),
        not_zero("object motion field 008", 1.0, 1008)
    );
    assert_eq!(cursor.offset, 1320);
    assert_eq!(cursor.prev, 1000);
    assert_eq!(cursor.remaining_len(), 1);
}

#[test]
fn all_ones_flags_are_unknown() {
    let mut rec = plain();
    put_u32(&mut rec, 0, 0xFFFF_FFFF);
    let mut cursor = CountingReader::new(rec);
    cursor.offset = 64;
    assert_eq!(
        ObjectMotion::read(&mut cursor, &anim_def(), SIZE),
        Err(Error::UnknownDiscriminant {
            label: "object motion flags",
            value: 0xFFFF_FFFF,
            offset: 64
        })
    );
}

#[test]
fn a_flag_without_a_name_is_unknown() {
    for bit in [1u32 << 9, 1 << 15, 1 << 31] {
        let mut rec = plain();
        put_u32(&mut rec, 0, bit | IMPACT_FORCE);
        assert_eq!(
            read(rec),
            Err(Error::UnknownDiscriminant {
                label: "object motion flags",
                value: bit | IMPACT_FORCE,
                offset: 0
            })
        );
    }
}

#[test]
fn flags_round_trip() {
    let all = GRAVITY
        | IMPACT_FORCE
        | TRANSLATION
        | TRANSLATION_MIN
        | TRANSLATION_MAX
        | XYZ_ROTATION
        | FORWARD_ROTATION_DISTANCE
        | FORWARD_ROTATION_TIME
        | SCALE
        | RUNTIME
        | BOUNCE_SEQ
        | BOUNCE_SOUND
        | GRAVITY_COMPLEX
        | GRAVITY_NO_ALTITUDE;
    assert_eq!(all, 0x7DFF);
    for word in [0, GRAVITY, RUNTIME, GRAVITY_NO_ALTITUDE | SCALE, all] {
        let flags = ObjectMotionFlags::from_bits(word).unwrap();
        assert_eq!(flags.bits(), word);
    }
    let flags = ObjectMotionFlags::from_bits(RUNTIME | BOUNCE_SEQ).unwrap();
    assert!(flags.runtime && flags.bounce_seq && !flags.gravity && !flags.bounce_sound);
    assert_eq!(ObjectMotionFlags::from_bits(512), None);
    assert_eq!(ObjectMotionFlags::from_bits(u32::MAX), None);
}

#[test]
fn node_index_has_to_be_in_the_table() {
    let mut rec = plain();
    put_u32(&mut rec, 4, 6);
    assert_eq!(read(rec), broken("node index", 4));
}

#[test]
fn fields_that_are_always_zero() {
    for (at, label) in [
        (8, "object motion field 008"),
        (16, "object motion field 016"),
        (120, "object motion field 120"),
        (272, "object motion bounce snd 1 vol"),
        (312, "object motion bounce snd 2 vol"),
    ] {
        let mut rec = plain();
        put_f32(&mut rec, at, 1.5);
        put_u32(&mut rec, 0, IMPACT_FORCE);
        assert_eq!(read(rec), not_zero(label, 1.5, at as u32), "{}", label);
    }
    for (at, label, offset) in [
        (76, "object motion trans delta copy", 76),
        (92, "object motion trans initial copy", 88),
        (156, "object motion xyz rot copy", 148),
        (184, "object motion scale copy", 184),
    ] {
        let mut rec = plain();
        put_f32(&mut rec, at, 1.5);
        assert_eq!(read(rec), not_empty(label, at, 1.5, offset), "{}", label);
    }
    for (at, label) in
        [(270, "object motion bounce snd 1 index"), (310, "object motion bounce snd 2 index")]
    {
        let mut rec = plain();
        put_u16(&mut rec, at, 1);
        assert_eq!(read(rec), differs(label, 1, 0, at as u32), "{}", label);
    }
}

#[test]
fn minus_zero_is_zero() {
    let mut rec = plain();
    for at in [8, 12, 16, 20, 52, 76, 112, 120, 160, 232, 316] {
        put_f32(&mut rec, at, -0.0);
    }
    assert_eq!(read(rec), Ok(plain_value()));
}

#[test]
fn sentinels_are_minus_one() {
    for (at, label) in [
        (228, "object motion bounce seq 0 sentinel"),
        (268, "object motion bounce seq 1 sentinel"),
        (308, "object motion bounce seq 2 sentinel"),
    ] {
        let mut rec = plain();
        put_u16(&mut rec, at, 7);
        assert_eq!(read(rec), differs(label, 7, 0xFFFF, at as u32), "{}", label);
    }
}

#[test]
fn absent_group_with_a_payload_is_refused() {
    for (at, label) in [
        (12, "object motion gravity value"),
        (20, "object motion trans range min 1"),
        (28, "object motion trans range min 2"),
        (36, "object motion trans range min 3"),
        (44, "object motion trans range min 4"),
        (24, "object motion trans range max 1"),
        (32, "object motion trans range max 2"),
        (40, "object motion trans range max 3"),
        (48, "object motion trans range max 4"),
        (112, "object motion fwd rot 1"),
        (116, "object motion fwd rot 2"),
        (232, "object motion bounce snd 0 vol"),
        (316, "object motion runtime"),
    ] {
        let mut rec = plain();
        put_f32(&mut rec, at, -2.0);
        assert_eq!(read(rec), not_zero(label, -2.0, at as u32), "{}", label);
    }
    for (at, label, offset) in [
        (52, "object motion trans delta", 52),
        (68, "object motion trans initial", 64),
        (108, "object motion field 100", 100),
        (124, "object motion xyz rot", 124),
        (140, "object motion field 136", 136),
        (168, "object motion scale", 160),
        (172, "object motion field 172", 172),
    ] {
        let mut rec = plain();
        put_f32(&mut rec, at, -2.0);
        assert_eq!(read(rec), not_empty(label, at, -2.0, offset), "{}", label);
    }
    for (at, label) in [
        (196, "object motion bounce seq 0"),
        (236, "object motion bounce seq 1"),
        (276, "object motion bounce seq 2"),
    ] {
        let mut rec = plain();
        rec[at + 31] = 1;
        assert_eq!(read(rec), broken(label, at as u32), "{}", label);
    }
    let mut rec = plain();
    put_u16(&mut rec, 230, 1);
    assert_eq!(read(rec), differs("object motion bounce snd 0 index", 1, 0, 230));
}

#[test]
fn absent_group_is_written_as_its_sentinel() {
    let bytes = written(&plain_value());
    assert_eq!(&bytes[0..4], &[0, 0, 0, 0]);
    for at in 8..228 {
        assert_eq!(bytes[at], 0, "{}", at);
    }
    assert_eq!(&bytes[228..232], &[0xFF, 0xFF, 0, 0]);
    assert_eq!(&bytes[268..272], &[0xFF, 0xFF, 0, 0]);
    assert_eq!(&bytes[308..312], &[0xFF, 0xFF, 0, 0]);
    assert_eq!(&bytes[316..320], &[0, 0, 0, 0]);
}

#[test]
fn gravity_modes_exclude_each_other() {
    let mut rec = plain();
    put_u32(&mut rec, 0, GRAVITY | GRAVITY_COMPLEX | GRAVITY_NO_ALTITUDE);
    assert_eq!(read(rec), broken("object motion gravity complex", 0));
    let mut rec = plain();
    put_u32(&mut rec, 0, GRAVITY_COMPLEX);
    assert_eq!(read(rec), broken("object motion gravity complex", 0));
    let mut rec = plain();
    put_u32(&mut rec, 0, GRAVITY_NO_ALTITUDE);
    assert_eq!(read(rec), broken("object motion gravity no altitude", 0));
}

#[test]
fn gravity_is_read_with_its_mode() {
    for (flags, mode) in [
        (GRAVITY, GravityMode::Local),
        (GRAVITY | GRAVITY_COMPLEX, GravityMode::Complex),
        (GRAVITY | GRAVITY_NO_ALTITUDE, GravityMode::NoAltitude),
    ] {
        let mut rec = plain();
        put_u32(&mut rec, 0, flags);
        put_f32(&mut rec, 12, -9.8);
        let mut value = plain_value();
        value.gravity = Some(Gravity { mode, value: f(-9.8) });
        assert_eq!(read(rec), Ok(value));
    }
}

#[test]
fn forward_rotations_exclude_each_other() {
    let mut rec = plain();
    put_u32(&mut rec, 0, FORWARD_ROTATION_TIME | FORWARD_ROTATION_DISTANCE);
    assert_eq!(read(rec), broken("object motion fwd rot dist", 0));
}

#[test]
fn forward_rotation_by_distance_has_one_number() {
    let mut rec = plain();
    put_u32(&mut rec, 0, FORWARD_ROTATION_DISTANCE);
    put_f32(&mut rec, 112, 3.0);
    let mut value = plain_value();
    value.forward_rotation = Some(ForwardRotation::Distance(f(3.0)));
    assert_eq!(read(rec.clone()), Ok(value));
    put_f32(&mut rec, 116, 1.0);
    assert_eq!(read(rec), not_zero("object motion fwd rot 2", 1.0, 116));
}

#[test]
fn bounce_sequence_needs_its_first_name() {
    let mut rec = plain();
    put_u32(&mut rec, 0, BOUNCE_SEQ);
    assert_eq!(read(rec), broken("object motion at least one bounce seq", 196));
    let mut rec = plain();
    put_u32(&mut rec, 0, BOUNCE_SEQ);
    put_name(&mut rec, 236, "second");
    assert_eq!(read(rec), broken("object motion at least one bounce seq", 196));
}

#[test]
fn bounce_sequence_is_read_name_by_name() {
    let mut rec = plain();
    put_u32(&mut rec, 0, BOUNCE_SEQ);
    put_name(&mut rec, 196, "first");
    put_name(&mut rec, 276, "third");
    let mut value = plain_value();
    value.bounce_sequence = Some((Some("first".to_string()), None, Some("third".to_string())));
    assert_eq!(read(rec), Ok(value));
}

#[test]
fn bounce_sequence_names_are_utf8() {
    let mut rec = plain();
    put_u32(&mut rec, 0, BOUNCE_SEQ);
    put_name(&mut rec, 196, "first");
    rec[236] = 0xFF;
    assert_eq!(
        read(rec),
        Err(Error::Encoding { label: "object motion bounce seq 1 name", offset: 236 })
    );
}

#[test]
fn bounce_sound_is_found_by_its_index() {
    let mut rec = plain();
    put_u32(&mut rec, 0, BOUNCE_SOUND);
    put_u16(&mut rec, 230, 1);
    put_f32(&mut rec, 232, 0.75);
    let mut value = plain_value();
    value.bounce_sound = Some(BounceSound { name: "s1".to_string(), volume: f(0.75) });
    assert_eq!(read(rec.clone()), Ok(value));
    put_u16(&mut rec, 230, 3);
    assert_eq!(read(rec.clone()), broken("sound index", 230));
    put_f32(&mut rec, 232, 0.0);
    assert_eq!(read(rec), broken("object motion bounce snd 0 vol", 232));
}

#[test]
fn runtime_is_above_zero() {
    let mut rec = plain();
    put_u32(&mut rec, 0, RUNTIME);
    assert_eq!(read(rec.clone()), broken("object motion runtime", 316));
    put_f32(&mut rec, 316, -1.0);
    assert_eq!(read(rec.clone()), broken("object motion runtime", 316));
    put_f32(&mut rec, 316, f32::NAN);
    assert_eq!(read(rec.clone()), broken("object motion runtime", 316));
    put_f32(&mut rec, 316, 2.0);
    let mut value = plain_value();
    value.runtime = Some(f(2.0));
    assert_eq!(read(rec), Ok(value));
}

#[test]
fn checks_are_made_in_the_order_of_the_fields() {
    let mut rec = plain();
    put_f32(&mut rec, 316, 1.0);
    put_f32(&mut rec, 160, 1.0);
    put_f32(&mut rec, 12, 1.0);
    assert_eq!(read(rec.clone()), not_zero("object motion gravity value", 1.0, 12));
    put_u32(&mut rec, 4, 100);
    assert_eq!(read(rec.clone()), broken("node index", 4));
    put_u32(&mut rec, 0, 512);
    assert_eq!(
        read(rec),
        Err(Error::UnknownDiscriminant { label: "object motion flags", value: 512, offset: 0 })
    );
}

#[test]
fn unknown_node_is_not_written() {
    let mut value = plain_value();
    value.node = "nobody".to_string();
    let mut out: Vec<u8> = vec![1, 2];
    assert_eq!(
        value.write(&mut out, &anim_def()),
        Err(Error::Assertion { label: "node name", offset: 0, detail: Detail::Condition })
    );
    assert_eq!(out, vec![1, 2]);
}

#[test]
fn unknown_sound_is_not_written() {
    let mut value = plain_value();
    value.bounce_sound = Some(BounceSound { name: "nothing".to_string(), volume: f(1.0) });
    let mut out: Vec<u8> = Vec::new();
    assert_eq!(
        value.write(&mut out, &anim_def()),
        Err(Error::Assertion { label: "sound name", offset: 0, detail: Detail::Condition })
    );
    assert!(out.is_empty());
}

#[test]
fn long_name_is_not_written() {
    let mut value = plain_value();
    value.bounce_sequence =
        Some((Some("a".to_string()), Some("a_name_of_thirty_three_bytes_is_long".to_string()), None));
    let mut out: Vec<u8> = Vec::new();
    assert_eq!(
        value.write(&mut out, &anim_def()),
        Err(Error::Encoding { label: "object motion bounce seq 1 name", offset: 0 })
    );
    assert!(out.is_empty());
}

#[test]
fn write_puts_the_record_behind_what_is_there() {
    let mut out: Vec<u8> = vec![9, 9];
    plain_value().write(&mut out, &anim_def()).unwrap();
    assert_eq!(out.len(), 322);
    assert_eq!(&out[0..2], &[9, 9]);
    assert_eq!(&out[2..], &plain()[..]);
}

#[test]
fn flags_of_a_value() {
    let flags = full_value().flags();
    assert!(flags.gravity && flags.gravity_complex && !flags.gravity_no_altitude);
    assert!(flags.forward_rotation_time && !flags.forward_rotation_distance);
    assert!(flags.bounce_seq && flags.bounce_sound && flags.runtime && flags.impact_force);
    assert_eq!(plain_value().flags().bits(), 0);
}
