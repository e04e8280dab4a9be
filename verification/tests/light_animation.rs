use mech3ax::anim_def::AnimDef;
use mech3ax::error::{Detail, Error};
use mech3ax::io_ext::CountingReader;
use mech3ax::sequence_event::light_animation::{LightAnimation, INDEX, SIZE};
use mech3ax::types::{Vec2, Vec3, F32};

fn f(x: f32) -> F32 {
    F32::from_bits(x.to_bits())
}

fn anim_def() -> AnimDef {
    AnimDef {
        nodes: vec![],
        lights: ["sun", "lamp", "caf\u{e9}"].iter().map(|s| s.to_string()).collect(),
        sounds: vec![],
    }
}

fn put_u32(rec: &mut Vec<u8>, at: usize, value: u32) {
    rec[at..at + 4].copy_from_slice(&value.to_le_bytes());
}

fn put_f32(rec: &mut Vec<u8>, at: usize, value: f32) {
    rec[at..at + 4].copy_from_slice(&value.to_le_bytes());
}

fn plain() -> Vec<u8> {
    let mut rec = vec![0u8; 100];
    rec[0..4].copy_from_slice(b"lamp");
    put_u32(&mut rec, 32, 1);
    put_f32(&mut rec, 36, 1.0);
    put_f32(&mut rec, 40, 50.0);
    put_f32(&mut rec, 60, 1.0);
    put_f32(&mut rec, 64, -5.0);
    put_f32(&mut rec, 68, 5.0);
    put_f32(&mut rec, 96, 3.0);
    rec
}

fn plain_value() -> LightAnimation {
    LightAnimation {
        name: "lamp".to_string(),
        range: Vec2(f(1.0), f(50.0)),
        color: Vec3(f(1.0), f(-5.0), f(5.0)),
        runtime: f(3.0),
    }
}

fn read(rec: Vec<u8>) -> Result<LightAnimation, Error> {
    LightAnimation::read(&mut CountingReader::new(rec), &anim_def(), SIZE)
}

fn differs<T>(label: &'static str, actual: u32, expected: u32, offset: u32) -> Result<T, Error> {
    Err(Error::Assertion { label, offset, detail: Detail::Equal { actual, expected } })
}

fn outside<T>(label: &'static str, low: f32, value: f32, high: f32, offset: u32) -> Result<T, Error> {
    Err(Error::Assertion {
        label,
        offset,
        detail: Detail::Range {
            low: F32::from_bits(low.to_bits()),
            value: F32::from_bits(value.to_bits()),
            high: F32::from_bits(high.to_bits()),
        },
    })
}

fn broken(label: &'static str, offset: u32) -> Result<LightAnimation, Error> {
    Err(Error::Assertion { label, offset, detail: Detail::Condition })
}

#[test]
fn light_animation_tag_and_size() {
    assert_eq!(INDEX, 5);
    assert_eq!(SIZE, 100);
}

#[test]
fn light_animation_plain_record() {
    assert_eq!(read(plain()), Ok(plain_value()));
    let mut out: Vec<u8> = Vec::new();
    plain_value().write(&mut out, &anim_def()).unwrap();
    assert_eq!(out, plain());
}

#[test]
fn light_animation_name_and_index_have_to_agree() {
    let mut rec = plain();
    put_u32(&mut rec, 32, 0);
    let mut cursor = CountingReader::new(rec);
    cursor.offset = 200;
    assert_eq!(
        LightAnimation::read(&mut cursor, &anim_def(), SIZE),
        broken("light anim name", 232)
    );
}

#[test]
fn light_animation_name_is_utf8_and_index_is_in_the_table() {
    let mut rec = plain();
    rec[0] = 0xFF;
    assert_eq!(read(rec), Err(Error::Encoding { label: "light anim name", offset: 0 }));
    let mut rec = plain();
    put_u32(&mut rec, 32, 3);
    assert_eq!(read(rec), broken("light index", 32));
}

#[test]
fn light_animation_round_trip() {
    for (name, near, far) in
        [("sun", 0.0f32, 0.0f32), ("lamp", 2.0, 2.0), ("caf\u{e9}", -1.0, -10.0), ("sun", -0.0, 7.0)]
    {
        let value = LightAnimation {
            name: name.to_string(),
            range: Vec2(f(near), f(far)),
            color: Vec3(f(0.0), f(0.5), f(-0.5)),
            runtime: f(0.1),
        };
        let mut out: Vec<u8> = Vec::new();
        value.write(&mut out, &anim_def()).unwrap();
        assert_eq!(out.len(), 100);
        assert_eq!(read(out), Ok(value));
    }
}

#[test]
fn light_animation_range_runs_away_from_zero() {
    for (near, far) in [(1.0f32, 0.5f32), (0.0, -1.0), (-1.0, -0.5), (-1.0, 1.0), (f32::NAN, 1.0)] {
        let mut rec = plain();
        put_f32(&mut rec, 36, near);
        put_f32(&mut rec, 40, far);
        assert_eq!(read(rec), broken("light anim range far", 40), "{} {}", near, far);
    }
}

#[test]
fn light_animation_colour_is_in_range() {
    for (at, label) in
        [(60, "light anim color red"), (64, "light anim color green"), (68, "light anim color blue")]
    {
        for value in [5.5f32, -5.5, f32::NAN] {
            let mut rec = plain();
            put_f32(&mut rec, at, value);
            assert_eq!(read(rec), outside(label, -5.0, value, 5.0, at as u32), "{}", label);
        }
    }
}

#[test]
fn light_animation_fixed_fields() {
    for (at, label) in [
        (72, "light anim field 72"),
        (76, "light anim field 76"),
        (80, "light anim field 80"),
        (84, "light anim field 84"),
        (88, "light anim field 88"),
        (92, "light anim field 92"),
    ] {
        let mut rec = plain();
        put_u32(&mut rec, at, 1);
        assert_eq!(
            read(rec),
            Err(Error::Assertion {
                label,
                offset: at as u32,
                detail: Detail::Zero { number: F32::from_bits(1) },
            }),
            "{}",
            label
        );
    }
}

#[test]
fn light_animation_whole_numbers_that_are_always_zero() {
    for (at, label) in [
        (44, "light anim field 44"),
        (48, "light anim field 48"),
        (52, "light anim field 52"),
        (56, "light anim field 56"),
    ] {
        let mut rec = plain();
        put_u32(&mut rec, at, 9);
        assert_eq!(read(rec), differs(label, 9, 0, at as u32), "{}", label);
    }
}

#[test]
fn light_animation_runtime_is_above_zero() {
    let mut rec = plain();
    put_f32(&mut rec, 96, 0.0);
    assert_eq!(read(rec), broken("light anim runtime", 96));
}

#[test]
fn light_animation_what_cannot_be_written() {
    let mut value = plain_value();
    value.name = "moon".to_string();
    let mut out: Vec<u8> = vec![1];
    assert_eq!(
        value.write(&mut out, &anim_def()),
        Err(Error::Assertion { label: "light name", offset: 0, detail: Detail::Condition })
    );
    value.name = "a_name_of_thirty_three_bytes_is_long".to_string();
    assert_eq!(
        value.write(&mut out, &anim_def()),
        Err(Error::Encoding { label: "light anim name", offset: 0 })
    );
    assert_eq!(out, vec![1]);
}

#[test]
fn light_animation_size_and_transport() {
    assert_eq!(
        LightAnimation::read(&mut CountingReader::new(plain()), &anim_def(), 104),
        Err(Error::SizeMismatch {
            label: "light animation size",
            expected: 100,
            actual: 104,
            offset: 0
        })
    );
    assert_eq!(read(vec![0; 99]), Err(Error::Transport));
}
