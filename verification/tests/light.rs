use mech3ax::error::{Detail, Error};
use mech3ax::io_ext::CountingReader;
use mech3ax::nodes::light::{
    assert_variants, block_empty, block_light, make_variants, same_block, size, LIGHT_FLAGS,
    LIGHT_NAME, NODE_FLAGS,
};
use mech3ax::nodes::types::{
    AreaPartition, Block, Light, NodeBitFlags, NodeVariant, NodeVariants, ACTIVE,
    ALTITUDE_SURFACE, DEFAULT, ID_ZONE_CHECK, INTERSECT_SURFACE, TREE_VALID, UNK08,
};
use mech3ax::types::{Vec2, Vec3, F32};

fn f(x: f32) -> F32 {
    F32::from_bits(x.to_bits())
}

fn light() -> Light {
    Light {
        name: "sunlight".to_string(),
        direction: Vec3(f(0.0), f(-1.0), f(0.5)),
        diffuse: f(0.75),
        ambient: f(0.25),
        color: Vec3(f(1.0), f(1.0), f(1.0)),
        range: Vec2(f(2.0), f(4.0)),
        range_near_sq: f(4.0),
        range_far_sq: f(16.0),
        range_inv: f(0.5),
        parent_ptr: 0x1000,
        data_ptr: 0x2000,
    }
}

fn light_bytes() -> Vec<u8> {
    let mut out: Vec<u8> = Vec::new();
    mech3ax::nodes::light::write(&mut out, &light());
    out
}

fn put_u32(rec: &mut Vec<u8>, at: usize, value: u32) {
    rec[at..at + 4].copy_from_slice(&value.to_le_bytes());
}

fn put_f32(rec: &mut Vec<u8>, at: usize, value: f32) {
    rec[at..at + 4].copy_from_slice(&value.to_le_bytes());
}

fn broken(label: &'static str, offset: u32) -> Result<Light, Error> {
    Err(Error::Assertion { label, offset, detail: Detail::Condition })
}

fn differs<T>(label: &'static str, actual: u32, expected: u32, offset: u32) -> Result<T, Error> {
    Err(Error::Assertion { label, offset, detail: Detail::Equal { actual, expected } })
}

fn outside<T>(label: &'static str, low: f32, value: f32, high: f32, offset: u32) -> Result<T, Error> {
    Err(Error::Assertion {
        label,
        offset,
        detail: Detail::Range {
            low: F32::from_bits(low.to_bits()),
            value: F32::from_bits(value.to_bits()),
            high: F32::from_bits(high.to_bits()),
        },
    })
}

fn read_light(bytes: Vec<u8>) -> Result<Light, Error> {
    mech3ax::nodes::light::read(&mut CountingReader::new(bytes), 0x2000)
}

#[test]
fn light_constants() {
    assert_eq!(size(), 212);
    assert_eq!(LIGHT_NAME, "sunlight");
    assert_eq!(DEFAULT, ACTIVE | TREE_VALID | ID_ZONE_CHECK | ALTITUDE_SURFACE | INTERSECT_SURFACE);
    assert_eq!(NODE_FLAGS, DEFAULT | UNK08);
    assert_eq!(LIGHT_FLAGS, 1 | 2 | 8 | 128 | 256 | 512);
    assert_eq!(block_light(), Block(f(1.0), f(1.0), f(-2.0), f(2.0), f(2.0), f(-1.0)));
    assert_eq!(block_empty(), Block(f(0.0), f(0.0), f(0.0), f(0.0), f(0.0), f(0.0)));
}

#[test]
fn light_is_written_field_by_field() {
    let bytes = light_bytes();
    assert_eq!(bytes.len(), 212);
    assert_eq!(&bytes[4..8], &(-1.0f32).to_le_bytes());
    assert!(bytes[12..136].iter().all(|b| *b == 0));
    assert_eq!(&bytes[136..140], &1.0f32.to_le_bytes());
    assert!(bytes[140..156].iter().all(|b| *b == 0));
    assert_eq!(&bytes[156..160], &0.75f32.to_le_bytes());
    assert_eq!(&bytes[160..164], &0.25f32.to_le_bytes());
    assert_eq!(&bytes[164..168], &1.0f32.to_le_bytes());
    assert_eq!(&bytes[176..180], &907u32.to_le_bytes());
    assert_eq!(&bytes[180..184], &2.0f32.to_le_bytes());
    assert_eq!(&bytes[184..188], &4.0f32.to_le_bytes());
    assert_eq!(&bytes[188..192], &4.0f32.to_le_bytes());
    assert_eq!(&bytes[192..196], &16.0f32.to_le_bytes());
    assert_eq!(&bytes[196..200], &0.5f32.to_le_bytes());
    assert_eq!(&bytes[200..204], &1u32.to_le_bytes());
    assert_eq!(&bytes[204..208], &0x1000u32.to_le_bytes());
    assert_eq!(&bytes[208..212], &[0, 0, 0, 0]);
}

#[test]
fn light_round_trip() {
    let mut cursor = CountingReader::new(light_bytes());
    assert_eq!(mech3ax::nodes::light::read(&mut cursor, 0x2000), Ok(light()));
    assert_eq!(cursor.offset, 212);
    assert_eq!(cursor.prev, 208);
    assert_eq!(cursor.assert_end(), Ok(()));
}

#[test]
fn light_fields_that_are_always_the_same() {
    for at in [12, 16, 20] {
        let mut triple = [f(0.0); 3];
        triple[(at - 12) / 4] = f(3.0);
        let triple = Vec3(triple[0], triple[1], triple[2]);
        let mut bytes = light_bytes();
        put_f32(&mut bytes, at, 3.0);
        assert_eq!(
            read_light(bytes),
            Err(Error::Assertion { label: "translation", offset: 12, detail: Detail::Empty { triple } }),
            "{}",
            at
        );
    }
    for at in [24, 132] {
        let mut bytes = light_bytes();
        put_f32(&mut bytes, at, 3.0);
        assert_eq!(read_light(bytes), broken("field 024", 24), "{}", at);
    }
    for (at, label) in
        [(140, "field 140"), (144, "field 144"), (148, "field 148"), (152, "field 152")]
    {
        let mut bytes = light_bytes();
        put_f32(&mut bytes, at, 3.0);
        assert_eq!(
            read_light(bytes),
            Err(Error::Assertion { label, offset: at as u32, detail: Detail::Zero { number: f(3.0) } }),
            "{}",
            at
        );
    }
    for at in [164, 168, 172] {
        let mut bytes = light_bytes();
        put_f32(&mut bytes, at, 3.0);
        assert_eq!(
            read_light(bytes),
            differs("color", 3.0f32.to_bits(), 1.0f32.to_bits(), 164),
            "{}",
            at
        );
    }
    let mut bytes = light_bytes();
    put_f32(&mut bytes, 136, 3.0);
    assert_eq!(read_light(bytes), differs("field 136", 3.0f32.to_bits(), 1.0f32.to_bits(), 136));
    let mut bytes = light_bytes();
    put_u32(&mut bytes, 200, 2);
    assert_eq!(read_light(bytes), differs("parent count", 2, 1, 200));
    let mut bytes = light_bytes();
    put_u32(&mut bytes, 204, 0);
    assert_eq!(read_light(bytes), broken("parent ptr", 204));
    let mut bytes = light_bytes();
    put_u32(&mut bytes, 208, 1);
    assert_eq!(read_light(bytes), differs("parent value", 1, 0, 208));
}

#[test]
fn light_diffuse_and_ambient_are_between_zero_and_one() {
    for (at, label) in [(156, "diffuse"), (160, "ambient")] {
        for value in [1.5f32, -0.1, f32::NAN] {
            let mut bytes = light_bytes();
            put_f32(&mut bytes, at, value);
            assert_eq!(read_light(bytes), outside(label, 0.0, value, 1.0, at as u32));
        }
    }
}

#[test]
fn light_flags() {
    let mut bytes = light_bytes();
    put_u32(&mut bytes, 176, 2048);
    assert_eq!(
        read_light(bytes),
        Err(Error::UnknownDiscriminant { label: "light flags", value: 2048, offset: 176 })
    );
    let mut bytes = light_bytes();
    put_u32(&mut bytes, 176, u32::MAX);
    assert_eq!(
        read_light(bytes),
        Err(Error::UnknownDiscriminant { label: "light flags", value: u32::MAX, offset: 176 })
    );
    let mut bytes = light_bytes();
    put_u32(&mut bytes, 176, 2047);
    assert_eq!(read_light(bytes), differs("flag", 2047, LIGHT_FLAGS, 176));
}

#[test]
fn light_range() {
    let mut bytes = light_bytes();
    put_f32(&mut bytes, 180, 0.0);
    assert_eq!(read_light(bytes), broken("range near", 180));
    let mut bytes = light_bytes();
    put_f32(&mut bytes, 184, 2.0);
    assert_eq!(read_light(bytes), broken("range far", 184));
    let mut bytes = light_bytes();
    put_f32(&mut bytes, 184, f32::NAN);
    assert_eq!(read_light(bytes), broken("range far", 184));
}

#[test]
fn light_that_ends_early_is_a_transport_error() {
    assert_eq!(read_light(light_bytes()[..207].to_vec()), Err(Error::Transport));
    assert_eq!(read_light(light_bytes()[..211].to_vec()), Err(Error::Transport));
}

#[test]
fn light_offsets_are_counted_from_the_offset_of_the_cursor() {
    let mut bytes = light_bytes();
    put_f32(&mut bytes, 156, 2.0);
    let mut cursor = CountingReader::new(bytes);
    cursor.offset = 1000;
    assert_eq!(mech3ax::nodes::light::read(&mut cursor, 1), outside("diffuse", 0.0, 2.0, 1.0, 1156));
}

#[test]
fn node_of_a_light_passes_the_check() {
    let node = make_variants(&light());
    assert_eq!(node.name, "sunlight");
    assert_eq!(node.flags, NodeBitFlags { bits: NODE_FLAGS });
    assert_eq!(node.data_ptr, 0x2000);
    assert_eq!(node.mesh_index, -1);
    assert_eq!(assert_variants(node, 400), Ok(NodeVariant::Light(0x2000)));
}

#[test]
fn node_that_is_no_light_is_refused() {
    let checks: Vec<(&'static str, u32, Detail, fn(&mut NodeVariants))> = vec![
        ("light name", 0, Detail::Condition, |n| n.name = "moonlight".to_string()),
        (
            "light flags",
            36,
            Detail::Equal { actual: DEFAULT, expected: NODE_FLAGS },
            |n| n.flags = NodeBitFlags { bits: DEFAULT },
        ),
        ("light field 044", 44, Detail::Equal { actual: 1, expected: 0 }, |n| n.unk044 = 1),
        ("light zone id", 48, Detail::Equal { actual: 1, expected: 255 }, |n| n.zone_id = 1),
        ("light data ptr", 56, Detail::Condition, |n| n.data_ptr = 0),
        (
            "light mesh index",
            60,
            Detail::Equal { actual: 0, expected: 0xFFFF_FFFF },
            |n| n.mesh_index = 0,
        ),
        ("light area partition", 76, Detail::Condition, |n| {
            n.area_partition = Some(AreaPartition { x: 0, y: 0 })
        }),
        ("light has parent", 84, Detail::Condition, |n| n.has_parent = true),
        (
            "light children count",
            92,
            Detail::Equal { actual: 1, expected: 0 },
            |n| n.children_count = 1,
        ),
        ("light block 1", 116, Detail::Condition, |n| n.unk116 = block_empty()),
        ("light block 2", 140, Detail::Condition, |n| n.unk140 = block_light()),
        ("light block 3", 164, Detail::Condition, |n| n.unk164 = block_light()),
        ("light field 196", 196, Detail::Equal { actual: 1, expected: 0 }, |n| n.unk196 = 1),
    ];
    for (label, offset, detail, change) in checks {
        let mut node = make_variants(&light());
        change(&mut node);
        assert_eq!(
            assert_variants(node, 1000),
            Err(Error::Assertion { label, offset: 1000 + offset, detail }),
            "{}",
            label
        );
    }
}

#[test]
fn node_check_reaches_the_last_offset_that_fits() {
    let node = make_variants(&light());
    assert_eq!(assert_variants(node, u32::MAX - 196), Ok(NodeVariant::Light(0x2000)));
    let mut node = make_variants(&light());
    node.unk196 = 7;
    assert_eq!(
        assert_variants(node, u32::MAX - 196),
        Err(Error::Assertion {
            label: "light field 196",
            offset: u32::MAX,
            detail: Detail::Equal { actual: 7, expected: 0 }
        })
    );
}

#[test]
fn blocks_are_compared_as_numbers() {
    let minus_zero = Block(f(-0.0), f(0.0), f(-0.0), f(0.0), f(-0.0), f(0.0));
    assert!(same_block(minus_zero, block_empty()));
    assert!(!same_block(block_light(), block_empty()));
    let nan = Block(f(f32::NAN), f(0.0), f(0.0), f(0.0), f(0.0), f(0.0));
    assert!(!same_block(nan, nan));
}
