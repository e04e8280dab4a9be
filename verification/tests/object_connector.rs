use mech3ax::anim_def::AnimDef;
use mech3ax::error::{Detail, Error};
use mech3ax::io_ext::CountingReader;
use mech3ax::sequence_event::object_connector::{
    ObjectConnector, ObjectConnectorFlags, FROM_INPUT_NODE, FROM_INPUT_POS, FROM_NODE, FROM_POS,
    INDEX, MAX_LENGTH, SIZE, TO_INPUT_NODE, TO_INPUT_POS, TO_NODE, TO_POS,
};
use mech3ax::sequence_event::INPUT_NODE;
use mech3ax::types::{Vec3, F32};

fn f(x: f32) -> F32 {
    F32::from_bits(x.to_bits())
}

fn anim_def() -> AnimDef {
    AnimDef {
        nodes: ["n0", "n1", "n2", "n3"].iter().map(|s| s.to_string()).collect(),
        lights: vec![],
        sounds: vec![],
    }
}

fn put_u32(rec: &mut Vec<u8>, at: usize, value: u32) {
    rec[at..at + 4].copy_from_slice(&value.to_le_bytes());
}

fn put_u16(rec: &mut Vec<u8>, at: usize, value: u16) {
    rec[at..at + 2].copy_from_slice(&value.to_le_bytes());
}

fn put_f32(rec: &mut Vec<u8>, at: usize, value: f32) {
    rec[at..at + 4].copy_from_slice(&value.to_le_bytes());
}

/// The record of a connector of node 1 whose two ends come with the event.
fn plain() -> Vec<u8> {
    let mut rec = vec![0u8; 76];
    put_u32(&mut rec, 0, FROM_INPUT_POS | TO_INPUT_POS);
    put_u16(&mut rec, 4, 1);
    put_f32(&mut rec, 52, 1.0);
    put_f32(&mut rec, 56, 1.0);
    rec
}

fn plain_value() -> ObjectConnector {
    ObjectConnector {
        node: "n1".to_string(),
        from_node: None,
        to_node: None,
        from_pos: None,
        to_pos: None,
        max_length: None,
    }
}

fn read(rec: Vec<u8>) -> Result<ObjectConnector, Error> {
    ObjectConnector::read(&mut CountingReader::new(rec), &anim_def(), SIZE)
}

fn written(value: &ObjectConnector) -> Vec<u8> {
    let mut out: Vec<u8> = Vec::new();
    value.write(&mut out, &anim_def()).unwrap();
    out
}

fn differs<T>(label: &'static str, actual: u32, expected: u32, offset: u32) -> Result<T, Error> {
    Err(Error::Assertion { label, offset, detail: Detail::Equal { actual, expected } })
}

fn not_zero<T>(label: &'static str, value: f32, offset: u32) -> Result<T, Error> {
    Err(Error::Assertion {
        label,
        offset,
        detail: Detail::Zero { number: F32::from_bits(value.to_bits()) },
    })
}

/// The error of a triple at `offset` whose component at `at` is `value`.
fn not_empty<T>(label: &'static str, at: usize, value: f32, offset: u32) -> Result<T, Error> {
    let mut triple = [0.0f32; 3];
    triple[(at - offset as usize) / 4] = value;
    Err(Error::Assertion {
        label,
        offset,
        detail: Detail::Empty {
            triple: Vec3(
                F32::from_bits(triple[0].to_bits()),
                F32::from_bits(triple[1].to_bits()),
                F32::from_bits(triple[2].to_bits()),
            ),
        },
    })
}

fn broken(label: &'static str, offset: u32) -> Result<ObjectConnector, Error> {
    Err(Error::Assertion { label, offset, detail: Detail::Condition })
}

#[test]
fn connector_tag_and_size() {
    assert_eq!(INDEX, 18);
    assert_eq!(SIZE, 76);
}

#[test]
fn connector_plain_record() {
    assert_eq!(read(plain()), Ok(plain_value()));
    assert_eq!(written(&plain_value()), plain());
}

#[test]
fn connector_both_node_flags_fail() {
    let mut rec = plain();
    put_u32(&mut rec, 0, FROM_NODE | FROM_INPUT_NODE | TO_INPUT_POS);
    assert_eq!(read(rec), broken("object connector from input node", 0));
    let mut rec = plain();
    put_u32(&mut rec, 0, FROM_INPUT_POS | TO_NODE | TO_INPUT_NODE);
    assert_eq!(read(rec), broken("object connector to input node", 0));
}

#[test]
fn connector_end_is_exactly_one_of_three() {
    for (flags, label) in [
        (FROM_NODE | FROM_INPUT_POS | TO_INPUT_POS, "object connector from input pos"),
        (FROM_INPUT_NODE | FROM_INPUT_POS | TO_INPUT_POS, "object connector from input pos"),
        (TO_INPUT_POS, "object connector from input pos"),
        (FROM_INPUT_POS | TO_NODE | TO_INPUT_POS, "object connector to input pos"),
        (FROM_INPUT_POS | TO_INPUT_NODE | TO_INPUT_POS, "object connector to input pos"),
        (FROM_INPUT_POS, "object connector to input pos"),
    ] {
        let mut rec = plain();
        put_u32(&mut rec, 0, flags);
        assert_eq!(read(rec), broken(label, 0), "{}", flags);
    }
}

#[test]
fn connector_position_of_its_own_excludes_one_of_the_event() {
    let mut rec = plain();
    put_u32(&mut rec, 0, FROM_INPUT_POS | FROM_POS | TO_INPUT_POS);
    assert_eq!(read(rec), broken("object connector from input pos", 0));
    let mut rec = plain();
    put_u32(&mut rec, 0, FROM_INPUT_POS | TO_INPUT_POS | TO_POS);
    assert_eq!(read(rec), broken("object connector to input pos", 0));
}

#[test]
fn connector_full_round_trip() {
    let value = ObjectConnector {
        node: "n3".to_string(),
        from_node: Some("n2".to_string()),
        to_node: Some(INPUT_NODE.to_string()),
        from_pos: Some(Vec3(f(1.0), f(2.0), f(3.0))),
        to_pos: Some(Vec3(f(-1.0), f(-2.0), f(-3.0))),
        max_length: Some(f(10.0)),
    };
    let bytes = written(&value);
    assert_eq!(bytes.len(), 76);
    assert_eq!(
        u32::from_le_bytes([bytes[0], bytes[1], bytes[2], bytes[3]]),
        FROM_NODE | FROM_POS | TO_INPUT_NODE | TO_POS | MAX_LENGTH
    );
    assert_eq!(&bytes[4..12], &[3, 0, 2, 0, 0, 0, 0, 0]);
    assert_eq!(&bytes[12..16], &1.0f32.to_le_bytes());
    assert_eq!(&bytes[24..28], &(-1.0f32).to_le_bytes());
    assert_eq!(&bytes[52..60], &[0, 0, 0x80, 0x3F, 0, 0, 0x80, 0x3F]);
    assert_eq!(&bytes[72..76], &10.0f32.to_le_bytes());
    assert_eq!(read(bytes), Ok(value));
}

#[test]
fn connector_ends_round_trip() {
    for from in [None, Some("n0"), Some(INPUT_NODE)] {
        for to in [None, Some("n3"), Some(INPUT_NODE)] {
            let value = ObjectConnector {
                node: "n0".to_string(),
                from_node: from.map(|s| s.to_string()),
                to_node: to.map(|s| s.to_string()),
                from_pos: None,
                to_pos: None,
                max_length: None,
            };
            let bytes = written(&value);
            assert_eq!(bytes.len(), 76);
            assert_eq!(read(bytes), Ok(value));
        }
    }
}

#[test]
fn connector_absent_groups_are_zero() {
    let bytes = written(&plain_value());
    assert!(bytes[12..52].iter().all(|b| *b == 0));
    assert!(bytes[60..76].iter().all(|b| *b == 0));
    let flags = u32::from_le_bytes([bytes[0], bytes[1], bytes[2], bytes[3]]);
    assert_eq!(flags & (FROM_POS | TO_POS | MAX_LENGTH | FROM_NODE | TO_NODE), 0);
}

#[test]
fn connector_absent_group_with_a_payload_is_refused() {
    for (at, label, offset) in [
        (12, "object connector from pos", 12),
        (20, "object connector from pos", 12),
        (24, "object connector to pos", 24),
        (28, "object connector to pos", 24),
    ] {
        let mut rec = plain();
        put_f32(&mut rec, at, 1.0);
        assert_eq!(read(rec), not_empty(label, at, 1.0, offset), "{}", at);
    }
    let mut rec = plain();
    put_f32(&mut rec, 72, 1.0);
    assert_eq!(read(rec), not_zero("object connector max length", 1.0, 72));
}

#[test]
fn connector_fixed_fields() {
    for (at, label) in [
        (36, "object connector field 36"),
        (40, "object connector field 40"),
        (44, "object connector field 44"),
        (48, "object connector field 48"),
        (60, "object connector field 60"),
        (64, "object connector field 64"),
        (68, "object connector field 68"),
    ] {
        let mut rec = plain();
        put_f32(&mut rec, at, 2.0);
        assert_eq!(read(rec), not_zero(label, 2.0, at as u32), "{}", label);
    }
    for (at, label) in [(52, "object connector field 52"), (56, "object connector field 56")] {
        let mut rec = plain();
        put_f32(&mut rec, at, 2.0);
        assert_eq!(
            read(rec),
            differs(label, 2.0f32.to_bits(), 1.0f32.to_bits(), at as u32),
            "{}",
            label
        );
    }
    let mut rec = plain();
    put_u16(&mut rec, 10, 1);
    assert_eq!(read(rec), differs("object connector field 10", 1, 0, 10));
}

#[test]
fn connector_max_length_is_above_zero() {
    let mut rec = plain();
    put_u32(&mut rec, 0, FROM_INPUT_POS | TO_INPUT_POS | MAX_LENGTH);
    assert_eq!(read(rec.clone()), broken("object connector max length", 72));
    put_f32(&mut rec, 72, 4.0);
    let mut value = plain_value();
    value.max_length = Some(f(4.0));
    assert_eq!(read(rec), Ok(value));
}

#[test]
fn connector_all_ones_flags_are_unknown() {
    let mut rec = plain();
    put_u32(&mut rec, 0, u32::MAX);
    let mut cursor = CountingReader::new(rec);
    cursor.offset = 8;
    assert_eq!(
        ObjectConnector::read(&mut cursor, &anim_def(), SIZE),
        Err(Error::UnknownDiscriminant {
            label: "object connector flags",
            value: u32::MAX,
            offset: 8
        })
    );
}

#[test]
fn connector_flags_round_trip() {
    let all = FROM_NODE
        | FROM_INPUT_NODE
        | FROM_POS
        | FROM_INPUT_POS
        | TO_NODE
        | TO_INPUT_NODE
        | TO_POS
        | TO_INPUT_POS
        | MAX_LENGTH;
    assert_eq!(all, 0x837B);
    for word in [0, FROM_NODE, MAX_LENGTH | TO_POS, all] {
        assert_eq!(ObjectConnectorFlags::from_bits(word).unwrap().bits(), word);
    }
    assert_eq!(ObjectConnectorFlags::from_bits(4), None);
    assert_eq!(ObjectConnectorFlags::from_bits(128), None);
    assert_eq!(ObjectConnectorFlags::from_bits(u32::MAX), None);
}

#[test]
fn connector_indices_have_to_be_in_the_table() {
    let mut rec = plain();
    put_u16(&mut rec, 4, 4);
    assert_eq!(read(rec), broken("node index", 4));
    let mut rec = plain();
    put_u32(&mut rec, 0, FROM_NODE | TO_INPUT_POS);
    put_u16(&mut rec, 6, 9);
    assert_eq!(read(rec), broken("node index", 6));
    let mut rec = plain();
    put_u32(&mut rec, 0, FROM_INPUT_POS | TO_NODE);
    put_u16(&mut rec, 8, 9);
    assert_eq!(read(rec), broken("node index", 8));
}

#[test]
fn connector_unknown_names_are_not_written() {
    let mut value = plain_value();
    value.to_node = Some("nobody".to_string());
    let mut out: Vec<u8> = vec![1];
    assert_eq!(
        value.write(&mut out, &anim_def()),
        Err(Error::Assertion { label: "node name", offset: 0, detail: Detail::Condition })
    );
    assert_eq!(out, vec![1]);
}

#[test]
fn connector_size_and_transport() {
    let mut cursor = CountingReader::new(plain());
    assert_eq!(
        ObjectConnector::read(&mut cursor, &anim_def(), 0),
        Err(Error::SizeMismatch {
            label: "object connector size",
            expected: 76,
            actual: 0,
            offset: 0
        })
    );
    let mut rec = plain();
    rec.truncate(75);
    assert_eq!(read(rec), Err(Error::Transport));
}

#[test]
fn connector_index_of_an_end_that_is_no_node_is_zero() {
    // the end comes with the event, and the slot of its index holds 5
    let mut rec = plain();
    put_u16(&mut rec, 6, 5);
    assert_eq!(read(rec), differs("object connector from index", 5, 0, 6));
    let mut rec = plain();
    put_u16(&mut rec, 8, 5);
    assert_eq!(read(rec), differs("object connector to index", 5, 0, 8));
    // the end is the node the event is applied to
    let mut rec = plain();
    put_u32(&mut rec, 0, FROM_INPUT_NODE | TO_INPUT_POS);
    put_u16(&mut rec, 4, 1);
    put_u16(&mut rec, 6, 5);
    let mut cursor = CountingReader::new(rec);
    cursor.offset = 100;
    assert_eq!(
        ObjectConnector::read(&mut cursor, &anim_def(), SIZE),
        differs("object connector from index", 5, 0, 106)
    );
    let mut rec = plain();
    put_u32(&mut rec, 0, FROM_INPUT_POS | TO_INPUT_NODE);
    put_u16(&mut rec, 8, 1);
    assert_eq!(read(rec), differs("object connector to index", 1, 0, 8));
    // the flag of the kind of end is checked in front of the index
    let mut rec = plain();
    put_u32(&mut rec, 0, TO_INPUT_POS);
    put_u16(&mut rec, 6, 5);
    assert_eq!(read(rec), broken("object connector from input pos", 0));
}

#[test]
fn connector_index_of_a_node_of_the_table_is_kept() {
    let mut rec = plain();
    put_u32(&mut rec, 0, FROM_NODE | TO_NODE);
    put_u16(&mut rec, 6, 3);
    put_u16(&mut rec, 8, 2);
    let mut value = plain_value();
    value.from_node = Some("n3".to_string());
    value.to_node = Some("n2".to_string());
    assert_eq!(read(rec.clone()), Ok(value.clone()));
    assert_eq!(written(&value), rec);
}
