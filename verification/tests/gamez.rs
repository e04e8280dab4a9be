use mech3ax::error::{Detail, Error};
use mech3ax::gamez::textures::{
    read_texture_infos, size_texture_infos, texture_words, write_texture_infos,
};
use mech3ax::gamez::{read_gamez, write_gamez, GameZ, Metadata, SIGNATURE, VERSION_MW};
use mech3ax::io_ext::CountingReader;

fn texture(name: &str) -> Vec<u8> {
    let mut bytes = vec![0u8; 8];
    let mut slot = name.as_bytes().to_vec();
    slot.resize(20, 0);
    bytes.extend_from_slice(&slot);
    bytes.extend_from_slice(&2u32.to_le_bytes());
    bytes.extend_from_slice(&0u32.to_le_bytes());
    bytes.extend_from_slice(&(-1i32).to_le_bytes());
    bytes
}

fn header(words: [u32; 9]) -> Vec<u8> {
    let mut bytes = Vec::new();
    for word in words {
        bytes.extend_from_slice(&word.to_le_bytes());
    }
    bytes
}

fn asset() -> GameZ {
    GameZ {
        metadata: Metadata { node_array_size: 10, node_data_count: 3 },
        textures: vec!["grass".to_string(), "rock".to_string()],
        materials: vec![1, 2, 3],
        meshes: vec![4, 5, 6, 7, 8],
        nodes: vec![9, 10],
    }
}

fn asset_bytes() -> Vec<u8> {
    let mut bytes = header([SIGNATURE, VERSION_MW, 2, 36, 116, 119, 10, 3, 124]);
    bytes.extend_from_slice(&texture("grass"));
    bytes.extend_from_slice(&texture("rock"));
    bytes.extend_from_slice(&[1, 2, 3, 4, 5, 6, 7, 8, 9, 10]);
    bytes
}

fn read(bytes: Vec<u8>) -> Result<GameZ, Error> {
    read_gamez(&mut CountingReader::new(bytes))
}

fn differs<T>(label: &'static str, actual: u32, expected: u32, offset: u32) -> Result<T, Error> {
    Err(Error::Assertion { label, offset, detail: Detail::Equal { actual, expected } })
}

fn broken(label: &'static str, offset: u32) -> Result<GameZ, Error> {
    Err(Error::Assertion { label, offset, detail: Detail::Condition })
}

fn set(bytes: &mut Vec<u8>, at: usize, value: u32) {
    bytes[at..at + 4].copy_from_slice(&value.to_le_bytes());
}

#[test]
fn texture_table_is_sized_by_its_count() {
    assert_eq!(size_texture_infos(0), 0);
    assert_eq!(size_texture_infos(1), 40);
    assert_eq!(size_texture_infos(4095), 163800);
}

#[test]
fn texture_record_is_read() {
    let mut bytes = texture("grass");
    bytes.extend_from_slice(&texture("exactly_twenty_bytes"));
    let mut cursor = CountingReader::new(bytes);
    assert_eq!(
        read_texture_infos(&mut cursor, 2),
        Ok(vec!["grass".to_string(), "exactly_twenty_bytes".to_string()])
    );
    assert_eq!(cursor.offset, 80);
    assert_eq!(cursor.prev, 40);
}

#[test]
fn texture_record_fields() {
    for (at, label, actual, expected) in [
        (0, "field 00", 7, 0),
        (4, "field 04", 7, 0),
        (28, "used", 7, 2),
        (32, "index", 7, 0),
        (36, "field 36", 0xFFFF_FF07, 0xFFFF_FFFF),
    ] {
        let mut bytes = texture("grass");
        bytes[at] = 7;
        let mut cursor = CountingReader::new(bytes);
        cursor.offset = 36;
        assert_eq!(
            read_texture_infos(&mut cursor, 1),
            differs(label, actual, expected, 36 + at as u32),
            "{}",
            label
        );
    }
    let mut bytes = texture("grass");
    bytes[8] = 0xFF;
    assert_eq!(
        read_texture_infos(&mut CountingReader::new(bytes), 1),
        Err(Error::Encoding { label: "texture", offset: 8 })
    );
}

#[test]
fn texture_table_round_trip() {
    let names = vec!["a".to_string(), "".to_string(), "exactly_twenty_bytes".to_string()];
    let mut out: Vec<u8> = Vec::new();
    assert_eq!(write_texture_infos(&mut out, &names), Ok(()));
    assert_eq!(out.len(), 120);
    assert_eq!(&out[0..40], &texture("a")[..]);
    assert_eq!(texture_words(&names).map(|words| words.len()), Ok(30));
    let mut cursor = CountingReader::new(out);
    assert_eq!(read_texture_infos(&mut cursor, 3), Ok(names));
    assert_eq!(cursor.assert_end(), Ok(()));
}

#[test]
fn texture_table_stops_at_the_first_failure() {
    let mut bytes = texture("a");
    bytes.extend_from_slice(&texture("b"));
    bytes[68] = 3;
    bytes.extend_from_slice(&texture("c"));
    let mut cursor = CountingReader::new(bytes);
    assert_eq!(
        read_texture_infos(&mut cursor, 3),
        differs("used", 3, 2, 68)
    );
    assert_eq!(cursor.offset, 80);
    assert_eq!(
        read_texture_infos(&mut CountingReader::new(texture("a")), 2),
        Err(Error::Transport)
    );
}

#[test]
fn texture_with_a_long_name_is_not_written() {
    let names = vec!["a".to_string(), "twenty_one_bytes_long".to_string()];
    let mut out: Vec<u8> = vec![5];
    assert_eq!(
        write_texture_infos(&mut out, &names),
        Err(Error::Encoding { label: "texture", offset: 0 })
    );
    assert_eq!(out, vec![5]);
}

#[test]
fn asset_is_read() {
    let mut cursor = CountingReader::new(asset_bytes());
    assert_eq!(read_gamez(&mut cursor), Ok(asset()));
    assert_eq!(cursor.offset, 126);
    assert_eq!(cursor.remaining_len(), 0);
}

#[test]
fn asset_is_written() {
    let mut out: Vec<u8> = Vec::new();
    assert_eq!(write_gamez(&mut out, &asset()), Ok(()));
    assert_eq!(out, asset_bytes());
}

#[test]
fn asset_round_trip() {
    let empty = GameZ {
        metadata: Metadata { node_array_size: 1, node_data_count: 0 },
        textures: vec![],
        materials: vec![],
        meshes: vec![],
        nodes: vec![],
    };
    for value in [asset(), empty] {
        let mut out: Vec<u8> = Vec::new();
        write_gamez(&mut out, &value).unwrap();
        assert_eq!(read(out), Ok(value));
    }
}

#[test]
fn asset_header_is_checked() {
    let mut bytes = asset_bytes();
    set(&mut bytes, 0, 0x02971221);
    assert_eq!(read(bytes), differs("signature", 0x02971221, 0x02971222, 0));
    for version in [15, 41, 0] {
        let mut bytes = asset_bytes();
        set(&mut bytes, 4, version);
        assert_eq!(read(bytes), differs("version", version, 27, 4));
    }
    let mut bytes = asset_bytes();
    set(&mut bytes, 8, 4096);
    assert_eq!(read(bytes), broken("texture count", 8));
    let mut bytes = asset_bytes();
    set(&mut bytes, 28, 10);
    assert_eq!(read(bytes), broken("node count", 28));
}

#[test]
fn asset_sections_begin_where_the_cursor_is() {
    let mut bytes = asset_bytes();
    set(&mut bytes, 12, 40);
    assert_eq!(read(bytes), differs("textures offset", 40, 36, 36));
    let mut bytes = asset_bytes();
    set(&mut bytes, 16, 117);
    assert_eq!(read(bytes), differs("materials offset", 117, 116, 116));
    let mut bytes = asset_bytes();
    set(&mut bytes, 20, 115);
    assert_eq!(read(bytes), broken("meshes offset", 116));
    let mut bytes = asset_bytes();
    set(&mut bytes, 32, 118);
    assert_eq!(read(bytes), broken("nodes offset", 119));
}

#[test]
fn asset_that_ends_early_is_a_transport_error() {
    assert_eq!(read(asset_bytes()[..35].to_vec()), Err(Error::Transport));
    assert_eq!(read(asset_bytes()[..100].to_vec()), Err(Error::Transport));
    assert_eq!(read(asset_bytes()[..118].to_vec()), Err(Error::Transport));
    assert_eq!(read(asset_bytes()[..123].to_vec()), Err(Error::Transport));
}

#[test]
fn asset_offsets_are_counted_from_the_offset_of_the_cursor() {
    let mut bytes = asset_bytes();
    set(&mut bytes, 12, 1036);
    set(&mut bytes, 16, 1116);
    set(&mut bytes, 20, 1119);
    set(&mut bytes, 32, 1124);
    let mut cursor = CountingReader::new(bytes);
    cursor.offset = 1000;
    assert_eq!(read_gamez(&mut cursor), Ok(asset()));
}

#[test]
fn asset_with_a_long_texture_name_is_not_written() {
    let mut value = asset();
    value.textures.push("twenty_one_bytes_long".to_string());
    let mut out: Vec<u8> = vec![1];
    assert_eq!(
        write_gamez(&mut out, &value),
        Err(Error::Encoding { label: "texture", offset: 0 })
    );
    assert_eq!(out, vec![1]);
}
