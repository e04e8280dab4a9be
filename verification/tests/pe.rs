use mech3ax::pe::structures::{
    PeError, DOS_SIGNATURE, IMAGE_SECTION_HEADER, MACHINE_I386, NT_SIGNATURE, OPTIONAL_MAGIC,
};

fn section(name: &[u8; 8]) -> IMAGE_SECTION_HEADER {
    IMAGE_SECTION_HEADER {
        name: *name,
        virtual_size: 0x300,
        virtual_address: 0x1000,
        size_of_raw_data: 0x200,
        pointer_to_raw_data: 0x400,
        pointer_to_relocations: 0,
        pointer_to_linenumbers: 0,
        number_of_relocations: 0,
        number_of_linenumbers: 0,
        characteristics: 0,
    }
}

#[test]
fn pe_signatures() {
    assert_eq!(DOS_SIGNATURE, u16::from_le_bytes([b'M', b'Z']));
    assert_eq!(NT_SIGNATURE, u32::from_le_bytes([b'P', b'E', 0, 0]));
    assert_eq!(MACHINE_I386, 0x014c);
    assert_eq!(OPTIONAL_MAGIC, 0x010b);
}

#[test]
fn pe_section_name_loses_the_zeros_at_its_end() {
    assert_eq!(section(b".text\0\0\0").name(), ".text");
    assert_eq!(section(b".rsrc123").name(), ".rsrc123");
    assert_eq!(section(b"\0\0\0\0\0\0\0\0").name(), "");
    assert_eq!(section(b"a\0b\0\0\0\0\0").name(), "a\0b");
    assert_eq!(section(&[0xFF, 0, 0, 0, 0, 0, 0, 0]).name(), "<unk>");
}

#[test]
fn pe_virt_to_real() {
    let s = section(b".data\0\0\0");
    assert_eq!(s.virt_to_real(0x1000), Ok(Some(0x400)));
    assert_eq!(s.virt_to_real(0x1010), Ok(Some(0x410)));
    assert_eq!(s.virt_to_real(0x1200), Ok(Some(0x600)));
    // in the section, but not in the file
    assert_eq!(s.virt_to_real(0x1201), Ok(None));
    assert_eq!(s.virt_to_real(0x1300), Ok(None));
    assert_eq!(
        s.virt_to_real(0xFFF),
        Err(PeError::Underflow { section: ".data".to_string(), value: 0xFFF, bound: 0x1000 })
    );
    assert_eq!(
        s.virt_to_real(0x1301),
        Err(PeError::Overflow { section: ".data".to_string(), value: 0x1301, bound: 0x1300 })
    );
}

#[test]
fn pe_real_to_virt() {
    let mut s = section(b".data\0\0\0");
    assert_eq!(s.real_to_virt(0x400), Ok(Some(0x1000)));
    assert_eq!(s.real_to_virt(0x600), Ok(Some(0x1200)));
    assert_eq!(
        s.real_to_virt(0x3FF),
        Err(PeError::Underflow { section: ".data".to_string(), value: 0x3FF, bound: 0x400 })
    );
    assert_eq!(
        s.real_to_virt(0x601),
        Err(PeError::Overflow { section: ".data".to_string(), value: 0x601, bound: 0x600 })
    );
    // in the file, but only as padding
    s.virtual_size = 0x100;
    assert_eq!(s.real_to_virt(0x500), Ok(Some(0x1100)));
    assert_eq!(s.real_to_virt(0x501), Ok(None));
}

#[test]
fn pe_numbers_that_do_not_fit() {
    let mut s = section(b".data\0\0\0");
    s.virtual_address = u32::MAX - 0x10;
    s.virtual_size = 0x10;
    s.size_of_raw_data = 0x20;
    assert_eq!(s.real_to_virt(0x410), Ok(Some(u32::MAX)));
    assert_eq!(s.real_to_virt(0x411), Ok(None));
    s.virtual_size = 0x20;
    assert_eq!(s.real_to_virt(0x411), Err(PeError::TryFromInt));
    assert_eq!(
        s.virt_to_real(u32::MAX - 0x11),
        Err(PeError::Underflow {
            section: ".data".to_string(),
            value: u32::MAX - 0x11,
            bound: (u32::MAX - 0x10) as u64
        })
    );
    s.virtual_address = u32::MAX - 0x40;
    assert_eq!(
        s.virt_to_real(u32::MAX),
        Err(PeError::Overflow {
            section: ".data".to_string(),
            value: u32::MAX,
            bound: u32::MAX as u64 - 0x20
        })
    );
    if usize::BITS > 32 {
        assert_eq!(s.real_to_virt(u32::MAX as usize + 1), Err(PeError::TryFromInt));
    }
}

#[test]
fn pe_addresses_and_offsets_are_inverse() {
    let s = section(b".data\0\0\0");
    for virt in [0x1000u32, 0x1001, 0x11FF, 0x1200] {
        let raw = s.virt_to_real(virt).unwrap().unwrap();
        assert_eq!(s.real_to_virt(raw), Ok(Some(virt)));
    }
}

#[test]
fn pe_section_bytes() {
    let mut s = section(b".data\0\0\0");
    s.pointer_to_raw_data = 2;
    s.size_of_raw_data = 3;
    let file = [0u8, 1, 2, 3, 4, 5, 6];
    assert_eq!(s.get_section_bytes(&file), &[2, 3, 4]);
    s.size_of_raw_data = 0;
    assert_eq!(s.get_section_bytes(&file), &[] as &[u8]);
    s.pointer_to_raw_data = 7;
    assert_eq!(s.get_section_bytes(&file), &[] as &[u8]);
}
