use mech3ax::assertion::{
    assert_all_zero, assert_between, assert_bool, assert_empty, assert_equal, assert_that,
    assert_utf8, assert_zero,
};
use mech3ax::error::{Detail, Error};
use mech3ax::string::{str_from_c_padded, str_from_c_sized, str_to_c_padded};
use mech3ax::types::{Vec3, F32};

fn f(x: f32) -> F32 {
    F32::from_bits(x.to_bits())
}

#[test]
fn text_ends_at_the_first_zero() {
    assert_eq!(str_from_c_padded(b"abc\0\0\0\0\0"), Some("abc".to_string()));
    assert_eq!(str_from_c_padded(b"abc\0def\0"), Some("abc".to_string()));
    assert_eq!(str_from_c_padded(b"\0bc"), Some(String::new()));
    assert_eq!(str_from_c_padded(b""), Some(String::new()));
}

#[test]
fn text_may_fill_its_slot() {
    assert_eq!(str_from_c_padded(b"abcd"), Some("abcd".to_string()));
}

#[test]
fn text_is_utf8() {
    assert_eq!(str_from_c_padded(&[0xC3, 0xA9, 0, 0]), Some("\u{e9}".to_string()));
    assert_eq!(str_from_c_padded(&[0xC3, 0x28, 0, 0]), None);
    assert_eq!(str_from_c_padded(&[b'a', 0xFF, 0, 0]), None);
    // what is behind the first zero is not looked at
    assert_eq!(str_from_c_padded(&[b'a', 0, 0xFF, 0]), Some("a".to_string()));
}

#[test]
fn sized_text_takes_every_byte() {
    assert_eq!(str_from_c_sized(b"abc"), Some("abc".to_string()));
    assert_eq!(str_from_c_sized(b"a\0c"), Some("a\0c".to_string()));
    assert_eq!(str_from_c_sized(&[0x80]), None);
    assert_eq!(str_from_c_sized(b""), Some(String::new()));
}

#[test]
fn slot_is_text_then_zeros() {
    assert_eq!(str_to_c_padded("abc", 6), Some(vec![b'a', b'b', b'c', 0, 0, 0]));
    assert_eq!(str_to_c_padded("abc", 3), Some(vec![b'a', b'b', b'c']));
    assert_eq!(str_to_c_padded("", 2), Some(vec![0, 0]));
    assert_eq!(str_to_c_padded("\u{e9}", 3), Some(vec![0xC3, 0xA9, 0]));
}

#[test]
fn slot_refuses_a_text_that_is_too_long() {
    assert_eq!(str_to_c_padded("abcd", 3), None);
    assert_eq!(str_to_c_padded("\u{e9}", 1), None);
    assert_eq!(str_to_c_padded("a", 0), None);
}

#[test]
fn slot_round_trip() {
    for text in ["", "a", "node", "exactly_thirty_two_bytes_long_ab", "caf\u{e9}"] {
        let slot = str_to_c_padded(text, 32).unwrap();
        assert_eq!(slot.len(), 32);
        assert_eq!(str_from_c_padded(&slot), Some(text.to_string()));
    }
}

#[test]
fn assert_that_names_label_and_offset() {
    assert_eq!(assert_that("label", true, 5), Ok(()));
    assert_eq!(assert_that("label", false, 5), Err(Error::Assertion { label: "label", offset: 5, detail: Detail::Condition }));
}

#[test]
fn assert_equal_compares() {
    assert_eq!(assert_equal("eq", 3, 3, 8), Ok(()));
    assert_eq!(
        assert_equal("eq", 3, 4, 8),
        Err(Error::Assertion {
            label: "eq",
            offset: 8,
            detail: Detail::Equal { actual: 3, expected: 4 }
        })
    );
}

#[test]
fn assert_between_is_inclusive() {
    assert_eq!(assert_between("r", f(0.0), f(0.0), f(1.0), 1), Ok(()));
    assert_eq!(assert_between("r", f(0.0), f(1.0), f(1.0), 1), Ok(()));
    assert_eq!(assert_between("r", f(0.0), f(-0.0), f(1.0), 1), Ok(()));
    assert_eq!(
        assert_between("r", f(0.0), f(1.0000001), f(1.0), 1),
        Err(Error::Assertion {
            label: "r",
            offset: 1,
            detail: Detail::Range { low: f(0.0), value: f(1.0000001), high: f(1.0) }
        })
    );
    assert_eq!(
        assert_between("r", f(0.0), f(f32::NAN), f(1.0), 1),
        Err(Error::Assertion {
            label: "r",
            offset: 1,
            detail: Detail::Range { low: f(0.0), value: f(f32::NAN), high: f(1.0) }
        })
    );
}

#[test]
fn assert_zero_takes_both_zeros_and_says_the_number() {
    assert_eq!(assert_zero("z", f(0.0), 8), Ok(()));
    assert_eq!(assert_zero("z", f(-0.0), 8), Ok(()));
    for value in [1.0e-45f32, -2.5, f32::INFINITY, f32::NAN] {
        assert_eq!(
            assert_zero("z", f(value), 8),
            Err(Error::Assertion { label: "z", offset: 8, detail: Detail::Zero { number: f(value) } })
        );
        assert_eq!(value == 0.0, false);
    }
}

#[test]
fn assert_empty_looks_at_each_of_the_three() {
    assert_eq!(assert_empty("e", Vec3(f(0.0), f(-0.0), f(0.0)), 12), Ok(()));
    for triple in [
        Vec3(f(1.0), f(0.0), f(0.0)),
        Vec3(f(0.0), f(-1.0), f(0.0)),
        Vec3(f(0.0), f(0.0), f(f32::NAN)),
    ] {
        assert_eq!(
            assert_empty("e", triple, 12),
            Err(Error::Assertion { label: "e", offset: 12, detail: Detail::Empty { triple } })
        );
    }
}

#[test]
fn assert_bool_is_strict() {
    assert_eq!(assert_bool("b", 0, 2), Ok(false));
    assert_eq!(assert_bool("b", 1, 2), Ok(true));
    assert_eq!(assert_bool("b", 2, 2), Err(Error::Assertion { label: "b", offset: 2, detail: Detail::Condition }));
    assert_eq!(assert_bool("b", u32::MAX, 2), Err(Error::Assertion { label: "b", offset: 2, detail: Detail::Condition }));
}

#[test]
fn assert_all_zero_looks_at_every_byte() {
    assert_eq!(assert_all_zero("z", 4, &[0, 0, 0]), Ok(()));
    assert_eq!(assert_all_zero("z", 4, &[]), Ok(()));
    assert_eq!(assert_all_zero("z", 4, &[0, 0, 1]), Err(Error::Assertion { label: "z", offset: 4, detail: Detail::Condition }));
}

#[test]
fn assert_utf8_gives_an_encoding_error() {
    assert_eq!(assert_utf8("name", 7, b"abc\0"), Ok("abc".to_string()));
    assert_eq!(assert_utf8("name", 7, &[0xFF, 0]), Err(Error::Encoding { label: "name", offset: 7 }));
}
