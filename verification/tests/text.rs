use tributary::be::{push_be, read_be};
use tributary::json::object_of;
use tributary::shape::{format_shape, parse_shape};
use tributary::text::{chars_of, decimal, parse_numeral, push_decimal, push_flush_left, push_flush_right};

#[test]
fn decimals_are_written_plainly() {
    assert_eq!(decimal(0), "0");
    assert_eq!(decimal(1090), "1090");
    assert_eq!(decimal(u128::MAX), "340282366920938463463374607431768211455");
    let mut text = String::from("n=");
    push_decimal(&mut text, 42);
    assert_eq!(text, "n=42");
}

#[test]
fn numerals_are_read_as_they_are_written() {
    let read = |s: &str| {
        let chars = chars_of(s);
        parse_numeral(&chars, 0, chars.len())
    };
    assert_eq!(read("0"), Some(0));
    assert_eq!(read("4294967295"), Some(u32::MAX));
    assert_eq!(read("4294967296"), None);
    assert_eq!(read("99999999999999999999999"), None);
    assert_eq!(read("+12"), Some(12));
    assert_eq!(read("0012"), Some(12));
    for s in ["", "+", "-1", " 1", "1 ", "1.0", "x"] {
        assert_eq!(read(s), None);
    }
    for n in [0u32, 9, 10, 12345, u32::MAX] {
        assert_eq!(read(&decimal(n as u128)), Some(n));
    }
}

#[test]
fn columns_are_padded() {
    let mut text = String::new();
    push_flush_left(&mut text, "ab", 4);
    push_flush_right(&mut text, "cd", 4);
    push_flush_left(&mut text, "longer", 4);
    push_flush_right(&mut text, "longer", 4);
    assert_eq!(text, "ab    cdlongerlonger");
}

#[test]
fn shapes_are_read_and_written() {
    assert_eq!(parse_shape("1,12,3072"), Some(vec![1, 12, 3072]));
    assert_eq!(parse_shape("7"), Some(vec![7]));
    assert_eq!(format_shape(&vec![1, 12, 3072]), "1,12,3072");
    assert_eq!(format_shape(&vec![]), "");
    assert_eq!(parse_shape(&format_shape(&vec![0, u32::MAX])), Some(vec![0, u32::MAX]));
}

#[test]
fn other_texts_are_no_shapes() {
    for s in ["", ",", "1,", ",1", "1,,2", "1, 2", "1,a", "1,-2", "4294967296"] {
        assert_eq!(parse_shape(s), None);
    }
}

#[test]
fn numbers_are_big_endian() {
    let mut bytes: Vec<u8> = vec![0xff];
    push_be(&mut bytes, 0x0102_0304, 4);
    push_be(&mut bytes, u64::MAX - 1, 8);
    assert_eq!(bytes, vec![0xff, 1, 2, 3, 4, 255, 255, 255, 255, 255, 255, 255, 254]);
    assert_eq!(read_be(&bytes, 1, 4), 0x0102_0304);
    assert_eq!(read_be(&bytes, 5, 8), u64::MAX - 1);
}

#[test]
fn an_object_has_one_field() {
    assert_eq!(object_of("k", "[1]"), "{\"k\":[1]}");
}
