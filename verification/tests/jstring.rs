use duke::jstring::{JavaString, from_string_to_vec, from_vec_to_string};
use duke::error::Error;

fn js(s: &str) -> JavaString {
    JavaString::from_str(s)
}

fn round_trip(raw: &[u8], string: &str) {
    let s = js(string);
    assert_eq!(from_string_to_vec(&s), raw.to_vec());
    assert_eq!(from_vec_to_string(raw.to_vec()).unwrap(), s);
}

#[test]
fn jstring_zero() {
    let vec = vec![0b1100_0000, 0b1000_0000, 0b1100_0000, 0b1000_0000, 0b1100_0000, 0b1000_0000];
    round_trip(&vec, "\0\0\0");
}

#[test]
fn jstring_one_byte() {
    let vec: Vec<u8> = (0x0001..=0x007f).collect();
    let string: String = ('\u{0001}'..='\u{007f}').collect();
    assert_eq!(from_string_to_vec(&js(&string)), vec);
    assert_eq!(from_vec_to_string(vec).unwrap(), js(&string));

    let vec: Vec<u8> = (0x0001..=0x007f).rev().collect();
    let string: String = ('\u{0001}'..='\u{007f}').rev().collect();
    assert_eq!(from_string_to_vec(&js(&string)), vec);
    assert_eq!(from_vec_to_string(vec).unwrap(), js(&string));
}

#[test]
fn jstring_two_bytes() {
    let vec = [
        0b1100_0000, 0b1000_0000,
        0b1100_0010, 0b1000_0000,
        0b1100_1111, 0b1000_1010,
        0b1101_0011, 0b1011_1110,
        0b1101_1110, 0b1011_1010,
        0b1101_0110, 0b1011_1110,
        0b1101_1111, 0b1011_1111,
    ];
    round_trip(&vec, "\u{0000}\u{0080}\u{03ca}\u{04fe}\u{07ba}\u{05be}\u{07ff}");

    let vec = [
        0b1101_1111, 0b1011_1111,
        0b1101_0110, 0b1011_1110,
        0b1101_1110, 0b1011_1010,
        0b1101_0011, 0b1011_1110,
        0b1100_1111, 0b1000_1010,
        0b1100_0010, 0b1000_0000,
        0b1100_0000, 0b1000_0000,
    ];
    round_trip(&vec, "\u{07ff}\u{05be}\u{07ba}\u{04fe}\u{03ca}\u{0080}\u{0000}");
}

#[test]
fn jstring_three_bytes() {
    let vec = [
        0b1110_0000, 0b1010_0000, 0b1000_0000,
        0b1110_0001, 0b1000_1000, 0b1011_0100,
        0b1110_0100, 0b1000_1100, 0b1010_0001,
        0b1110_0111, 0b1010_0010, 0b1001_1101,
        0b1110_1100, 0b1010_1011, 0b1011_1110,
        0b1110_1011, 0b1010_1010, 0b1011_1110,
        0b1110_1111, 0b1011_1111, 0b1011_1111,
    ];
    round_trip(&vec, "\u{0800}\u{1234}\u{4321}\u{789d}\u{cafe}\u{babe}\u{ffff}");

    let vec = [
        0b1110_1111, 0b1011_1111, 0b1011_1111,
        0b1110_1011, 0b1010_1010, 0b1011_1110,
        0b1110_1100, 0b1010_1011, 0b1011_1110,
        0b1110_0111, 0b1010_0010, 0b1001_1101,
        0b1110_0100, 0b1000_1100, 0b1010_0001,
        0b1110_0001, 0b1000_1000, 0b1011_0100,
        0b1110_0000, 0b1010_0000, 0b1000_0000,
    ];
    round_trip(&vec, "\u{ffff}\u{babe}\u{cafe}\u{789d}\u{4321}\u{1234}\u{0800}");
}

#[test]
fn jstring_six_bytes() {
    let vec = [
        0b1110_1101, 0b1010_0000, 0b1000_0000, 0b1110_1101, 0b1011_0000, 0b1000_0000,
        0b1110_1101, 0b1010_0000, 0b1000_1000, 0b1110_1101, 0b1011_1101, 0b1000_0101,
        0b1110_1101, 0b1010_0100, 0b1001_0000, 0b1110_1101, 0b1011_1100, 0b1010_0001,
        0b1110_1101, 0b1010_0101, 0b1001_1110, 0b1110_1101, 0b1011_0010, 0b1001_1101,
        0b1110_1101, 0b1010_1011, 0b1010_1011, 0b1110_1101, 0b1011_1111, 0b1010_1011,
        0b1110_1101, 0b1010_1001, 0b1010_1111, 0b1110_1101, 0b1011_1001, 0b1010_0110,
        0b1110_1101, 0b1010_1111, 0b1011_1111, 0b1110_1101, 0b1011_1111, 0b1011_1111,
    ];
    round_trip(&vec, "\u{010000}\u{012345}\u{054321}\u{06789d}\u{0cafeb}\u{0abe66}\u{10ffff}");

    let vec = [
        0b1110_1101, 0b1010_1111, 0b1011_1111, 0b1110_1101, 0b1011_1111, 0b1011_1111,
        0b1110_1101, 0b1010_1001, 0b1010_1111, 0b1110_1101, 0b1011_1001, 0b1010_0110,
        0b1110_1101, 0b1010_1011, 0b1010_1011, 0b1110_1101, 0b1011_1111, 0b1010_1011,
        0b1110_1101, 0b1010_0101, 0b1001_1110, 0b1110_1101, 0b1011_0010, 0b1001_1101,
        0b1110_1101, 0b1010_0100, 0b1001_0000, 0b1110_1101, 0b1011_1100, 0b1010_0001,
        0b1110_1101, 0b1010_0000, 0b1000_1000, 0b1110_1101, 0b1011_1101, 0b1000_0101,
        0b1110_1101, 0b1010_0000, 0b1000_0000, 0b1110_1101, 0b1011_0000, 0b1000_0000,
    ];
    round_trip(&vec, "\u{10ffff}\u{0abe66}\u{0cafeb}\u{06789d}\u{054321}\u{012345}\u{010000}");
}

#[test]
fn jstring_invalid_bytes_are_refused() {
    // a continuation byte without a lead byte
    assert_eq!(from_vec_to_string(vec![0b1000_0000]), Err(Error::InvalidModifiedUtf8));
    // a two byte sequence cut short
    assert_eq!(from_vec_to_string(vec![0b1100_0010]), Err(Error::InvalidModifiedUtf8));
}

#[test]
fn jstring_empty() {
    assert_eq!(from_string_to_vec(&js("")), Vec::<u8>::new());
    assert_eq!(from_vec_to_string(Vec::new()).unwrap(), js(""));
}

#[test]
fn unmatched_surrogate() {
    let vec = vec![0b1110_1101, 0b1010_0000, 0b1000_0000];
    assert_eq!(from_string_to_vec(&from_vec_to_string(vec.clone()).unwrap()), vec);
    let vec = vec![0b1110_1101, 0b1010_1010, 0b1011_1111];
    assert_eq!(from_string_to_vec(&from_vec_to_string(vec.clone()).unwrap()), vec);
    let vec = vec![0b1110_1101, 0b1010_1111, 0b1011_1111];
    assert_eq!(from_string_to_vec(&from_vec_to_string(vec.clone()).unwrap()), vec);
    let vec = vec![0b1110_1101, 0b1011_0000, 0b1000_0000];
    assert_eq!(from_string_to_vec(&from_vec_to_string(vec.clone()).unwrap()), vec);
    let vec = vec![0b1110_1101, 0b1011_0101, 0b1010_1010];
    assert_eq!(from_string_to_vec(&from_vec_to_string(vec.clone()).unwrap()), vec);
    let vec = vec![0b1110_1101, 0b1011_1111, 0b1011_1111];
    assert_eq!(from_string_to_vec(&from_vec_to_string(vec.clone()).unwrap()), vec);
}

#[test]
fn jstring_lone_surrogates_are_kept() {
    let s = from_vec_to_string(vec![0xED, 0xA0, 0x80, 0x41]).unwrap();
    assert_eq!(s.as_code_points(), &vec![0xD800, 0x41]);
    let s = from_vec_to_string(vec![0xED, 0xB0, 0x80]).unwrap();
    assert_eq!(s.as_code_points(), &vec![0xDC00]);
    // a low surrogate before a high one is no pair
    let s = from_vec_to_string(vec![0xED, 0xB0, 0x80, 0xED, 0xA0, 0x80]).unwrap();
    assert_eq!(s.as_code_points(), &vec![0xDC00, 0xD800]);
    // a high surrogate followed by a low one is one code point
    let s = from_vec_to_string(vec![0xED, 0xA0, 0x80, 0xED, 0xB0, 0x80]).unwrap();
    assert_eq!(s.as_code_points(), &vec![0x10000]);
    // a string that would hold such a pair is refused
    assert!(JavaString::from_code_points(vec![0xD800, 0xDC00]).is_none());
    assert!(JavaString::from_code_points(vec![0xDC00, 0xD800]).is_some());
}

#[test]
fn jstring_hangul_round_trip() {
    // U+D55C, whose three bytes start with 0xED like a surrogate's
    round_trip(&[0xED, 0x95, 0x9C], "\u{D55C}");
    round_trip(&[0xED, 0x80, 0x80, 0xED, 0x9F, 0xBF], "\u{D000}\u{D7FF}");
}
