use chippers8::util::{nibbles_to_u16, nibbles_to_u8, u16_to_nibbles, u8_2_to_nibbles};

#[test]
fn word_splits_into_nibbles() {
    assert_eq!(u16_to_nibbles(0xD1A5), [0xD, 0x1, 0xA, 0x5]);
    assert_eq!(u16_to_nibbles(0x0000), [0, 0, 0, 0]);
    assert_eq!(u16_to_nibbles(0xFFFF), [0xF, 0xF, 0xF, 0xF]);
}

#[test]
fn byte_pair_splits_into_nibbles() {
    assert_eq!(u8_2_to_nibbles([0x8A, 0xB4]), [0x8, 0xA, 0xB, 0x4]);
}

#[test]
fn nibbles_join_into_byte_and_address() {
    assert_eq!(nibbles_to_u8(0x9, 0xE), 0x9E);
    assert_eq!(nibbles_to_u16(0x2, 0x4, 0xF), 0x24F);
    assert_eq!(nibbles_to_u16(0xF, 0xF, 0xF), 0xFFF);
}
