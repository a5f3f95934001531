use music_player::audio::scale::{
    fits_i24, fits_u24, i16_to_u16, i24_to_u24, i8_to_u8, u16_to_i16, u24_to_i24, u8_to_i8,
};

#[test]
fn signed_and_unsigned_samples_of_one_size() {
    assert_eq!(0, i8_to_u8(-128));
    assert_eq!(128, i8_to_u8(0));
    assert_eq!(255, i8_to_u8(127));
    assert_eq!(-128, u8_to_i8(0));
    assert_eq!(0, u8_to_i8(128));
    assert_eq!(127, u8_to_i8(255));
    assert_eq!(0, i16_to_u16(-32768));
    assert_eq!(32768, i16_to_u16(0));
    assert_eq!(65535, i16_to_u16(32767));
    assert_eq!(-32768, u16_to_i16(0));
    assert_eq!(-1, u16_to_i16(32767));
    assert_eq!(32767, u16_to_i16(65535));
    assert_eq!(0, i24_to_u24(-8_388_608));
    assert_eq!(16_777_215, i24_to_u24(8_388_607));
    assert_eq!(-8_388_608, u24_to_i24(0));
    assert_eq!(8_388_607, u24_to_i24(16_777_215));
}

#[test]
fn there_and_back() {
    for s in i8::MIN..=i8::MAX {
        assert_eq!(s, u8_to_i8(i8_to_u8(s)));
    }
    for s in [i16::MIN, -1, 0, 1, i16::MAX] {
        assert_eq!(s, u16_to_i16(i16_to_u16(s)));
    }
}

#[test]
fn samples_of_24_bits_leave_the_highest_byte_unused() {
    assert!(fits_i24(-8_388_608));
    assert!(fits_i24(8_388_607));
    assert!(!fits_i24(8_388_608));
    assert!(!fits_i24(-8_388_609));
    assert!(fits_u24(16_777_215));
    assert!(!fits_u24(16_777_216));
}
