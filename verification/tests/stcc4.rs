use ambient_air::stcc4::{
    command_bytes, product_identity, raw_measurement, Error, Stcc4, PRODUCT_ID, READ_MEAS_RAW, SINGLE_SHOT,
    START_CONTINUOUS, STOP_CONTINUOUS,
};

type Driver = Stcc4<(), ()>;

#[test]
fn crc8_matches_the_datasheet_example() {
    assert_eq!(Driver::crc8(&[0xBE, 0xEF]), 0x92);
    assert_eq!(Driver::crc8(&[]), 0xFF);
    assert_eq!(Driver::crc8(&[0x00, 0x00]), 0x81);
}

#[test]
fn check_crc_accepts_only_the_right_checksum() {
    let dev = Driver::new(0x64, (), ());
    assert!(dev.check_crc::<()>(&[0xBE, 0xEF], 0x92).is_ok());
    assert!(matches!(dev.check_crc::<()>(&[0xBE, 0xEF], 0x93), Err(Error::Crc)));
}

#[test]
fn words_are_decoded_big_endian() {
    let mut dev = Driver::new(0x64, (), ());
    let raw = [0xBE, 0xEF, 0x92, 0x00, 0x00, 0x81];
    let mut words = [0u16; 2];
    assert!(dev.decode_words::<()>(&raw, &mut words).is_ok());
    assert_eq!(words, [0xBEEF, 0x0000]);
}

#[test]
fn decoding_stops_at_a_bad_checksum() {
    let mut dev = Driver::new(0x64, (), ());
    let raw = [0xBE, 0xEF, 0x92, 0x12, 0x34, 0x00, 0x00, 0x00, 0x81];
    let mut words = [7u16; 3];
    assert!(matches!(dev.decode_words::<()>(&raw, &mut words), Err(Error::Crc)));
    assert_eq!(words, [0xBEEF, 7, 7]);
}

#[test]
fn driver_keeps_its_address() {
    assert_eq!(Driver::new(0x65, (), ()).addr(), 0x65);
}

#[test]
fn commands_go_out_most_significant_byte_first() {
    assert_eq!(command_bytes(START_CONTINUOUS), [0x21, 0x8B]);
    assert_eq!(command_bytes(STOP_CONTINUOUS), [0x3F, 0x86]);
    assert_eq!(command_bytes(READ_MEAS_RAW), [0xEC, 0x05]);
    assert_eq!(command_bytes(SINGLE_SHOT), [0x21, 0x9D]);
    assert_eq!(command_bytes(PRODUCT_ID), [0x36, 0x5B]);
}

#[test]
fn raw_measurement_takes_co2_as_signed() {
    assert_eq!(raw_measurement([450, 0x6666, 0x8000, 0]), (450, 0x6666, 0x8000, 0));
    assert_eq!(raw_measurement([0xFFFF, 1, 2, 3]), (-1, 1, 2, 3));
}

#[test]
fn product_identity_assembles_id_and_serial() {
    let (id, serial) = product_identity([0x0901, 0x018A, 0x0102, 0x0304, 0x0506, 0x0708]);
    assert_eq!(id, 0x0901_018A);
    assert_eq!(serial, 0x0102_0304_0506_0708);
}
