use ambient_air::bq27441::{checksum_frame, extended_write_frames};
use ambient_air::bq27441::{
    block_data_register, block_select_frames, block_write_frames, check_device_type, compute_checksum,
    control_frame, design_capacity_bytes, signed_word, state_of_health, word_from_be, word_from_le, Bq27441,
    Error, CTRL_DEVICE_TYPE, DESIGN_CAPACITY_CLASS, DESIGN_CAPACITY_OFFSET, DEVICE_ID, UNSEAL_KEY,
};

#[test]
fn device_type_is_checked() {
    assert!(check_device_type::<()>(DEVICE_ID).is_ok());
    assert!(check_device_type::<()>(0x0421).is_ok());
    assert!(matches!(check_device_type::<()>(0x0420), Err(Error::InvalidDevice)));
}

#[test]
fn gauge_keeps_its_address() {
    let g = Bq27441::attach((), 0x55);
    assert_eq!(g.addr(), 0x55);
}

#[test]
fn words_and_signs() {
    assert_eq!(word_from_le([0x34, 0x12]), 0x1234);
    assert_eq!(word_from_be([0x01, 0xF4]), 500);
    assert_eq!(signed_word(0xFFFE), -2);
    assert_eq!(signed_word(0x7FFF), 32767);
    assert_eq!(state_of_health(0x0163), 0x63);
}

#[test]
fn control_frames_are_little_endian() {
    assert_eq!(control_frame(CTRL_DEVICE_TYPE), [0x00, 0x01, 0x00]);
    assert_eq!(control_frame(UNSEAL_KEY), [0x00, 0x00, 0x80]);
    assert_eq!(control_frame(0x0042), [0x00, 0x42, 0x00]);
}

#[test]
fn design_capacity_block_access() {
    assert_eq!(
        block_select_frames(DESIGN_CAPACITY_CLASS, DESIGN_CAPACITY_OFFSET),
        [[0x61, 0x00], [0x3E, 82], [0x3F, 0]]
    );
    assert_eq!(block_select_frames(82, 40)[2], [0x3F, 1]);
    assert_eq!(block_data_register(DESIGN_CAPACITY_OFFSET), 0x4A);
    assert_eq!(block_data_register(42), 0x4A);
    assert_eq!(design_capacity_bytes(2000), [0x07, 0xD0]);
    let data = design_capacity_bytes(2000);
    assert_eq!(block_write_frames(DESIGN_CAPACITY_OFFSET, &data), vec![[0x4A, 0x07], [0x4B, 0xD0]]);
}

#[test]
fn checksum_completes_the_block_sum() {
    assert_eq!(compute_checksum(&[0u8; 32]), 0xFF);
    let mut block = [0u8; 32];
    block[10] = 0x07;
    block[11] = 0xD0;
    let c = compute_checksum(&block);
    assert_eq!(c, 0x28);
    let sum = block.iter().fold(0u8, |a, b| a.wrapping_add(*b));
    assert_eq!(sum.wrapping_add(c), 0xFF);
    assert_eq!(compute_checksum(&[0xFF; 32]), 0x1F);
}

#[test]
fn extended_write_selects_the_block_then_writes_each_byte() {
    let data = design_capacity_bytes(2000);
    assert_eq!(
        extended_write_frames(DESIGN_CAPACITY_CLASS, DESIGN_CAPACITY_OFFSET, &data),
        vec![[0x61, 0x00], [0x3E, 82], [0x3F, 0], [0x4A, 0x07], [0x4B, 0xD0]]
    );
    let mut block = [0u8; 32];
    block[10] = 0x07;
    block[11] = 0xD0;
    assert_eq!(checksum_frame(&block), [0x60, 0x28]);
}

#[test]
fn design_capacity_reads_back_as_written() {
    for c in [0u16, 1, 500, 2000, 0xABCD, u16::MAX] {
        assert_eq!(word_from_be(design_capacity_bytes(c)), c);
    }
}
