use vstd::prelude::*;

verus! {

pub const DEFAULT_ADDR: u8 = 0x55;
pub const DEVICE_ID: u16 = 0x0421;
pub const UNSEAL_KEY: u16 = 0x8000;

// Standard commands (2 bytes, little-endian)
pub const CMD_CONTROL: u8 = 0x00;
pub const CMD_TEMP: u8 = 0x02;
pub const CMD_VOLTAGE: u8 = 0x04;
pub const CMD_FLAGS: u8 = 0x06;
pub const CMD_REM_CAPACITY: u8 = 0x0C;
pub const CMD_FULL_CAPACITY: u8 = 0x0E;
pub const CMD_AVG_CURRENT: u8 = 0x10;
pub const CMD_AVG_POWER: u8 = 0x18;
pub const CMD_SOC: u8 = 0x1C;
pub const CMD_INT_TEMP: u8 = 0x1E;
pub const CMD_SOH: u8 = 0x20;

// Control subcommands
pub const CTRL_STATUS: u16 = 0x0000;
pub const CTRL_DEVICE_TYPE: u16 = 0x0001;
pub const CTRL_SET_CFGUPDATE: u16 = 0x0013;
pub const CTRL_EXIT_CFGUPDATE: u16 = 0x0043;
pub const CTRL_SOFT_RESET: u16 = 0x0042;
pub const CTRL_SEALED: u16 = 0x0020;

// Extended data
pub const EXT_OPCONFIG: u8 = 0x3A;
pub const EXT_CAPACITY: u8 = 0x3C;
pub const EXT_DATACLASS: u8 = 0x3E;
pub const EXT_DATABLOCK: u8 = 0x3F;
pub const EXT_BLOCKDATA: u8 = 0x40;
pub const EXT_CHECKSUM: u8 = 0x60;
pub const EXT_CONTROL: u8 = 0x61;

/// Data class and offset of the design capacity in the gauge's data memory.
pub const DESIGN_CAPACITY_CLASS: u8 = 82;
pub const DESIGN_CAPACITY_OFFSET: u8 = 10;

#[derive(Debug)]
pub enum Error<E> {
    I2c(E),
    InvalidDevice,
}

impl<E> From<E> for Error<E> {
    fn from(other: E) -> (r: Self) {
        Error::I2c(other)
    }
}

impl<E> vstd::std_specs::convert::FromSpecImpl<E> for Error<E> {
    open spec fn obeys_from_spec() -> bool {
        true
    }

    open spec fn from_spec(v: E) -> Self {
        Error::I2c(v)
    }
}

/// Driver of the BQ27441 fuel gauge; the I²C transfers are made with `i2c` by the caller.
pub struct Bq27441<I2C> {
    pub i2c: I2C,
    addr: u8,
}

/// Little-endian value of two bytes.
pub open spec fn le16(lo: u8, hi: u8) -> int {
    lo + 256 * hi
}

/// The 16-bit two's-complement value of `w`.
pub open spec fn as_signed16(w: u16) -> int {
    if w < 0x8000 {
        w as int
    } else {
        w - 0x10000
    }
}

/// Sum of `bytes` modulo 256.
pub open spec fn byte_sum(bytes: Seq<u8>) -> int
    decreases bytes.len(),
{
    if bytes.len() == 0 {
        0
    } else {
        (byte_sum(bytes.drop_last()) + bytes.last()) % 256
    }
}

/// The block checksum that the gauge expects: 255 minus the byte sum, modulo 256.
pub open spec fn block_checksum(bytes: Seq<u8>) -> int {
    (255 - byte_sum(bytes)) % 256
}

impl<I2C> Bq27441<I2C> {
    /// A driver for the gauge at `addr` on `i2c`; the device type is checked separately with
    /// `check_device_type`.
    pub fn attach(i2c: I2C, addr: u8) -> (s: Self)
        ensures
            s.address() == addr,
            s.bus() == i2c,
    {
        Self { i2c, addr }
    }

    /// The gauge's bus address.
    pub closed spec fn address(&self) -> u8 {
        self.addr
    }

    /// The I²C device handle.
    pub closed spec fn bus(&self) -> I2C {
        self.i2c
    }

    pub fn addr(&self) -> (a: u8)
        ensures
            a == self.address(),
    {
        self.addr
    }
}

/// `Ok` when the device type read from the gauge is the BQ27441's, `Err(InvalidDevice)`
/// otherwise.
pub fn check_device_type<E>(id: u16) -> (r: Result<(), Error<E>>)
    ensures
        r is Ok <==> id == DEVICE_ID,
        r is Err ==> (r matches Err(Error::InvalidDevice)),
{
    if id != DEVICE_ID {
        return Err(Error::InvalidDevice);
    }
    Ok(())
}

/// A standard command's word: two bytes, least significant first.
pub fn word_from_le(buf: [u8; 2]) -> (w: u16)
    ensures
        w == le16(buf[0], buf[1]),
{
    let lo = buf[0];
    let hi = buf[1];
    let w = ((hi as u16) << 8u16) | (lo as u16);
    assert(w == lo + 256 * hi) by (bit_vector)
        requires
            w == ((hi as u16) << 8u16) | (lo as u16),
    ;
    w
}

/// A word of extended data: two bytes, most significant first.
pub fn word_from_be(buf: [u8; 2]) -> (w: u16)
    ensures
        w == le16(buf[1], buf[0]),
{
    word_from_le([buf[1], buf[0]])
}

/// Reinterprets a word as a signed quantity (current in mA, power in mW).
pub fn signed_word(w: u16) -> (v: i16)
    ensures
        v == as_signed16(w),
{
    let v = w as i16;
    assert(v == (if w < 0x8000 { w as int } else { w - 0x10000 })) by (bit_vector)
        requires
            v == w as i16,
    ;
    v
}

/// State of health in percent: the low byte of the state-of-health word.
pub fn state_of_health(soh: u16) -> (p: u8)
    ensures
        p == soh % 256,
{
    let p = (soh & 0x00FF) as u8;
    assert(p == soh % 256) by (bit_vector)
        requires
            p == (soh & 0x00FF) as u8,
    ;
    p
}

/// The write that issues control subcommand `cmd`: the control register, then the
/// subcommand least significant byte first.
pub fn control_frame(cmd: u16) -> (frame: [u8; 3])
    ensures
        frame[0] == CMD_CONTROL,
        le16(frame[1], frame[2]) == cmd,
{
    let lo = (cmd & 0xFF) as u8;
    let hi = (cmd >> 8u16) as u8;
    assert(lo + 256 * hi == cmd) by (bit_vector)
        requires
            lo == (cmd & 0xFF) as u8,
            hi == (cmd >> 8u16) as u8,
    ;
    [CMD_CONTROL, lo, hi]
}

/// The three writes that select a block of extended data: block data control on, the data
/// class, and the 32-byte block that holds `offset`.
pub fn block_select_frames(class_id: u8, offset: u8) -> (frames: [[u8; 2]; 3])
    ensures
        frames[0] == [EXT_CONTROL, 0u8],
        frames[1] == [EXT_DATACLASS, class_id],
        frames[2] == [EXT_DATABLOCK, (offset / 32) as u8],
{
    [[EXT_CONTROL, 0x00], [EXT_DATACLASS, class_id], [EXT_DATABLOCK, offset / 32]]
}

/// The block data register that holds byte `offset` of the selected block.
pub fn block_data_register(offset: u8) -> (reg: u8)
    ensures
        reg == EXT_BLOCKDATA + offset % 32,
{
    EXT_BLOCKDATA + (offset % 32)
}

/// The writes that put `data` into the selected block from byte `offset` on, one byte each:
/// register, then value.
pub fn block_write_frames(offset: u8, data: &[u8]) -> (frames: Vec<[u8; 2]>)
    requires
        EXT_BLOCKDATA + offset % 32 + data@.len() <= 256,
    ensures
        frames@.len() == data@.len(),
        forall|i: int|
            0 <= i < data@.len() ==> #[trigger] frames@[i] == [
                (EXT_BLOCKDATA + offset % 32 + i) as u8,
                data@[i],
            ],
{
    let mut frames: Vec<[u8; 2]> = Vec::new();
    let base = EXT_BLOCKDATA + (offset % 32);
    let mut i: usize = 0;
    while i < data.len()
        invariant
            base == EXT_BLOCKDATA + offset % 32,
            base + data@.len() <= 256,
            i <= data@.len(),
            frames@.len() == i,
            forall|j: int|
                0 <= j < i ==> #[trigger] frames@[j] == [(EXT_BLOCKDATA + offset % 32 + j) as u8, data@[j]],
        decreases data@.len() - i,
    {
        let reg = base + i as u8;
        frames.push([reg, data[i]]);
        i = i + 1;
    }
    frames
}

/// All writes of an extended-data update before its checksum: the three that select the block
/// holding `offset` of data class `class_id`, then one per byte of `data`, in order.
pub fn extended_write_frames(class_id: u8, offset: u8, data: &[u8]) -> (frames: Vec<[u8; 2]>)
    requires
        EXT_BLOCKDATA + offset % 32 + data@.len() <= 256,
    ensures
        frames@.len() == 3 + data@.len(),
        frames@[0] == [EXT_CONTROL, 0u8],
        frames@[1] == [EXT_DATACLASS, class_id],
        frames@[2] == [EXT_DATABLOCK, (offset / 32) as u8],
        forall|i: int|
            0 <= i < data@.len() ==> #[trigger] frames@[3 + i] == [
                (EXT_BLOCKDATA + offset % 32 + i) as u8,
                data@[i],
            ],
{
    let select = block_select_frames(class_id, offset);
    let mut frames: Vec<[u8; 2]> = Vec::new();
    frames.push(select[0]);
    frames.push(select[1]);
    frames.push(select[2]);
    let mut writes = block_write_frames(offset, data);
    frames.append(&mut writes);
    frames
}

/// The write that ends an extended-data update: the checksum of the block as read back.
pub fn checksum_frame(block: &[u8; 32]) -> (frame: [u8; 2])
    ensures
        frame[0] == EXT_CHECKSUM,
        frame[1] == block_checksum(block@),
{
    [EXT_CHECKSUM, compute_checksum(block)]
}

/// The bytes that set the design capacity: most significant first.
pub fn design_capacity_bytes(capacity_mah: u16) -> (data: [u8; 2])
    ensures
        le16(data[1], data[0]) == capacity_mah,
{
    let hi = (capacity_mah >> 8u16) as u8;
    let lo = (capacity_mah & 0xFF) as u8;
    assert(lo + 256 * hi == capacity_mah) by (bit_vector)
        requires
            lo == (capacity_mah & 0xFF) as u8,
            hi == (capacity_mah >> 8u16) as u8,
    ;
    [hi, lo]
}

/// Checksum of a 32-byte data block: 255 minus the wrapping sum of its bytes.
pub fn compute_checksum(buf: &[u8; 32]) -> (c: u8)
    ensures
        c == block_checksum(buf@),
{
    let mut sum: u8 = 0;
    let mut i: usize = 0;
    while i < 32
        invariant
            i <= 32,
            buf@.len() == 32,
            sum == byte_sum(buf@.subrange(0, i as int)),
        decreases 32 - i,
    {
        proof {
            assert(buf@.subrange(0, i + 1).drop_last() =~= buf@.subrange(0, i as int));
        }
        sum = sum.wrapping_add(buf[i]);
        i = i + 1;
    }
    proof {
        assert(buf@.subrange(0, 32) =~= buf@);
    }
    255u8.wrapping_sub(sum)
}

/// A block whose checksum byte was made by `compute_checksum` sums, with that byte, to 255
/// modulo 256.
pub proof fn checksum_completes_block(bytes: Seq<u8>)
    ensures
        (byte_sum(bytes) + block_checksum(bytes)) % 256 == 255,
{
    lemma_byte_sum_range(bytes);
}

proof fn lemma_byte_sum_range(bytes: Seq<u8>)
    ensures
        0 <= byte_sum(bytes) < 256,
    decreases bytes.len(),
{
    if bytes.len() > 0 {
        lemma_byte_sum_range(bytes.drop_last());
    }
}

} // verus!
