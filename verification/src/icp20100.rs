use vstd::prelude::*;

verus! {

// Register map of the ICP-20100 barometric pressure sensor.
pub const TRIM1_MSB: u8 = 0x05;
pub const TRIM2_LSB: u8 = 0x06;
pub const TRIM2_MSB: u8 = 0x07;
pub const OTP_CONFIG1: u8 = 0xAC;
pub const OTP_MR_LSB: u8 = 0xAD;
pub const OTP_MR_MSB: u8 = 0xAE;
pub const OTP_MRA_LSB: u8 = 0xAF;
pub const OTP_MRA_MSB: u8 = 0xB0;
pub const OTP_MRB_LSB: u8 = 0xB1;
pub const OTP_MRB_MSB: u8 = 0xB2;
pub const OTP_ADDRESS_REG: u8 = 0xB5;
pub const OTP_COMMAND_REG: u8 = 0xB6;
pub const OTP_RDATA: u8 = 0xB8;
pub const OTP_STATUS: u8 = 0xB9;
pub const OTP_DBG2: u8 = 0xBC;
pub const MASTER_LOCK: u8 = 0xBE;
pub const OTP_STATUS2: u8 = 0xBF;
pub const MODE_SELECT: u8 = 0xC0;
pub const DEVICE_STATUS: u8 = 0xCD;
pub const VERSION: u8 = 0xD3;
pub const PRESS_DATA_0: u8 = 0xFA;
pub const TEMP_DATA_0: u8 = 0xFD;

/// One transfer on the I²C bus, as the driver handed it over and, for a read, the bytes that
/// came back; or a transfer that the bus reported as failed, with the bytes handed over.
pub ghost enum BusOp {
    Write { address: u8, bytes: Seq<u8> },
    WriteRead { address: u8, bytes: Seq<u8>, read: Seq<u8> },
    Refused { address: u8, bytes: Seq<u8> },
}

/// The record of a bus's transfers, in order.
pub type BusLog = Seq<BusOp>;

/// Blocking I²C controller that the pressure sensor driver talks through.
pub trait I2cBus {
    type Error;

    /// Every transfer handed to the bus so far, in order: what went out and, for a read, what
    /// came back, or that the bus refused it.
    spec fn transfers(&self) -> BusLog;

    /// The error that the bus reported for its last refused transfer.
    spec fn last_error(&self) -> Self::Error;

    /// Writes `bytes` to the device at `address`; the transfer is recorded as made, or as
    /// refused when the bus reports an error.
    fn write(&mut self, address: u8, bytes: &[u8]) -> (r: Result<(), Self::Error>)
        ensures
            r is Ok ==> final(self).transfers() == old(self).transfers().push(
                BusOp::Write { address, bytes: bytes@ },
            ),
            r is Err ==> final(self).transfers() == old(self).transfers().push(
                BusOp::Refused { address, bytes: bytes@ },
            ),
            r matches Err(e) ==> final(self).last_error() == e,
    ;

    /// Writes `bytes`, then fills `buffer` from the device at `address`; the buffer keeps its
    /// length, as any slice does. The transfer is recorded with the bytes read back, or as
    /// refused when the bus reports an error.
    fn write_read(&mut self, address: u8, bytes: &[u8], buffer: &mut [u8]) -> (r: Result<(), Self::Error>)
        ensures
            final(buffer)@.len() == old(buffer)@.len(),
            r is Ok ==> final(self).transfers() == old(self).transfers().push(
                BusOp::WriteRead { address, bytes: bytes@, read: final(buffer)@ },
            ),
            r is Err ==> final(self).transfers() == old(self).transfers().push(
                BusOp::Refused { address, bytes: bytes@ },
            ),
            r matches Err(e) ==> final(self).last_error() == e,
    ;
}

#[derive(Debug)]
pub enum Error<E> {
    /// I²C bus error
    I2C(E),
}

impl<E> From<E> for Error<E> {
    fn from(other: E) -> (r: Self) {
        Error::I2C(other)
    }
}

impl<E> vstd::std_specs::convert::FromSpecImpl<E> for Error<E> {
    open spec fn obeys_from_spec() -> bool {
        true
    }

    open spec fn from_spec(v: E) -> Self {
        Error::I2C(v)
    }
}

/// Reading one register: the register number goes out, one byte comes back.
pub open spec fn read_op(address: u8, register: u8, value: u8) -> BusOp {
    BusOp::WriteRead { address, bytes: seq![register], read: seq![value] }
}

/// Writing one register: the register number and the value go out.
pub open spec fn write_op(address: u8, register: u8, value: u8) -> BusOp {
    BusOp::Write { address, bytes: seq![register, value] }
}

/// The bytes that a read transfer brought back.
pub open spec fn read_data(op: BusOp) -> Seq<u8> {
    match op {
        BusOp::WriteRead { read, .. } => read,
        BusOp::Write { .. } => Seq::empty(),
        BusOp::Refused { .. } => Seq::empty(),
    }
}

/// A burst read of `len` bytes from `start` that failed: either the bus refused the burst
/// itself, or it delivered the bytes and refused the read of register 0 that ends a burst.
pub open spec fn burst_refused(before: Seq<BusOp>, after: Seq<BusOp>, address: u8, start: u8, len: nat) -> bool {
    ||| after == before.push(BusOp::Refused { address, bytes: seq![start] })
    ||| {
        &&& after.len() == before.len() + 2
        &&& after.subrange(0, before.len() as int) == before
        &&& after[before.len() as int] matches BusOp::WriteRead { address: a, bytes: b, read: d }
        &&& a == address && b == seq![start] && d.len() == len
        &&& after[before.len() + 1int] == BusOp::Refused { address, bytes: seq![0u8] }
    }
}

/// `after` is `before` followed by further transfers, the last of which the bus refused: the
/// driver stopped at a bus failure.
pub open spec fn refused_after(before: Seq<BusOp>, after: Seq<BusOp>) -> bool {
    &&& before.len() < after.len()
    &&& forall|i: int| 0 <= i < before.len() ==> #[trigger] after[i] == before[i]
    &&& after.last() is Refused
}

/// `after` is `before` followed by a burst read from `start` that brought back `data`, and the
/// read of register 0 that ends a burst.
pub open spec fn burst_appended(before: Seq<BusOp>, after: Seq<BusOp>, address: u8, start: u8, data: Seq<u8>) -> bool {
    &&& after.len() == before.len() + 2
    &&& after.subrange(0, before.len() as int) == before
    &&& after[before.len() as int] == BusOp::WriteRead { address, bytes: seq![start], read: data }
    &&& after[before.len() + 1int] matches BusOp::WriteRead { address: a, bytes: b, read: r }
    &&& a == address && b == seq![0u8] && r.len() == 1
}

/// The byte that the read transfer at index `i` of `log` brought back.
pub open spec fn value_at(log: Seq<BusOp>, i: int) -> u8 {
    read_data(log[i])[0]
}

/// Read-modify-write of one register: `old` was read, `new` written back.
pub open spec fn rmw_ops(address: u8, register: u8, old: u8, new: u8) -> Seq<BusOp> {
    seq![read_op(address, register, old), write_op(address, register, new)]
}

/// A register value with the POWER_MODE bit (bit 2) set.
pub open spec fn power_mode_active(v: u8) -> u8 {
    v | 0x04
}

/// A register value with the POWER_MODE bit (bit 2) cleared.
pub open spec fn power_mode_standby(v: u8) -> u8 {
    v & 0xFB
}

/// OTP_CONFIG1 with OTP_ENABLE and OTP_WRITE_SWITCH (bits 1:0) set.
pub open spec fn otp_enabled(v: u8) -> u8 {
    v | 0x03
}

/// OTP_CONFIG1 with OTP_ENABLE and OTP_WRITE_SWITCH (bits 1:0) cleared.
pub open spec fn otp_disabled(v: u8) -> u8 {
    v & 0xFC
}

/// OTP_DBG2 with the reset bit (bit 7) set.
pub open spec fn otp_reset_asserted(v: u8) -> u8 {
    v | 0x80
}

/// OTP_DBG2 with the reset bit (bit 7) cleared.
pub open spec fn otp_reset_released(v: u8) -> u8 {
    v & 0x7F
}

/// OTP_COMMAND with the command field (bits 6:4) set to 1, a read.
pub open spec fn otp_read_command(v: u8) -> u8 {
    (v & 0x8F) | 0x10
}

/// TRIM1_MSB with PEFE_OFFSET_TRIM (bits 5:0) replaced by the low six bits of `offset`.
pub open spec fn trim1_with_offset(v: u8, offset: u8) -> u8 {
    (v & 0xC0) | (offset & 0x3F)
}

/// TRIM2_MSB with bits 6:4 replaced by the low three bits of `gain`.
pub open spec fn trim2_msb_with_gain(v: u8, gain: u8) -> u8 {
    (v & 0x8F) | ((gain & 0x07) << 4u8)
}

/// TRIM2_LSB with bits 6:0 replaced by the low seven bits of `hfosc`.
pub open spec fn trim2_lsb_with_hfosc(v: u8, hfosc: u8) -> u8 {
    (v & 0x80) | (hfosc & 0x7F)
}

/// OTP_STATUS2 with BOOT_UP_STATUS (bit 0) set.
pub open spec fn boot_done(v: u8) -> u8 {
    v | 0x01
}

/// MODE_SELECT for measuring: mode 0, continuous measurement, active power, pressure first.
pub const MEASUREMENT_MODE: u8 = 0x0C;

/// The six writes that program the OTP's redundant read.
pub open spec fn redundant_read_ops(a: u8) -> Seq<BusOp> {
    seq![
        write_op(a, OTP_MRA_LSB, 0x04),
        write_op(a, OTP_MRA_MSB, 0x04),
        write_op(a, OTP_MRB_LSB, 0x21),
        write_op(a, OTP_MRB_MSB, 0x20),
        write_op(a, OTP_MR_LSB, 0x10),
        write_op(a, OTP_MR_MSB, 0x80),
    ]
}

/// Starting an OTP read of `otp_address`: the address is set, then the command register is
/// rewritten with a read command, `cmd` being the value it held.
pub open spec fn otp_request_ops(a: u8, otp_address: u8, cmd: u8) -> Seq<BusOp> {
    seq![
        write_op(a, OTP_ADDRESS_REG, otp_address),
        read_op(a, OTP_COMMAND_REG, cmd),
        write_op(a, OTP_COMMAND_REG, otp_read_command(cmd)),
    ]
}

/// Writing the three calibration trims read from OTP; `t1`, `t2m`, `t2l` are the values the
/// trim registers held.
pub open spec fn calibration_ops(a: u8, offset: u8, gain: u8, hfosc: u8, t1: u8, t2m: u8, t2l: u8) -> Seq<BusOp> {
    rmw_ops(a, TRIM1_MSB, t1, trim1_with_offset(t1, offset)) + rmw_ops(
        a,
        TRIM2_MSB,
        t2m,
        trim2_msb_with_gain(t2m, gain),
    ) + rmw_ops(a, TRIM2_LSB, t2l, trim2_lsb_with_hfosc(t2l, hfosc))
}

/// Where the sensor's one-time start-up configuration stands. Each step does its register work
/// and names the pause to take before the next.
#[derive(Clone, Copy, Debug, PartialEq, Eq, Structural)]
pub enum StartupStep {
    /// Checks whether configuration is needed, then selects active power.
    Begin,
    /// Unlocks the main registers and enables the OTP.
    EnableOtp,
    /// Sets the OTP reset bit.
    AssertOtpReset,
    /// Clears the OTP reset bit again; `dbg2` is the value written when it was set.
    ReleaseOtpReset { dbg2: u8 },
    /// Programs the redundant read and asks the OTP for the offset trim.
    ProgramOtpRead,
    /// Waits for the offset trim, then asks for the gain trim.
    AwaitOffset,
    /// Waits for the gain trim, then asks for the oscillator trim.
    AwaitGain { offset: u8 },
    /// Waits for the oscillator trim, then disables the OTP.
    AwaitHfosc { offset: u8, gain: u8 },
    /// Writes the trims, locks the registers, moves to standby and marks boot as done.
    Calibrate { offset: u8, gain: u8, hfosc: u8 },
    /// Nothing is left to do.
    Done,
}

/// What to wait for before the next start-up step.
#[derive(Clone, Copy, Debug, PartialEq, Eq, Structural)]
pub enum Pause {
    Now,
    Millis(u32),
    Micros(u32),
}

/// OTP address of the offset trim; the gain and oscillator trims follow it.
pub const OTP_OFFSET_ADDRESS: u8 = 0xF8;

/// One poll of the OTP status while waiting for an OTP read: busy (bit 0 set) means the same
/// step again after 100 ms; otherwise RDATA is read and `done` describes the rest, given the
/// byte read from RDATA.
pub open spec fn otp_poll(
    a: u8,
    step: StartupStep,
    before: Seq<BusOp>,
    after: Seq<BusOp>,
    next: StartupStep,
    pause: Pause,
) -> bool {
    let n = before.len() as int;
    let status = value_at(after, n);
    let data = value_at(after, n + 1);
    let reads = seq![read_op(a, OTP_STATUS, status), read_op(a, OTP_RDATA, data)];
    if status % 2 == 1 {
        after == before.push(read_op(a, OTP_STATUS, status)) && next == step && pause == Pause::Millis(100)
    } else {
        match step {
            StartupStep::AwaitOffset => {
                &&& after == before + reads + otp_request_ops(a, (OTP_OFFSET_ADDRESS + 1) as u8, value_at(after, n + 3))
                &&& next == StartupStep::AwaitGain { offset: data }
                &&& pause == Pause::Now
            },
            StartupStep::AwaitGain { offset } => {
                &&& after == before + reads + otp_request_ops(a, (OTP_OFFSET_ADDRESS + 2) as u8, value_at(after, n + 3))
                &&& next == StartupStep::AwaitHfosc { offset, gain: data }
                &&& pause == Pause::Now
            },
            StartupStep::AwaitHfosc { offset, gain } => {
                let cfg = value_at(after, n + 2);
                &&& after == before + reads + rmw_ops(a, OTP_CONFIG1, cfg, otp_disabled(cfg))
                &&& next == StartupStep::Calibrate { offset, gain, hfosc: data }
                &&& pause == Pause::Micros(10)
            },
            _ => false,
        }
    }
}

/// The start-up protocol: what one step from `step` sends to the sensor at address `a`, given
/// what the sensor answers, where it leads and how long to wait after it. `before` and `after`
/// are the transfers before and after the step.
pub open spec fn startup_protocol(
    a: u8,
    step: StartupStep,
    before: Seq<BusOp>,
    after: Seq<BusOp>,
    next: StartupStep,
    pause: Pause,
) -> bool {
    let n = before.len() as int;
    let v0 = value_at(after, n);
    let v1 = value_at(after, n + 1);
    match step {
        StartupStep::Begin => {
            let checks = seq![read_op(a, VERSION, v0), read_op(a, OTP_STATUS2, v1)];
            if init_needed(v0, v1) {
                let mode = value_at(after, n + 2);
                &&& after == before + checks + rmw_ops(a, MODE_SELECT, mode, power_mode_active(mode))
                &&& next == StartupStep::EnableOtp
                &&& pause == Pause::Millis(4)
            } else {
                after == before + checks && next == StartupStep::Done && pause == Pause::Now
            }
        },
        StartupStep::EnableOtp => {
            &&& after == before.push(write_op(a, MASTER_LOCK, 0x1f)) + rmw_ops(a, OTP_CONFIG1, v1, otp_enabled(v1))
            &&& next == StartupStep::AssertOtpReset
            &&& pause == Pause::Micros(10)
        },
        StartupStep::AssertOtpReset => {
            &&& after == before + rmw_ops(a, OTP_DBG2, v0, otp_reset_asserted(v0))
            &&& next == StartupStep::ReleaseOtpReset { dbg2: otp_reset_asserted(v0) }
            &&& pause == Pause::Micros(10)
        },
        StartupStep::ReleaseOtpReset { dbg2 } => {
            &&& after == before.push(write_op(a, OTP_DBG2, otp_reset_released(dbg2)))
            &&& next == StartupStep::ProgramOtpRead
            &&& pause == Pause::Micros(10)
        },
        StartupStep::ProgramOtpRead => {
            &&& after == before + redundant_read_ops(a) + otp_request_ops(a, OTP_OFFSET_ADDRESS, value_at(after, n + 7))
            &&& next == StartupStep::AwaitOffset
            &&& pause == Pause::Now
        },
        StartupStep::AwaitOffset => otp_poll(a, step, before, after, next, pause),
        StartupStep::AwaitGain { .. } => otp_poll(a, step, before, after, next, pause),
        StartupStep::AwaitHfosc { .. } => otp_poll(a, step, before, after, next, pause),
        StartupStep::Calibrate { offset, gain, hfosc } => {
            let mode = value_at(after, n + 7);
            let status2 = value_at(after, n + 9);
            &&& after == before + calibration_ops(a, offset, gain, hfosc, v0, value_at(after, n + 2), value_at(after, n + 4))
                + seq![write_op(a, MASTER_LOCK, 0x00)] + rmw_ops(a, MODE_SELECT, mode, power_mode_standby(mode))
                + rmw_ops(a, OTP_STATUS2, status2, boot_done(status2))
            &&& next == StartupStep::Done
            &&& pause == Pause::Now
        },
        StartupStep::Done => after == before && next == StartupStep::Done && pause == Pause::Now,
    }
}

/// Little-endian unsigned value of three bytes.
pub open spec fn u24_le(b0: u8, b1: u8, b2: u8) -> int {
    b0 + 256 * b1 + 65536 * b2
}

/// Value of the 20-bit two's-complement number whose bits are the low 20 bits of the
/// little-endian bytes `b0, b1, b2`.
pub open spec fn signed20_le(b0: u8, b1: u8, b2: u8) -> int {
    let raw = b0 + 256 * b1 + 65536 * (b2 % 16);
    if raw >= 0x80000 {
        raw - 0x100000
    } else {
        raw
    }
}

/// Whether the sensor still needs its one-time start-up configuration: the version register
/// reads 0 and BOOT_UP_STATUS is clear.
pub open spec fn init_needed(version: u8, otp_status2: u8) -> bool {
    version == 0 && otp_status2 % 2 == 0
}

/// Major and minor parts of the VERSION register: the high and the low nibble.
pub open spec fn version_parts(v: u8) -> (u8, u8) {
    ((v / 16) as u8, (v % 16) as u8)
}

/// Splits the VERSION register into its major (high nibble) and minor (low nibble) parts.
pub fn split_version(v: u8) -> (parts: (u8, u8))
    ensures
        parts == version_parts(v),
{
    let major = (v >> 4) & 0x0F;
    let minor = v & 0x0F;
    assert(major == v / 16 && minor == v % 16) by (bit_vector)
        requires
            major == (v >> 4) & 0x0F,
            minor == v & 0x0F,
    ;
    (major, minor)
}

/// Little-endian 24-bit value of a three-byte burst.
pub fn decode_u24(buf: [u8; 3]) -> (v: u32)
    ensures
        v == u24_le(buf[0], buf[1], buf[2]),
        v < 0x100_0000,
{
    let b0 = buf[0];
    let b1 = buf[1];
    let b2 = buf[2];
    let v = ((b2 as u32) << 16) | ((b1 as u32) << 8) | (b0 as u32);
    assert(v == b0 + 256 * b1 + 65536 * b2 && v < 0x100_0000) by (bit_vector)
        requires
            v == ((b2 as u32) << 16) | ((b1 as u32) << 8) | (b0 as u32),
    ;
    v
}

/// Decodes one FIFO sample: three bytes of pressure, then three bytes of temperature, each a
/// 20-bit two's-complement number in little-endian order.
pub fn decode_fifo_sample(buf: [u8; 6]) -> (sample: (i32, i32))
    ensures
        sample.0 == signed20_le(buf[0], buf[1], buf[2]),
        sample.1 == signed20_le(buf[3], buf[4], buf[5]),
{
    let p = sign_extend_20(buf[0], buf[1], buf[2]);
    let t = sign_extend_20(buf[3], buf[4], buf[5]);
    (p, t)
}

fn sign_extend_20(b0: u8, b1: u8, b2: u8) -> (v: i32)
    ensures
        v == signed20_le(b0, b1, b2),
{
    let raw: u32 = (((b2 as u32) & 0x0F) << 16) | ((b1 as u32) << 8) | (b0 as u32);
    assert(raw == b0 + 256 * b1 + 65536 * (b2 % 16) && raw < 0x100000) by (bit_vector)
        requires
            raw == (((b2 as u32) & 0x0F) << 16) | ((b1 as u32) << 8) | (b0 as u32),
    ;
    if raw >= 0x80000 {
        (raw as i32) - 0x100000
    } else {
        raw as i32
    }
}

/// Driver of the ICP-20100 pressure sensor on a blocking I²C bus.
///
/// The contracts speak of the transfers on its bus; the driver stops at the first transfer
/// that the bus refuses and reports it as `Error::I2C`.
pub struct Icp20100<I2C, D> {
    addr: u8,
    i2c: I2C,
    pub delay: D,
}

impl<I2C: I2cBus, D> Icp20100<I2C, D> {
    /// The transfers made on the driver's bus so far.
    pub closed spec fn transfers(&self) -> Seq<BusOp> {
        self.i2c.transfers()
    }

    /// The error that the driver's bus reported for its last refused transfer.
    pub closed spec fn bus_error(&self) -> I2C::Error {
        self.i2c.last_error()
    }

    /// The sensor's bus address.
    pub closed spec fn address(&self) -> u8 {
        self.addr
    }

    /// A driver for the sensor at `addr` on `i2c`; it makes no transfer.
    pub fn attach(addr: u8, i2c: I2C, delay: D) -> (s: Self)
        ensures
            s.address() == addr,
            s.transfers() == i2c.transfers(),
    {
        Icp20100 { addr, i2c, delay }
    }

    pub fn read_register(&mut self, register: u8) -> (r: Result<u8, Error<I2C::Error>>)
        ensures
            final(self).address() == old(self).address(),
            r matches Err(Error::I2C(e)) ==> e == final(self).bus_error(),
            r matches Ok(v) ==> final(self).transfers() == old(self).transfers().push(
                read_op(old(self).address(), register, v),
            ),
            r is Err ==> final(self).transfers() == old(self).transfers().push(
                BusOp::Refused { address: old(self).address(), bytes: seq![register] },
            ),
    {
        let mut data = [0u8; 1];
        let cmd = [register];
        assert(cmd@ =~= seq![register]);
        match self.i2c.write_read(self.addr, &cmd, &mut data) {
            Ok(()) => {},
            Err(e) => {
                return Err(Error::I2C(e));
            },
        }
        let v = data[0];
        assert(data@ =~= seq![v]);
        Ok(v)
    }

    pub fn write_register(&mut self, register: u8, value: u8) -> (r: Result<(), Error<I2C::Error>>)
        ensures
            final(self).address() == old(self).address(),
            r matches Err(Error::I2C(e)) ==> e == final(self).bus_error(),
            r is Ok ==> final(self).transfers() == old(self).transfers().push(
                write_op(old(self).address(), register, value),
            ),
            r is Err ==> final(self).transfers() == old(self).transfers().push(
                BusOp::Refused { address: old(self).address(), bytes: seq![register, value] },
            ),
    {
        let buffer: [u8; 2] = [register, value];
        assert(buffer@ =~= seq![register, value]);
        match self.i2c.write(self.addr, &buffer) {
            Ok(()) => {},
            Err(e) => {
                return Err(Error::I2C(e));
            },
        }
        Ok(())
    }

    /// Burst read from `start` into `buffer`, ended by a read of register 0.
    pub fn read_burst(&mut self, start: u8, buffer: &mut [u8]) -> (r: Result<(), Error<I2C::Error>>)
        ensures
            final(self).address() == old(self).address(),
            r matches Err(Error::I2C(e)) ==> e == final(self).bus_error(),
            final(buffer)@.len() == old(buffer)@.len(),
            r is Ok ==> burst_appended(
                old(self).transfers(),
                final(self).transfers(),
                old(self).address(),
                start,
                final(buffer)@,
            ),
            r is Err ==> final(self).transfers() == old(self).transfers().push(
                BusOp::Refused { address: old(self).address(), bytes: seq![start] },
            ) || final(self).transfers() == old(self).transfers().push(
                BusOp::WriteRead { address: old(self).address(), bytes: seq![start], read: final(buffer)@ },
            ).push(BusOp::Refused { address: old(self).address(), bytes: seq![0u8] }),
            r is Err ==> burst_refused(
                old(self).transfers(),
                final(self).transfers(),
                old(self).address(),
                start,
                old(buffer)@.len(),
            ),
    {
        let cmd = [start];
        assert(cmd@ =~= seq![start]);
        match self.i2c.write_read(self.addr, &cmd, buffer) {
            Ok(()) => {},
            Err(e) => {
                return Err(Error::I2C(e));
            },
        }
        let ghost mid = self.i2c.transfers();
        let dummy = match self.read_register(0x00) {
            Ok(v) => v,
            Err(e) => {
                proof {
                    let t = self.i2c.transfers();
                    let n = old(self).i2c.transfers().len() as int;
                    assert(t.subrange(0, n) =~= old(self).i2c.transfers());
                    assert(t[n] == mid[n]);
                }
                return Err(e);
            },
        };
        assert(self.i2c.transfers().subrange(0, old(self).i2c.transfers().len() as int) =~= old(self).i2c.transfers());
        Ok(())
    }

    fn read_u24(&mut self, base: u8) -> (r: Result<u32, Error<I2C::Error>>)
        ensures
            final(self).address() == old(self).address(),
            r is Err ==> burst_refused(old(self).transfers(), final(self).transfers(), old(self).address(), base, 3),
            r matches Err(Error::I2C(e)) ==> e == final(self).bus_error(),
            r is Err ==> refused_after(old(self).transfers(), final(self).transfers()),
            r matches Ok(v) ==> {
                let d = read_data(final(self).transfers()[old(self).transfers().len() as int]);
                &&& burst_appended(old(self).transfers(), final(self).transfers(), old(self).address(), base, d)
                &&& d.len() == 3
                &&& v == u24_le(d[0], d[1], d[2])
            },
    {
        let mut buf = [0u8; 3];
        self.read_burst(base, &mut buf)?;
        let v = decode_u24(buf);
        Ok(v)
    }

    /// Raw 24-bit temperature reading, assembled from TEMP_DATA_0..2.
    pub fn read_raw_temperature(&mut self) -> (r: Result<u32, Error<I2C::Error>>)
        ensures
            final(self).address() == old(self).address(),
            r is Err ==> burst_refused(old(self).transfers(), final(self).transfers(), old(self).address(), TEMP_DATA_0, 3),
            r matches Err(Error::I2C(e)) ==> e == final(self).bus_error(),
            r is Err ==> refused_after(old(self).transfers(), final(self).transfers()),
            r matches Ok(v) ==> {
                let d = read_data(final(self).transfers()[old(self).transfers().len() as int]);
                &&& burst_appended(old(self).transfers(), final(self).transfers(), old(self).address(), TEMP_DATA_0, d)
                &&& d.len() == 3
                &&& v == u24_le(d[0], d[1], d[2])
                &&& v < 0x100_0000
            },
    {
        self.read_u24(TEMP_DATA_0)
    }

    /// Raw 24-bit pressure reading, assembled from PRESS_DATA_0..2.
    pub fn read_raw_pressure(&mut self) -> (r: Result<u32, Error<I2C::Error>>)
        ensures
            final(self).address() == old(self).address(),
            r is Err ==> burst_refused(old(self).transfers(), final(self).transfers(), old(self).address(), PRESS_DATA_0, 3),
            r matches Err(Error::I2C(e)) ==> e == final(self).bus_error(),
            r is Err ==> refused_after(old(self).transfers(), final(self).transfers()),
            r matches Ok(v) ==> {
                let d = read_data(final(self).transfers()[old(self).transfers().len() as int]);
                &&& burst_appended(old(self).transfers(), final(self).transfers(), old(self).address(), PRESS_DATA_0, d)
                &&& d.len() == 3
                &&& v == u24_le(d[0], d[1], d[2])
                &&& v < 0x100_0000
            },
    {
        self.read_u24(PRESS_DATA_0)
    }

    /// Reads one FIFO sample (pressure and temperature, both raw) with a six-byte burst from
    /// PRESS_DATA_0.
    pub fn read_fifo_sample(&mut self) -> (r: Result<(i32, i32), Error<I2C::Error>>)
        ensures
            final(self).address() == old(self).address(),
            r is Err ==> burst_refused(old(self).transfers(), final(self).transfers(), old(self).address(), PRESS_DATA_0, 6),
            r matches Err(Error::I2C(e)) ==> e == final(self).bus_error(),
            r is Err ==> refused_after(old(self).transfers(), final(self).transfers()),
            r matches Ok(s) ==> {
                let d = read_data(final(self).transfers()[old(self).transfers().len() as int]);
                &&& burst_appended(old(self).transfers(), final(self).transfers(), old(self).address(), PRESS_DATA_0, d)
                &&& d.len() == 6
                &&& s.0 == signed20_le(d[0], d[1], d[2])
                &&& s.1 == signed20_le(d[3], d[4], d[5])
            },
    {
        let mut buf = [0u8; 6];
        self.read_burst(PRESS_DATA_0, &mut buf)?;
        Ok(decode_fifo_sample(buf))
    }

    /// Whether the one-time start-up configuration is still to be done.
    pub fn check_if_init_is_needed(&mut self) -> (r: Result<bool, Error<I2C::Error>>)
        ensures
            final(self).address() == old(self).address(),
            r matches Err(Error::I2C(e)) ==> e == final(self).bus_error(),
            r is Err ==> refused_after(old(self).transfers(), final(self).transfers()),
            r matches Ok(b) ==> {
                let n = old(self).transfers().len() as int;
                let t = final(self).transfers();
                &&& t == old(self).transfers() + seq![
                    read_op(old(self).address(), VERSION, value_at(t, n)),
                    read_op(old(self).address(), OTP_STATUS2, value_at(t, n + 1)),
                ]
                &&& b == init_needed(value_at(t, n), value_at(t, n + 1))
            },
    {
        let version = self.read_register(VERSION)?;
        let otp_status2 = self.read_register(OTP_STATUS2)?;
        let needed = version == 0x00 && otp_status2 & 0x01 == 0;
        assert((otp_status2 & 0x01 == 0) == (otp_status2 % 2 == 0)) by (bit_vector);
        proof {
            let n = old(self).i2c.transfers().len() as int;
            assert(self.i2c.transfers()[n] == read_op(self.addr, VERSION, version));
            assert(self.i2c.transfers() =~= old(self).i2c.transfers() + seq![
                read_op(self.addr, VERSION, value_at(self.i2c.transfers(), n)),
                read_op(self.addr, OTP_STATUS2, value_at(self.i2c.transfers(), n + 1)),
            ]);
        }
        Ok(needed)
    }

    /// Reads `register`, sets the bits of `mask` in it and writes it back.
    fn set_bits(&mut self, register: u8, mask: u8) -> (r: Result<u8, Error<I2C::Error>>)
        ensures
            final(self).address() == old(self).address(),
            r matches Err(Error::I2C(e)) ==> e == final(self).bus_error(),
            r is Err ==> refused_after(old(self).transfers(), final(self).transfers()),
            r matches Ok(x) ==> final(self).transfers() == old(self).transfers() + rmw_ops(
                old(self).address(),
                register,
                x,
                x | mask,
            ),
    {
        let x = self.read_register(register)?;
        self.write_register(register, x | mask)?;
        assert(self.i2c.transfers() =~= old(self).i2c.transfers() + rmw_ops(self.addr, register, x, x | mask));
        Ok(x)
    }

    /// Reads `register`, keeps only the bits of `mask` in it and writes it back.
    fn keep_bits(&mut self, register: u8, mask: u8) -> (r: Result<u8, Error<I2C::Error>>)
        ensures
            final(self).address() == old(self).address(),
            r matches Err(Error::I2C(e)) ==> e == final(self).bus_error(),
            r is Err ==> refused_after(old(self).transfers(), final(self).transfers()),
            r matches Ok(x) ==> final(self).transfers() == old(self).transfers() + rmw_ops(
                old(self).address(),
                register,
                x,
                x & mask,
            ),
    {
        let x = self.read_register(register)?;
        self.write_register(register, x & mask)?;
        assert(self.i2c.transfers() =~= old(self).i2c.transfers() + rmw_ops(self.addr, register, x, x & mask));
        Ok(x)
    }

    /// Unlocks the main registers.
    fn unlock_main_registers(&mut self) -> (r: Result<(), Error<I2C::Error>>)
        ensures
            final(self).address() == old(self).address(),
            r matches Err(Error::I2C(e)) ==> e == final(self).bus_error(),
            r is Err ==> refused_after(old(self).transfers(), final(self).transfers()),
            r is Ok ==> final(self).transfers() == old(self).transfers().push(
                write_op(old(self).address(), MASTER_LOCK, 0x1f),
            ),
    {
        self.write_register(MASTER_LOCK, 0x1f)
    }

    /// Programs the OTP's redundant read.
    fn program_redundant_read(&mut self) -> (r: Result<(), Error<I2C::Error>>)
        ensures
            final(self).address() == old(self).address(),
            r matches Err(Error::I2C(e)) ==> e == final(self).bus_error(),
            r is Err ==> refused_after(old(self).transfers(), final(self).transfers()),
            r is Ok ==> final(self).transfers() == old(self).transfers() + redundant_read_ops(
                old(self).address(),
            ),
    {
        self.write_register(OTP_MRA_LSB, 0x04)?;
        self.write_register(OTP_MRA_MSB, 0x04)?;
        self.write_register(OTP_MRB_LSB, 0x21)?;
        self.write_register(OTP_MRB_MSB, 0x20)?;
        self.write_register(OTP_MR_LSB, 0x10)?;
        self.write_register(OTP_MR_MSB, 0x80)?;
        assert(self.i2c.transfers() =~= old(self).i2c.transfers() + redundant_read_ops(self.addr));
        Ok(())
    }

    /// Sets the OTP address and issues the read command.
    fn request_otp_read(&mut self, address: u8) -> (r: Result<(), Error<I2C::Error>>)
        ensures
            final(self).address() == old(self).address(),
            r matches Err(Error::I2C(e)) ==> e == final(self).bus_error(),
            r is Err ==> refused_after(old(self).transfers(), final(self).transfers()),
            r is Ok ==> final(self).transfers() == old(self).transfers() + otp_request_ops(
                old(self).address(),
                address,
                value_at(final(self).transfers(), old(self).transfers().len() + 1int),
            ),
    {
        self.write_register(OTP_ADDRESS_REG, address)?;
        let cmd = self.read_register(OTP_COMMAND_REG)?;
        let new_cmd = (cmd & !(0b111u8 << 4u8)) | (1u8 << 4u8);
        assert(new_cmd == (cmd & 0x8F) | 0x10) by (bit_vector)
            requires
                new_cmd == (cmd & !(0b111u8 << 4u8)) | (1u8 << 4u8),
        ;
        self.write_register(OTP_COMMAND_REG, new_cmd)?;
        proof {
            let n = old(self).i2c.transfers().len() as int;
            assert(self.i2c.transfers()[n + 1] == read_op(self.addr, OTP_COMMAND_REG, cmd));
            assert(value_at(self.i2c.transfers(), n + 1) == cmd);
            assert(self.i2c.transfers() =~= old(self).i2c.transfers() + otp_request_ops(self.addr, address, cmd));
        }
        Ok(())
    }

    /// Writes the calibration values read from OTP into the trim registers, keeping their
    /// other bits.
    fn write_calibration(&mut self, offset: u8, gain: u8, hfosc: u8) -> (r: Result<(), Error<I2C::Error>>)
        ensures
            final(self).address() == old(self).address(),
            r matches Err(Error::I2C(e)) ==> e == final(self).bus_error(),
            r is Err ==> refused_after(old(self).transfers(), final(self).transfers()),
            r is Ok ==> {
                let n = old(self).transfers().len() as int;
                let t = final(self).transfers();
                t == old(self).transfers() + calibration_ops(
                    old(self).address(),
                    offset,
                    gain,
                    hfosc,
                    value_at(t, n),
                    value_at(t, n + 2),
                    value_at(t, n + 4),
                )
            },
    {
        let trim1 = self.read_register(TRIM1_MSB)?;
        let new_trim1 = (trim1 & !0b0011_1111u8) | (offset & 0x3F);
        assert(new_trim1 == (trim1 & 0xC0) | (offset & 0x3F)) by (bit_vector)
            requires
                new_trim1 == (trim1 & !0b0011_1111u8) | (offset & 0x3F),
        ;
        self.write_register(TRIM1_MSB, new_trim1)?;
        let trim2_msb = self.read_register(TRIM2_MSB)?;
        let new_trim2_msb = (trim2_msb & !(0b111u8 << 4u8)) | ((gain & 0x07) << 4u8);
        assert(new_trim2_msb == (trim2_msb & 0x8F) | ((gain & 0x07) << 4u8)) by (bit_vector)
            requires
                new_trim2_msb == (trim2_msb & !(0b111u8 << 4u8)) | ((gain & 0x07) << 4u8),
        ;
        self.write_register(TRIM2_MSB, new_trim2_msb)?;
        let trim2_lsb = self.read_register(TRIM2_LSB)?;
        let new_trim2_lsb = (trim2_lsb & !0x7Fu8) | (hfosc & 0x7F);
        assert(new_trim2_lsb == (trim2_lsb & 0x80) | (hfosc & 0x7F)) by (bit_vector)
            requires
                new_trim2_lsb == (trim2_lsb & !0x7Fu8) | (hfosc & 0x7F),
        ;
        self.write_register(TRIM2_LSB, new_trim2_lsb)?;
        proof {
            let n = old(self).i2c.transfers().len() as int;
            assert(value_at(self.i2c.transfers(), n) == trim1);
            assert(value_at(self.i2c.transfers(), n + 2) == trim2_msb);
            assert(value_at(self.i2c.transfers(), n + 4) == trim2_lsb);
            assert(self.i2c.transfers() =~= old(self).i2c.transfers() + calibration_ops(
                self.addr, offset, gain, hfosc, trim1, trim2_msb, trim2_lsb));
        }
        Ok(())
    }

    /// Polls the OTP status once during an OTP read and, when the read is done, fetches the
    /// byte and moves on as `otp_poll` describes.
    fn poll_otp(&mut self, step: StartupStep) -> (r: Result<(StartupStep, Pause), Error<I2C::Error>>)
        requires
            step is AwaitOffset || step is AwaitGain || step is AwaitHfosc,
        ensures
            final(self).address() == old(self).address(),
            r matches Err(Error::I2C(e)) ==> e == final(self).bus_error(),
            r is Err ==> refused_after(old(self).transfers(), final(self).transfers()),
            r matches Ok((next, pause)) ==> otp_poll(
                old(self).address(),
                step,
                old(self).transfers(),
                final(self).transfers(),
                next,
                pause,
            ),
    {
        let ghost a = self.addr;
        let ghost before = self.i2c.transfers();
        let ghost n = before.len() as int;
        let status = self.read_register(OTP_STATUS)?;
        assert((status & 0x01 == 0) == (status % 2 == 0)) by (bit_vector);
        if status & 0x01 != 0 {
            assert(value_at(self.i2c.transfers(), n) == status);
            return Ok((step, Pause::Millis(100)));
        }
        let data = self.read_register(OTP_RDATA)?;
        let ghost reads = seq![read_op(a, OTP_STATUS, status), read_op(a, OTP_RDATA, data)];
        let ghost mid = self.i2c.transfers();
        assert(mid =~= before + reads);
        match step {
            StartupStep::AwaitOffset => {
                self.request_otp_read(OTP_OFFSET_ADDRESS + 1)?;
                assert(value_at(self.i2c.transfers(), n) == status);
                assert(value_at(self.i2c.transfers(), n + 1) == data);
                assert(value_at(self.i2c.transfers(), n + 3) == value_at(self.i2c.transfers(), mid.len() + 1int));
                assert(self.i2c.transfers() =~= before + reads + otp_request_ops(a, (OTP_OFFSET_ADDRESS + 1) as u8, value_at(self.i2c.transfers(), n + 3)));
                Ok((StartupStep::AwaitGain { offset: data }, Pause::Now))
            },
            StartupStep::AwaitGain { offset } => {
                self.request_otp_read(OTP_OFFSET_ADDRESS + 2)?;
                assert(value_at(self.i2c.transfers(), n) == status);
                assert(value_at(self.i2c.transfers(), n + 1) == data);
                assert(value_at(self.i2c.transfers(), n + 3) == value_at(self.i2c.transfers(), mid.len() + 1int));
                assert(self.i2c.transfers() =~= before + reads + otp_request_ops(a, (OTP_OFFSET_ADDRESS + 2) as u8, value_at(self.i2c.transfers(), n + 3)));
                Ok((StartupStep::AwaitHfosc { offset, gain: data }, Pause::Now))
            },
            StartupStep::AwaitHfosc { offset, gain } => {
                let cfg = self.keep_bits(OTP_CONFIG1, !0b11u8)?;
                assert(!0b11u8 == 0xFCu8) by (bit_vector);
                assert(value_at(self.i2c.transfers(), n) == status);
                assert(value_at(self.i2c.transfers(), n + 1) == data);
                assert(value_at(self.i2c.transfers(), n + 2) == cfg);
                assert(self.i2c.transfers() =~= before + reads + rmw_ops(a, OTP_CONFIG1, cfg, otp_disabled(cfg)));
                Ok((StartupStep::Calibrate { offset, gain, hfosc: data }, Pause::Micros(10)))
            },
            _ => {
                assert(false);
                Ok((StartupStep::Done, Pause::Now))
            },
        }
    }

    /// Performs one step of the one-time start-up configuration and says which step follows
    /// and how long to wait before it. Starting from `Begin` and repeating until `Done`
    /// configures the sensor.
    pub fn startup_step(&mut self, step: StartupStep) -> (r: Result<(StartupStep, Pause), Error<I2C::Error>>)
        ensures
            final(self).address() == old(self).address(),
            r matches Err(Error::I2C(e)) ==> e == final(self).bus_error(),
            r is Err ==> refused_after(old(self).transfers(), final(self).transfers()),
            r matches Ok((next, pause)) ==> startup_protocol(
                old(self).address(),
                step,
                old(self).transfers(),
                final(self).transfers(),
                next,
                pause,
            ),
    {
        let ghost a = self.addr;
        let ghost before = self.i2c.transfers();
        let ghost n = before.len() as int;
        match step {
            StartupStep::Begin => {
                let needed = self.check_if_init_is_needed()?;
                let ghost checks = self.i2c.transfers();
                if !needed {
                    return Ok((StartupStep::Done, Pause::Now));
                }
                let mode = self.set_bits(MODE_SELECT, 1u8 << 2u8)?;
                assert(1u8 << 2u8 == 4u8) by (bit_vector);
                assert(value_at(self.i2c.transfers(), n) == value_at(checks, n));
                assert(value_at(self.i2c.transfers(), n + 1) == value_at(checks, n + 1));
                assert(value_at(self.i2c.transfers(), n + 2) == mode);
                assert(self.i2c.transfers() =~= before + seq![
                    read_op(a, VERSION, value_at(self.i2c.transfers(), n)),
                    read_op(a, OTP_STATUS2, value_at(self.i2c.transfers(), n + 1)),
                ] + rmw_ops(a, MODE_SELECT, mode, power_mode_active(mode)));
                Ok((StartupStep::EnableOtp, Pause::Millis(4)))
            },
            StartupStep::EnableOtp => {
                self.unlock_main_registers()?;
                let cfg = self.set_bits(OTP_CONFIG1, 0b11)?;
                assert(value_at(self.i2c.transfers(), n + 1) == cfg);
                assert(self.i2c.transfers() =~= before.push(write_op(a, MASTER_LOCK, 0x1f)) + rmw_ops(a, OTP_CONFIG1, cfg, otp_enabled(cfg)));
                Ok((StartupStep::AssertOtpReset, Pause::Micros(10)))
            },
            StartupStep::AssertOtpReset => {
                let dbg2 = self.set_bits(OTP_DBG2, 1u8 << 7u8)?;
                assert(1u8 << 7u8 == 0x80u8) by (bit_vector);
                assert(value_at(self.i2c.transfers(), n) == dbg2);
                Ok((StartupStep::ReleaseOtpReset { dbg2: dbg2 | (1u8 << 7u8) }, Pause::Micros(10)))
            },
            StartupStep::ReleaseOtpReset { dbg2 } => {
                let cleared = dbg2 & !(1u8 << 7u8);
                assert(cleared == dbg2 & 0x7F) by (bit_vector)
                    requires
                        cleared == dbg2 & !(1u8 << 7u8),
                ;
                self.write_register(OTP_DBG2, cleared)?;
                Ok((StartupStep::ProgramOtpRead, Pause::Micros(10)))
            },
            StartupStep::ProgramOtpRead => {
                self.program_redundant_read()?;
                let ghost programmed = self.i2c.transfers();
                self.request_otp_read(OTP_OFFSET_ADDRESS)?;
                assert(programmed.len() == n + 6);
                assert(self.i2c.transfers() =~= before + redundant_read_ops(a) + otp_request_ops(a, OTP_OFFSET_ADDRESS, value_at(self.i2c.transfers(), n + 7)));
                Ok((StartupStep::AwaitOffset, Pause::Now))
            },
            StartupStep::AwaitOffset => self.poll_otp(step),
            StartupStep::AwaitGain { .. } => self.poll_otp(step),
            StartupStep::AwaitHfosc { .. } => self.poll_otp(step),
            StartupStep::Calibrate { offset, gain, hfosc } => {
                self.write_calibration(offset, gain, hfosc)?;
                let ghost calibrated = self.i2c.transfers();
                self.write_register(MASTER_LOCK, 0x00)?;
                let mode = self.keep_bits(MODE_SELECT, !(1u8 << 2u8))?;
                assert(!(1u8 << 2u8) == 0xFBu8) by (bit_vector);
                let status2 = self.set_bits(OTP_STATUS2, 1u8 << 0u8)?;
                assert(1u8 << 0u8 == 1u8) by (bit_vector);
                assert(value_at(self.i2c.transfers(), n) == value_at(calibrated, n));
                assert(value_at(self.i2c.transfers(), n + 2) == value_at(calibrated, n + 2));
                assert(value_at(self.i2c.transfers(), n + 4) == value_at(calibrated, n + 4));
                assert(value_at(self.i2c.transfers(), n + 7) == mode);
                assert(value_at(self.i2c.transfers(), n + 9) == status2);
                assert(self.i2c.transfers() =~= before + calibration_ops(a, offset, gain, hfosc, value_at(self.i2c.transfers(), n), value_at(self.i2c.transfers(), n + 2), value_at(self.i2c.transfers(), n + 4))
                    + seq![write_op(a, MASTER_LOCK, 0x00)] + rmw_ops(a, MODE_SELECT, mode, power_mode_standby(mode))
                    + rmw_ops(a, OTP_STATUS2, status2, boot_done(status2)));
                Ok((StartupStep::Done, Pause::Now))
            },
            StartupStep::Done => Ok((StartupStep::Done, Pause::Now)),
        }
    }

    /// One poll of the start of continuous measurement: when DEVICE_STATUS reports the sensor
    /// ready (bit 0), MODE_SELECT is set to `MEASUREMENT_MODE` and the result is `true`;
    /// otherwise nothing is written and the result is `false`.
    pub fn start_measurements(&mut self) -> (r: Result<bool, Error<I2C::Error>>)
        ensures
            final(self).address() == old(self).address(),
            r matches Err(Error::I2C(e)) ==> e == final(self).bus_error(),
            r is Err ==> refused_after(old(self).transfers(), final(self).transfers()),
            r matches Ok(started) ==> {
                let status = value_at(final(self).transfers(), old(self).transfers().len() as int);
                let polled = old(self).transfers().push(read_op(old(self).address(), DEVICE_STATUS, status));
                &&& started == (status % 2 == 1)
                &&& started ==> final(self).transfers() == polled.push(
                    write_op(old(self).address(), MODE_SELECT, MEASUREMENT_MODE),
                )
                &&& !started ==> final(self).transfers() == polled
            },
    {
        let ghost n = self.i2c.transfers().len() as int;
        let status = self.read_register(DEVICE_STATUS)?;
        assert((status & 0x01 != 0) == (status % 2 == 1)) by (bit_vector);
        assert(value_at(self.i2c.transfers(), n) == status);
        if status & 0x01 == 0 {
            return Ok(false);
        }
        let mode_select: u8 = (0b000u8 << 5u8) | (1u8 << 3u8) | (1u8 << 2u8) | 0b00u8;
        assert(mode_select == MEASUREMENT_MODE) by (bit_vector)
            requires
                mode_select == (0b000u8 << 5u8) | (1u8 << 3u8) | (1u8 << 2u8) | 0b00u8,
        ;
        self.write_register(MODE_SELECT, mode_select)?;
        Ok(true)
    }
}

} // verus!

verus! {

/// Position of a start-up step in the protocol.
pub open spec fn step_rank(s: StartupStep) -> nat {
    match s {
        StartupStep::Begin => 0,
        StartupStep::EnableOtp => 1,
        StartupStep::AssertOtpReset => 2,
        StartupStep::ReleaseOtpReset { .. } => 3,
        StartupStep::ProgramOtpRead => 4,
        StartupStep::AwaitOffset => 5,
        StartupStep::AwaitGain { .. } => 6,
        StartupStep::AwaitHfosc { .. } => 7,
        StartupStep::Calibrate { .. } => 8,
        StartupStep::Done => 9,
    }
}

/// Every start-up step moves the protocol forward, except a poll that finds the OTP busy,
/// which repeats after 100 ms; `Done` stays done and touches nothing. So the start-up ends
/// after at most nine steps plus the busy polls.
pub proof fn startup_moves_forward(
    a: u8,
    step: StartupStep,
    before: Seq<BusOp>,
    after: Seq<BusOp>,
    next: StartupStep,
    pause: Pause,
)
    requires
        startup_protocol(a, step, before, after, next, pause),
    ensures
        step != StartupStep::Done ==> step_rank(next) > step_rank(step) || (next == step && pause
            == Pause::Millis(100) && (step is AwaitOffset || step is AwaitGain || step is AwaitHfosc)),
        step == StartupStep::Done ==> next == StartupStep::Done && after == before,
{
}

/// Writing the calibration trims changes only their fields: the other bits of each trim
/// register keep the value read, and each field holds the low bits of its trim.
pub proof fn calibration_keeps_other_bits(t1: u8, t2m: u8, t2l: u8, offset: u8, gain: u8, hfosc: u8)
    ensures
        trim1_with_offset(t1, offset) & 0xC0 == t1 & 0xC0,
        trim1_with_offset(t1, offset) & 0x3F == offset & 0x3F,
        trim2_msb_with_gain(t2m, gain) & 0x8F == t2m & 0x8F,
        (trim2_msb_with_gain(t2m, gain) >> 4u8) & 0x07 == gain & 0x07,
        trim2_lsb_with_hfosc(t2l, hfosc) & 0x80 == t2l & 0x80,
        trim2_lsb_with_hfosc(t2l, hfosc) & 0x7F == hfosc & 0x7F,
{
    assert({
        &&& ((t1 & 0xC0) | (offset & 0x3F)) & 0xC0 == t1 & 0xC0
        &&& ((t1 & 0xC0) | (offset & 0x3F)) & 0x3F == offset & 0x3F
        &&& ((t2m & 0x8F) | ((gain & 0x07) << 4u8)) & 0x8F == t2m & 0x8F
        &&& (((t2m & 0x8F) | ((gain & 0x07) << 4u8)) >> 4u8) & 0x07 == gain & 0x07
        &&& ((t2l & 0x80) | (hfosc & 0x7F)) & 0x80 == t2l & 0x80
        &&& ((t2l & 0x80) | (hfosc & 0x7F)) & 0x7F == hfosc & 0x7F
    }) by (bit_vector);
}

/// Raw FIFO values are 20-bit signed numbers, and the upper nibble of the third byte does
/// not change them.
pub proof fn fifo_values_are_20_bit(b0: u8, b1: u8, b2: u8, other: u8)
    ensures
        -0x80000 <= signed20_le(b0, b1, b2) < 0x80000,
        other % 16 == b2 % 16 ==> signed20_le(b0, b1, other) == signed20_le(b0, b1, b2),
{
}

/// Power mode, OTP enable and OTP reset updates touch only their own bits.
pub proof fn mode_updates_touch_only_their_bits(v: u8)
    ensures
        power_mode_active(v) & 0xFB == v & 0xFB,
        power_mode_active(v) & 0x04 == 0x04,
        power_mode_standby(v) & 0xFB == v & 0xFB,
        power_mode_standby(v) & 0x04 == 0,
        otp_enabled(v) & 0xFC == v & 0xFC,
        otp_disabled(v) & 0xFC == v & 0xFC,
        otp_disabled(v) & 0x03 == 0,
        otp_reset_released(otp_reset_asserted(v)) == v & 0x7F,
        otp_read_command(v) & 0x8F == v & 0x8F,
        (otp_read_command(v) >> 4u8) & 0x07 == 1,
{
    assert({
        &&& (v | 0x04) & 0xFB == v & 0xFB
        &&& (v | 0x04) & 0x04 == 0x04
        &&& (v & 0xFB) & 0xFB == v & 0xFB
        &&& (v & 0xFB) & 0x04 == 0
        &&& (v | 0x03) & 0xFC == v & 0xFC
        &&& (v & 0xFC) & 0xFC == v & 0xFC
        &&& (v & 0xFC) & 0x03 == 0
        &&& (v | 0x80) & 0x7F == v & 0x7F
        &&& ((v & 0x8F) | 0x10) & 0x8F == v & 0x8F
        &&& (((v & 0x8F) | 0x10) >> 4u8) & 0x07 == 1
    }) by (bit_vector);
}

} // verus!

verus! {

/// The value that `op` writes to register `r`, if it is a plain register write to `r`.
pub open spec fn write_value(op: BusOp, r: u8) -> Option<u8> {
    match op {
        BusOp::Write { bytes, .. } => if bytes.len() == 2 && bytes[0] == r {
            Some(bytes[1])
        } else {
            None
        },
        _ => None,
    }
}

/// The last value written to register `r` in `log` has property `p`.
pub open spec fn last_write_is(log: Seq<BusOp>, r: u8, p: spec_fn(u8) -> bool) -> bool {
    exists|i: int|
        0 <= i < log.len() && (#[trigger] write_value(log[i], r) matches Some(v) && p(v)) && forall|j: int|
            i < j < log.len() ==> write_value(log[j], r) is None
}

/// No transfer of `ops` writes register `r`.
pub open spec fn no_write(ops: Seq<BusOp>, r: u8) -> bool {
    forall|k: int| 0 <= k < ops.len() ==> write_value(#[trigger] ops[k], r) is None
}

proof fn lemma_untouched(before: Seq<BusOp>, ops: Seq<BusOp>, r: u8, p: spec_fn(u8) -> bool)
    requires
        last_write_is(before, r, p),
        no_write(ops, r),
    ensures
        last_write_is(before + ops, r, p),
{
    let i = choose|i: int|
        0 <= i < before.len() && (#[trigger] write_value(before[i], r) matches Some(v) && p(v)) && forall|j: int|
            i < j < before.len() ==> write_value(before[j], r) is None;
    let s = before + ops;
    assert(s[i] == before[i]);
    assert forall|j: int| i < j < s.len() implies write_value(s[j], r) is None by {
        if j < before.len() {
            assert(s[j] == before[j]);
        } else {
            assert(s[j] == ops[j - before.len()]);
        }
    }
}

proof fn lemma_written_at(log: Seq<BusOp>, i: int, r: u8, p: spec_fn(u8) -> bool)
    requires
        0 <= i < log.len(),
        write_value(log[i], r) matches Some(v) && p(v),
        forall|j: int| i < j < log.len() ==> write_value(#[trigger] log[j], r) is None,
    ensures
        last_write_is(log, r, p),
{
}

proof fn lemma_no_write_cat(s1: Seq<BusOp>, s2: Seq<BusOp>, r: u8)
    requires
        no_write(s1, r),
        no_write(s2, r),
    ensures
        no_write(s1 + s2, r),
{
    assert forall|k: int| 0 <= k < (s1 + s2).len() implies write_value(#[trigger] (s1 + s2)[k], r) is None by {
        if k < s1.len() {
            assert((s1 + s2)[k] == s1[k]);
        } else {
            assert((s1 + s2)[k] == s2[k - s1.len()]);
        }
    }
}

proof fn lemma_no_write_rmw(a: u8, reg: u8, x: u8, y: u8, r: u8)
    requires
        reg != r,
    ensures
        no_write(rmw_ops(a, reg, x, y), r),
{
    let ops = rmw_ops(a, reg, x, y);
    assert forall|k: int| 0 <= k < ops.len() implies write_value(#[trigger] ops[k], r) is None by {
        if k == 0 {
        } else {
            assert(ops[1] == write_op(a, reg, y));
        }
    }
}

/// The OTP reset bit (bit 7) is clear.
pub open spec fn reset_clear() -> spec_fn(u8) -> bool {
    |v: u8| v & 0x80 == 0
}

/// OTP_ENABLE and OTP_WRITE_SWITCH (bits 1:0) are clear.
pub open spec fn otp_off() -> spec_fn(u8) -> bool {
    |v: u8| v & 0x03 == 0
}

/// POWER_MODE (bit 2) is clear: standby.
pub open spec fn standby() -> spec_fn(u8) -> bool {
    |v: u8| v & 0x04 == 0
}

/// BOOT_UP_STATUS (bit 0) is set.
pub open spec fn boot_marked() -> spec_fn(u8) -> bool {
    |v: u8| v & 0x01 == 1
}

/// The main registers are locked.
pub open spec fn locked() -> spec_fn(u8) -> bool {
    |v: u8| v == 0
}

/// What the transfers of a start-up in progress have left in the sensor's registers, by the
/// step it has reached: after the OTP reset is released, its bit is clear; once the OTP is
/// read out, the OTP is disabled; once done, the registers are locked, the sensor is in standby
/// and boot is marked done.
pub open spec fn configuration_facts(log: Seq<BusOp>, step: StartupStep) -> bool {
    &&& step_rank(step) >= 4 ==> last_write_is(log, OTP_DBG2, reset_clear())
    &&& step_rank(step) >= 8 ==> last_write_is(log, OTP_CONFIG1, otp_off())
    &&& step_rank(step) == 9 ==> {
        &&& last_write_is(log, MASTER_LOCK, locked())
        &&& last_write_is(log, MODE_SELECT, standby())
        &&& last_write_is(log, OTP_STATUS2, boot_marked())
    }
}

proof fn lemma_final_bits(d: u8, c: u8, m: u8, t: u8)
    ensures
        otp_reset_released(d) & 0x80 == 0,
        otp_disabled(c) & 0x03 == 0,
        power_mode_standby(m) & 0x04 == 0,
        boot_done(t) & 0x01 == 1,
{
    assert((d & 0x7F) & 0x80 == 0 && (c & 0xFC) & 0x03 == 0 && (m & 0xFB) & 0x04 == 0 && (t | 0x01) & 0x01 == 1)
        by (bit_vector);
}

proof fn lemma_request_no_write(a: u8, otp_address: u8, cmd: u8, r: u8)
    requires
        r != OTP_ADDRESS_REG,
        r != OTP_COMMAND_REG,
    ensures
        no_write(otp_request_ops(a, otp_address, cmd), r),
{
    let ops = otp_request_ops(a, otp_address, cmd);
    assert forall|k: int| 0 <= k < ops.len() implies write_value(#[trigger] ops[k], r) is None by {
        if k == 0 {
            assert(ops[0] == write_op(a, OTP_ADDRESS_REG, otp_address));
        } else if k == 1 {
            assert(ops[1] == read_op(a, OTP_COMMAND_REG, cmd));
        } else {
            assert(ops[2] == write_op(a, OTP_COMMAND_REG, otp_read_command(cmd)));
        }
    }
}

proof fn lemma_redundant_no_write(a: u8, r: u8)
    requires
        !(OTP_MR_LSB <= r <= OTP_MRB_MSB),
    ensures
        no_write(redundant_read_ops(a), r),
{
    let ops = redundant_read_ops(a);
    assert forall|k: int| 0 <= k < ops.len() implies write_value(#[trigger] ops[k], r) is None by {
        if k == 0 {
            assert(ops[0] == write_op(a, OTP_MRA_LSB, 0x04));
        } else if k == 1 {
            assert(ops[1] == write_op(a, OTP_MRA_MSB, 0x04));
        } else if k == 2 {
            assert(ops[2] == write_op(a, OTP_MRB_LSB, 0x21));
        } else if k == 3 {
            assert(ops[3] == write_op(a, OTP_MRB_MSB, 0x20));
        } else if k == 4 {
            assert(ops[4] == write_op(a, OTP_MR_LSB, 0x10));
        } else {
            assert(ops[5] == write_op(a, OTP_MR_MSB, 0x80));
        }
    }
}

proof fn lemma_reads_no_write(ops: Seq<BusOp>, r: u8)
    requires
        forall|k: int| 0 <= k < ops.len() ==> #[trigger] ops[k] is WriteRead,
    ensures
        no_write(ops, r),
{
}

proof fn lemma_calibration_no_write(a: u8, offset: u8, gain: u8, hfosc: u8, t1: u8, t2m: u8, t2l: u8, r: u8)
    requires
        r != TRIM1_MSB,
        r != TRIM2_MSB,
        r != TRIM2_LSB,
    ensures
        no_write(calibration_ops(a, offset, gain, hfosc, t1, t2m, t2l), r),
{
    lemma_no_write_rmw(a, TRIM1_MSB, t1, trim1_with_offset(t1, offset), r);
    lemma_no_write_rmw(a, TRIM2_MSB, t2m, trim2_msb_with_gain(t2m, gain), r);
    lemma_no_write_rmw(a, TRIM2_LSB, t2l, trim2_lsb_with_hfosc(t2l, hfosc), r);
    lemma_no_write_cat(
        rmw_ops(a, TRIM1_MSB, t1, trim1_with_offset(t1, offset)),
        rmw_ops(a, TRIM2_MSB, t2m, trim2_msb_with_gain(t2m, gain)),
        r,
    );
    lemma_no_write_cat(
        rmw_ops(a, TRIM1_MSB, t1, trim1_with_offset(t1, offset)) + rmw_ops(a, TRIM2_MSB, t2m, trim2_msb_with_gain(t2m, gain)),
        rmw_ops(a, TRIM2_LSB, t2l, trim2_lsb_with_hfosc(t2l, hfosc)),
        r,
    );
}

proof fn lemma_step_keeps_facts(
    a: u8,
    step: StartupStep,
    before: Seq<BusOp>,
    after: Seq<BusOp>,
    next: StartupStep,
    pause: Pause,
)
    requires
        startup_protocol(a, step, before, after, next, pause),
        step != StartupStep::Begin,
        configuration_facts(before, step),
    ensures
        configuration_facts(after, next),
        next != StartupStep::Begin,
{
    let n = before.len() as int;
    let status = value_at(after, n);
    let data = value_at(after, n + 1);
    let reads = seq![read_op(a, OTP_STATUS, status), read_op(a, OTP_RDATA, data)];
    match step {
        StartupStep::ReleaseOtpReset { dbg2 } => {
            lemma_final_bits(dbg2, 0, 0, 0);
            lemma_written_at(after, n, OTP_DBG2, reset_clear());
        },
        StartupStep::ProgramOtpRead => {
            let ops = redundant_read_ops(a) + otp_request_ops(a, OTP_OFFSET_ADDRESS, value_at(after, n + 7));
            lemma_redundant_no_write(a, OTP_DBG2);
            lemma_request_no_write(a, OTP_OFFSET_ADDRESS, value_at(after, n + 7), OTP_DBG2);
            lemma_no_write_cat(redundant_read_ops(a), otp_request_ops(a, OTP_OFFSET_ADDRESS, value_at(after, n + 7)), OTP_DBG2);
            assert(after =~= before + ops);
            lemma_untouched(before, ops, OTP_DBG2, reset_clear());
        },
        StartupStep::AwaitOffset | StartupStep::AwaitGain { .. } | StartupStep::AwaitHfosc { .. } => {
            if status % 2 == 1 {
                let ops = seq![read_op(a, OTP_STATUS, status)];
                lemma_reads_no_write(ops, OTP_DBG2);
                lemma_reads_no_write(ops, OTP_CONFIG1);
                assert(after =~= before + ops);
                lemma_untouched(before, ops, OTP_DBG2, reset_clear());
                if step_rank(step) >= 8 {
                    lemma_untouched(before, ops, OTP_CONFIG1, otp_off());
                }
            } else {
                lemma_reads_no_write(reads, OTP_DBG2);
                match step {
                    StartupStep::AwaitHfosc { .. } => {
                        let cfg = value_at(after, n + 2);
                        let rmw = rmw_ops(a, OTP_CONFIG1, cfg, otp_disabled(cfg));
                        lemma_no_write_rmw(a, OTP_CONFIG1, cfg, otp_disabled(cfg), OTP_DBG2);
                        lemma_no_write_cat(reads, rmw, OTP_DBG2);
                        assert(after =~= before + (reads + rmw));
                        lemma_untouched(before, reads + rmw, OTP_DBG2, reset_clear());
                        lemma_final_bits(0, cfg, 0, 0);
                        assert(after[n + 3] == write_op(a, OTP_CONFIG1, otp_disabled(cfg)));
                        lemma_written_at(after, n + 3, OTP_CONFIG1, otp_off());
                    },
                    _ => {
                        let k: u8 = if step is AwaitOffset { 1 } else { 2 };
                        let req = otp_request_ops(a, (OTP_OFFSET_ADDRESS + k) as u8, value_at(after, n + 3));
                        lemma_request_no_write(a, (OTP_OFFSET_ADDRESS + k) as u8, value_at(after, n + 3), OTP_DBG2);
                        lemma_no_write_cat(reads, req, OTP_DBG2);
                        assert(after =~= before + (reads + req));
                        lemma_untouched(before, reads + req, OTP_DBG2, reset_clear());
                    },
                }
            }
        },
        StartupStep::Calibrate { offset, gain, hfosc } => {
            let t1 = value_at(after, n);
            let t2m = value_at(after, n + 2);
            let t2l = value_at(after, n + 4);
            let mode = value_at(after, n + 7);
            let status2 = value_at(after, n + 9);
            let cal = calibration_ops(a, offset, gain, hfosc, t1, t2m, t2l);
            let lock = seq![write_op(a, MASTER_LOCK, 0x00)];
            let m = rmw_ops(a, MODE_SELECT, mode, power_mode_standby(mode));
            let st = rmw_ops(a, OTP_STATUS2, status2, boot_done(status2));
            let ops = cal + lock + m + st;
            assert(after =~= before + ops);
            assert(lock[0] == write_op(a, MASTER_LOCK, 0x00));
            assert forall|r: u8| r == OTP_DBG2 || r == OTP_CONFIG1 implies no_write(ops, r) by {
                lemma_calibration_no_write(a, offset, gain, hfosc, t1, t2m, t2l, r);
                assert(no_write(lock, r));
                lemma_no_write_rmw(a, MODE_SELECT, mode, power_mode_standby(mode), r);
                lemma_no_write_rmw(a, OTP_STATUS2, status2, boot_done(status2), r);
                lemma_no_write_cat(cal, lock, r);
                lemma_no_write_cat(cal + lock, m, r);
                lemma_no_write_cat(cal + lock + m, st, r);
            }
            lemma_untouched(before, ops, OTP_DBG2, reset_clear());
            lemma_untouched(before, ops, OTP_CONFIG1, otp_off());
            lemma_final_bits(0, 0, mode, status2);
            assert(after[n + 6] == write_op(a, MASTER_LOCK, 0x00));
            assert(after[n + 8] == write_op(a, MODE_SELECT, power_mode_standby(mode)));
            assert(after[n + 10] == write_op(a, OTP_STATUS2, boot_done(status2)));
            assert(after.len() == n + 11);
            assert forall|j: int| n + 6 < j < after.len() implies write_value(#[trigger] after[j], MASTER_LOCK) is None by {
                if j == n + 7 { assert(after[j] == read_op(a, MODE_SELECT, mode)); }
                else if j == n + 8 { }
                else if j == n + 9 { assert(after[j] == read_op(a, OTP_STATUS2, status2)); }
                else { }
            }
            assert forall|j: int| n + 8 < j < after.len() implies write_value(#[trigger] after[j], MODE_SELECT) is None by {
                if j == n + 9 { assert(after[j] == read_op(a, OTP_STATUS2, status2)); }
                else { }
            }
            lemma_written_at(after, n + 6, MASTER_LOCK, locked());
            lemma_written_at(after, n + 8, MODE_SELECT, standby());
            lemma_written_at(after, n + 10, OTP_STATUS2, boot_marked());
        },
        _ => {},
    }
}

/// A start-up run of the sensor at address `a`: steps from `Begin` to `Done`, each made as the
/// protocol describes, `logs[k]` being the transfers before step `k` and `logs[k + 1]` those
/// after it.
pub open spec fn startup_run(a: u8, steps: Seq<StartupStep>, logs: Seq<Seq<BusOp>>, pauses: Seq<Pause>) -> bool {
    &&& steps.len() >= 1
    &&& logs.len() == steps.len()
    &&& pauses.len() + 1 == steps.len()
    &&& steps[0] == StartupStep::Begin
    &&& steps.last() == StartupStep::Done
    &&& forall|k: int|
        0 <= k < steps.len() - 1 ==> startup_protocol(
            a,
            #[trigger] steps[k],
            logs[k],
            logs[k + 1],
            steps[k + 1],
            pauses[k],
        )
}

proof fn lemma_run_facts(a: u8, steps: Seq<StartupStep>, logs: Seq<Seq<BusOp>>, pauses: Seq<Pause>, k: int)
    requires
        startup_run(a, steps, logs, pauses),
        steps.len() >= 2,
        steps[1] != StartupStep::Done,
        1 <= k < steps.len(),
    ensures
        configuration_facts(logs[k], steps[k]),
        steps[k] != StartupStep::Begin,
    decreases k,
{
    if k == 1 {
        assert(startup_protocol(a, steps[0], logs[0], logs[1], steps[1], pauses[0]));
        assert(steps[1] == StartupStep::EnableOtp);
    } else {
        lemma_run_facts(a, steps, logs, pauses, k - 1);
        assert(startup_protocol(a, steps[k - 1], logs[k - 1], logs[k], steps[k], pauses[k - 1]));
        lemma_step_keeps_facts(a, steps[k - 1], logs[k - 1], logs[k], steps[k], pauses[k - 1]);
    }
}

/// When the sensor needed its start-up configuration (the first step did not end it), a run
/// to `Done` leaves, as the last value written to each register: the OTP reset bit clear, the
/// OTP disabled, the main registers locked, the sensor in standby and boot marked done.
pub proof fn startup_configures_sensor(a: u8, steps: Seq<StartupStep>, logs: Seq<Seq<BusOp>>, pauses: Seq<Pause>)
    requires
        startup_run(a, steps, logs, pauses),
        steps.len() >= 2,
        steps[1] != StartupStep::Done,
    ensures
        last_write_is(logs.last(), OTP_DBG2, reset_clear()),
        last_write_is(logs.last(), OTP_CONFIG1, otp_off()),
        last_write_is(logs.last(), MASTER_LOCK, locked()),
        last_write_is(logs.last(), MODE_SELECT, standby()),
        last_write_is(logs.last(), OTP_STATUS2, boot_marked()),
{
    lemma_run_facts(a, steps, logs, pauses, steps.len() - 1);
}

/// When the sensor did not need configuration, the run only reads VERSION and OTP_STATUS2 and
/// writes nothing.
pub proof fn startup_skipped_writes_nothing(a: u8, steps: Seq<StartupStep>, logs: Seq<Seq<BusOp>>, pauses: Seq<Pause>)
    requires
        startup_run(a, steps, logs, pauses),
        steps.len() >= 2,
        steps[1] == StartupStep::Done,
    ensures
        logs[1] == logs[0] + seq![
            read_op(a, VERSION, value_at(logs[1], logs[0].len() as int)),
            read_op(a, OTP_STATUS2, value_at(logs[1], logs[0].len() + 1int)),
        ],
        !init_needed(value_at(logs[1], logs[0].len() as int), value_at(logs[1], logs[0].len() + 1int)),
{
    assert(startup_protocol(a, steps[0], logs[0], logs[1], steps[1], pauses[0]));
}

/// The sensor answers like a register file at read `i` of `log`: the read of register `r`
/// there returns the value last written to `r` before it, if anything was written.
pub open spec fn register_file_read(log: Seq<BusOp>, i: int, r: u8) -> bool {
    forall|j: int|
        0 <= j < i && (#[trigger] write_value(log[j], r)) is Some && (forall|k: int|
            j < k < i ==> write_value(log[k], r) is None) ==> write_value(log[j], r) == Some(value_at(log, i))
}

proof fn lemma_done_stays(a: u8, steps: Seq<StartupStep>, logs: Seq<Seq<BusOp>>, pauses: Seq<Pause>, k: int)
    requires
        startup_run(a, steps, logs, pauses),
        steps.len() >= 2,
        steps[1] == StartupStep::Done,
        1 <= k < steps.len(),
    ensures
        steps[k] == StartupStep::Done,
        logs[k] == logs[1],
    decreases k,
{
    if k > 1 {
        lemma_done_stays(a, steps, logs, pauses, k - 1);
        assert(startup_protocol(a, steps[k - 1], logs[k - 1], logs[k], steps[k], pauses[k - 1]));
    }
}

proof fn lemma_begin_reads(a: u8, before: Seq<BusOp>, after: Seq<BusOp>, next: StartupStep, pause: Pause)
    requires
        startup_protocol(a, StartupStep::Begin, before, after, next, pause),
    ensures
        after.len() >= before.len() + 2,
        forall|k: int| 0 <= k < before.len() ==> #[trigger] after[k] == before[k],
        after[before.len() as int] == read_op(a, VERSION, value_at(after, before.len() as int)),
        after[before.len() + 1int] == read_op(a, OTP_STATUS2, value_at(after, before.len() + 1int)),
        !init_needed(value_at(after, before.len() as int), value_at(after, before.len() + 1int)) ==> next
            == StartupStep::Done && after == before + seq![
            read_op(a, VERSION, value_at(after, before.len() as int)),
            read_op(a, OTP_STATUS2, value_at(after, before.len() + 1int)),
        ],
{
    let n = before.len() as int;
    let v0 = value_at(after, n);
    let v1 = value_at(after, n + 1);
    let checks = seq![read_op(a, VERSION, v0), read_op(a, OTP_STATUS2, v1)];
    if init_needed(v0, v1) {
        let mode = value_at(after, n + 2);
        assert(after == before + checks + rmw_ops(a, MODE_SELECT, mode, power_mode_active(mode)));
        assert forall|k: int| 0 <= k < before.len() implies #[trigger] after[k] == before[k] by {
            assert((before + checks + rmw_ops(a, MODE_SELECT, mode, power_mode_active(mode)))[k] == before[k]);
        }
        assert(after[n] == (before + checks + rmw_ops(a, MODE_SELECT, mode, power_mode_active(mode)))[n]);
        assert(after[n + 1] == (before + checks + rmw_ops(a, MODE_SELECT, mode, power_mode_active(mode)))[n + 1]);
    } else {
        assert(after == before + checks);
    }
}

/// Reading register `r` at index `i` of `log` in a register file gives back the value last
/// written to `r` at index `j`.
proof fn lemma_read_back(log: Seq<BusOp>, i: int, j: int, r: u8)
    requires
        register_file_read(log, i, r),
        0 <= j < i,
        write_value(log[j], r) is Some,
        forall|k: int| j < k < i ==> write_value(#[trigger] log[k], r) is None,
    ensures
        write_value(log[j], r) == Some(value_at(log, i)),
{
}

/// After a start-up that configured the sensor, a second start-up on the same bus writes
/// nothing: where the sensor answers the read of OTP_STATUS2 with the value last written to it,
/// the first step finds boot marked done and ends the run, having only read VERSION and
/// OTP_STATUS2.
pub proof fn second_startup_writes_nothing(
    a: u8,
    steps1: Seq<StartupStep>,
    logs1: Seq<Seq<BusOp>>,
    pauses1: Seq<Pause>,
    steps2: Seq<StartupStep>,
    logs2: Seq<Seq<BusOp>>,
    pauses2: Seq<Pause>,
)
    requires
        startup_run(a, steps1, logs1, pauses1),
        steps1.len() >= 2,
        steps1[1] != StartupStep::Done,
        startup_run(a, steps2, logs2, pauses2),
        steps2.len() >= 2,
        logs2[0] == logs1.last(),
        register_file_read(logs2[1], logs2[0].len() + 1int, OTP_STATUS2),
    ensures
        steps2[1] == StartupStep::Done,
        logs2[1] == logs2[0] + seq![
            read_op(a, VERSION, value_at(logs2[1], logs2[0].len() as int)),
            read_op(a, OTP_STATUS2, value_at(logs2[1], logs2[0].len() + 1int)),
        ],
        logs2.last() == logs2[1],
{
    startup_configures_sensor(a, steps1, logs1, pauses1);
    let before = logs2[0];
    let after = logs2[1];
    let n = before.len() as int;
    assert(last_write_is(before, OTP_STATUS2, boot_marked()));
    let j = choose|i: int|
        0 <= i < before.len() && (#[trigger] write_value(before[i], OTP_STATUS2) matches Some(v) && boot_marked()(v))
            && forall|k: int| i < k < before.len() ==> write_value(before[k], OTP_STATUS2) is None;
    let v = write_value(before[j], OTP_STATUS2)->0;
    assert(startup_protocol(a, steps2[0], before, after, steps2[1], pauses2[0]));
    lemma_begin_reads(a, before, after, steps2[1], pauses2[0]);
    let v1 = value_at(after, n + 1);
    assert(after[j] == before[j]);
    assert forall|k: int| j < k < n + 1 implies write_value(#[trigger] after[k], OTP_STATUS2) is None by {
        if k < n {
            assert(after[k] == before[k]);
        }
    }
    lemma_read_back(after, n + 1, j, OTP_STATUS2);
    assert(v == v1);
    assert(v & 0x01 == 1 ==> v % 2 == 1) by (bit_vector);
    lemma_done_stays(a, steps2, logs2, pauses2, steps2.len() - 1);
}

/// The OTP's redundant read is programmed with the datasheet values before the first OTP read:
/// the step writes, in this order, 0xAF <- 0x04, 0xB0 <- 0x04, 0xB1 <- 0x21, 0xB2 <- 0x20,
/// 0xAD <- 0x10 and 0xAE <- 0x80, then sets the OTP address 0xF8 (the offset trim) and rewrites
/// the command register with its command field (bits 6:4) set to 1, a read, keeping its other
/// bits.
pub proof fn redundant_read_programmed_before_otp_read(
    a: u8,
    before: Seq<BusOp>,
    after: Seq<BusOp>,
    next: StartupStep,
    pause: Pause,
)
    requires
        startup_protocol(a, StartupStep::ProgramOtpRead, before, after, next, pause),
    ensures
        ({
            let n = before.len() as int;
            let cmd = value_at(after, n + 7);
            &&& after.len() == n + 9
            &&& after.subrange(0, n) == before
            &&& after[n] == BusOp::Write { address: a, bytes: seq![0xAFu8, 0x04u8] }
            &&& after[n + 1] == BusOp::Write { address: a, bytes: seq![0xB0u8, 0x04u8] }
            &&& after[n + 2] == BusOp::Write { address: a, bytes: seq![0xB1u8, 0x21u8] }
            &&& after[n + 3] == BusOp::Write { address: a, bytes: seq![0xB2u8, 0x20u8] }
            &&& after[n + 4] == BusOp::Write { address: a, bytes: seq![0xADu8, 0x10u8] }
            &&& after[n + 5] == BusOp::Write { address: a, bytes: seq![0xAEu8, 0x80u8] }
            &&& after[n + 6] == BusOp::Write { address: a, bytes: seq![0xB5u8, 0xF8u8] }
            &&& after[n + 7] == BusOp::WriteRead { address: a, bytes: seq![0xB6u8], read: seq![cmd] }
            &&& after[n + 8] matches BusOp::Write { address: a2, bytes: b }
            &&& a2 == a && b.len() == 2 && b[0] == 0xB6u8
            &&& (b[1] >> 4u8) & 0x07 == 1 && b[1] & 0x8F == cmd & 0x8F
            &&& next == StartupStep::AwaitOffset
        }),
{
    let n = before.len() as int;
    let cmd = value_at(after, n + 7);
    let ops = redundant_read_ops(a) + otp_request_ops(a, OTP_OFFSET_ADDRESS, cmd);
    assert(after =~= before + ops);
    assert(after.subrange(0, n) =~= before);
    assert(after[n + 8] == write_op(a, OTP_COMMAND_REG, otp_read_command(cmd)));
    mode_updates_touch_only_their_bits(cmd);
}

} // verus!
