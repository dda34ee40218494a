use std::cell::RefCell;
use std::rc::Rc;

use ambient_air::icp20100::{
    decode_fifo_sample, decode_u24, split_version, BusLog, I2cBus, Icp20100, Pause, StartupStep, MASTER_LOCK,
    MEASUREMENT_MODE, MODE_SELECT, OTP_CONFIG1, OTP_DBG2, OTP_STATUS2, TRIM1_MSB, TRIM2_LSB, TRIM2_MSB,
};

/// A simulated sensor: a register file with auto-increment on reads, an OTP whose reads stay
/// busy for a few polls, and a record of every register written.
struct Chip {
    regs: [u8; 256],
    otp: [u8; 256],
    busy_polls: u32,
    busy_left: u32,
    writes: Vec<(u8, u8)>,
    fail: bool,
}

impl Chip {
    fn new() -> Self {
        Chip { regs: [0; 256], otp: [0; 256], busy_polls: 0, busy_left: 0, writes: Vec::new(), fail: false }
    }
}

#[derive(Clone)]
struct Bus(Rc<RefCell<Chip>>);

impl I2cBus for Bus {
    type Error = ();

    fn transfers(&self) -> BusLog {
        unreachable!("the transfer record exists only for verification")
    }

    fn last_error(&self) -> () {
        unreachable!("the last bus error is recorded only for verification")
    }

    fn write(&mut self, _address: u8, bytes: &[u8]) -> Result<(), ()> {
        let mut c = self.0.borrow_mut();
        if c.fail {
            return Err(());
        }
        let (reg, value) = (bytes[0], bytes[1]);
        c.regs[reg as usize] = value;
        c.writes.push((reg, value));
        if reg == 0xB6 && (value >> 4) & 0x07 == 1 {
            let addr = c.regs[0xB5];
            c.regs[0xB8] = c.otp[addr as usize];
            c.busy_left = c.busy_polls;
        }
        Ok(())
    }

    fn write_read(&mut self, _address: u8, bytes: &[u8], buffer: &mut [u8]) -> Result<(), ()> {
        let mut c = self.0.borrow_mut();
        if c.fail {
            return Err(());
        }
        let start = bytes[0] as usize;
        for (i, b) in buffer.iter_mut().enumerate() {
            let reg = (start + i) % 256;
            *b = if reg == 0xB9 {
                if c.busy_left > 0 {
                    c.busy_left -= 1;
                    1
                } else {
                    0
                }
            } else {
                c.regs[reg]
            };
        }
        Ok(())
    }
}

fn sensor(chip: Chip) -> (Icp20100<Bus, ()>, Rc<RefCell<Chip>>) {
    let shared = Rc::new(RefCell::new(chip));
    (Icp20100::attach(0x63, Bus(shared.clone()), ()), shared)
}

fn run_startup(dev: &mut Icp20100<Bus, ()>) -> Vec<(StartupStep, Pause)> {
    let mut trace = Vec::new();
    let mut step = StartupStep::Begin;
    for _ in 0..100 {
        let (next, pause) = dev.startup_step(step).unwrap();
        trace.push((next, pause));
        if next == StartupStep::Done {
            return trace;
        }
        step = next;
    }
    panic!("start-up did not finish");
}

#[test]
fn startup_programs_the_trims_from_otp() {
    let mut chip = Chip::new();
    chip.otp[0xF8] = 0xFF; // offset: only the low 6 bits are taken
    chip.otp[0xF9] = 0x0D; // gain: only the low 3 bits are taken
    chip.otp[0xFA] = 0xAA; // oscillator: only the low 7 bits are taken
    chip.regs[TRIM1_MSB as usize] = 0b1000_0001;
    chip.regs[TRIM2_MSB as usize] = 0b1000_0110;
    chip.regs[TRIM2_LSB as usize] = 0b1000_0000;
    chip.regs[MODE_SELECT as usize] = 0b0100_0000;
    chip.regs[OTP_CONFIG1 as usize] = 0b1000_0000;
    chip.regs[OTP_DBG2 as usize] = 0b0000_0001;
    chip.regs[OTP_STATUS2 as usize] = 0b0000_0010;
    chip.busy_polls = 2;
    let (mut dev, chip) = sensor(chip);
    let trace = run_startup(&mut dev);

    let c = chip.borrow();
    assert_eq!(c.regs[TRIM1_MSB as usize], 0b1011_1111);
    assert_eq!(c.regs[TRIM2_MSB as usize], 0b1101_0110);
    assert_eq!(c.regs[TRIM2_LSB as usize], 0b1010_1010);
    assert_eq!(c.regs[MASTER_LOCK as usize], 0x00);
    assert_eq!(c.regs[MODE_SELECT as usize], 0b0100_0000);
    assert_eq!(c.regs[OTP_CONFIG1 as usize], 0b1000_0000);
    assert_eq!(c.regs[OTP_DBG2 as usize], 0b0000_0001);
    assert_eq!(c.regs[OTP_STATUS2 as usize], 0b0000_0011);
    assert!(c.writes.contains(&(MASTER_LOCK, 0x1F)));
    assert!(c.writes.contains(&(MODE_SELECT, 0b0100_0100)));
    assert!(c.writes.contains(&(OTP_CONFIG1, 0b1000_0011)));
    assert!(c.writes.contains(&(OTP_DBG2, 0b1000_0001)));

    let expected = vec![
        (StartupStep::EnableOtp, Pause::Millis(4)),
        (StartupStep::AssertOtpReset, Pause::Micros(10)),
        (StartupStep::ReleaseOtpReset { dbg2: 0b1000_0001 }, Pause::Micros(10)),
        (StartupStep::ProgramOtpRead, Pause::Micros(10)),
        (StartupStep::AwaitOffset, Pause::Now),
        (StartupStep::AwaitOffset, Pause::Millis(100)),
        (StartupStep::AwaitOffset, Pause::Millis(100)),
        (StartupStep::AwaitGain { offset: 0xFF }, Pause::Now),
        (StartupStep::AwaitGain { offset: 0xFF }, Pause::Millis(100)),
        (StartupStep::AwaitGain { offset: 0xFF }, Pause::Millis(100)),
        (StartupStep::AwaitHfosc { offset: 0xFF, gain: 0x0D }, Pause::Now),
        (StartupStep::AwaitHfosc { offset: 0xFF, gain: 0x0D }, Pause::Millis(100)),
        (StartupStep::AwaitHfosc { offset: 0xFF, gain: 0x0D }, Pause::Millis(100)),
        (StartupStep::Calibrate { offset: 0xFF, gain: 0x0D, hfosc: 0xAA }, Pause::Micros(10)),
        (StartupStep::Done, Pause::Now),
    ];
    assert_eq!(trace, expected);
}

#[test]
fn startup_is_skipped_when_boot_is_done() {
    let mut chip = Chip::new();
    chip.regs[OTP_STATUS2 as usize] = 0x01;
    let (mut dev, chip) = sensor(chip);
    assert_eq!(run_startup(&mut dev), vec![(StartupStep::Done, Pause::Now)]);
    assert!(chip.borrow().writes.is_empty());
}

#[test]
fn startup_is_skipped_on_a_later_version() {
    let mut chip = Chip::new();
    chip.regs[0xD3] = 0xB2;
    let (mut dev, chip) = sensor(chip);
    assert!(!dev.check_if_init_is_needed().unwrap());
    assert_eq!(run_startup(&mut dev), vec![(StartupStep::Done, Pause::Now)]);
    assert!(chip.borrow().writes.is_empty());
}

#[test]
fn done_step_does_nothing() {
    let (mut dev, chip) = sensor(Chip::new());
    assert_eq!(dev.startup_step(StartupStep::Done).unwrap(), (StartupStep::Done, Pause::Now));
    assert!(chip.borrow().writes.is_empty());
}

#[test]
fn measurements_start_once_the_sensor_is_ready() {
    let (mut dev, chip) = sensor(Chip::new());
    assert!(!dev.start_measurements().unwrap());
    assert!(chip.borrow().writes.is_empty());
    chip.borrow_mut().regs[0xCD] = 0x01;
    assert!(dev.start_measurements().unwrap());
    assert_eq!(chip.borrow().writes, vec![(MODE_SELECT, MEASUREMENT_MODE)]);
    assert_eq!(MEASUREMENT_MODE, 0x0C);
}

#[test]
fn raw_readings_are_little_endian() {
    let mut chip = Chip::new();
    chip.regs[0xFA] = 0x01;
    chip.regs[0xFB] = 0x02;
    chip.regs[0xFC] = 0x03;
    chip.regs[0xFD] = 0xAA;
    chip.regs[0xFE] = 0xBB;
    chip.regs[0xFF] = 0xCC;
    let (mut dev, _chip) = sensor(chip);
    assert_eq!(dev.read_raw_pressure().unwrap(), 0x030201);
    assert_eq!(dev.read_raw_temperature().unwrap(), 0xCCBBAA);
}

#[test]
fn fifo_sample_is_sign_extended() {
    let mut chip = Chip::new();
    // pressure 0x80000 (the most negative 20-bit value), upper nibble noise
    chip.regs[0xFA] = 0x00;
    chip.regs[0xFB] = 0x00;
    chip.regs[0xFC] = 0xF8;
    // temperature 0x7FFFF (the largest)
    chip.regs[0xFD] = 0xFF;
    chip.regs[0xFE] = 0xFF;
    chip.regs[0xFF] = 0x07;
    let (mut dev, _chip) = sensor(chip);
    assert_eq!(dev.read_fifo_sample().unwrap(), (-0x80000, 0x7FFFF));
}

#[test]
fn decoding_helpers() {
    assert_eq!(decode_u24([0x56, 0x34, 0x12]), 0x123456);
    assert_eq!(decode_fifo_sample([0xFF, 0xFF, 0x0F, 0x01, 0x00, 0x00]), (-1, 1));
    assert_eq!(decode_fifo_sample([0x00, 0x00, 0x10, 0x00, 0x00, 0x00]), (0, 0));
    assert_eq!(split_version(0xB2), (11, 2));
    assert_eq!(split_version(0x00), (0, 0));
}

#[test]
fn registers_go_through_the_bus() {
    let (mut dev, chip) = sensor(Chip::new());
    dev.write_register(0x10, 0x42).unwrap();
    assert_eq!(dev.read_register(0x10).unwrap(), 0x42);
    let mut buf = [0u8; 2];
    dev.read_burst(0x10, &mut buf).unwrap();
    assert_eq!(buf, [0x42, 0x00]);
    chip.borrow_mut().fail = true;
    assert!(dev.read_register(0x10).is_err());
    assert!(dev.startup_step(StartupStep::Begin).is_err());
}
