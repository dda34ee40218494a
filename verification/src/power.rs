use vstd::prelude::*;

verus! {

/// What the device does after its next wake-up.
#[derive(Clone, Copy, Debug, PartialEq, Eq, Structural)]
pub enum PowerState {
    DeepSleep,
    SensorActiveSleep,
    BluetoothMode,
    SampleMode,
}

/// The number that stands for a power state in retained memory.
pub open spec fn power_state_code(s: PowerState) -> i8 {
    match s {
        PowerState::DeepSleep => 0,
        PowerState::SensorActiveSleep => 1,
        PowerState::BluetoothMode => 2,
        PowerState::SampleMode => 3,
    }
}

impl PowerState {
    /// The number kept in retained memory for this state.
    pub fn to_code(self) -> (c: i8)
        ensures
            c == power_state_code(self),
    {
        match self {
            PowerState::DeepSleep => 0,
            PowerState::SensorActiveSleep => 1,
            PowerState::BluetoothMode => 2,
            PowerState::SampleMode => 3,
        }
    }

    /// The state that `code` stands for, if any.
    pub fn try_from_code(code: i8) -> (s: Option<PowerState>)
        ensures
            s matches Some(st) ==> power_state_code(st) == code,
            s is None <==> !(0 <= code <= 3),
    {
        match code {
            0 => Some(PowerState::DeepSleep),
            1 => Some(PowerState::SensorActiveSleep),
            2 => Some(PowerState::BluetoothMode),
            3 => Some(PowerState::SampleMode),
            _ => None,
        }
    }
}

/// Distinct power states are kept under distinct codes, so reading a code back gives the state
/// it was stored from.
pub proof fn power_state_codes_distinct(a: PowerState, b: PowerState)
    ensures
        power_state_code(a) == power_state_code(b) ==> a == b,
        0 <= power_state_code(a) <= 3,
{
}

/// CPU clock to run at after a wake-up.
#[derive(Clone, Copy, Debug, PartialEq, Eq, Structural)]
pub enum CpuClock {
    Mhz80,
    Mhz160,
}

/// What the device does after a wake-up.
#[derive(Clone, Copy, Debug, PartialEq, Eq, Structural)]
pub enum BootPath {
    /// Read the sensors once in low power, then sleep again.
    LowPowerMeasurement,
    /// Take the next sample of the sampling program, then sleep again.
    RecordSample,
    /// Start everything: sensors, LEDs, button, Bluetooth.
    FullStartup,
}

/// How the device starts after a wake-up.
#[derive(Clone, Copy, Debug, PartialEq, Eq, Structural)]
pub struct BootPlan {
    /// The retained power-state code from now on.
    pub power_state_code: i8,
    pub cpu_clock: CpuClock,
    pub path: BootPath,
}

/// The start after a wake-up with retained power-state code `retained`: a button wake-up means
/// Bluetooth mode; the CPU runs at 160 MHz in Bluetooth mode and at 80 MHz otherwise; the
/// sensor-active-sleep state takes a low-power measurement, the sample-mode state a sample,
/// and any other state starts everything.
pub open spec fn spec_boot_plan(retained: i8, woken_by_button: bool) -> BootPlan {
    let code = if woken_by_button { power_state_code(PowerState::BluetoothMode) } else { retained };
    BootPlan {
        power_state_code: code,
        cpu_clock: if code == power_state_code(PowerState::BluetoothMode) { CpuClock::Mhz160 } else { CpuClock::Mhz80 },
        path: if code == power_state_code(PowerState::SensorActiveSleep) {
            BootPath::LowPowerMeasurement
        } else if code == power_state_code(PowerState::SampleMode) {
            BootPath::RecordSample
        } else {
            BootPath::FullStartup
        },
    }
}

/// How the device starts after a wake-up, from the retained power-state code and whether a
/// button woke it.
pub fn boot_plan(retained: i8, woken_by_button: bool) -> (p: BootPlan)
    ensures
        p == spec_boot_plan(retained, woken_by_button),
{
    let code = if woken_by_button {
        PowerState::BluetoothMode.to_code()
    } else {
        retained
    };
    // An unknown code runs like the sample mode.
    let state = match PowerState::try_from_code(code) {
        Some(s) => s,
        None => PowerState::SampleMode,
    };
    let cpu_clock = match state {
        PowerState::DeepSleep => CpuClock::Mhz80,
        PowerState::BluetoothMode => CpuClock::Mhz160,
        PowerState::SampleMode => CpuClock::Mhz80,
        PowerState::SensorActiveSleep => CpuClock::Mhz80,
    };
    let path = if code == PowerState::SensorActiveSleep.to_code() {
        BootPath::LowPowerMeasurement
    } else if code == PowerState::SampleMode.to_code() {
        BootPath::RecordSample
    } else {
        BootPath::FullStartup
    };
    BootPlan { power_state_code: code, cpu_clock, path }
}

/// Options of a deep sleep: whether the buttons wake the device, and after how many
/// milliseconds the timer does.
#[derive(Clone, Copy, Debug, PartialEq, Eq, Structural)]
pub struct SleepOptions {
    pub allow_buttons: bool,
    pub wake_in_ms: Option<u64>,
}

/// The wake-up sources of one deep sleep: the two buttons (GPIO 3 and 4, active low) and the
/// timer, in milliseconds.
#[derive(Clone, Copy, Debug, PartialEq, Eq, Structural)]
pub struct WakeSources {
    pub buttons: bool,
    pub timer_ms: Option<u64>,
}

/// The wake-up sources that a deep sleep with `options` arms.
pub fn wake_sources(options: &SleepOptions) -> (w: WakeSources)
    ensures
        w.buttons == options.allow_buttons,
        w.timer_ms == options.wake_in_ms,
{
    WakeSources { buttons: options.allow_buttons, timer_ms: options.wake_in_ms }
}

#[derive(Clone, Copy, Debug, PartialEq, Eq, Structural)]
pub enum SleepState {
    /// lowest power consumption
    BatteryLow,
    /// Sensors don't sample, no wakeup time defined
    DeepSleep,
    /// ESP in DeepSleep, CO2 and VOx sensors still sample
    Standby,
    /// Don't sleep, just reset by waking from Deep Sleep
    Reset,
    /// Active Sampling
    Sample,
}

/// A timer wake-up.
#[derive(Clone, Copy, Debug, PartialEq, Eq, Structural)]
pub enum WakeTimer {
    Millis(u64),
    Secs(u64),
}

/// How the device goes to sleep in a given sleep state.
#[derive(Clone, Copy, Debug, PartialEq, Eq, Structural)]
pub struct SleepPlan {
    /// Whether the sensors are put into their lowest-power mode first.
    pub sensors_off: bool,
    /// The power state to keep for the next wake-up, when it changes.
    pub next_power_state: Option<PowerState>,
    /// Whether the first button (GPIO 3, active low) wakes the device.
    pub button_wakes: bool,
    /// The timer wake-up.
    pub timer: Option<WakeTimer>,
}

/// The parts of a sleep plan that do not depend on the stored settings; `standby_timer` is
/// the timer of a standby sleep.
pub open spec fn plan_for(state: SleepState, sensors_off: bool, standby_timer: WakeTimer) -> SleepPlan {
    match state {
        SleepState::Reset => SleepPlan {
            sensors_off: false,
            next_power_state: None,
            button_wakes: false,
            timer: Some(WakeTimer::Millis(20)),
        },
        SleepState::BatteryLow => SleepPlan {
            sensors_off,
            next_power_state: None,
            button_wakes: false,
            timer: None,
        },
        SleepState::DeepSleep => SleepPlan {
            sensors_off,
            next_power_state: None,
            button_wakes: true,
            timer: None,
        },
        SleepState::Standby => SleepPlan {
            sensors_off: false,
            next_power_state: Some(PowerState::SensorActiveSleep),
            button_wakes: true,
            timer: Some(standby_timer),
        },
        SleepState::Sample => SleepPlan {
            sensors_off: false,
            next_power_state: Some(PowerState::SampleMode),
            button_wakes: false,
            timer: Some(WakeTimer::Millis(20)),
        },
    }
}

fn make_plan(state: SleepState, sensors_off: bool, standby_timer: WakeTimer) -> (p: SleepPlan)
    ensures
        p == plan_for(state, sensors_off, standby_timer),
{
    match state {
        SleepState::Reset => SleepPlan {
            sensors_off: false,
            next_power_state: None,
            button_wakes: false,
            timer: Some(WakeTimer::Millis(20)),
        },
        SleepState::BatteryLow => SleepPlan {
            sensors_off,
            next_power_state: None,
            button_wakes: false,
            timer: None,
        },
        SleepState::DeepSleep => SleepPlan {
            sensors_off,
            next_power_state: None,
            button_wakes: true,
            timer: None,
        },
        SleepState::Standby => SleepPlan {
            sensors_off: false,
            next_power_state: Some(PowerState::SensorActiveSleep),
            button_wakes: true,
            timer: Some(standby_timer),
        },
        SleepState::Sample => SleepPlan {
            sensors_off: false,
            next_power_state: Some(PowerState::SampleMode),
            button_wakes: false,
            timer: Some(WakeTimer::Millis(20)),
        },
    }
}

/// How to sleep in `state`, given the stored settings: whether the VOC sensor is enabled and
/// the CO₂ sampling rate in seconds. The sensors are switched off before a deep sleep or a
/// low-battery sleep; a standby sleep wakes after a second when the VOC sensor runs, after the
/// sampling rate otherwise.
pub fn sleep_plan(state: SleepState, sgp40_enabled: bool, stcc4_sample_rate: i16) -> (p: SleepPlan)
    ensures
        p == plan_for(
            state,
            true,
            if sgp40_enabled { WakeTimer::Secs(1) } else { WakeTimer::Secs(stcc4_sample_rate as u64) },
        ),
{
    let timer = if sgp40_enabled {
        WakeTimer::Secs(1)
    } else {
        WakeTimer::Secs(stcc4_sample_rate as u64)
    };
    make_plan(state, true, timer)
}

/// How to sleep in `state` when the sensors cannot be reached: they are left as they are, and
/// a standby sleep wakes after a second when the retained VOC flag says the sensor runs (1),
/// after the CO₂ sampling rate otherwise, as with `sleep_plan`.
pub fn sleep_plan_without_devices(state: SleepState, sgp40_flag: u8, stcc4_sample_rate: i16) -> (p: SleepPlan)
    ensures
        p == plan_for(
            state,
            false,
            if sgp40_flag == 1 { WakeTimer::Secs(1) } else { WakeTimer::Secs(stcc4_sample_rate as u64) },
        ),
{
    let timer = if sgp40_flag == 1 {
        WakeTimer::Secs(1)
    } else {
        WakeTimer::Secs(stcc4_sample_rate as u64)
    };
    make_plan(state, false, timer)
}

/// The sampling rate that a stored record stands for: its first two bytes, little-endian.
pub open spec fn rate_of_record(b0: u8, b1: u8) -> i16 {
    ((b0 as u16) | ((b1 as u16) << 8u16)) as i16
}

/// The CO₂ sampling rate kept in storage: the first two bytes, little-endian, when the key is
/// there, 600 seconds otherwise.
pub fn stored_sample_rate(value: Option<&[u8]>) -> (rate: i16)
    requires
        value matches Some(b) ==> b@.len() >= 2,
    ensures
        value is None ==> rate == 600,
        value matches Some(b) ==> rate == rate_of_record(b@[0], b@[1]),
{
    match value {
        Some(b) => ((b[0] as u16) | ((b[1] as u16) << 8u16)) as i16,
        None => 600,
    }
}

/// The stored record of a CO₂ sampling rate written over Bluetooth, which the sleep plans then
/// read back: the rate's two bytes, least significant first.
pub fn sample_rate_record(secs: i16) -> (b: [u8; 2])
    ensures
        b[0] == (secs as u16) as u8,
        b[1] == ((secs as u16) >> 8u16) as u8,
        rate_of_record(b[0], b[1]) == secs,
{
    let w = secs as u16;
    let b0 = w as u8;
    let b1 = (w >> 8u16) as u8;
    proof {
        written_rate_reads_back(secs);
    }
    [b0, b1]
}

/// A sampling rate written to storage is read back unchanged, so a standby sleep wakes after
/// the interval that was written.
pub proof fn written_rate_reads_back(secs: i16)
    ensures
        rate_of_record((secs as u16) as u8, ((secs as u16) >> 8u16) as u8) == secs,
{
    let w = secs as u16;
    assert((((w as u8) as u16) | ((((w >> 8u16) as u8) as u16) << 8u16)) as i16 == secs) by (bit_vector)
        requires
            w == secs as u16,
    ;
}

/// The VOC-sensor flag kept in storage: set when the key is there and its first byte is not
/// zero.
pub fn stored_flag(value: Option<&[u8]>) -> (enabled: bool)
    ensures
        enabled <==> (value matches Some(b) && b@.len() > 0 && b@[0] != 0),
{
    match value {
        Some(b) => {
            if b.len() > 0 {
                b[0] != 0
            } else {
                false
            }
        },
        None => false,
    }
}


/// What each sleep state does with the sensors, the button, the timer and the next wake-up:
/// the sensors are switched off exactly for a deep sleep and a low-battery sleep; exactly those
/// two have no timer; the button wakes the device exactly from a deep sleep and a standby; and
/// only a standby and a sample sleep name the power state for the next wake-up, a standby with
/// a one-second timer when the VOC sensor runs.
pub proof fn sleep_states_at_a_glance(state: SleepState, sgp40_enabled: bool, stcc4_sample_rate: i16)
    ensures
        ({
            let p = plan_for(
                state,
                true,
                if sgp40_enabled { WakeTimer::Secs(1) } else { WakeTimer::Secs(stcc4_sample_rate as u64) },
            );
            &&& p.sensors_off <==> (state == SleepState::DeepSleep || state == SleepState::BatteryLow)
            &&& p.timer is None <==> (state == SleepState::DeepSleep || state == SleepState::BatteryLow)
            &&& p.button_wakes <==> (state == SleepState::DeepSleep || state == SleepState::Standby)
            &&& p.next_power_state is Some <==> (state == SleepState::Standby || state == SleepState::Sample)
            &&& (state == SleepState::Reset || state == SleepState::Sample) ==> p.timer == Some(WakeTimer::Millis(20))
            &&& state == SleepState::Standby && sgp40_enabled ==> p.timer == Some(WakeTimer::Secs(1))
        }),
        forall|off: bool, t: WakeTimer|
            state != SleepState::DeepSleep && state != SleepState::BatteryLow ==> !(#[trigger] plan_for(
                state,
                off,
                t,
            )).sensors_off,
{
}

} // verus!
