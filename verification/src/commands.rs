use vstd::prelude::*;
use crate::data::Config;
use crate::leds::LedCommand;
use crate::power::SleepOptions;

verus! {

/// Maintenance commands for the CO₂ sensor.
#[derive(Clone, Copy, Debug, PartialEq, Eq, Structural)]
pub enum Co2Command {
    FactoryReset,
    PerformConditioning,
}

/// Messages on the command channel between the tasks.
#[derive(Clone, Copy, Debug)]
pub enum Commands {
    Reconfigure(Config),
    Sleep(SleepOptions),
    Led(LedCommand),
    Stcc4(Co2Command),
}

/// The CO₂ sensor's mode of operation.
#[derive(Clone, Copy, Debug, PartialEq, Eq, Structural)]
pub enum Stcc4State {
    InContinous,
    Normal,
    NeedsContinousStop,
}

/// The CO₂ sensor's mode at `now_s` seconds after power-up, given the retained time until
/// which it measures continuously (0 when it does not), and that retained time afterwards:
/// a continuous period that ended less than 11 minutes ago (counted up to the largest time) has
/// to be stopped, once, and the retained time is then cleared.
pub open spec fn spec_stcc4_state(cont_until_s: u32, now_s: u32) -> (Stcc4State, u32) {
    if cont_until_s == 0 {
        (Stcc4State::Normal, cont_until_s)
    } else if now_s < cont_until_s {
        (Stcc4State::InContinous, cont_until_s)
    } else if now_s < (if cont_until_s + 660 <= u32::MAX { cont_until_s + 660 } else { u32::MAX as int }) {
        (Stcc4State::NeedsContinousStop, 0)
    } else {
        (Stcc4State::Normal, cont_until_s)
    }
}

/// The CO₂ sensor's mode now (`now_secs` since power-up, kept modulo 2³²) and the retained
/// continuous-until time afterwards.
pub fn get_stcc4_state(cont_until_s: u32, now_secs: u64) -> (r: (Stcc4State, u32))
    ensures
        r == spec_stcc4_state(cont_until_s, (now_secs % 0x1_0000_0000) as u32),
{
    let now_s = now_secs as u32;
    assert(now_s == now_secs % 0x1_0000_0000) by (bit_vector)
        requires
            now_s == now_secs as u32,
    ;
    if cont_until_s == 0 {
        (Stcc4State::Normal, cont_until_s)
    } else if now_s < cont_until_s {
        (Stcc4State::InContinous, cont_until_s)
    } else if now_s < cont_until_s.saturating_add(60 * 11) {
        (Stcc4State::NeedsContinousStop, 0)
    } else {
        (Stcc4State::Normal, cont_until_s)
    }
}

/// What the CO₂ sensor is told before its reading is fetched.
#[derive(Clone, Copy, Debug, PartialEq, Eq, Structural)]
pub enum Co2Action {
    /// Nothing: it measures continuously.
    Nothing,
    /// Stop continuous measurement.
    StopContinuous,
    /// Take one single-shot measurement.
    SingleShot,
}

/// The command for the CO₂ sensor in mode `state`: none while it measures continuously, a
/// stop when its continuous period has just ended, otherwise a single shot.
pub fn co2_action(state: Stcc4State) -> (a: Co2Action)
    ensures
        state == Stcc4State::InContinous ==> a == Co2Action::Nothing,
        state == Stcc4State::NeedsContinousStop ==> a == Co2Action::StopContinuous,
        state == Stcc4State::Normal ==> a == Co2Action::SingleShot,
{
    match state {
        Stcc4State::InContinous => Co2Action::Nothing,
        Stcc4State::NeedsContinousStop => Co2Action::StopContinuous,
        Stcc4State::Normal => Co2Action::SingleShot,
    }
}

/// Once a stop of continuous mode was asked for, the sensor is back in its normal mode at any
/// later time.
pub proof fn stop_is_asked_once(cont_until_s: u32, now_s: u32, later_s: u32)
    requires
        spec_stcc4_state(cont_until_s, now_s).0 == Stcc4State::NeedsContinousStop,
    ensures
        spec_stcc4_state(spec_stcc4_state(cont_until_s, now_s).1, later_s) == (Stcc4State::Normal, 0u32),
{
}

/// Until when (seconds since power-up, kept modulo 2³²) the CO₂ sensor measures continuously
/// after a maintenance command issued at `now_secs`: 12 hours after a factory reset, an hour
/// after conditioning.
pub fn continuous_until(command: Co2Command, now_secs: u64) -> (until: u32)
    requires
        command == Co2Command::FactoryReset ==> now_secs % 0x1_0000_0000 + 43200 <= u32::MAX,
        command == Co2Command::PerformConditioning ==> now_secs % 0x1_0000_0000 + 3600 <= u32::MAX,
    ensures
        until == now_secs % 0x1_0000_0000 + continuous_duration(command),
{
    let now = now_secs as u32;
    assert(now == now_secs % 0x1_0000_0000) by (bit_vector)
        requires
            now == now_secs as u32,
    ;
    match command {
        Co2Command::FactoryReset => now + 60 * 60 * 12,  // continous mode needed for 12h
        Co2Command::PerformConditioning => now + 60 * 60,  // continous mode needed for 1h
    }
}

/// How long the CO₂ sensor measures continuously after a maintenance command, in seconds.
pub open spec fn continuous_duration(command: Co2Command) -> int {
    match command {
        Co2Command::FactoryReset => 43200,
        Co2Command::PerformConditioning => 3600,
    }
}

/// After a maintenance command at `now_s` (seconds since power-up, modulo 2³²), the sensor
/// is in continuous mode at every time before the end of its period.
pub proof fn maintenance_keeps_sensor_continuous(command: Co2Command, now_s: u32, t: u32)
    requires
        now_s + continuous_duration(command) <= u32::MAX,
        t < now_s + continuous_duration(command),
    ensures
        spec_stcc4_state((now_s + continuous_duration(command)) as u32, t).0 == Stcc4State::InContinous,
{
}

/// The sleep that restarts the device at once (20 ms), with the buttons armed.
pub fn restart_soon() -> (o: SleepOptions)
    ensures
        o == (SleepOptions { allow_buttons: true, wake_in_ms: Some(20u64) }),
{
    SleepOptions { allow_buttons: true, wake_in_ms: Some(20) }
}

/// The sleep after a long button press: a minute, with the buttons armed.
pub fn long_press_sleep() -> (o: SleepOptions)
    ensures
        o == (SleepOptions { allow_buttons: true, wake_in_ms: Some(60000u64) }),
{
    SleepOptions { allow_buttons: true, wake_in_ms: Some(60 * 1000) }
}

/// The sleep on a critically low battery: the buttons are not armed and the timer is set to
/// 31 536 000 ms.
pub fn low_battery_sleep() -> (o: SleepOptions)
    ensures
        o == (SleepOptions { allow_buttons: false, wake_in_ms: Some(31_536_000u64) }),
{
    SleepOptions { allow_buttons: false, wake_in_ms: Some(60 * 60 * 24 * 365) }
}


/// The CO₂ sensor's mode over time: without a continuous period it is in its normal mode; it
/// measures continuously until the end of its period; in the eleven minutes (660 s) after
/// the end a stop is due, and the period is then forgotten; later it is back in its normal mode
/// and the period is kept.
pub proof fn continuous_period_then_stop(until: u32, now: u32)
    ensures
        until == 0 ==> spec_stcc4_state(until, now) == (Stcc4State::Normal, 0u32),
        until != 0 && now < until ==> spec_stcc4_state(until, now) == (Stcc4State::InContinous, until),
        until != 0 && until <= now && now < until + 660 && until + 660 <= u32::MAX ==> spec_stcc4_state(until, now)
            == (Stcc4State::NeedsContinousStop, 0u32),
        until != 0 && until + 660 <= now ==> spec_stcc4_state(until, now) == (Stcc4State::Normal, until),
{
}

} // verus!
