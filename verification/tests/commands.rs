use ambient_air::commands::{
    co2_action, continuous_until, get_stcc4_state, long_press_sleep, low_battery_sleep, restart_soon, Co2Action,
    Co2Command, Stcc4State,
};
use ambient_air::power::SleepOptions;

#[test]
fn stcc4_is_normal_without_a_continuous_period() {
    assert_eq!(get_stcc4_state(0, 1_000), (Stcc4State::Normal, 0));
}

#[test]
fn stcc4_continuous_period_ends_with_one_stop() {
    assert_eq!(get_stcc4_state(3_600, 100), (Stcc4State::InContinous, 3_600));
    assert_eq!(get_stcc4_state(3_600, 3_600), (Stcc4State::NeedsContinousStop, 0));
    assert_eq!(get_stcc4_state(3_600, 4_259), (Stcc4State::NeedsContinousStop, 0));
    assert_eq!(get_stcc4_state(3_600, 4_260), (Stcc4State::Normal, 3_600));
    let (_, kept) = get_stcc4_state(3_600, 3_700);
    assert_eq!(get_stcc4_state(kept, 3_701), (Stcc4State::Normal, 0));
}

#[test]
fn stcc4_time_is_taken_modulo_2_to_32() {
    assert_eq!(get_stcc4_state(10, (1u64 << 32) + 5), (Stcc4State::InContinous, 10));
    assert_eq!(get_stcc4_state(u32::MAX - 5, u32::MAX as u64 - 1), (Stcc4State::NeedsContinousStop, 0));
    assert_eq!(get_stcc4_state(u32::MAX - 5, u32::MAX as u64), (Stcc4State::Normal, u32::MAX - 5));
}

#[test]
fn co2_actions() {
    assert_eq!(co2_action(Stcc4State::InContinous), Co2Action::Nothing);
    assert_eq!(co2_action(Stcc4State::NeedsContinousStop), Co2Action::StopContinuous);
    assert_eq!(co2_action(Stcc4State::Normal), Co2Action::SingleShot);
}

#[test]
fn maintenance_keeps_continuous_mode() {
    assert_eq!(continuous_until(Co2Command::FactoryReset, 100), 43_300);
    assert_eq!(continuous_until(Co2Command::PerformConditioning, 100), 3_700);
    assert_eq!(continuous_until(Co2Command::PerformConditioning, (1u64 << 32) + 1), 3_601);
}

#[test]
fn sleep_options() {
    assert_eq!(restart_soon(), SleepOptions { allow_buttons: true, wake_in_ms: Some(20) });
    assert_eq!(long_press_sleep(), SleepOptions { allow_buttons: true, wake_in_ms: Some(60_000) });
    assert_eq!(low_battery_sleep(), SleepOptions { allow_buttons: false, wake_in_ms: Some(31_536_000) });
}

#[test]
fn conditioning_near_the_end_of_the_clock() {
    let t = (u32::MAX - 3600) as u64;
    assert_eq!(continuous_until(Co2Command::PerformConditioning, t), u32::MAX);
    assert_eq!(get_stcc4_state(continuous_until(Co2Command::PerformConditioning, t), t + 10).0, Stcc4State::InContinous);
}
