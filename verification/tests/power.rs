use ambient_air::power::{
    boot_plan, sample_rate_record, BootPath, BootPlan, CpuClock, sleep_plan, sleep_plan_without_devices, stored_flag, stored_sample_rate, wake_sources, PowerState, SleepOptions,
    SleepPlan, SleepState, WakeTimer,
};

#[test]
fn power_state_codes() {
    assert_eq!(PowerState::DeepSleep.to_code(), 0);
    assert_eq!(PowerState::SensorActiveSleep.to_code(), 1);
    assert_eq!(PowerState::BluetoothMode.to_code(), 2);
    assert_eq!(PowerState::SampleMode.to_code(), 3);
    for s in [PowerState::DeepSleep, PowerState::SensorActiveSleep, PowerState::BluetoothMode, PowerState::SampleMode] {
        assert_eq!(PowerState::try_from_code(s.to_code()), Some(s));
    }
    assert_eq!(PowerState::try_from_code(4), None);
    assert_eq!(PowerState::try_from_code(-1), None);
}

#[test]
fn wake_sources_follow_the_options() {
    let w = wake_sources(&SleepOptions { allow_buttons: true, wake_in_ms: Some(20) });
    assert!(w.buttons);
    assert_eq!(w.timer_ms, Some(20));
    let w = wake_sources(&SleepOptions { allow_buttons: false, wake_in_ms: None });
    assert!(!w.buttons);
    assert_eq!(w.timer_ms, None);
}

#[test]
fn standby_wakes_for_the_next_reading() {
    let p = sleep_plan(SleepState::Standby, true, 600);
    assert_eq!(
        p,
        SleepPlan {
            sensors_off: false,
            next_power_state: Some(PowerState::SensorActiveSleep),
            button_wakes: true,
            timer: Some(WakeTimer::Secs(1)),
        }
    );
    assert_eq!(sleep_plan(SleepState::Standby, false, 600).timer, Some(WakeTimer::Secs(600)));
}

#[test]
fn deep_and_low_battery_sleep_switch_the_sensors_off() {
    let p = sleep_plan(SleepState::DeepSleep, true, 600);
    assert!(p.sensors_off);
    assert!(p.button_wakes);
    assert_eq!(p.timer, None);
    assert_eq!(p.next_power_state, None);
    let p = sleep_plan(SleepState::BatteryLow, false, 600);
    assert!(p.sensors_off);
    assert!(!p.button_wakes);
    assert_eq!(p.timer, None);
}

#[test]
fn reset_and_sample_wake_after_20_ms() {
    let p = sleep_plan(SleepState::Reset, false, 5);
    assert_eq!(p.timer, Some(WakeTimer::Millis(20)));
    assert!(!p.sensors_off);
    assert!(!p.button_wakes);
    let p = sleep_plan(SleepState::Sample, false, 5);
    assert_eq!(p.timer, Some(WakeTimer::Millis(20)));
    assert_eq!(p.next_power_state, Some(PowerState::SampleMode));
}

#[test]
fn sleeping_without_devices_leaves_the_sensors() {
    let p = sleep_plan_without_devices(SleepState::DeepSleep, 0, 600);
    assert!(!p.sensors_off);
    assert_eq!(sleep_plan_without_devices(SleepState::Standby, 2, 300).timer, Some(WakeTimer::Secs(300)));
    for flag in [0u8, 1] {
        assert_eq!(
            sleep_plan_without_devices(SleepState::Standby, flag, 300).timer,
            sleep_plan(SleepState::Standby, flag == 1, 300).timer
        );
    }
    assert_eq!(sleep_plan_without_devices(SleepState::Standby, 1, 300).timer, Some(WakeTimer::Secs(1)));
    assert_eq!(sleep_plan_without_devices(SleepState::Standby, 0, 300).timer, Some(WakeTimer::Secs(300)));
}

#[test]
fn stored_settings() {
    assert_eq!(stored_sample_rate(None), 600);
    assert_eq!(stored_sample_rate(Some(&[0x2C, 0x01])), 300);
    assert_eq!(stored_sample_rate(Some(&[0xFF, 0xFF, 9])), -1);
    assert!(!stored_flag(None));
    assert!(!stored_flag(Some(&[])));
    assert!(!stored_flag(Some(&[0])));
    assert!(stored_flag(Some(&[1])));
}

#[test]
fn boot_follows_the_retained_power_state() {
    assert_eq!(
        boot_plan(1, false),
        BootPlan { power_state_code: 1, cpu_clock: CpuClock::Mhz80, path: BootPath::LowPowerMeasurement }
    );
    assert_eq!(
        boot_plan(3, false),
        BootPlan { power_state_code: 3, cpu_clock: CpuClock::Mhz80, path: BootPath::RecordSample }
    );
    assert_eq!(
        boot_plan(2, false),
        BootPlan { power_state_code: 2, cpu_clock: CpuClock::Mhz160, path: BootPath::FullStartup }
    );
    assert_eq!(
        boot_plan(0, false),
        BootPlan { power_state_code: 0, cpu_clock: CpuClock::Mhz80, path: BootPath::FullStartup }
    );
    assert_eq!(
        boot_plan(42, false),
        BootPlan { power_state_code: 42, cpu_clock: CpuClock::Mhz80, path: BootPath::FullStartup }
    );
}

#[test]
fn button_wake_up_starts_bluetooth() {
    for code in [0i8, 1, 2, 3, -5] {
        assert_eq!(
            boot_plan(code, true),
            BootPlan { power_state_code: 2, cpu_clock: CpuClock::Mhz160, path: BootPath::FullStartup }
        );
    }
}

#[test]
fn written_rate_is_read_back_for_standby() {
    for secs in [5i16, 300, 600, -1, i16::MIN] {
        let record = sample_rate_record(secs);
        assert_eq!(stored_sample_rate(Some(&record)), secs);
    }
    assert_eq!(sample_rate_record(300), [0x2C, 0x01]);
    let rate = stored_sample_rate(Some(&sample_rate_record(120)));
    assert_eq!(sleep_plan(SleepState::Standby, false, rate).timer, Some(WakeTimer::Secs(120)));
}
