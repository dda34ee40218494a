use ambient_air::data::{
    battery_critical, battery_data, co2_data, co2_round, MeasureLoop, include_co2_sampling, lp_sleep_ms, refresh_interval, refresh_wait_ms,
    voc_data, warmup_after_restart, Battery, Co2Data, Config, VocData,
};

#[test]
fn defaults() {
    assert_eq!(VocData::default(), VocData { value: 0, readings_until_warmup_complete: 60, error: false });
    assert_eq!(Co2Data::default(), Co2Data { co2: 0, error: false });
    assert_eq!(Battery::default(), Battery { voltage: 0, percentage: 0, power: 0, error: false });
    assert_eq!(Config::default().update_interval, 1);
}

#[test]
fn voc_reading() {
    assert_eq!(voc_data(true, Some(120)), VocData { value: 120, readings_until_warmup_complete: 0, error: false });
    assert_eq!(voc_data(true, None), VocData { value: 0, readings_until_warmup_complete: 60, error: true });
    assert_eq!(voc_data(false, Some(120)), VocData { value: 0, readings_until_warmup_complete: 0, error: false });
}

#[test]
fn co2_reading() {
    assert_eq!(co2_data(false, Some(800)), Co2Data { co2: 0, error: false });
    assert_eq!(co2_data(true, Some(800)), Co2Data { co2: 800, error: false });
    assert_eq!(co2_data(true, None), Co2Data { co2: 0, error: true });
}

#[test]
fn battery_reading() {
    assert_eq!(
        battery_data(Some((-120, 3900, 87))),
        Battery { voltage: 3900, percentage: 87, power: -120, error: false }
    );
    assert_eq!(battery_data(Some((0, 0, 300))).percentage, 44);
    assert_eq!(battery_data(None), Battery { voltage: 0, percentage: 0, power: 0, error: true });
}

#[test]
fn warmup_is_kept_within_bounds() {
    assert_eq!(warmup_after_restart(60, 10), 50);
    assert_eq!(warmup_after_restart(50, 60), 0);
    assert_eq!(warmup_after_restart(80, -10), 60);
    assert_eq!(warmup_after_restart(60, 0), 60);
    assert_eq!(warmup_after_restart(i32::MIN, i16::MAX), 0);
}

#[test]
fn co2_every_five_seconds() {
    assert!(!include_co2_sampling(4_999));
    assert!(include_co2_sampling(5_000));
}

#[test]
fn refresh_timing() {
    assert_eq!(refresh_interval(None), 1);
    assert_eq!(refresh_interval(Some(Config { update_interval: 10 })), 10);
    assert_eq!(refresh_wait_ms(1, 300), 700);
    assert_eq!(refresh_wait_ms(1, 1_500), 0);
    assert_eq!(refresh_wait_ms(0, 0), 0);
    assert_eq!(refresh_wait_ms(-1, 5), (-1000i32) as u64 - 5);
}

#[test]
fn low_power_sleep() {
    assert_eq!(lp_sleep_ms(600, true), 1_000);
    assert_eq!(lp_sleep_ms(600, false), 600_000);
    assert_eq!(lp_sleep_ms(2, false), 5_000);
    assert_eq!(lp_sleep_ms(-1, false), u64::MAX.wrapping_mul(1000));
}

#[test]
fn battery_threshold() {
    assert!(battery_critical(0));
    assert!(battery_critical(5));
    assert!(!battery_critical(6));
}

#[test]
fn co2_cadence_across_rounds() {
    assert_eq!(co2_round(0, 1_000), (false, 0));
    assert_eq!(co2_round(0, 5_000), (true, 5_000));
    let mut last = 0;
    let mut sampled = Vec::new();
    for now in (0..30_000).step_by(1_700) {
        let (sample, l) = co2_round(last, now);
        if sample {
            sampled.push(now);
        }
        last = l;
    }
    assert!(sampled.windows(2).all(|w| w[1] - w[0] >= 5_000));
    assert_eq!(sampled[0], 5_100);
}

#[test]
fn measure_loop_rounds() {
    let mut l = MeasureLoop::start(1_000);
    assert!(!l.begin_round(1_000));
    let voc = VocData { value: 120, readings_until_warmup_complete: 30, error: false };
    let (d, wait) = l.finish_round(voc, 10, 1, 300);
    assert_eq!(d, VocData { value: 120, readings_until_warmup_complete: 20, error: false });
    assert_eq!(wait, 700);
    assert!(!l.first_run);
    assert!(!l.begin_round(2_000));
    let (d, wait) = l.finish_round(voc, 10, 1, 1_500);
    assert_eq!(d, voc);
    assert_eq!(wait, 0);
    assert!(l.begin_round(6_000));
    assert_eq!(l.last_co2_ms, 6_000);
    assert!(!l.begin_round(10_999));
    assert!(l.begin_round(11_000));
}
