use ambient_air::power::SleepOptions;
use ambient_air::voc::{
    finish_low_power_round, restore_voc_state, store_voc_state, VocRetained, VocStateBits, STATE_SIZE,
};

fn sample_state() -> VocStateBits {
    VocStateBits {
        uptime: 1.5f32.to_bits(),
        sraw: 30000.0f32.to_bits(),
        gas_index: 100.0f32.to_bits(),
        mean: 0x0102_0304,
        std: 0x1111_1111,
        sraw_offset: 0x2222_2222,
        uptime_gamma: 0x3333_3333,
        uptime_gating: 0x4444_4444,
        gating_duration_minutes: 0x5555_5555,
        lp_initialized: true,
        lp_x1: 0x6666_6666,
        lp_x2: 0x7777_7777,
        lp_x3: 0xDEAD_BEEF,
    }
}

#[test]
fn state_survives_storage() {
    let s = sample_state();
    let buf = store_voc_state(&s);
    assert_eq!(buf.len(), STATE_SIZE);
    assert_eq!(restore_voc_state(&buf), s);
    assert_eq!(f32::from_bits(restore_voc_state(&buf).uptime), 1.5);
}

#[test]
fn state_layout() {
    let buf = store_voc_state(&sample_state());
    assert_eq!(&buf[0..4], &1.5f32.to_le_bytes());
    assert_eq!(&buf[12..16], &[0x04, 0x03, 0x02, 0x01]);
    assert_eq!(buf[36], 1);
    assert_eq!(&buf[45..49], &[0xEF, 0xBE, 0xAD, 0xDE]);
    assert_eq!(&buf[49..52], &[0, 0, 0]);
}

#[test]
fn any_nonzero_flag_byte_restores_as_set() {
    let mut buf = [0u8; 52];
    buf[36] = 7;
    let s = restore_voc_state(&buf);
    assert!(s.lp_initialized);
    assert_eq!(s.uptime, 0);
    buf[36] = 0;
    assert!(!restore_voc_state(&buf).lp_initialized);
}

#[test]
fn retained_state_is_restorable_only_after_uptime() {
    let mut r = VocRetained { readings: 0, state: [0; 52] };
    assert_eq!(r.restorable(), None);
    let s = sample_state();
    r.record_measurement(&s);
    assert_eq!(r.readings, 1);
    assert_eq!(r.restorable(), Some(s));
    for (uptime, ok) in [(0.0f32, false), (-0.0, false), (-1.0, false), (f32::NAN, false), (f32::INFINITY, true), (1e-40, true)] {
        let mut t = s;
        t.uptime = uptime.to_bits();
        let r = VocRetained { readings: 0, state: store_voc_state(&t) };
        assert_eq!(r.restorable().is_some(), ok && uptime > 0.0, "uptime {}", uptime);
        assert_eq!(r.restorable().is_some(), uptime > 0.0);
    }
}

#[test]
fn low_power_round_counts_the_voc_reading_and_sleeps() {
    let mut r = VocRetained { readings: 4, state: [0; 52] };
    let s = sample_state();
    let o = finish_low_power_round(&mut r, true, 600, Some(s));
    assert_eq!(o, SleepOptions { allow_buttons: true, wake_in_ms: Some(1000) });
    assert_eq!(r.readings, 5);
    assert_eq!(restore_voc_state(&r.state), s);
    let o = finish_low_power_round(&mut r, false, 300, None);
    assert_eq!(o, SleepOptions { allow_buttons: true, wake_in_ms: Some(300_000) });
    assert_eq!(r.readings, 5);
    let o = finish_low_power_round(&mut r, false, 2, None);
    assert_eq!(o.wake_in_ms, Some(5_000));
}
