use ambient_air::power::PowerState;
use ambient_air::sampling::{
    batch_count, batch_key, chunk_notifications, decode_batch, encode_batch, notifications_needed,
    Measurement, SampleBuffer, SamplingSession,
};

#[test]
fn batch_roundtrip_two_measurements() {
    let a = Measurement::new(2623, 101_325, -150, 42, 815, 100);
    let b = Measurement::new(-1, u32::MAX, i32::MIN, 0, -5, i32::MAX);
    let bytes = encode_batch(&[a, b]);
    assert_eq!(bytes.len(), 2 + 2 * 22);
    assert_eq!(&bytes[0..2], &[2, 0]);
    let back = decode_batch(&bytes);
    assert_eq!(back, vec![a, b]);
}

#[test]
fn measurement_layout_is_little_endian_packed() {
    let m = Measurement::new(0x0102_0304, 0x0506_0708, -2, 0x0A0B, -1, 0x1112_1314);
    let b = m.to_bytes();
    assert_eq!(
        b,
        [
            0x04, 0x03, 0x02, 0x01, 0x08, 0x07, 0x06, 0x05, 0xFE, 0xFF, 0xFF, 0xFF, 0x0B, 0x0A, 0xFF, 0xFF,
            0x14, 0x13, 0x12, 0x11, 0x00, 0x00
        ]
    );
    assert_eq!(Measurement::from_bytes(&b, 0), m);
    let mut reserved = b;
    reserved[20] = 0xAA;
    reserved[21] = 0x55;
    assert_eq!(Measurement::from_bytes(&reserved, 0), m);
}

#[test]
fn from_reading_stores_temperature_twice() {
    let m = Measurement::from_reading(2150, 98_765, 47, 600, 120);
    assert_eq!(m.temp_p, 2150);
    assert_eq!(m.temp_t, 2150);
    assert_eq!(m.pressure, 98_765);
    assert_eq!(m.humidity, 47);
    assert_eq!(m.co2, 600);
    assert_eq!(m.voc, 120);
}

#[test]
fn empty_batch_is_just_the_count() {
    let bytes = encode_batch(&[]);
    assert_eq!(bytes, vec![0, 0]);
    assert!(decode_batch(&bytes).is_empty());
}

#[test]
fn decode_batch_ignores_trailing_bytes() {
    let a = Measurement::new(1, 2, 3, 4, 5, 6);
    let mut bytes = encode_batch(&[a]);
    bytes.extend_from_slice(&[0xAA; 30]);
    assert_eq!(decode_batch(&bytes), vec![a]);
}

#[test]
fn batch_keys_are_decimal() {
    assert_eq!(batch_key(0), b"sample_0".to_vec());
    assert_eq!(batch_key(7), b"sample_7".to_vec());
    assert_eq!(batch_key(12), b"sample_12".to_vec());
    assert_eq!(batch_key(65535), b"sample_65535".to_vec());
}

#[test]
fn sample_buffer_slots_wrap_every_160() {
    let mut buf = SampleBuffer::new();
    let a = Measurement::new(1, 1, 1, 1, 1, 1);
    let b = Measurement::new(2, 2, 2, 2, 2, 2);
    buf.push_to_ram(a, 1);
    buf.push_to_ram(b, 3);
    assert_eq!(buf.read_measurement(0), a);
    assert_eq!(buf.read_measurement(2), b);
    assert_eq!(buf.read_measurement(1), Measurement::new(0, 0, 0, 0, 0, 0));
    let c = Measurement::new(3, 3, 3, 3, 3, 3);
    buf.push_to_ram(c, 161);
    assert_eq!(buf.read_measurement(0), c);
    assert_eq!(buf.read_measurement(2), b);
    buf.clear();
    assert_eq!(buf.read_measurement(2), Measurement::new(0, 0, 0, 0, 0, 0));
}

#[test]
fn co2_is_sampled_at_most_every_five_seconds() {
    let mut s = SamplingSession::new();
    s.start_program(10, 3);
    assert_eq!(s.power_state, PowerState::SampleMode);
    let (co2, offset) = s.begin_sample(1_000);
    assert!(co2);
    assert_eq!(offset, 0);
    assert_eq!(s.last_co2_sample, 1_000);
    assert_eq!(s.first_measurement_ts, 1_000);
    let mut buf = SampleBuffer::new();
    assert!(!s.save(&mut buf, Measurement::new(0, 0, 0, 0, 0, 0)));
    let (co2, offset) = s.begin_sample(4_999);
    assert!(!co2);
    assert_eq!(offset, 3_999);
    assert_eq!(s.last_co2_sample, 1_000);
    let (co2, _) = s.begin_sample(6_000);
    assert!(co2);
    assert_eq!(s.last_co2_sample, 6_000);
}

#[test]
fn program_ends_after_requested_samples() {
    let mut s = SamplingSession::new();
    let mut buf = SampleBuffer::new();
    s.start_program(30, 2);
    s.begin_sample(100);
    s.save(&mut buf, Measurement::new(1, 0, 0, 0, 0, 0));
    assert_eq!(s.finish_sample(1_500), 28_500);
    assert_eq!(s.power_state, PowerState::SampleMode);
    assert!(!s.needs_samples_written);
    s.begin_sample(30_100);
    s.save(&mut buf, Measurement::new(2, 0, 0, 0, 0, 0));
    assert_eq!(s.finish_sample(1_500), 20);
    assert_eq!(s.power_state, PowerState::BluetoothMode);
    assert!(s.needs_samples_written);
    let (key, value) = s.stored_batch(&buf);
    assert_eq!(key, b"sample_0".to_vec());
    assert_eq!(decode_batch(&value).len(), 2);
    assert_eq!(decode_batch(&value)[1].temp_p, 2);
}

#[test]
fn late_wake_up_waits_ten_milliseconds() {
    let mut s = SamplingSession::new();
    s.start_program(1, 5);
    assert_eq!(s.finish_sample(2_000), 10);
    assert_eq!(s.finish_sample(1_000), 0);
}

#[test]
fn full_buffer_is_aggregated() {
    let mut s = SamplingSession::new();
    let mut buf = SampleBuffer::new();
    s.start_program(1, 400);
    for i in 0..159 {
        assert!(!s.save(&mut buf, Measurement::new(i, 0, 0, 0, 0, 0)));
    }
    assert!(s.save(&mut buf, Measurement::new(159, 0, 0, 0, 0, 0)));
    assert_eq!(s.batch_index(), 0);
    assert!(!s.save(&mut buf, Measurement::new(160, 0, 0, 0, 0, 0)));
    assert_eq!(s.batch_index(), 1);
    let (key, value) = s.stored_batch(&buf);
    assert_eq!(key, b"sample_1".to_vec());
    let back = decode_batch(&value);
    assert_eq!(back.len(), 160);
    assert_eq!(back[0].temp_p, 160);
    assert_eq!(back[1].temp_p, 1);
}

#[test]
fn notification_counts() {
    assert_eq!(batch_count(0), 0);
    assert_eq!(batch_count(160), 1);
    assert_eq!(batch_count(161), 2);
    assert_eq!(notifications_needed(0), 0);
    assert_eq!(notifications_needed(15), 2);
    assert_eq!(notifications_needed(160), 16);
}

#[test]
fn notifications_take_ten_samples_at_a_time() {
    assert_eq!(chunk_notifications(2, 0, 15), vec![(0, 10), (10, 15)]);
    assert_eq!(chunk_notifications(17, 0, 160).len(), 16);
    assert_eq!(chunk_notifications(17, 0, 160)[15], (150, 160));
    assert_eq!(chunk_notifications(17, 16, 10), vec![(0, 10)]);
    assert_eq!(chunk_notifications(18, 16, 13), vec![(0, 10), (10, 13)]);
    assert_eq!(chunk_notifications(17, 17, 40), vec![]);
    assert_eq!(chunk_notifications(3, 1, 30), vec![(0, 10), (10, 20)]);
}

#[test]
fn negative_count_lands_where_the_unsigned_count_points() {
    let mut s = SamplingSession::new();
    s.samples_taken = -3;
    let mut buf = SampleBuffer::new();
    let m = Measurement::new(9, 9, 9, 9, 9, 9);
    assert!(!s.save(&mut buf, m));
    assert_eq!(s.samples_taken, -2);
    assert_eq!(buf.read_measurement(93), m);
}

#[test]
fn every_sample_of_a_long_program_is_notified_once() {
    for requested in [1i16, 9, 10, 159, 160, 161, 170, 320, 333, 1000] {
        let needed = notifications_needed(requested);
        let mut done = 0;
        let mut sent = Vec::new();
        for b in 0..batch_count(requested) as usize {
            let len = (requested as usize - 160 * b).min(160);
            for (start, end) in chunk_notifications(needed, done, len) {
                assert!(start < end && end - start <= 10);
                sent.extend((start..end).map(|i| 160 * b + i));
                done += 1;
            }
        }
        assert_eq!(done, needed);
        assert_eq!(sent, (0..requested as usize).collect::<Vec<_>>());
    }
}

#[test]
fn program_end_always_asks_for_the_last_store() {
    let mut s = SamplingSession::new();
    let mut buf = SampleBuffer::new();
    s.start_program(1, 160);
    for i in 0..160 {
        let stored_now = s.save(&mut buf, Measurement::new(i, 0, 0, 0, 0, 0));
        assert_eq!(stored_now, i == 159);
    }
    assert_eq!(s.finish_sample(0), 20);
    assert!(s.needs_samples_written);
}
