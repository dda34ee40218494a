use ambient_air::data::{Battery, Co2Data, VocData};
use ambient_air::long_write::GenericWrite;
use ambient_air::sampling::Measurement;
use ambient_air::services::{
    battery_level, capacity_from_write, capacity_value, co2_notification, command_from_write, enabled_from_write,
    sampling_interval_from_write, sgp40_setting, time_from_write, voc_characteristics, CommandBuf, GattValueError,
    MeasurementVec,
};

fn m(i: i32) -> Measurement {
    Measurement::new(i, i as u32 * 10, -i, 40, 400, 100 + i)
}

#[test]
fn measurement_list_holds_at_most_ten() {
    let ten: Vec<Measurement> = (0..10).map(m).collect();
    let v = MeasurementVec::from_slice(&ten).unwrap();
    assert_eq!(v.as_slice(), &ten[..]);
    let eleven: Vec<Measurement> = (0..11).map(m).collect();
    assert_eq!(MeasurementVec::from_slice(&eleven).err(), Some(GattValueError::Capacity));
    assert!(MeasurementVec::from_slice(&[]).unwrap().as_slice().is_empty());
}

#[test]
fn measurement_list_round_trips_through_notification_bytes() {
    let items: Vec<Measurement> = (0..3).map(m).collect();
    let v = MeasurementVec::from_slice(&items).unwrap();
    let bytes = v.as_gatt();
    assert_eq!(bytes.len(), 3 * 22);
    assert_eq!(&bytes[22..44], &m(1).to_bytes());
    let back = MeasurementVec::from_gatt(&bytes).unwrap();
    assert_eq!(back.as_slice(), &items[..]);
}

#[test]
fn notification_bytes_must_be_whole_measurements() {
    assert_eq!(MeasurementVec::from_gatt(&[0u8; 21]).err(), Some(GattValueError::InvalidLength));
    assert_eq!(MeasurementVec::from_gatt(&[0u8; 11 * 22]).err(), Some(GattValueError::InvalidLength));
    assert_eq!(MeasurementVec::from_gatt(&[0u8; 10 * 22]).unwrap().as_slice().len(), 10);
    assert!(MeasurementVec::from_gatt(&[]).unwrap().as_slice().is_empty());
}

#[test]
fn command_buffer() {
    let c = CommandBuf::from_gatt(b"{\"samples\":3}").unwrap();
    assert_eq!(&c.as_gatt()[..13], b"{\"samples\":3}");
    assert!(c.as_gatt()[13..].iter().all(|b| *b == 0));
    assert_eq!(c.as_gatt().len(), 1024);
    assert_eq!(c.text_len(), 13);
    assert_eq!(CommandBuf::zeroed().text_len(), 0);
    assert_eq!(CommandBuf::default().text_len(), 0);
    assert_eq!(CommandBuf::from_gatt(&[1u8; 1025]).err(), Some(GattValueError::InvalidLength));
    assert_eq!(CommandBuf::from_gatt(&[1u8; 1024]).unwrap().text_len(), 1024);
}

#[test]
fn writes_to_settings() {
    assert_eq!(sampling_interval_from_write(&GenericWrite::Short(60)), 60);
    assert_eq!(sampling_interval_from_write(&GenericWrite::Short(2)), 5);
    assert_eq!(sampling_interval_from_write(&GenericWrite::Short(-7)), 5);
    assert_eq!(sampling_interval_from_write(&GenericWrite::Short(600)), 600);
    assert_eq!(sampling_interval_from_write(&GenericWrite::Short(3600)), 600);
    assert_eq!(sampling_interval_from_write(&GenericWrite::Long { data: &[1, 2], handle: 3 }), 600);
    assert_eq!(capacity_from_write(&GenericWrite::Short(2000)), 2000);
    assert_eq!(capacity_from_write(&GenericWrite::Short(-1)), 65535);
    assert_eq!(capacity_from_write(&GenericWrite::Long { data: &[], handle: 3 }), 500);
    assert!(enabled_from_write(&GenericWrite::Short(true)));
    assert!(!enabled_from_write(&GenericWrite::Long { data: &[1], handle: 3 }));
    assert_eq!(time_from_write(&GenericWrite::Short(1_700_000_000_000_000)), 1_700_000_000_000_000);
    assert_eq!(time_from_write(&GenericWrite::Long { data: &[1], handle: 3 }), 0);
}

#[test]
fn command_writes() {
    let short = CommandBuf::from_gatt(b"abc").unwrap();
    let c = command_from_write(&GenericWrite::Short(short)).unwrap();
    assert_eq!(c.text_len(), 3);
    let c = command_from_write(&GenericWrite::Long { data: b"{\"x\":1}", handle: 40 }).unwrap();
    assert_eq!(&c.as_gatt()[..7], b"{\"x\":1}");
    assert_eq!(c.text_len(), 7);
    assert!(command_from_write(&GenericWrite::Long { data: &[1u8; 2000], handle: 40 }).is_err());
}

#[test]
fn characteristic_values() {
    let b = Battery { voltage: 3700, percentage: 55, power: -100, error: false };
    assert_eq!(battery_level(&b), 55);
    assert_eq!(battery_level(&Battery { percentage: -1, ..b }), 255);
    assert_eq!(capacity_value(2000), 2000);
    assert_eq!(capacity_value(40000), -25536);
    assert_eq!(voc_characteristics(&VocData { value: 120, readings_until_warmup_complete: 7, error: false }), (120, 7));
    assert_eq!(co2_notification(&Co2Data { co2: 0, error: false }), None);
    assert_eq!(co2_notification(&Co2Data { co2: 612, error: false }), Some(612));
    assert_eq!(sgp40_setting(true), (1, [1]));
    assert_eq!(sgp40_setting(false), (0, [0]));
}
