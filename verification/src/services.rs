use vstd::prelude::*;
use crate::data::{Battery, Co2Data, VocData};
use crate::long_write::{ConnectionContext, GenericWrite};
use crate::sampling::{
    Measurement, MEAS_SIZE, lemma_measurements_bytes, measurement_bytes, measurement_of, measurement_roundtrip,
    measurements_bytes,
};

verus! {

/// Largest number of measurements in one notification.
pub const MEASUREMENTS_PER_NOTIFICATION: usize = 10;
/// Size of the command characteristic's value.
pub const COMMAND_BUF_SIZE: usize = 1024;

/// Why a characteristic value could not be made from bytes or items.
#[derive(Clone, Copy, Debug, PartialEq, Eq, Structural)]
pub enum GattValueError {
    InvalidLength,
    Capacity,
}

/// The value of the command characteristic: the written bytes, padded with zeros.
pub struct CommandBuf(pub [u8; 1024]);

/// Length of `s` without its trailing zero bytes.
pub open spec fn trimmed_len(s: Seq<u8>) -> nat
    decreases s.len(),
{
    if s.len() == 0 {
        0
    } else if s.last() == 0 {
        trimmed_len(s.drop_last())
    } else {
        s.len()
    }
}

impl CommandBuf {
    /// An all-zero command.
    pub fn zeroed() -> (c: Self)
        ensures
            c.0@ == Seq::new(1024, |i: int| 0u8),
    {
        let c = CommandBuf([0u8; 1024]);
        assert(c.0@ =~= Seq::new(1024, |i: int| 0u8));
        c
    }

    /// The command written as `data`: the bytes, then zeros; refused when longer than the
    /// characteristic.
    pub fn from_gatt(data: &[u8]) -> (r: Result<Self, GattValueError>)
        ensures
            data@.len() > COMMAND_BUF_SIZE ==> r == Err::<Self, GattValueError>(GattValueError::InvalidLength),
            data@.len() <= COMMAND_BUF_SIZE ==> (r matches Ok(c) && c.0@ == data@ + Seq::new(
                (COMMAND_BUF_SIZE - data@.len()) as nat,
                |i: int| 0u8,
            )),
    {
        if data.len() > COMMAND_BUF_SIZE {
            return Err(GattValueError::InvalidLength);
        }
        let mut buf = [0u8; 1024];
        let mut i: usize = 0;
        while i < data.len()
            invariant
                data@.len() <= COMMAND_BUF_SIZE,
                i <= data@.len(),
                forall|k: int| 0 <= k < i ==> #[trigger] buf@[k] == data@[k],
                forall|k: int| i <= k < COMMAND_BUF_SIZE ==> #[trigger] buf@[k] == 0u8,
            decreases data@.len() - i,
        {
            buf[i] = data[i];
            i = i + 1;
        }
        assert(buf@ =~= data@ + Seq::new((COMMAND_BUF_SIZE - data@.len()) as nat, |i: int| 0u8));
        Ok(CommandBuf(buf))
    }

    /// The value sent when the command characteristic is read: all its bytes.
    pub fn as_gatt(&self) -> (s: &[u8])
        ensures
            s@ == self.0@,
    {
        &self.0
    }

    /// Length of the command text: the bytes up to the last one that is not zero.
    pub fn text_len(&self) -> (n: usize)
        ensures
            n == trimmed_len(self.0@),
    {
        let mut n: usize = 1024;
        assert(self.0@.subrange(0, 1024) =~= self.0@);
        while n > 0 && self.0[n - 1] == 0
            invariant
                n <= 1024,
                trimmed_len(self.0@.subrange(0, n as int)) == trimmed_len(self.0@),
            decreases n,
        {
            assert(self.0@.subrange(0, n as int).drop_last() =~= self.0@.subrange(0, n - 1));
            n = n - 1;
        }
        n
    }
}

impl Default for CommandBuf {
    fn default() -> (c: Self)
        ensures
            c.0@ == Seq::new(1024, |i: int| 0u8),
    {
        Self::zeroed()
    }
}

/// Up to ten measurements, the value of one data notification (a
/// `heapless::Vec<Measurement, 10>`).
#[verifier::external_body]
pub struct MeasurementVec {
    items: heapless::Vec<Measurement, 10>,
}

/// The measurements held, in order.
pub uninterp spec fn measurement_items(v: MeasurementVec) -> Seq<Measurement>;

/// `heapless::Vec::new`: no measurement.
#[verifier::external_body]
fn items_new() -> (v: MeasurementVec)
    ensures
        measurement_items(v) == Seq::<Measurement>::empty(),
{
    MeasurementVec { items: heapless::Vec::new() }
}

/// `heapless::Vec::extend_from_slice`: the measurements are appended when they fit within the
/// capacity of ten; otherwise the list is left as it was and `CapacityError` comes back.
#[verifier::external_body]
fn items_extend(v: &mut MeasurementVec, d: &[Measurement]) -> (r: Result<(), heapless::CapacityError>)
    ensures
        measurement_items(*old(v)).len() + d@.len() <= MEASUREMENTS_PER_NOTIFICATION ==> r is Ok
            && measurement_items(*final(v)) == measurement_items(*old(v)) + d@,
        measurement_items(*old(v)).len() + d@.len() > MEASUREMENTS_PER_NOTIFICATION ==> r is Err
            && measurement_items(*final(v)) == measurement_items(*old(v)),
{
    v.items.extend_from_slice(d)
}

/// `heapless::Vec::push`: the measurement is appended when fewer than ten are held; otherwise
/// the list is left as it was and the measurement comes back.
#[verifier::external_body]
fn items_push(v: &mut MeasurementVec, m: Measurement) -> (r: Result<(), Measurement>)
    ensures
        measurement_items(*old(v)).len() < MEASUREMENTS_PER_NOTIFICATION ==> r is Ok,
        measurement_items(*old(v)).len() < MEASUREMENTS_PER_NOTIFICATION ==> measurement_items(*final(v))
            == measurement_items(*old(v)).push(m),
        measurement_items(*old(v)).len() >= MEASUREMENTS_PER_NOTIFICATION ==> r is Err,
        measurement_items(*old(v)).len() >= MEASUREMENTS_PER_NOTIFICATION ==> measurement_items(*final(v))
            == measurement_items(*old(v)),
        r matches Err(back) ==> back == m,
{
    v.items.push(m)
}

/// `heapless::Vec::as_slice`: the measurements held.
#[verifier::external_body]
fn items_as_slice(v: &MeasurementVec) -> (s: &[Measurement])
    ensures
        s@ == measurement_items(*v),
{
    v.items.as_slice()
}

impl MeasurementVec {
    /// The measurements of `d`, when there are at most ten.
    pub fn from_slice(d: &[Measurement]) -> (r: Result<Self, GattValueError>)
        ensures
            d@.len() <= MEASUREMENTS_PER_NOTIFICATION ==> (r matches Ok(v) && measurement_items(v) == d@),
            d@.len() > MEASUREMENTS_PER_NOTIFICATION ==> r == Err::<Self, GattValueError>(GattValueError::Capacity),
    {
        let mut data = items_new();
        match items_extend(&mut data, d) {
            Ok(()) => {
                assert(Seq::<Measurement>::empty() + d@ =~= d@);
                Ok(data)
            },
            Err(_) => Err(GattValueError::Capacity),
        }
    }

    /// The measurements held.
    pub fn as_slice(&self) -> (s: &[Measurement])
        ensures
            s@ == measurement_items(*self),
    {
        items_as_slice(self)
    }

    /// The notification's bytes: the stored form of each measurement, in order.
    pub fn as_gatt(&self) -> (b: Vec<u8>)
        ensures
            b@ == measurements_bytes(measurement_items(*self)),
    {
        let items = items_as_slice(self);
        let mut b: Vec<u8> = Vec::new();
        let mut i: usize = 0;
        while i < items.len()
            invariant
                i <= items@.len(),
                b@ == measurements_bytes(items@.subrange(0, i as int)),
            decreases items@.len() - i,
        {
            let bytes = items[i].to_bytes();
            let ghost before = b@;
            let mut j: usize = 0;
            while j < MEAS_SIZE
                invariant
                    j <= MEAS_SIZE,
                    bytes@.len() == MEAS_SIZE,
                    b@ == before + bytes@.subrange(0, j as int),
                decreases MEAS_SIZE - j,
            {
                b.push(bytes[j]);
                j = j + 1;
                assert(b@ =~= before + bytes@.subrange(0, j as int));
            }
            proof {
                assert(items@.subrange(0, i + 1).drop_last() =~= items@.subrange(0, i as int));
                assert(bytes@.subrange(0, MEAS_SIZE as int) =~= bytes@);
            }
            i = i + 1;
        }
        assert(items@.subrange(0, items@.len() as int) =~= items@);
        b
    }

    /// The measurements that notification bytes stand for: refused unless they are whole
    /// measurements, at most ten.
    pub fn from_gatt(data: &[u8]) -> (r: Result<Self, GattValueError>)
        ensures
            r is Ok <==> (data@.len() % (MEAS_SIZE as nat) == 0 && data@.len() / (MEAS_SIZE as nat) <= MEASUREMENTS_PER_NOTIFICATION),
            r is Err ==> r == Err::<Self, GattValueError>(GattValueError::InvalidLength),
            r matches Ok(v) ==> measurement_items(v).len() == data@.len() / (MEAS_SIZE as nat) && forall|i: int|
                0 <= i < measurement_items(v).len() ==> #[trigger] measurement_items(v)[i] == measurement_of(
                    data@.subrange(MEAS_SIZE * i, MEAS_SIZE * i + MEAS_SIZE),
                ),
    {
        // Byte length must be a multiple of Measurement
        if data.len() % MEAS_SIZE != 0 {
            return Err(GattValueError::InvalidLength);
        }
        let count = data.len() / MEAS_SIZE;
        let mut v = items_new();
        let mut i: usize = 0;
        while i < count
            invariant
                count == data@.len() / (MEAS_SIZE as nat),
                data@.len() % (MEAS_SIZE as nat) == 0,
                i <= count,
                i <= MEASUREMENTS_PER_NOTIFICATION,
                measurement_items(v).len() == i,
                forall|k: int| 0 <= k < i ==> #[trigger] measurement_items(v)[k] == measurement_of(
                    data@.subrange(MEAS_SIZE * k, MEAS_SIZE * k + MEAS_SIZE),
                ),
            decreases count - i,
        {
            let m = Measurement::from_bytes(data, i * MEAS_SIZE);
            match items_push(&mut v, m) {
                Ok(()) => {},
                Err(_) => {
                    return Err(GattValueError::InvalidLength);
                },
            }
            i = i + 1;
        }
        Ok(v)
    }
}

/// What a notification is made of is what its bytes are read back as: the bytes of up to ten
/// measurements are accepted as whole measurements, as many as were sent, each the same.
pub proof fn notification_roundtrip(ms: Seq<Measurement>)
    requires
        ms.len() <= MEASUREMENTS_PER_NOTIFICATION,
    ensures
        measurements_bytes(ms).len() % (MEAS_SIZE as nat) == 0,
        measurements_bytes(ms).len() / (MEAS_SIZE as nat) == ms.len(),
        forall|i: int|
            0 <= i < ms.len() ==> #[trigger] measurement_of(
                measurements_bytes(ms).subrange(MEAS_SIZE * i, MEAS_SIZE * i + MEAS_SIZE),
            ) == ms[i],
{
    lemma_measurements_bytes(ms);
    assert(measurements_bytes(ms).len() == MEAS_SIZE * ms.len());
    let n = ms.len();
    assert((22 * n) % 22 == 0 && (22 * n) / 22 == n) by (nonlinear_arith);
    assert forall|i: int| 0 <= i < ms.len() implies #[trigger] measurement_of(
        measurements_bytes(ms).subrange(MEAS_SIZE * i, MEAS_SIZE * i + MEAS_SIZE),
    ) == ms[i] by {
        measurement_roundtrip(ms[i]);
    }
}

/// The CO₂ sampling interval from a write: a short write sets it, kept within the 5 s to
/// 600 s that the sensor needs; a long write sets 600 s.
pub fn sampling_interval_from_write(e: &GenericWrite<'_, i16>) -> (secs: i16)
    ensures
        e matches GenericWrite::Short(d) ==> secs == (if *d < 5 { 5 } else if *d > 600 { 600 } else { *d }),
        e is Long ==> secs == 600,
{
    let data = match e {
        GenericWrite::Long { data: _, handle: _ } => 600,
        GenericWrite::Short(d) => *d,
    };
    if data < 5 {
        5
    } else if data > 600 {
        600
    } else {
        data
    }
}

/// The design capacity to program from a write, in mAh (the signed value written, taken as
/// unsigned); a long write sets 500 mAh.
pub fn capacity_from_write(e: &GenericWrite<'_, i16>) -> (mah: u16)
    ensures
        e matches GenericWrite::Short(d) ==> mah == *d as u16,
        e is Long ==> mah == 500,
{
    let data = match e {
        GenericWrite::Long { data: _, handle: _ } => 500,
        GenericWrite::Short(d) => *d,
    };
    data as u16
}

/// Whether the VOC sensor is enabled by a write; a long write disables it.
pub fn enabled_from_write(e: &GenericWrite<'_, bool>) -> (enabled: bool)
    ensures
        e matches GenericWrite::Short(d) ==> enabled == *d,
        e is Long ==> !enabled,
{
    match e {
        GenericWrite::Long { data: _, handle: _ } => false,
        GenericWrite::Short(d) => *d,
    }
}

/// The clock time (µs) set by a write; a long write sets 0.
pub fn time_from_write(e: &GenericWrite<'_, u64>) -> (us: u64)
    ensures
        e matches GenericWrite::Short(d) ==> us == *d,
        e is Long ==> us == 0,
{
    match e {
        GenericWrite::Long { data: _, handle: _ } => 0,
        GenericWrite::Short(d) => *d,
    }
}

/// The command from a write: a short write carries it, a long write its bytes.
pub fn command_from_write(e: &GenericWrite<'_, CommandBuf>) -> (r: Result<CommandBuf, GattValueError>)
    ensures
        e matches GenericWrite::Short(d) ==> (r matches Ok(c) && c.0@ == d.0@),
        e matches GenericWrite::Long { data, .. } ==> (data@.len() > COMMAND_BUF_SIZE ==> r is Err)
            && (data@.len() <= COMMAND_BUF_SIZE ==> (r matches Ok(c) && c.0@ == data@ + Seq::new(
            (COMMAND_BUF_SIZE - data@.len()) as nat,
            |i: int| 0u8,
        ))),
{
    match e {
        GenericWrite::Long { data, .. } => CommandBuf::from_gatt(data),
        GenericWrite::Short(d) => Ok(CommandBuf(d.0)),
    }
}

/// The battery level characteristic: the charge percentage as an unsigned byte.
pub fn battery_level(b: &Battery) -> (level: u8)
    ensures
        level == b.percentage as u8,
{
    b.percentage as u8
}

/// The capacity characteristic: the design capacity, in mAh, as a signed value.
pub fn capacity_value(mah: u16) -> (v: i16)
    ensures
        v == mah as i16,
{
    mah as i16
}

/// The VOC characteristics: the index and the readings left until warm-up, as 16-bit values.
pub fn voc_characteristics(v: &VocData) -> (c: (i16, i16))
    ensures
        c == (v.value as i16, v.readings_until_warmup_complete as i16),
{
    (v.value as i16, v.readings_until_warmup_complete as i16)
}

/// The CO₂ notification: none while no concentration was read (0).
pub fn co2_notification(c: &Co2Data) -> (n: Option<i16>)
    ensures
        c.co2 == 0 ==> n is None,
        c.co2 != 0 ==> n == Some(c.co2),
{
    if c.co2 == 0 {
        None
    } else {
        Some(c.co2)
    }
}

/// The retained VOC flag (1 or 0) and the stored byte for an enable setting.
pub fn sgp40_setting(enabled: bool) -> (r: (u8, [u8; 1]))
    ensures
        r.0 == (if enabled { 1u8 } else { 0u8 }),
        r.1[0] == r.0,
{
    if enabled {
        (1, [1])
    } else {
        (0, [0])
    }
}

/// A request of the attribute protocol, as far as long writes care.
pub enum AttRequest<'a> {
    PrepareWrite { handle: u16, offset: u16, value: &'a [u8] },
    ExecuteWrite,
    Other,
}

impl ConnectionContext {
    /// Handles a request: a prepared write adds its fragment (a refused fragment is dropped);
    /// an execute write hands out the collected bytes and their handle, and the long write
    /// starts afresh.
    pub fn on_request(&mut self, req: &AttRequest) -> (r: Option<(Vec<u8>, u16)>)
        requires
            req is ExecuteWrite ==> old(self).long_write.expected() is Some,
        ensures
            req matches AttRequest::PrepareWrite { handle, offset, value } ==> r is None && (
            final(self).long_write.bytes(),
            final(self).long_write.expected(),
            ) == ({
                let o = crate::long_write::prepare_outcome(
                    old(self).long_write.bytes(),
                    old(self).long_write.expected(),
                    *handle,
                    *offset as usize,
                    value@,
                );
                (o.1, o.2)
            }),
            req is ExecuteWrite ==> (r matches Some((bytes, handle)) && bytes@ == old(self).long_write.bytes()
                && Some(handle) == old(self).long_write.expected() && final(self).long_write.bytes()
                == Seq::<u8>::empty() && final(self).long_write.expected() is None),
            req is Other ==> r is None && final(self).long_write.bytes() == old(self).long_write.bytes()
                && final(self).long_write.expected() == old(self).long_write.expected(),
    {
        match req {
            AttRequest::PrepareWrite { handle, offset, value } => {
                let _ = self.long_write.prepare(*handle, *offset as usize, value);
                None
            },
            AttRequest::ExecuteWrite => {
                let (data, handle) = self.long_write.execute();
                let mut copy: Vec<u8> = Vec::new();
                let mut i: usize = 0;
                while i < data.len()
                    invariant
                        i <= data@.len(),
                        copy@ == data@.subrange(0, i as int),
                    decreases data@.len() - i,
                {
                    copy.push(data[i]);
                    i = i + 1;
                    assert(copy@ =~= data@.subrange(0, i as int));
                }
                assert(data@.subrange(0, data@.len() as int) =~= data@);
                self.long_write.reset();
                Some((copy, handle))
            },
            AttRequest::Other => None,
        }
    }
}

} // verus!
