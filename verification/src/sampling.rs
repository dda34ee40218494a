use vstd::prelude::*;
use crate::power::PowerState;

verus! {

/// Size of one stored measurement, in bytes.
pub const MEAS_SIZE: usize = 22;
/// Number of measurements that the RAM sample buffer holds, and that one stored batch holds
/// at most.
pub const SAMPLES_PER_BUFFER: usize = 160;
/// Size of the RAM sample buffer, in bytes.
pub const SAMPLE_BUFFER_SIZE: usize = 3520;

/// Little-endian bytes of a 32-bit value.
pub open spec fn le_bytes32(x: u32) -> Seq<u8> {
    seq![x as u8, (x >> 8u32) as u8, (x >> 16u32) as u8, (x >> 24u32) as u8]
}

/// Little-endian bytes of a 16-bit value.
pub open spec fn le_bytes16(x: u16) -> Seq<u8> {
    seq![x as u8, (x >> 8u16) as u8]
}

/// The 32-bit value of four little-endian bytes.
pub open spec fn le_value32(s: Seq<u8>) -> u32 {
    (s[0] as u32) | ((s[1] as u32) << 8u32) | ((s[2] as u32) << 16u32) | ((s[3] as u32) << 24u32)
}

/// The 16-bit value of two little-endian bytes.
pub open spec fn le_value16(s: Seq<u8>) -> u16 {
    (s[0] as u16) | ((s[1] as u16) << 8u16)
}

/// One sample of a sampling program. It is stored and sent as 22 bytes: the fields in order,
/// each little-endian, then two reserved bytes, sent as zero.
#[derive(Clone, Copy, Debug, PartialEq, Eq, Structural)]
pub struct Measurement {
    /// 2623 -> 26.23°C
    pub temp_p: i32,
    /// 12345 -> 12.345 Pa
    pub pressure: u32,
    /// 2623 -> 26.23°C
    pub temp_t: i32,
    /// 42 -> 42%
    pub humidity: u16,
    pub co2: i16,
    pub voc: i32,
}

/// The stored form of a measurement.
pub open spec fn measurement_bytes(m: Measurement) -> Seq<u8> {
    le_bytes32(m.temp_p as u32) + le_bytes32(m.pressure) + le_bytes32(m.temp_t as u32) + le_bytes16(
        m.humidity,
    ) + le_bytes16(m.co2 as u16) + le_bytes32(m.voc as u32) + seq![0u8, 0u8]
}

/// The measurement that 22 stored bytes stand for; the reserved bytes are not read.
pub open spec fn measurement_of(s: Seq<u8>) -> Measurement {
    Measurement {
        temp_p: le_value32(s.subrange(0, 4)) as i32,
        pressure: le_value32(s.subrange(4, 8)),
        temp_t: le_value32(s.subrange(8, 12)) as i32,
        humidity: le_value16(s.subrange(12, 14)),
        co2: le_value16(s.subrange(14, 16)) as i16,
        voc: le_value32(s.subrange(16, 20)) as i32,
    }
}

proof fn lemma_le32_roundtrip(x: u32)
    ensures
        le_value32(le_bytes32(x)) == x,
{
    let b0 = x as u8;
    let b1 = (x >> 8u32) as u8;
    let b2 = (x >> 16u32) as u8;
    let b3 = (x >> 24u32) as u8;
    assert(x == (b0 as u32) | ((b1 as u32) << 8u32) | ((b2 as u32) << 16u32) | ((b3 as u32) << 24u32))
        by (bit_vector)
        requires
            b0 == x as u8,
            b1 == (x >> 8u32) as u8,
            b2 == (x >> 16u32) as u8,
            b3 == (x >> 24u32) as u8,
    ;
}

proof fn lemma_le16_roundtrip(x: u16)
    ensures
        le_value16(le_bytes16(x)) == x,
{
    let b0 = x as u8;
    let b1 = (x >> 8u16) as u8;
    assert(x == (b0 as u16) | ((b1 as u16) << 8u16)) by (bit_vector)
        requires
            b0 == x as u8,
            b1 == (x >> 8u16) as u8,
    ;
}

proof fn lemma_le32_bytes_roundtrip(s: Seq<u8>)
    requires
        s.len() == 4,
    ensures
        le_bytes32(le_value32(s)) == s,
{
    let (s0, s1, s2, s3) = (s[0], s[1], s[2], s[3]);
    let x = le_value32(s);
    assert(x as u8 == s0 && (x >> 8u32) as u8 == s1 && (x >> 16u32) as u8 == s2 && (x >> 24u32) as u8 == s3)
        by (bit_vector)
        requires
            x == (s0 as u32) | ((s1 as u32) << 8u32) | ((s2 as u32) << 16u32) | ((s3 as u32) << 24u32),
    ;
    assert(le_bytes32(x) =~= s);
}

proof fn lemma_le16_bytes_roundtrip(s: Seq<u8>)
    requires
        s.len() == 2,
    ensures
        le_bytes16(le_value16(s)) == s,
{
    let (s0, s1) = (s[0], s[1]);
    let x = le_value16(s);
    assert(x as u8 == s0 && (x >> 8u16) as u8 == s1) by (bit_vector)
        requires
            x == (s0 as u16) | ((s1 as u16) << 8u16),
    ;
    assert(le_bytes16(x) =~= s);
}

proof fn lemma_signed_casts(a: i32, b: i16, x: u32, y: u16)
    ensures
        (a as u32) as i32 == a,
        (b as u16) as i16 == b,
        (x as i32) as u32 == x,
        (y as i16) as u16 == y,
{
    assert((a as u32) as i32 == a && (b as u16) as i16 == b && (x as i32) as u32 == x && (y as i16) as u16 == y)
        by (bit_vector);
}

/// Decoding the stored form of a measurement gives the measurement back.
pub proof fn measurement_roundtrip(m: Measurement)
    ensures
        measurement_bytes(m).len() == MEAS_SIZE,
        measurement_of(measurement_bytes(m)) == m,
{
    let s = measurement_bytes(m);
    lemma_le32_roundtrip(m.temp_p as u32);
    lemma_le32_roundtrip(m.pressure);
    lemma_le32_roundtrip(m.temp_t as u32);
    lemma_le16_roundtrip(m.humidity);
    lemma_le16_roundtrip(m.co2 as u16);
    lemma_le32_roundtrip(m.voc as u32);
    lemma_signed_casts(m.temp_p, m.co2, 0, 0);
    lemma_signed_casts(m.temp_t, 0, 0, 0);
    lemma_signed_casts(m.voc, 0, 0, 0);
    assert(s.subrange(0, 4) =~= le_bytes32(m.temp_p as u32));
    assert(s.subrange(4, 8) =~= le_bytes32(m.pressure));
    assert(s.subrange(8, 12) =~= le_bytes32(m.temp_t as u32));
    assert(s.subrange(12, 14) =~= le_bytes16(m.humidity));
    assert(s.subrange(14, 16) =~= le_bytes16(m.co2 as u16));
    assert(s.subrange(16, 20) =~= le_bytes32(m.voc as u32));
}

/// Every 22 bytes whose reserved bytes are zero are the stored form of the measurement they
/// decode to.
pub proof fn measurement_bytes_roundtrip(s: Seq<u8>)
    requires
        s.len() == MEAS_SIZE,
        s[20] == 0,
        s[21] == 0,
    ensures
        measurement_bytes(measurement_of(s)) == s,
{
    let m = measurement_of(s);
    lemma_le32_bytes_roundtrip(s.subrange(0, 4));
    lemma_le32_bytes_roundtrip(s.subrange(4, 8));
    lemma_le32_bytes_roundtrip(s.subrange(8, 12));
    lemma_le16_bytes_roundtrip(s.subrange(12, 14));
    lemma_le16_bytes_roundtrip(s.subrange(14, 16));
    lemma_le32_bytes_roundtrip(s.subrange(16, 20));
    lemma_signed_casts(0, 0, le_value32(s.subrange(0, 4)), le_value16(s.subrange(14, 16)));
    lemma_signed_casts(0, 0, le_value32(s.subrange(8, 12)), 0);
    lemma_signed_casts(0, 0, le_value32(s.subrange(16, 20)), 0);
    assert(measurement_bytes(m) =~= s);
}

fn put_u32(buf: &mut [u8; 22], at: usize, x: u32)
    requires
        at + 4 <= 22,
    ensures
        forall|i: int| 0 <= i < 22 && !(at <= i < at + 4) ==> final(buf)@[i] == old(buf)@[i],
        final(buf)@.subrange(at as int, at + 4) == le_bytes32(x),
{
    buf[at] = x as u8;
    buf[at + 1] = (x >> 8u32) as u8;
    buf[at + 2] = (x >> 16u32) as u8;
    buf[at + 3] = (x >> 24u32) as u8;
    assert(buf@.subrange(at as int, at + 4) =~= le_bytes32(x));
}

fn put_u16(buf: &mut [u8; 22], at: usize, x: u16)
    requires
        at + 2 <= 22,
    ensures
        forall|i: int| 0 <= i < 22 && !(at <= i < at + 2) ==> final(buf)@[i] == old(buf)@[i],
        final(buf)@.subrange(at as int, at + 2) == le_bytes16(x),
{
    buf[at] = x as u8;
    buf[at + 1] = (x >> 8u16) as u8;
    assert(buf@.subrange(at as int, at + 2) =~= le_bytes16(x));
}

fn get_u32(s: &[u8], at: usize) -> (x: u32)
    requires
        at + 4 <= s@.len(),
    ensures
        x == le_value32(s@.subrange(at as int, at + 4)),
{
    (s[at] as u32) | ((s[at + 1] as u32) << 8u32) | ((s[at + 2] as u32) << 16u32) | ((s[at + 3] as u32)
        << 24u32)
}

fn get_u16(s: &[u8], at: usize) -> (x: u16)
    requires
        at + 2 <= s@.len(),
    ensures
        x == le_value16(s@.subrange(at as int, at + 2)),
{
    (s[at] as u16) | ((s[at + 1] as u16) << 8u16)
}

impl Measurement {
    pub fn new(
        temp_p: i32,
        pressure: u32,
        temp_t: i32,
        humidity: u16,
        co2: i16,
        voc: i32,
    ) -> (m: Self)
        ensures
            m == (Measurement { temp_p, pressure, temp_t, humidity, co2, voc }),
    {
        Measurement { temp_p, pressure, temp_t, humidity, co2, voc }
    }

    /// A measurement from a reading already scaled to integers: the temperature in hundredths
    /// of a degree (stored twice), the pressure in thousandths of a kPa and the humidity in
    /// percent.
    pub fn from_reading(
        temperature_centi: i32,
        pressure_milli: u32,
        humidity: u16,
        co2: i16,
        voc: i32,
    ) -> (m: Self)
        ensures
            m == (Measurement {
                temp_p: temperature_centi,
                pressure: pressure_milli,
                temp_t: temperature_centi,
                humidity,
                co2,
                voc,
            }),
    {
        Measurement {
            temp_p: temperature_centi,
            pressure: pressure_milli,
            temp_t: temperature_centi,
            humidity,
            co2,
            voc,
        }
    }

    /// The stored form: 22 bytes.
    pub fn to_bytes(&self) -> (b: [u8; 22])
        ensures
            b@ == measurement_bytes(*self),
    {
        let mut b = [0u8; 22];
        put_u32(&mut b, 0, self.temp_p as u32);
        put_u32(&mut b, 4, self.pressure);
        put_u32(&mut b, 8, self.temp_t as u32);
        put_u16(&mut b, 12, self.humidity);
        put_u16(&mut b, 14, self.co2 as u16);
        put_u32(&mut b, 16, self.voc as u32);
        assert(b@.subrange(20, 22) =~= seq![0u8, 0u8]);
        assert(b@ =~= b@.subrange(0, 4) + b@.subrange(4, 8) + b@.subrange(8, 12) + b@.subrange(12, 14)
            + b@.subrange(14, 16) + b@.subrange(16, 20) + b@.subrange(20, 22));
        b
    }

    /// The measurement stored in `bytes[at..at + 22]`.
    pub fn from_bytes(bytes: &[u8], at: usize) -> (m: Self)
        requires
            at + MEAS_SIZE <= bytes@.len(),
        ensures
            m == measurement_of(bytes@.subrange(at as int, at + MEAS_SIZE)),
    {
        let ghost s = bytes@.subrange(at as int, at + MEAS_SIZE);
        let len = bytes.len();
        assert(at + MEAS_SIZE <= len);
        let temp_p = get_u32(bytes, at);
        let pressure = get_u32(bytes, at + 4);
        let temp_t = get_u32(bytes, at + 8);
        let humidity = get_u16(bytes, at + 12);
        let co2 = get_u16(bytes, at + 14);
        let voc = get_u32(bytes, at + 16);
        proof {
            assert(s.subrange(0, 4) =~= bytes@.subrange(at as int, at + 4));
            assert(s.subrange(4, 8) =~= bytes@.subrange(at + 4, at + 8));
            assert(s.subrange(8, 12) =~= bytes@.subrange(at + 8, at + 12));
            assert(s.subrange(12, 14) =~= bytes@.subrange(at + 12, at + 14));
            assert(s.subrange(14, 16) =~= bytes@.subrange(at + 14, at + 16));
            assert(s.subrange(16, 20) =~= bytes@.subrange(at + 16, at + 20));
        }
        Measurement {
            temp_p: temp_p as i32,
            pressure,
            temp_t: temp_t as i32,
            humidity,
            co2: co2 as i16,
            voc: voc as i32,
        }
    }
}

} // verus!

verus! {

/// The stored form of a sequence of measurements, one after the other.
pub open spec fn measurements_bytes(ms: Seq<Measurement>) -> Seq<u8>
    decreases ms.len(),
{
    if ms.len() == 0 {
        Seq::empty()
    } else {
        measurements_bytes(ms.drop_last()) + measurement_bytes(ms.last())
    }
}

/// The stored form of a batch: the number of measurements (16 bits, little-endian), then the
/// measurements.
pub open spec fn batch_bytes(ms: Seq<Measurement>) -> Seq<u8> {
    le_bytes16(ms.len() as u16) + measurements_bytes(ms)
}

/// The measurement that starts at byte `2 + 22 i` of a stored batch.
pub open spec fn batch_entry(d: Seq<u8>, i: int) -> Measurement {
    measurement_of(d.subrange(2 + MEAS_SIZE * i, 2 + MEAS_SIZE * i + MEAS_SIZE))
}

/// The stored form of measurements laid end to end holds measurement `i` at bytes
/// `22 i .. 22 i + 22`.
pub proof fn lemma_measurements_bytes(ms: Seq<Measurement>)
    ensures
        measurements_bytes(ms).len() == MEAS_SIZE * ms.len(),
        forall|i: int|
            0 <= i < ms.len() ==> #[trigger] measurements_bytes(ms).subrange(
                MEAS_SIZE * i,
                MEAS_SIZE * i + MEAS_SIZE,
            ) == measurement_bytes(ms[i]),
    decreases ms.len(),
{
    if ms.len() > 0 {
        let init = ms.drop_last();
        lemma_measurements_bytes(init);
        measurement_roundtrip(ms.last());
        let s = measurements_bytes(ms);
        assert forall|i: int| 0 <= i < ms.len() implies #[trigger] s.subrange(
            MEAS_SIZE * i,
            MEAS_SIZE * i + MEAS_SIZE,
        ) == measurement_bytes(ms[i]) by {
            if i < ms.len() - 1 {
                assert(s.subrange(MEAS_SIZE * i, MEAS_SIZE * i + MEAS_SIZE) =~= measurements_bytes(
                    init,
                ).subrange(MEAS_SIZE * i, MEAS_SIZE * i + MEAS_SIZE));
                assert(init[i] == ms[i]);
            } else {
                assert(s.subrange(MEAS_SIZE * i, MEAS_SIZE * i + MEAS_SIZE) =~= measurement_bytes(
                    ms.last(),
                ));
            }
        }
    }
}

/// Encodes a batch of at most `SAMPLES_PER_BUFFER` measurements.
pub fn encode_batch(ms: &[Measurement]) -> (d: Vec<u8>)
    requires
        ms@.len() <= SAMPLES_PER_BUFFER,
    ensures
        d@ == batch_bytes(ms@),
{
    let mut d: Vec<u8> = Vec::new();
    let count = ms.len() as u16;
    d.push(count as u8);
    d.push((count >> 8u16) as u8);
    assert(d@ =~= le_bytes16(ms@.len() as u16));
    let mut i: usize = 0;
    while i < ms.len()
        invariant
            i <= ms@.len(),
            d@ == le_bytes16(ms@.len() as u16) + measurements_bytes(ms@.subrange(0, i as int)),
        decreases ms@.len() - i,
    {
        let b = ms[i].to_bytes();
        let ghost before = d@;
        let mut j: usize = 0;
        while j < MEAS_SIZE
            invariant
                j <= MEAS_SIZE,
                b@.len() == MEAS_SIZE,
                d@ == before + b@.subrange(0, j as int),
            decreases MEAS_SIZE - j,
        {
            d.push(b[j]);
            j = j + 1;
            assert(d@ =~= before + b@.subrange(0, j as int));
        }
        proof {
            assert(ms@.subrange(0, i + 1).drop_last() =~= ms@.subrange(0, i as int));
            assert(b@.subrange(0, MEAS_SIZE as int) =~= b@);
            assert(d@ =~= le_bytes16(ms@.len() as u16) + measurements_bytes(ms@.subrange(0, i + 1)));
        }
        i = i + 1;
    }
    assert(ms@.subrange(0, ms@.len() as int) =~= ms@);
    d
}

/// Decodes a stored batch: the count, then that many measurements.
pub fn decode_batch(d: &[u8]) -> (ms: Vec<Measurement>)
    requires
        d@.len() >= 2,
        le_value16(d@.subrange(0, 2)) <= SAMPLES_PER_BUFFER,
        2 + MEAS_SIZE * le_value16(d@.subrange(0, 2)) <= d@.len(),
    ensures
        ms@.len() == le_value16(d@.subrange(0, 2)),
        forall|i: int| 0 <= i < ms@.len() ==> #[trigger] ms@[i] == batch_entry(d@, i),
{
    let count = get_u16(d, 0) as usize;
    let mut ms: Vec<Measurement> = Vec::new();
    let mut i: usize = 0;
    while i < count
        invariant
            count == le_value16(d@.subrange(0, 2)),
            count <= SAMPLES_PER_BUFFER,
            2 + MEAS_SIZE * count <= d@.len(),
            i <= count,
            ms@.len() == i,
            forall|k: int| 0 <= k < i ==> #[trigger] ms@[k] == batch_entry(d@, k),
        decreases count - i,
    {
        let start = 2 + i * MEAS_SIZE;
        let m = Measurement::from_bytes(d, start);
        ms.push(m);
        i = i + 1;
    }
    ms
}

/// Decoding an encoded batch gives the measurements back, in order.
pub proof fn batch_roundtrip(ms: Seq<Measurement>)
    requires
        ms.len() <= SAMPLES_PER_BUFFER,
    ensures
        ({
            let d = batch_bytes(ms);
            &&& d.len() == 2 + MEAS_SIZE * ms.len()
            &&& le_value16(d.subrange(0, 2)) == ms.len()
            &&& forall|i: int| 0 <= i < ms.len() ==> #[trigger] batch_entry(d, i) == ms[i]
        }),
{
    let d = batch_bytes(ms);
    lemma_measurements_bytes(ms);
    lemma_le16_roundtrip(ms.len() as u16);
    assert(d.subrange(0, 2) =~= le_bytes16(ms.len() as u16));
    assert forall|i: int| 0 <= i < ms.len() implies #[trigger] batch_entry(d, i) == ms[i] by {
        assert(d.subrange(2 + MEAS_SIZE * i, 2 + MEAS_SIZE * i + MEAS_SIZE) =~= measurements_bytes(
            ms,
        ).subrange(MEAS_SIZE * i, MEAS_SIZE * i + MEAS_SIZE));
        measurement_roundtrip(ms[i]);
    }
}

} // verus!

verus! {

/// The retained RAM buffer that holds the samples of the current batch, 22 bytes each.
pub struct SampleBuffer {
    bytes: [u8; 3520],
}

/// The measurement held in slot `i` of a buffer's bytes.
pub open spec fn slot_of(bytes: Seq<u8>, i: int) -> Measurement {
    measurement_of(bytes.subrange(MEAS_SIZE * i, MEAS_SIZE * i + MEAS_SIZE))
}

impl SampleBuffer {
    /// The buffer's bytes.
    pub closed spec fn view_bytes(&self) -> Seq<u8> {
        self.bytes@
    }

    /// The measurement held in slot `i`.
    pub open spec fn slot(&self, i: int) -> Measurement {
        slot_of(self.view_bytes(), i)
    }

    /// An all-zero buffer.
    pub fn new() -> (b: Self)
        ensures
            b.view_bytes() == Seq::new(SAMPLE_BUFFER_SIZE as nat, |i: int| 0u8),
    {
        let b = SampleBuffer { bytes: [0u8; 3520] };
        assert(b.bytes@ =~= Seq::new(SAMPLE_BUFFER_SIZE as nat, |i: int| 0u8));
        b
    }

    /// Zeroes the buffer.
    pub fn clear(&mut self)
        ensures
            final(self).view_bytes() == Seq::new(SAMPLE_BUFFER_SIZE as nat, |i: int| 0u8),
    {
        self.bytes = [0u8; 3520];
        assert(self.bytes@ =~= Seq::new(SAMPLE_BUFFER_SIZE as nat, |i: int| 0u8));
    }

    /// Stores `m` as sample number `count` (counting from 1) of the program, in slot
    /// `(count - 1) % 160`.
    pub fn push_to_ram(&mut self, m: Measurement, count: usize)
        requires
            count >= 1,
        ensures
            final(self).view_bytes().len() == SAMPLE_BUFFER_SIZE,
            final(self).slot((count - 1) as int % SAMPLES_PER_BUFFER as int) == m,
            forall|j: int|
                0 <= j < SAMPLES_PER_BUFFER && j != (count - 1) as int % SAMPLES_PER_BUFFER as int
                    ==> #[trigger] final(self).slot(j) == old(self).slot(j),
    {
        let index = (count - 1) % SAMPLES_PER_BUFFER;
        let offset = index * MEAS_SIZE;
        let b = m.to_bytes();
        let mut k: usize = 0;
        while k < MEAS_SIZE
            invariant
                index < SAMPLES_PER_BUFFER,
                offset == index * MEAS_SIZE,
                k <= MEAS_SIZE,
                b@ == measurement_bytes(m),
                forall|x: int|
                    0 <= x < SAMPLE_BUFFER_SIZE && !(offset <= x < offset + k) ==> #[trigger] self.bytes@[x]
                        == old(self).bytes@[x],
                forall|x: int| 0 <= x < k ==> #[trigger] self.bytes@[offset + x] == b@[x],
            decreases MEAS_SIZE - k,
        {
            self.bytes[offset + k] = b[k];
            k = k + 1;
        }
        proof {
            measurement_roundtrip(m);
            assert forall|x: int| 0 <= x < MEAS_SIZE implies #[trigger] self.bytes@.subrange(
                offset as int,
                offset + MEAS_SIZE,
            )[x] == b@[x] by {
                assert(self.bytes@[offset + x] == b@[x]);
            }
            assert(self.bytes@.subrange(offset as int, offset + MEAS_SIZE) =~= measurement_bytes(m));
            assert forall|j: int|
                0 <= j < SAMPLES_PER_BUFFER && j != index as int implies #[trigger] slot_of(self.bytes@, j)
                == slot_of(old(self).bytes@, j) by {
                if j < index {
                    assert(MEAS_SIZE * j + MEAS_SIZE <= offset) by (nonlinear_arith)
                        requires
                            j < index,
                            offset == index * MEAS_SIZE,
                    ;
                } else {
                    assert(MEAS_SIZE * j >= offset + MEAS_SIZE) by (nonlinear_arith)
                        requires
                            j > index,
                            offset == index * MEAS_SIZE,
                    ;
                }
                assert(MEAS_SIZE * j + MEAS_SIZE <= SAMPLE_BUFFER_SIZE) by (nonlinear_arith)
                    requires
                        j < SAMPLES_PER_BUFFER,
                ;
                assert(self.bytes@.subrange(MEAS_SIZE * j, MEAS_SIZE * j + MEAS_SIZE) =~= old(
                    self,
                ).bytes@.subrange(MEAS_SIZE * j, MEAS_SIZE * j + MEAS_SIZE));
            }
        }
    }

    /// The measurement held in slot `idx`.
    pub fn read_measurement(&self, idx: usize) -> (m: Measurement)
        requires
            idx < SAMPLES_PER_BUFFER,
        ensures
            m == self.slot(idx as int),
    {
        let offset = idx * MEAS_SIZE;
        Measurement::from_bytes(&self.bytes, offset)
    }

    /// The measurements of the first `count` slots.
    pub fn collect(&self, count: usize) -> (ms: Vec<Measurement>)
        requires
            count <= SAMPLES_PER_BUFFER,
        ensures
            ms@.len() == count,
            forall|i: int| 0 <= i < count ==> #[trigger] ms@[i] == self.slot(i),
    {
        let mut ms: Vec<Measurement> = Vec::new();
        let mut i: usize = 0;
        while i < count
            invariant
                count <= SAMPLES_PER_BUFFER,
                i <= count,
                ms@.len() == i,
                forall|k: int| 0 <= k < i ==> #[trigger] ms@[k] == self.slot(k),
            decreases count - i,
        {
            ms.push(self.read_measurement(i));
            i = i + 1;
        }
        ms
    }
}

} // verus!

verus! {

/// Decimal digits of `n`, as ASCII bytes, most significant first.
pub open spec fn decimal(n: nat) -> Seq<u8>
    decreases n,
{
    if n < 10 {
        seq![(48 + n) as u8]
    } else {
        decimal(n / 10).push((48 + n % 10) as u8)
    }
}

/// The storage key of batch `index`: `sample_` followed by the index in decimal.
pub open spec fn batch_key_bytes(index: nat) -> Seq<u8> {
    seq![115u8, 97u8, 109u8, 112u8, 108u8, 101u8, 95u8] + decimal(index)
}

fn push_decimal(v: &mut Vec<u8>, n: u16)
    ensures
        final(v)@ == old(v)@ + decimal(n as nat),
    decreases n,
{
    if n >= 10 {
        push_decimal(v, n / 10);
    }
    v.push(48 + (n % 10) as u8);
    proof {
        if n < 10 {
            assert(decimal(n as nat) =~= seq![(48 + n) as u8]);
        } else {
            assert(decimal(n as nat) == decimal((n / 10) as nat).push((48 + n % 10) as u8));
        }
    }
}

/// The storage key of batch `index`, as bytes.
pub fn batch_key(index: u16) -> (key: Vec<u8>)
    ensures
        key@ == batch_key_bytes(index as nat),
{
    let mut key: Vec<u8> = Vec::new();
    key.push(115);
    key.push(97);
    key.push(109);
    key.push(112);
    key.push(108);
    key.push(101);
    key.push(95);
    push_decimal(&mut key, index);
    key
}

/// State of a sampling program, kept in retained memory across deep sleeps.
pub struct SamplingSession {
    pub samples_requested: i16,
    pub samples_taken: i16,
    pub sample_every_seconds: i16,
    /// Milliseconds since power-up at the last CO₂ sample; 0 when there was none.
    pub last_co2_sample: u64,
    /// Milliseconds since power-up at the first sample of the program.
    pub first_measurement_ts: u64,
    pub power_state: PowerState,
    /// Set when the last batch still has to be moved to storage.
    pub needs_samples_written: bool,
}

/// Milliseconds to sleep before the next sample: the sampling interval less the time this
/// wake-up took, or 10 ms when that time exceeds the interval. The interval is the stored
/// number of seconds taken as an unsigned 64-bit number; the result keeps the low 64 bits.
pub open spec fn sample_wait_ms(every_seconds: i16, elapsed_ms: u64) -> u64 {
    let interval = (every_seconds as u64) as int * 1000;
    if interval >= elapsed_ms {
        ((interval - elapsed_ms) % 0x1_0000_0000_0000_0000) as u64
    } else {
        10
    }
}

/// The buffer slot of the sample counted as number `taken`: `(taken - 1) % 160`, the count
/// taken as a `usize`; for a count of at least 1 that is `(taken - 1) % 160`.
pub open spec fn sample_slot(taken: i16) -> int {
    ((taken as usize) - 1) % (SAMPLES_PER_BUFFER as int)
}

impl SamplingSession {
    /// The state at power-up: nothing requested or taken, the CO₂ sensor sampled every 600 s
    /// and no program running.
    pub fn new() -> (s: Self)
        ensures
            s.samples_requested == 0,
            s.samples_taken == 0,
            s.sample_every_seconds == 0,
            s.last_co2_sample == 0,
            s.first_measurement_ts == 0,
            s.power_state == PowerState::DeepSleep,
            !s.needs_samples_written,
    {
        SamplingSession {
            samples_requested: 0,
            samples_taken: 0,
            sample_every_seconds: 0,
            last_co2_sample: 0,
            first_measurement_ts: 0,
            power_state: PowerState::DeepSleep,
            needs_samples_written: false,
        }
    }

    /// Starts a program of `samples` samples, one every `every_x_seconds` seconds.
    pub fn start_program(&mut self, every_x_seconds: i16, samples: i16)
        ensures
            final(self).samples_taken == 0,
            final(self).samples_requested == samples,
            final(self).sample_every_seconds == every_x_seconds,
            final(self).power_state == PowerState::SampleMode,
            final(self).last_co2_sample == old(self).last_co2_sample,
            final(self).first_measurement_ts == old(self).first_measurement_ts,
            final(self).needs_samples_written == old(self).needs_samples_written,
    {
        self.samples_taken = 0;
        self.samples_requested = samples;
        self.sample_every_seconds = every_x_seconds;
        self.power_state = PowerState::SampleMode;
    }

    /// At a sampling wake-up `now_ms` milliseconds after power-up: whether the CO₂ sensor is
    /// sampled this time (never less than 5 s after the last time) and the offset of this
    /// sample from the first one of the program, which is this one when none was taken yet.
    pub fn begin_sample(&mut self, now_ms: u64) -> (r: (bool, u32))
        requires
            old(self).samples_taken != 0 ==> now_ms >= old(self).first_measurement_ts,
        ensures
            r.0 == (old(self).last_co2_sample == 0 || now_ms - old(self).last_co2_sample >= 5000),
            final(self).last_co2_sample == (if r.0 { now_ms } else { old(self).last_co2_sample }),
            final(self).first_measurement_ts == (if old(self).samples_taken == 0 {
                now_ms
            } else {
                old(self).first_measurement_ts
            }),
            r.1 == (now_ms - final(self).first_measurement_ts) % 0x1_0000_0000,
            final(self).samples_taken == old(self).samples_taken,
            final(self).samples_requested == old(self).samples_requested,
            final(self).sample_every_seconds == old(self).sample_every_seconds,
            final(self).power_state == old(self).power_state,
            final(self).needs_samples_written == old(self).needs_samples_written,
    {
        let last_raw = self.last_co2_sample;
        let measure_co2 = if last_raw != 0 {
            now_ms.saturating_sub(last_raw) >= 5000
        } else {
            true  // uninitialized
        };
        if measure_co2 {
            self.last_co2_sample = now_ms;
        }
        if self.samples_taken == 0 {
            self.first_measurement_ts = now_ms;
        }
        let span = now_ms - self.first_measurement_ts;
        let time_offset = span as u32;
        assert(time_offset == span % 0x1_0000_0000) by (bit_vector)
            requires
                time_offset == span as u32,
        ;
        (measure_co2, time_offset)
    }

    /// Counts the sample `m` as taken and keeps it in the RAM buffer; the result says whether
    /// the buffer is now full and has to be moved to storage.
    pub fn save(&mut self, buffer: &mut SampleBuffer, m: Measurement) -> (aggregate: bool)
        requires
            old(self).samples_taken < i16::MAX,
            old(self).samples_taken != -1,
        ensures
            final(self).samples_taken == old(self).samples_taken + 1,
            final(self).samples_requested == old(self).samples_requested,
            final(self).sample_every_seconds == old(self).sample_every_seconds,
            final(self).last_co2_sample == old(self).last_co2_sample,
            final(self).first_measurement_ts == old(self).first_measurement_ts,
            final(self).power_state == old(self).power_state,
            final(self).needs_samples_written == old(self).needs_samples_written,
            aggregate == ((final(self).samples_taken as int) % (SAMPLES_PER_BUFFER as int) == 0),
            final(buffer).slot(sample_slot(final(self).samples_taken)) == m,
            forall|j: int|
                0 <= j < SAMPLES_PER_BUFFER && j != sample_slot(final(self).samples_taken)
                    ==> #[trigger] final(buffer).slot(j) == old(buffer).slot(j),
    {
        self.samples_taken = self.samples_taken + 1;
        let taken = self.samples_taken;
        assert(taken as usize >= 1) by (bit_vector)
            requires
                taken != 0,
        ;
        buffer.push_to_ram(m, taken as usize);
        self.samples_taken % (SAMPLES_PER_BUFFER as i16) == 0
    }

    /// After a sample was saved, `elapsed_ms` after the wake-up: when all requested samples
    /// are taken, the program ends (Bluetooth mode next, last batch to be stored) and the device
    /// wakes again after 20 ms; otherwise it sleeps until the next sample is due.
    pub fn finish_sample(&mut self, elapsed_ms: u64) -> (wake_in_ms: u64)
        ensures
            old(self).samples_taken >= old(self).samples_requested ==> {
                &&& wake_in_ms == 20
                &&& final(self).power_state == PowerState::BluetoothMode
                &&& final(self).needs_samples_written
            },
            old(self).samples_taken < old(self).samples_requested ==> {
                &&& wake_in_ms == sample_wait_ms(old(self).sample_every_seconds, elapsed_ms)
                &&& final(self).power_state == old(self).power_state
                &&& final(self).needs_samples_written == old(self).needs_samples_written
            },
            final(self).samples_taken == old(self).samples_taken,
            final(self).samples_requested == old(self).samples_requested,
            final(self).sample_every_seconds == old(self).sample_every_seconds,
            final(self).last_co2_sample == old(self).last_co2_sample,
            final(self).first_measurement_ts == old(self).first_measurement_ts,
    {
        if self.samples_taken >= self.samples_requested {
            self.power_state = PowerState::BluetoothMode;
            self.needs_samples_written = true;
            20
        } else {
            let interval: u128 = (self.sample_every_seconds as u64) as u128 * 1000;
            let elapsed = elapsed_ms as u128;
            if interval >= elapsed {
                let rest = interval - elapsed;
                let w = rest as u64;
                assert(w == rest % 0x1_0000_0000_0000_0000) by (bit_vector)
                    requires
                        w == rest as u64,
                ;
                w
            } else {
                10
            }
        }
    }

    /// Number of the batch that the samples in the RAM buffer belong to.
    pub fn batch_index(&self) -> (index: u16)
        requires
            self.samples_taken >= 0,
        ensures
            index == (if self.samples_taken == 0 { 0 } else { (self.samples_taken - 1) / SAMPLES_PER_BUFFER as int }),
    {
        if self.samples_taken == 0 {
            0
        } else {
            ((self.samples_taken - 1) / (SAMPLES_PER_BUFFER as i16)) as u16
        }
    }

    /// The storage record of the samples in the RAM buffer: the key of their batch, and the
    /// encoded batch of the first `min(taken, 160)` slots.
    pub fn stored_batch(&self, buffer: &SampleBuffer) -> (record: (Vec<u8>, Vec<u8>))
        requires
            self.samples_taken >= 0,
        ensures
            record.0@ == batch_key_bytes(
                (if self.samples_taken == 0 { 0 } else { (self.samples_taken - 1) / SAMPLES_PER_BUFFER as int }) as nat,
            ),
            ({
                let count = if self.samples_taken < SAMPLES_PER_BUFFER { self.samples_taken as int } else { SAMPLES_PER_BUFFER as int };
                record.1@ == batch_bytes(Seq::new(count as nat, |i: int| buffer.slot(i)))
            }),
    {
        let count_to_copy = if self.samples_taken < SAMPLES_PER_BUFFER as i16 {
            self.samples_taken as usize
        } else {
            SAMPLES_PER_BUFFER
        };
        let ms = buffer.collect(count_to_copy);
        let index = self.batch_index();
        let key = batch_key(index);
        let value = encode_batch(ms.as_slice());
        assert(ms@ =~= Seq::new(count_to_copy as nat, |i: int| buffer.slot(i)));
        (key, value)
    }
}

/// Number of stored batches that a program of `requested` samples fills.
pub fn batch_count(requested: i16) -> (n: i16)
    requires
        requested >= 0,
    ensures
        n == (requested + SAMPLES_PER_BUFFER as int - 1) / SAMPLES_PER_BUFFER as int,
{
    let r = requested as i32;
    ((r + 159) / 160) as i16
}

/// Number of notifications (of up to ten samples each) that a program of `requested` samples
/// takes.
pub fn notifications_needed(requested: i16) -> (n: usize)
    requires
        requested >= 0,
    ensures
        n == (requested + 9) / 10,
{
    let r = requested as i32;
    ((r + 9) / 10) as usize
}

/// The sample ranges `[start, end)` of one stored batch of `data_len` samples to notify,
/// ten at a time from its start, when `needed` notifications are due in all and `done` were
/// sent already: as many as the batch fills, but no more than are still due.
pub open spec fn notification_ranges(needed: nat, done: nat, data_len: nat) -> Seq<(usize, usize)> {
    let due: int = if done >= needed { 0 } else { needed - done };
    let fill: int = ((data_len + 9) / 10) as int;
    let k: int = if fill < due { fill } else { due };
    Seq::new(k as nat, |n: int| ((10 * n) as usize, (if 10 * n + 10 <= data_len { 10 * n + 10 } else { data_len as int }) as usize))
}

/// The ranges of samples of one stored batch to notify, ten at a time, when `needed`
/// notifications are due in all and `done` were sent already.
pub fn chunk_notifications(needed: usize, done: usize, data_len: usize) -> (ranges: Vec<(usize, usize)>)
    ensures
        ranges@ == notification_ranges(needed as nat, done as nat, data_len as nat),
        forall|i: int| 0 <= i < ranges@.len() ==> #[trigger] ranges@[i].0 < ranges@[i].1 <= data_len,
{
    let mut ranges: Vec<(usize, usize)> = Vec::new();
    let mut notify_done = done;
    let fill = data_len / 10 + if data_len % 10 != 0 { 1 } else { 0 };
    assert(fill == (data_len + 9) / 10);
    let mut n: usize = 0;
    let ghost due: int = if done >= needed { 0 } else { needed - done };
    let ghost k: int = if fill < due { fill as int } else { due };
    while n < fill && notify_done < needed
        invariant
            fill == (data_len + 9) / 10,
            due == (if done >= needed { 0 } else { needed - done }),
            k == (if fill < due { fill as int } else { due }),
            n <= k,
            notify_done == done + n,
            ranges@.len() == n,
            forall|i: int| 0 <= i < n ==> #[trigger] ranges@[i] == notification_ranges(needed as nat, done as nat, data_len as nat)[i],
        decreases fill - n,
    {
        let start = n * 10;
        let end = if data_len >= 10 && start <= data_len - 10 {
            start + 10
        } else {
            data_len
        };
        ranges.push((start, end));
        notify_done = notify_done + 1;
        n = n + 1;
    }
    assert(ranges@ =~= notification_ranges(needed as nat, done as nat, data_len as nat));
    ranges
}

} // verus!

verus! {

/// Number of samples in stored batch `b` of a program of `requested` samples.
pub open spec fn batch_len(requested: nat, b: nat) -> nat {
    if requested >= 160 * b + 160 {
        160
    } else {
        (requested - 160 * b) as nat
    }
}

/// Every batch of a program is notified whole: when the batches are read out in order, each
/// after the sixteen notifications of every full batch before it, the notifications of batch
/// `b` take its samples in order, ten at a time, without gap or overlap, and the last batch's
/// last notification is the last one due.
pub proof fn notifications_cover_program(requested: nat, b: nat)
    requires
        1 <= requested,
        160 * b < requested,
    ensures
        ({
            let needed = ((requested + 9) / 10) as nat;
            let len = batch_len(requested, b);
            let r = notification_ranges(needed, 16 * b, len);
            &&& 1 <= len <= SAMPLES_PER_BUFFER
            &&& r.len() == (len + 9) / 10
            &&& r[0].0 == 0
            &&& r[r.len() - 1].1 == len
            &&& forall|n: int| 0 <= n < r.len() - 1 ==> #[trigger] r[n].1 == r[n + 1].0
            &&& forall|n: int| 0 <= n < r.len() ==> 1 <= #[trigger] r[n].1 - r[n].0 <= 10
            &&& requested <= 160 * b + 160 ==> 16 * b + r.len() == needed
        }),
{
    let needed = ((requested + 9) / 10) as nat;
    let len = batch_len(requested, b);
    let m = (requested - 160 * b) as nat;
    assert(needed == 16 * b + (m + 9) / 10) by (nonlinear_arith)
        requires
            needed == (requested + 9) / 10,
            m == requested - 160 * b,
            m >= 1,
    ;
    assert((len + 9) / 10 <= (m + 9) / 10) by (nonlinear_arith)
        requires
            len <= m,
    ;
    let r = notification_ranges(needed, 16 * b, len);
    let k = (len + 9) / 10;
    assert(r.len() == k);
    assert(10 * (k - 1) < len <= 10 * k);
    assert forall|n: int| 0 <= n < r.len() implies 1 <= #[trigger] r[n].1 - r[n].0 <= 10 by {
        assert(10 * n < len);
    }
}

proof fn lemma_decimal_len(n: nat)
    ensures
        decimal(n).len() >= 1,
        n < 10 <==> decimal(n).len() == 1,
    decreases n,
{
    if n >= 10 {
        lemma_decimal_len(n / 10);
    }
}

/// Distinct batches are stored under distinct keys.
pub proof fn batch_keys_distinct(a: nat, b: nat)
    requires
        a != b,
    ensures
        batch_key_bytes(a) != batch_key_bytes(b),
{
    let pa = batch_key_bytes(a);
    let pb = batch_key_bytes(b);
    if pa == pb {
        assert(decimal(a) =~= pa.subrange(7, pa.len() as int));
        assert(decimal(b) =~= pb.subrange(7, pb.len() as int));
        lemma_decimal_distinct(a, b);
    }
}

proof fn lemma_decimal_distinct(a: nat, b: nat)
    requires
        a != b,
    ensures
        decimal(a) != decimal(b),
    decreases a + b,
{
    lemma_decimal_len(a);
    lemma_decimal_len(b);
    if a < 10 && b < 10 {
        assert(decimal(a)[0] != decimal(b)[0]);
    } else if a < 10 || b < 10 {
        assert(decimal(a).len() != decimal(b).len());
    } else {
        if decimal(a) == decimal(b) {
            assert(decimal(a).last() == decimal(b).last());
            assert(a % 10 == b % 10);
            assert(decimal(a / 10) =~= decimal(a).drop_last());
            assert(decimal(b / 10) =~= decimal(b).drop_last());
            assert(a / 10 != b / 10);
            lemma_decimal_distinct(a / 10, b / 10);
        }
    }
}


/// Between two samples of a program, the device sleeps for what is left of the sampling
/// interval after the wake-up's own work, so the next sample comes one interval after this
/// wake-up; when the work took longer than the interval, it sleeps only 10 ms.
pub proof fn samples_come_an_interval_apart(every_seconds: i16, elapsed_ms: u64)
    ensures
        0 <= every_seconds && elapsed_ms <= every_seconds * 1000 ==> elapsed_ms + sample_wait_ms(
            every_seconds,
            elapsed_ms,
        ) == every_seconds * 1000,
        0 <= every_seconds && elapsed_ms > every_seconds * 1000 ==> sample_wait_ms(every_seconds, elapsed_ms) == 10,
{
    if 0 <= every_seconds {
        assert((every_seconds as u64) as int == every_seconds as int) by (bit_vector)
            requires
                0 <= every_seconds,
        ;
    }
}

} // verus!
