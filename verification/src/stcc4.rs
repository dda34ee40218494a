use vstd::prelude::*;

verus! {

/// CRC-8 start value of the Sensirion word checksum.
pub const CRC8_INIT: u8 = 0xFF;
/// CRC-8 polynomial x⁸ + x⁵ + x⁴ + 1 of the Sensirion word checksum.
pub const CRC8_POLYNOMIAL: u8 = 0x31;

pub const START_CONTINUOUS: u16 = 0x218B;
pub const STOP_CONTINUOUS: u16 = 0x3F86;
pub const READ_MEAS_RAW: u16 = 0xEC05;
pub const SINGLE_SHOT: u16 = 0x219D;
pub const PRODUCT_ID: u16 = 0x365B;
pub const SELF_TEST: u16 = 0x278C;

#[derive(Debug)]
pub enum Error<E> {
    /// I²C bus error
    I2C(E),
    Crc,
}

impl<E> From<E> for Error<E> {
    fn from(other: E) -> (r: Self) {
        Error::I2C(other)
    }
}

impl<E> vstd::std_specs::convert::FromSpecImpl<E> for Error<E> {
    open spec fn obeys_from_spec() -> bool {
        true
    }

    open spec fn from_spec(v: E) -> Self {
        Error::I2C(v)
    }
}

/// One step of the bitwise CRC: shift left by one and, when the bit shifted out was set,
/// reduce by the polynomial.
pub open spec fn crc_shift(crc: u8) -> u8 {
    if crc >= 0x80 {
        ((crc * 2) % 256 as int) as u8 ^ CRC8_POLYNOMIAL
    } else {
        (crc * 2) as u8
    }
}

/// `crc` after `k` shift steps.
pub open spec fn crc_shifts(crc: u8, k: nat) -> u8
    decreases k,
{
    if k == 0 {
        crc
    } else {
        crc_shifts(crc_shift(crc), (k - 1) as nat)
    }
}

/// The CRC register after `byte` has been fed into it.
pub open spec fn crc_feed(crc: u8, byte: u8) -> u8 {
    crc_shifts(crc ^ byte, 8)
}

/// The Sensirion CRC-8 of `data`: the bytes are fed in order into a register that starts at
/// `CRC8_INIT`.
pub open spec fn crc8_of(data: Seq<u8>) -> u8
    decreases data.len(),
{
    if data.len() == 0 {
        CRC8_INIT
    } else {
        crc_feed(crc8_of(data.drop_last()), data.last())
    }
}

/// Big-endian value of two bytes.
pub open spec fn be16(hi: u8, lo: u8) -> u16 {
    (hi * 256 + lo) as u16
}

/// `raw` holds `k` words, each two data bytes and their CRC, and every CRC matches.
pub open spec fn frames_valid(raw: Seq<u8>, k: int) -> bool {
    forall|i: int| 0 <= i < k ==> #[trigger] crc8_of(raw.subrange(3 * i, 3 * i + 2)) == raw[3 * i + 2]
}

/// The word carried by frame `i` of `raw`.
pub open spec fn frame_word(raw: Seq<u8>, i: int) -> u16 {
    be16(raw[3 * i], raw[3 * i + 1])
}

/// Driver of the STCC4 CO₂ sensor; the I²C transfers and delays are made with `i2c` and
/// `delay` by the caller.
pub struct Stcc4<I2C, D> {
    addr: u8,
    pub i2c: I2C,
    pub delay: D,
    buffer: [u8; 18],
}

impl<I2C, D> Stcc4<I2C, D> {
    pub fn new(addr: u8, i2c: I2C, delay: D) -> (s: Self)
        ensures
            s.address() == addr,
            s.bus() == i2c,
            s.timer() == delay,
            s.frame_buffer() == Seq::new(18, |i: int| 0u8),
    {
        Self { addr, i2c, delay, buffer: [0u8; 18] }
    }

    /// The sensor's bus address.
    pub closed spec fn address(&self) -> u8 {
        self.addr
    }

    /// The I²C device handle.
    pub closed spec fn bus(&self) -> I2C {
        self.i2c
    }

    /// The delay provider.
    pub closed spec fn timer(&self) -> D {
        self.delay
    }

    /// The driver's frame buffer.
    pub closed spec fn frame_buffer(&self) -> Seq<u8> {
        self.buffer@
    }

    pub fn addr(&self) -> (a: u8)
        ensures
            a == self.address(),
    {
        self.addr
    }

    /// Sensirion CRC-8 of `data`.
    pub fn crc8(data: &[u8]) -> (crc: u8)
        ensures
            crc == crc8_of(data@),
    {
        let mut crc = CRC8_INIT;
        let mut i: usize = 0;
        while i < data.len()
            invariant
                i <= data@.len(),
                crc == crc8_of(data@.subrange(0, i as int)),
            decreases data@.len() - i,
        {
            let byte = data[i];
            proof {
                assert(data@.subrange(0, i + 1).drop_last() =~= data@.subrange(0, i as int));
            }
            crc = crc ^ byte;
            let ghost fed = crc;
            let mut bit: u8 = 0;
            while bit < 8
                invariant
                    bit <= 8,
                    crc == crc_shifts(fed, bit as nat),
                decreases 8 - bit,
            {
                let msb = crc & 0x80 != 0;
                let shifted = crc << 1u8;
                let next = if msb {
                    shifted ^ CRC8_POLYNOMIAL
                } else {
                    shifted
                };
                proof {
                    assert(msb == (crc >= 0x80)) by (bit_vector)
                        requires
                            msb == (crc & 0x80 != 0),
                    ;
                    assert(shifted == ((crc * 2) % 256 as int) as u8) by (bit_vector)
                        requires
                            shifted == crc << 1u8,
                    ;
                    assert(next == crc_shift(crc));
                    lemma_crc_shifts_step(fed, bit as nat);
                }
                crc = next;
                bit = bit + 1;
            }
            i = i + 1;
        }
        proof {
            assert(data@.subrange(0, data@.len() as int) =~= data@);
        }
        crc
    }

    /// `Ok` when `checksum` is the CRC-8 of `word`, `Err(Crc)` otherwise.
    pub fn check_crc<E>(&self, word: &[u8], checksum: u8) -> (r: Result<(), Error<E>>)
        ensures
            r is Ok <==> crc8_of(word@) == checksum,
            r is Err ==> r matches Err(Error::Crc),
    {
        if Self::crc8(word) == checksum {
            Ok(())
        } else {
            Err(Error::Crc)
        }
    }

    /// Decodes the frames read from the sensor into `words`: frame `i` is bytes `3i..3i+3` of
    /// `raw`, two data bytes (most significant first) and their CRC. The raw bytes are kept in
    /// the driver's buffer. Decoding stops at the first frame whose CRC does not match.
    pub fn decode_words<E>(&mut self, raw: &[u8], words: &mut [u16]) -> (r: Result<(), Error<E>>)
        requires
            raw@.len() == 3 * old(words)@.len(),
            raw@.len() <= 18,
        ensures
            final(words)@.len() == old(words)@.len(),
            final(self).address() == old(self).address(),
            final(self).bus() == old(self).bus(),
            final(self).timer() == old(self).timer(),
            forall|x: int| 0 <= x < raw@.len() ==> #[trigger] final(self).frame_buffer()[x] == raw@[x],
            forall|x: int| raw@.len() <= x < 18 ==> #[trigger] final(self).frame_buffer()[x] == old(self).frame_buffer()[x],
            final(self).frame_buffer().len() == 18,
            r is Ok <==> frames_valid(raw@, old(words)@.len() as int),
            r is Ok ==> forall|i: int|
                0 <= i < old(words)@.len() ==> final(words)@[i] == #[trigger] frame_word(raw@, i),
            r is Err ==> (r matches Err(Error::Crc)),
            r is Err ==> exists|k: int|
                0 <= k < old(words)@.len() && frames_valid(raw@, k) && crc8_of(
                    raw@.subrange(3 * k, 3 * k + 2),
                ) != raw@[3 * k + 2] && (forall|i: int|
                    0 <= i < k ==> final(words)@[i] == #[trigger] frame_word(raw@, i)) && (forall|
                    i: int,
                |
                    k <= i < old(words)@.len() ==> #[trigger] final(words)@[i] == old(words)@[i]),
    {
        let num_bytes = raw.len();
        let mut j: usize = 0;
        while j < num_bytes
            invariant
                num_bytes == raw@.len(),
                num_bytes <= 18,
                j <= num_bytes,
                self.addr == old(self).addr,
                self.i2c == old(self).i2c,
                self.delay == old(self).delay,
                forall|x: int| 0 <= x < j ==> #[trigger] self.buffer@[x] == raw@[x],
                forall|x: int| num_bytes <= x < 18 ==> #[trigger] self.buffer@[x] == old(self).buffer@[x],
            decreases num_bytes - j,
        {
            self.buffer[j] = raw[j];
            j = j + 1;
        }
        let n = words.len();
        let mut i: usize = 0;
        while i < n
            invariant
                n == old(words)@.len(),
                words@.len() == n,
                raw@.len() == 3 * n,
                n <= 6,
                i <= n,
                self.addr == old(self).addr,
                self.i2c == old(self).i2c,
                self.delay == old(self).delay,
                forall|x: int| 0 <= x < raw@.len() ==> #[trigger] self.buffer@[x] == raw@[x],
                forall|x: int| raw@.len() <= x < 18 ==> #[trigger] self.buffer@[x] == old(self).buffer@[x],
                frames_valid(raw@, i as int),
                forall|x: int| 0 <= x < i ==> words@[x] == #[trigger] frame_word(raw@, x),
                forall|x: int| i <= x < n ==> #[trigger] words@[x] == old(words)@[x],
            decreases n - i,
        {
            let offset = i * 3;
            let b0 = self.buffer[offset];
            let b1 = self.buffer[offset + 1];
            let crc_received = self.buffer[offset + 2];
            let data = [b0, b1];
            proof {
                assert(data@ =~= raw@.subrange(3 * i, 3 * i + 2));
            }
            match self.check_crc::<E>(&data, crc_received) {
                Ok(()) => {},
                Err(e) => {
                    return Err(e);
                },
            }
            let w = ((b0 as u16) << 8u16) | (b1 as u16);
            assert(w == b0 * 256 + b1) by (bit_vector)
                requires
                    w == ((b0 as u16) << 8u16) | (b1 as u16),
            ;
            words[i] = w;
            i = i + 1;
        }
        Ok(())
    }
}

proof fn lemma_crc_shifts_step(crc: u8, k: nat)
    ensures
        crc_shifts(crc, k + 1) == crc_shift(crc_shifts(crc, k)),
    decreases k,
{
    reveal_with_fuel(crc_shifts, 2);
    if k > 0 {
        lemma_crc_shifts_step(crc_shift(crc), (k - 1) as nat);
        assert(crc_shifts(crc, k) == crc_shifts(crc_shift(crc), (k - 1) as nat));
        assert(crc_shifts(crc, k + 1) == crc_shifts(crc_shift(crc), k));
    }
}

/// The frame that carries word `w`: its two bytes, most significant first, and their CRC.
pub open spec fn word_frame(w: u16) -> Seq<u8> {
    let hi = (w / 256) as u8;
    let lo = (w % 256) as u8;
    seq![hi, lo, crc8_of(seq![hi, lo])]
}

/// The frames of `ws`, one after the other.
pub open spec fn word_frames(ws: Seq<u16>) -> Seq<u8>
    decreases ws.len(),
{
    if ws.len() == 0 {
        Seq::empty()
    } else {
        word_frames(ws.drop_last()) + word_frame(ws.last())
    }
}

/// Words sent with their CRCs are read back: every frame of `word_frames(ws)` passes its CRC
/// check and carries the word it was made from.
pub proof fn framed_words_read_back(ws: Seq<u16>)
    ensures
        word_frames(ws).len() == 3 * ws.len(),
        frames_valid(word_frames(ws), ws.len() as int),
        forall|i: int| 0 <= i < ws.len() ==> #[trigger] frame_word(word_frames(ws), i) == ws[i],
    decreases ws.len(),
{
    if ws.len() > 0 {
        let init = ws.drop_last();
        framed_words_read_back(init);
        let f = word_frames(ws);
        let k = init.len() as int;
        let w = ws.last();
        assert(f.subrange(3 * k, 3 * k + 2) =~= seq![(w / 256) as u8, (w % 256) as u8]);
        assert forall|i: int| 0 <= i < ws.len() implies #[trigger] crc8_of(f.subrange(3 * i, 3 * i + 2))
            == f[3 * i + 2] by {
            if i < k {
                assert(f.subrange(3 * i, 3 * i + 2) =~= word_frames(init).subrange(3 * i, 3 * i + 2));
            }
        }
        assert forall|i: int| 0 <= i < ws.len() implies #[trigger] frame_word(f, i) == ws[i] by {
            if i < k {
                assert(frame_word(f, i) == frame_word(word_frames(init), i));
                assert(init[i] == ws[i]);
            }
        }
    }
}

/// Two bytes of a 16-bit command, most significant first.
pub fn command_bytes(command: u16) -> (bytes: [u8; 2])
    ensures
        be16(bytes[0], bytes[1]) == command,
        bytes[0] == command / 256,
        bytes[1] == command % 256,
{
    let hi = (command >> 8u16) as u8;
    let lo = (command & 0xFF) as u8;
    assert(hi == command / 256 && lo == command % 256) by (bit_vector)
        requires
            hi == (command >> 8u16) as u8,
            lo == (command & 0xFF) as u8,
    ;
    [hi, lo]
}

/// The raw measurement: CO₂ in ppm (signed), then raw temperature, raw humidity and the
/// sensor status word.
pub fn raw_measurement(words: [u16; 4]) -> (m: (i16, u16, u16, u16))
    ensures
        m.0 == (if words[0] < 0x8000 { words[0] as int } else { words[0] - 0x10000 }),
        m.1 == words[1],
        m.2 == words[2],
        m.3 == words[3],
{
    let w0 = words[0];
    let co2 = w0 as i16;
    assert(co2 == (if w0 < 0x8000 { w0 as int } else { w0 - 0x10000 })) by (bit_vector)
        requires
            co2 == w0 as i16,
    ;
    (co2, words[1], words[2], words[3])
}

/// Product identifier and 64-bit serial number from the six words of the product-id reply.
pub fn product_identity(words: [u16; 6]) -> (id: (u32, u64))
    ensures
        id.0 == words[0] * 0x1_0000 + words[1],
        id.1 == words[2] * 0x1_0000_0000_0000 + words[3] * 0x1_0000_0000 + words[4] * 0x1_0000
            + words[5],
{
    let w0 = words[0];
    let w1 = words[1];
    let w2 = words[2];
    let w3 = words[3];
    let w4 = words[4];
    let w5 = words[5];
    let id = ((w0 as u32) << 16u32) | w1 as u32;
    let serial_high = ((w2 as u32) << 16u32) | w3 as u32;
    let serial_low = ((w4 as u32) << 16u32) | w5 as u32;
    let serial = ((serial_high as u64) << 32u64) | serial_low as u64;
    assert(id == w0 * 0x1_0000 + w1) by (bit_vector)
        requires
            id == ((w0 as u32) << 16u32) | w1 as u32,
    ;
    assert(serial == w2 * 0x1_0000_0000_0000 + w3 * 0x1_0000_0000 + w4 * 0x1_0000 + w5) by (bit_vector)
        requires
            serial_high == ((w2 as u32) << 16u32) | w3 as u32,
            serial_low == ((w4 as u32) << 16u32) | w5 as u32,
            serial == ((serial_high as u64) << 32u64) | serial_low as u64,
    ;
    (id, serial)
}

} // verus!
