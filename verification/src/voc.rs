use vstd::prelude::*;
use crate::sampling::{le_bytes32, le_value32};
use crate::data::{lp_sleep_ms, spec_lp_sleep_ms};
use crate::power::SleepOptions;

verus! {

/// Size of the retained VOC algorithm state, in bytes.
pub const STATE_SIZE: usize = 52;

/// The VOC algorithm's state, each number given by the bits of its 32-bit float.
#[derive(Clone, Copy, Debug, PartialEq, Eq, Structural)]
pub struct VocStateBits {
    pub uptime: u32,
    pub sraw: u32,
    pub gas_index: u32,
    pub mean: u32,
    pub std: u32,
    pub sraw_offset: u32,
    pub uptime_gamma: u32,
    pub uptime_gating: u32,
    pub gating_duration_minutes: u32,
    pub lp_initialized: bool,
    pub lp_x1: u32,
    pub lp_x2: u32,
    pub lp_x3: u32,
}

/// The retained form of the state: nine numbers, the flag as one byte, three numbers, each
/// number little-endian, then zeros.
pub open spec fn state_bytes(s: VocStateBits) -> Seq<u8> {
    le_bytes32(s.uptime) + le_bytes32(s.sraw) + le_bytes32(s.gas_index) + le_bytes32(s.mean)
        + le_bytes32(s.std) + le_bytes32(s.sraw_offset) + le_bytes32(s.uptime_gamma) + le_bytes32(
        s.uptime_gating,
    ) + le_bytes32(s.gating_duration_minutes) + seq![if s.lp_initialized { 1u8 } else { 0u8 }]
        + le_bytes32(s.lp_x1) + le_bytes32(s.lp_x2) + le_bytes32(s.lp_x3) + seq![0u8, 0u8, 0u8]
}

/// The number kept at byte `at` of a retained state.
pub open spec fn word_at(buf: Seq<u8>, at: int) -> u32 {
    le_value32(buf.subrange(at, at + 4))
}

/// The state that a retained buffer stands for.
pub open spec fn state_of(buf: Seq<u8>) -> VocStateBits {
    VocStateBits {
        uptime: word_at(buf, 0),
        sraw: word_at(buf, 4),
        gas_index: word_at(buf, 8),
        mean: word_at(buf, 12),
        std: word_at(buf, 16),
        sraw_offset: word_at(buf, 20),
        uptime_gamma: word_at(buf, 24),
        uptime_gating: word_at(buf, 28),
        gating_duration_minutes: word_at(buf, 32),
        lp_initialized: buf[36] != 0,
        lp_x1: word_at(buf, 37),
        lp_x2: word_at(buf, 41),
        lp_x3: word_at(buf, 45),
    }
}

fn put_word(buf: &mut [u8; 52], at: usize, x: u32)
    requires
        at + 4 <= 52,
    ensures
        forall|i: int| 0 <= i < 52 && !(at <= i < at + 4) ==> final(buf)@[i] == old(buf)@[i],
        final(buf)@.subrange(at as int, at + 4) == le_bytes32(x),
{
    buf[at] = x as u8;
    buf[at + 1] = (x >> 8u32) as u8;
    buf[at + 2] = (x >> 16u32) as u8;
    buf[at + 3] = (x >> 24u32) as u8;
    assert(buf@.subrange(at as int, at + 4) =~= le_bytes32(x));
}

fn get_word(buf: &[u8; 52], at: usize) -> (x: u32)
    requires
        at + 4 <= 52,
    ensures
        x == word_at(buf@, at as int),
{
    (buf[at] as u32) | ((buf[at + 1] as u32) << 8u32) | ((buf[at + 2] as u32) << 16u32) | ((buf[at + 3] as u32)
        << 24u32)
}

/// The retained form of `state`.
pub fn store_voc_state(state: &VocStateBits) -> (buf: [u8; 52])
    ensures
        buf@ == state_bytes(*state),
{
    let mut buf = [0u8; 52];
    put_word(&mut buf, 0, state.uptime);
    put_word(&mut buf, 4, state.sraw);
    put_word(&mut buf, 8, state.gas_index);
    put_word(&mut buf, 12, state.mean);
    put_word(&mut buf, 16, state.std);
    put_word(&mut buf, 20, state.sraw_offset);
    put_word(&mut buf, 24, state.uptime_gamma);
    put_word(&mut buf, 28, state.uptime_gating);
    put_word(&mut buf, 32, state.gating_duration_minutes);
    buf[36] = if state.lp_initialized {
        1
    } else {
        0
    };
    put_word(&mut buf, 37, state.lp_x1);
    put_word(&mut buf, 41, state.lp_x2);
    put_word(&mut buf, 45, state.lp_x3);
    let ghost b = buf@;
    assert(b =~= b.subrange(0, 4) + b.subrange(4, 8) + b.subrange(8, 12) + b.subrange(12, 16) + b.subrange(
        16,
        20,
    ) + b.subrange(20, 24) + b.subrange(24, 28) + b.subrange(28, 32) + b.subrange(32, 36) + b.subrange(
        36,
        37,
    ) + b.subrange(37, 41) + b.subrange(41, 45) + b.subrange(45, 49) + b.subrange(49, 52));
    assert(b.subrange(36, 37) =~= seq![if state.lp_initialized { 1u8 } else { 0u8 }]);
    assert(b.subrange(49, 52) =~= seq![0u8, 0u8, 0u8]);
    buf
}

/// The state kept in the retained buffer `buf`.
pub fn restore_voc_state(buf: &[u8; 52]) -> (state: VocStateBits)
    ensures
        state == state_of(buf@),
{
    VocStateBits {
        uptime: get_word(buf, 0),
        sraw: get_word(buf, 4),
        gas_index: get_word(buf, 8),
        mean: get_word(buf, 12),
        std: get_word(buf, 16),
        sraw_offset: get_word(buf, 20),
        uptime_gamma: get_word(buf, 24),
        uptime_gating: get_word(buf, 28),
        gating_duration_minutes: get_word(buf, 32),
        lp_initialized: buf[36] != 0,
        lp_x1: get_word(buf, 37),
        lp_x2: get_word(buf, 41),
        lp_x3: get_word(buf, 45),
    }
}

proof fn lemma_word_roundtrip(x: u32)
    ensures
        le_value32(le_bytes32(x)) == x,
{
    let b0 = x as u8;
    let b1 = (x >> 8u32) as u8;
    let b2 = (x >> 16u32) as u8;
    let b3 = (x >> 24u32) as u8;
    assert(x == (b0 as u32) | ((b1 as u32) << 8u32) | ((b2 as u32) << 16u32) | ((b3 as u32) << 24u32))
        by (bit_vector)
        requires
            b0 == x as u8,
            b1 == (x >> 8u32) as u8,
            b2 == (x >> 16u32) as u8,
            b3 == (x >> 24u32) as u8,
    ;
}

proof fn lemma_word_at(b: Seq<u8>, at: int, x: u32)
    requires
        0 <= at,
        at + 4 <= b.len(),
        b.subrange(at, at + 4) =~= le_bytes32(x),
    ensures
        word_at(b, at) == x,
{
    lemma_word_roundtrip(x);
}

/// Restoring a stored state gives the state back.
pub proof fn voc_state_roundtrip(s: VocStateBits)
    ensures
        state_bytes(s).len() == STATE_SIZE,
        state_of(state_bytes(s)) == s,
{
    let b = state_bytes(s);
    assert(b.len() == 52);
    lemma_word_at(b, 0, s.uptime);
    lemma_word_at(b, 4, s.sraw);
    lemma_word_at(b, 8, s.gas_index);
    lemma_word_at(b, 12, s.mean);
    lemma_word_at(b, 16, s.std);
    lemma_word_at(b, 20, s.sraw_offset);
    lemma_word_at(b, 24, s.uptime_gamma);
    lemma_word_at(b, 28, s.uptime_gating);
    lemma_word_at(b, 32, s.gating_duration_minutes);
    assert(b[36] == (if s.lp_initialized { 1u8 } else { 0u8 }));
    lemma_word_at(b, 37, s.lp_x1);
    lemma_word_at(b, 41, s.lp_x2);
    lemma_word_at(b, 45, s.lp_x3);
}

/// Whether the 32-bit float with these bits is greater than zero: the sign bit is clear, and
/// the value is neither zero nor NaN (positive infinity counts).
pub open spec fn f32_bits_positive(bits: u32) -> bool {
    0 < bits <= 0x7F80_0000
}

/// What the VOC sensor keeps across deep sleeps: the number of readings it has made and its
/// algorithm's state in retained form.
pub struct VocRetained {
    pub readings: i16,
    pub state: [u8; 52],
}

impl VocRetained {
    /// Counts one more reading and keeps `algo`, the algorithm's state after it.
    pub fn record_measurement(&mut self, algo: &VocStateBits)
        requires
            old(self).readings < i16::MAX,
        ensures
            final(self).readings == old(self).readings + 1,
            final(self).state@ == state_bytes(*algo),
    {
        self.readings = self.readings + 1;
        self.state = store_voc_state(algo);
    }

    /// The retained algorithm state, when it is worth handing back to the algorithm: its
    /// uptime is greater than zero, so the algorithm ran before.
    pub fn restorable(&self) -> (r: Option<VocStateBits>)
        ensures
            f32_bits_positive(state_of(self.state@).uptime) ==> r == Some(state_of(self.state@)),
            !f32_bits_positive(state_of(self.state@).uptime) ==> r is None,
    {
        let s = restore_voc_state(&self.state);
        if 0 < s.uptime && s.uptime <= 0x7F80_0000 {
            Some(s)
        } else {
            None
        }
    }
}

/// The end of a low-power measurement round. With the VOC sensor enabled its reading was
/// taken, leaving the algorithm in state `algo`: the reading is counted and the state kept.
/// Then the device sleeps with the buttons armed, for the time `spec_lp_sleep_ms` gives.
pub fn finish_low_power_round(
    retained: &mut VocRetained,
    sgp40_enabled: bool,
    stcc4_sample_rate: i16,
    algo: Option<VocStateBits>,
) -> (o: SleepOptions)
    requires
        sgp40_enabled <==> algo is Some,
        sgp40_enabled ==> old(retained).readings < i16::MAX,
    ensures
        algo matches Some(a) ==> final(retained).readings == old(retained).readings + 1
            && final(retained).state@ == state_bytes(a),
        algo is None ==> *final(retained) == *old(retained),
        o == (SleepOptions {
            allow_buttons: true,
            wake_in_ms: Some(spec_lp_sleep_ms(stcc4_sample_rate, sgp40_enabled)),
        }),
{
    match algo {
        Some(a) => retained.record_measurement(&a),
        None => {},
    }
    SleepOptions { allow_buttons: true, wake_in_ms: Some(lp_sleep_ms(stcc4_sample_rate, sgp40_enabled)) }
}

} // verus!
