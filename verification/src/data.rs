use vstd::prelude::*;

verus! {

/// Readings that the VOC sensor needs after boot before its index is provided.
pub const VOC_WARMUP_READINGS: i32 = 60;

#[derive(Clone, Copy, Debug, PartialEq, Eq, Structural)]
pub struct VocData {
    /// VOC index
    pub value: i32,
    /// Sensor needs 60 readings until readings are stable
    pub readings_until_warmup_complete: i32,
    pub error: bool,
}

impl Default for VocData {
    fn default() -> (d: Self)
        ensures
            d == (VocData { value: 0, readings_until_warmup_complete: VOC_WARMUP_READINGS, error: false }),
    {
        Self { value: 0, readings_until_warmup_complete: VOC_WARMUP_READINGS, error: false }
    }
}

#[derive(Clone, Copy, Debug, PartialEq, Eq, Structural)]
pub struct Co2Data {
    /// CO2 concentration in ppm
    pub co2: i16,
    pub error: bool,
}

impl Default for Co2Data {
    fn default() -> (d: Self)
        ensures
            d == (Co2Data { co2: 0, error: false }),
    {
        Self { co2: 0, error: false }
    }
}

#[derive(Clone, Copy, Debug, PartialEq, Eq, Structural)]
pub struct Battery {
    /// Battery voltage in mV
    pub voltage: u16,
    /// Battery SoC percentage
    pub percentage: i8,
    /// Power (in mW) pulled from battery
    pub power: i16,
    pub error: bool,
}

impl Default for Battery {
    fn default() -> (d: Self)
        ensures
            d == (Battery { voltage: 0, percentage: 0, power: 0, error: false }),
    {
        Self { voltage: 0, percentage: 0, power: 0, error: false }
    }
}

#[derive(Clone, Copy, Debug, PartialEq, Eq, Structural)]
pub struct Config {
    pub update_interval: i32,
}

impl Default for Config {
    fn default() -> (d: Self)
        ensures
            d == (Config { update_interval: 1 }),
    {
        Self { update_interval: 1 }
    }
}

/// The VOC reading of one measurement: when the sensor is enabled, its index (or the error
/// value when the reading failed, `None`); when it is disabled, zero with no warm-up left.
pub fn voc_data(enabled: bool, reading: Option<u16>) -> (d: VocData)
    ensures
        !enabled ==> d == (VocData { value: 0, readings_until_warmup_complete: 0, error: false }),
        enabled ==> (reading matches Some(v) ==> d == (VocData {
            value: v as i32,
            readings_until_warmup_complete: 0,
            error: false,
        })),
        enabled && reading is None ==> d == (VocData {
            value: 0,
            readings_until_warmup_complete: VOC_WARMUP_READINGS,
            error: true,
        }),
{
    if enabled {
        match reading {
            Some(v) => VocData { readings_until_warmup_complete: 0, value: v as i32, error: false },
            None => VocData { error: true, ..VocData::default() },
        }
    } else {
        VocData { readings_until_warmup_complete: 0, value: 0, error: false }
    }
}

/// The CO₂ reading of one measurement: nothing when the sensor is not sampled this time, the
/// concentration when it was read, the error value when reading failed (`None`).
pub fn co2_data(include_co2: bool, reading: Option<i16>) -> (d: Co2Data)
    ensures
        !include_co2 ==> d == (Co2Data { co2: 0, error: false }),
        include_co2 ==> (reading matches Some(c) ==> d == (Co2Data { co2: c, error: false })),
        include_co2 && reading is None ==> d == (Co2Data { co2: 0, error: true }),
{
    if !include_co2 {
        Co2Data::default()
    } else {
        match reading {
            Some(c) => Co2Data { co2: c, error: false },
            None => Co2Data { error: true, ..Co2Data::default() },
        }
    }
}

/// The battery reading of one measurement from the gauge's average power (mW), voltage (mV)
/// and state of charge (%), or the error value when reading failed (`None`). The state of
/// charge is kept as its low byte, signed.
pub fn battery_data(reading: Option<(i16, u16, u16)>) -> (b: Battery)
    ensures
        reading matches Some((power, voltage, soc)) ==> b == (Battery {
            percentage: soc as i8,
            power,
            voltage,
            error: false,
        }),
        reading is None ==> b == (Battery { voltage: 0, percentage: 0, power: 0, error: true }),
{
    match reading {
        Some((power, voltage, soc)) => {
            let percentage = soc as i8;
            Battery { percentage, power, voltage, error: false }
        },
        None => Battery { error: true, ..Battery::default() },
    }
}

/// Warm-up readings left after a restart: the sensor's count less the readings already made
/// before the restart, kept within 0..=60.
pub open spec fn spec_warmup_after_restart(readings_until_warmup_complete: i32, sgp40_readings: i16) -> i32 {
    if readings_until_warmup_complete - sgp40_readings < 0 {
        0
    } else if readings_until_warmup_complete - sgp40_readings > VOC_WARMUP_READINGS {
        VOC_WARMUP_READINGS
    } else {
        (readings_until_warmup_complete - sgp40_readings) as i32
    }
}

/// Warm-up readings left after a restart, as `spec_warmup_after_restart` gives them.
pub fn warmup_after_restart(readings_until_warmup_complete: i32, sgp40_readings: i16) -> (left: i32)
    ensures
        left == spec_warmup_after_restart(readings_until_warmup_complete, sgp40_readings),
{
    let left = readings_until_warmup_complete as i64 - sgp40_readings as i64;
    if left < 0 {
        0
    } else if left > VOC_WARMUP_READINGS as i64 {
        VOC_WARMUP_READINGS
    } else {
        left as i32
    }
}

/// Whether the CO₂ sensor is sampled in this round: not before 5 s since the last time.
pub fn include_co2_sampling(ms_since_last_co2_sample: u64) -> (sample_now: bool)
    ensures
        sample_now == (ms_since_last_co2_sample >= 5000),
{
    ms_since_last_co2_sample >= 5000
}

/// One round of the measurement loop at `now_ms`, the CO₂ sensor last sampled at `last_ms`:
/// whether it is sampled in this round, and when it was last sampled afterwards.
pub open spec fn spec_co2_round(last_ms: u64, now_ms: u64) -> (bool, u64) {
    if now_ms - last_ms >= 5000 {
        (true, now_ms)
    } else {
        (false, last_ms)
    }
}

/// One round of the measurement loop's CO₂ cadence, as `spec_co2_round` gives it.
pub fn co2_round(last_ms: u64, now_ms: u64) -> (r: (bool, u64))
    requires
        last_ms <= now_ms,
    ensures
        r == spec_co2_round(last_ms, now_ms),
{
    let sample_now = include_co2_sampling(now_ms - last_ms);
    if sample_now {
        (true, now_ms)
    } else {
        (false, last_ms)
    }
}

/// Across rounds of the measurement loop, two CO₂ samples are at least 5 s apart: after a
/// round that samples at `t1`, any number of rounds at later times, the last at `t2`, samples
/// at `t2` only when `t2` is 5 s or more after `t1`.
pub proof fn co2_samples_five_seconds_apart(t1: u64, later: Seq<u64>)
    requires
        later.len() > 0,
        forall|i: int| 0 <= i < later.len() ==> t1 <= #[trigger] later[i],
    ensures
        spec_co2_rounds(t1, later).0 ==> later.last() - t1 >= 5000,
{
    lemma_co2_last_sample(t1, later.drop_last());
}

/// Rounds at the times `later`, after a round that sampled at `t1`: whether the last of them
/// samples, and when the sensor was last sampled after them.
pub open spec fn spec_co2_rounds(t1: u64, later: Seq<u64>) -> (bool, u64)
    decreases later.len(),
{
    if later.len() == 0 {
        (true, t1)
    } else {
        spec_co2_round(spec_co2_rounds(t1, later.drop_last()).1, later.last())
    }
}

proof fn lemma_co2_last_sample(t1: u64, later: Seq<u64>)
    requires
        forall|i: int| 0 <= i < later.len() ==> t1 <= #[trigger] later[i],
    ensures
        t1 <= spec_co2_rounds(t1, later).1,
    decreases later.len(),
{
    if later.len() > 0 {
        lemma_co2_last_sample(t1, later.drop_last());
    }
}

/// Seconds between two measurement rounds: the configured interval, 1 when none is set.
pub fn refresh_interval(config: Option<Config>) -> (secs: i32)
    ensures
        config matches Some(c) ==> secs == c.update_interval,
        config is None ==> secs == 1,
{
    match config {
        Some(d) => d.update_interval,
        None => 1,
    }
}

/// The interval between the starts of two measurement rounds, in milliseconds, taken as an
/// unsigned 64-bit number.
pub open spec fn refresh_wanted_ms(refresh_secs: i32) -> u64 {
    ((refresh_secs * 1000) as i32) as u64
}

/// Milliseconds to wait after a round that took `passed_ms`: what is left of the interval,
/// nothing when the round took longer.
pub open spec fn spec_refresh_wait_ms(refresh_secs: i32, passed_ms: u64) -> u64 {
    if refresh_wanted_ms(refresh_secs) > passed_ms {
        (refresh_wanted_ms(refresh_secs) - passed_ms) as u64
    } else {
        0
    }
}

/// Milliseconds to wait after a round that took `passed_ms`, so that rounds start every
/// `refresh_secs` seconds (the interval, in milliseconds, taken as an unsigned 64-bit number).
pub fn refresh_wait_ms(refresh_secs: i32, passed_ms: u64) -> (wait: u64)
    requires
        -2147483 <= refresh_secs <= 2147483,
    ensures
        wait == spec_refresh_wait_ms(refresh_secs, passed_ms),
{
    let wanted = (refresh_secs * 1000) as u64;
    if wanted > passed_ms {
        wanted - passed_ms
    } else {
        0
    }
}

/// Milliseconds until the next low-power measurement: a second while the VOC sensor runs,
/// otherwise the CO₂ sampling rate in seconds but at least 5 s (the rate taken as an unsigned
/// number, the result keeping the low 64 bits).
pub open spec fn spec_lp_sleep_ms(stcc4_sample_rate: i16, sgp40_enabled: bool) -> u64 {
    if sgp40_enabled {
        1000
    } else {
        (((if (stcc4_sample_rate as u64) < 5 { 5 } else { stcc4_sample_rate as u64 }) as int * 1000)
            % 0x1_0000_0000_0000_0000) as u64
    }
}

/// Milliseconds until the next low-power measurement, as `spec_lp_sleep_ms` gives them.
pub fn lp_sleep_ms(stcc4_sample_rate: i16, sgp40_enabled: bool) -> (ms: u64)
    ensures
        ms == spec_lp_sleep_ms(stcc4_sample_rate, sgp40_enabled),
{
    if sgp40_enabled {
        return 1000;
    }
    let rate = stcc4_sample_rate as u64;
    let secs = if rate < 5 {
        5
    } else {
        rate
    };
    let ms_wide: u128 = secs as u128 * 1000;
    let ms = ms_wide as u64;
    assert(ms == ms_wide % 0x1_0000_0000_0000_0000) by (bit_vector)
        requires
            ms == ms_wide as u64,
    ;
    ms
}

/// Whether the battery is too low to keep running: at most 5 % charge.
pub fn battery_critical(soc_percent: u16) -> (critical: bool)
    ensures
        critical == (soc_percent <= 5),
{
    !(soc_percent > 5)
}

/// The state of the measurement loop: when the CO₂ sensor was last sampled and whether the
/// first round is still to come.
pub struct MeasureLoop {
    pub last_co2_ms: u64,
    pub first_run: bool,
}

impl MeasureLoop {
    /// The loop as it starts at `now_ms`: the CO₂ sampling clock starts now.
    pub fn start(now_ms: u64) -> (l: Self)
        ensures
            l.last_co2_ms == now_ms,
            l.first_run,
    {
        MeasureLoop { last_co2_ms: now_ms, first_run: true }
    }

    /// The start of a round at `now_ms`: whether the CO₂ sensor is sampled in it.
    pub fn begin_round(&mut self, now_ms: u64) -> (sample_co2: bool)
        requires
            old(self).last_co2_ms <= now_ms,
        ensures
            (sample_co2, final(self).last_co2_ms) == spec_co2_round(old(self).last_co2_ms, now_ms),
            final(self).first_run == old(self).first_run,
    {
        let (sample_co2, last) = co2_round(self.last_co2_ms, now_ms);
        self.last_co2_ms = last;
        sample_co2
    }

    /// The end of a round whose VOC reading was `voc` and that took `passed_ms`: in the first
    /// round, the warm-up count takes the readings made before a restart into account; the
    /// result is the reading to publish and how long to wait before the next round.
    pub fn finish_round(&mut self, voc: VocData, sgp40_readings: i16, refresh_secs: i32, passed_ms: u64) -> (r: (
        VocData,
        u64,
    ))
        requires
            -2147483 <= refresh_secs <= 2147483,
        ensures
            old(self).first_run ==> r.0 == (VocData {
                readings_until_warmup_complete: spec_warmup_after_restart(voc.readings_until_warmup_complete, sgp40_readings),
                ..voc
            }),
            !old(self).first_run ==> r.0 == voc,
            r.1 == spec_refresh_wait_ms(refresh_secs, passed_ms),
            !final(self).first_run,
            final(self).last_co2_ms == old(self).last_co2_ms,
    {
        let mut d = voc;
        if self.first_run {
            d.readings_until_warmup_complete = warmup_after_restart(voc.readings_until_warmup_complete, sgp40_readings);
        }
        self.first_run = false;
        (d, refresh_wait_ms(refresh_secs, passed_ms))
    }
}

/// The first round of the measurement loop, less than 5 s after it started, does not sample
/// the CO₂ sensor.
pub proof fn first_round_skips_co2(start_ms: u64, now_ms: u64)
    requires
        start_ms <= now_ms,
        now_ms - start_ms < 5000,
    ensures
        !spec_co2_round(start_ms, now_ms).0,
{
}

/// A round starts no sooner than the refresh interval after the one before: the round's own
/// time and the wait after it make up at least the interval.
pub proof fn rounds_start_an_interval_apart(refresh_secs: i32, passed_ms: u64)
    ensures
        passed_ms + spec_refresh_wait_ms(refresh_secs, passed_ms) >= refresh_wanted_ms(refresh_secs),
{
}


/// A round that samples the CO₂ sensor records its own time as the last sample, a round that
/// does not keeps the time it had; it samples exactly when 5 s have passed since that time.
/// So, whatever the state before, two rounds that both sample are at least 5 s apart.
pub proof fn co2_round_records_its_time(last: u64, t1: u64, t2: u64)
    requires
        last <= t1 <= t2,
    ensures
        spec_co2_round(last, t1).0 <==> t1 - last >= 5000,
        spec_co2_round(last, t1).0 ==> spec_co2_round(last, t1).1 == t1,
        !spec_co2_round(last, t1).0 ==> spec_co2_round(last, t1).1 == last,
        spec_co2_round(last, t1).0 && spec_co2_round(spec_co2_round(last, t1).1, t2).0 ==> t2 - t1 >= 5000,
{
}


/// The wait after a round never exceeds the interval, and a round shorter than the interval is
/// followed by exactly the rest of it, so the next round starts one interval after this one;
/// a round that took the whole interval or longer is followed at once.
pub proof fn refresh_wait_fills_the_interval(refresh_secs: i32, passed_ms: u64)
    ensures
        spec_refresh_wait_ms(refresh_secs, passed_ms) <= refresh_wanted_ms(refresh_secs),
        passed_ms < refresh_wanted_ms(refresh_secs) ==> passed_ms + spec_refresh_wait_ms(refresh_secs, passed_ms)
            == refresh_wanted_ms(refresh_secs),
        passed_ms >= refresh_wanted_ms(refresh_secs) ==> spec_refresh_wait_ms(refresh_secs, passed_ms) == 0,
        0 <= refresh_secs <= 2147483 ==> refresh_wanted_ms(refresh_secs) == refresh_secs * 1000,
{
}

/// The warm-up count after a restart is never negative and never above the sixty readings the
/// sensor needs; within that range it is the count less the readings made before the restart.
pub proof fn warmup_stays_within_sixty(count: i32, readings: i16)
    ensures
        0 <= spec_warmup_after_restart(count, readings) <= 60,
        0 <= count - readings <= 60 ==> spec_warmup_after_restart(count, readings) == count - readings,
        count - readings > 60 ==> spec_warmup_after_restart(count, readings) == 60,
        count - readings < 0 ==> spec_warmup_after_restart(count, readings) == 0,
{
}

/// A low-power round sleeps one second while the VOC sensor runs; otherwise it sleeps the CO₂
/// sampling rate, in milliseconds, but never less than five seconds.
pub proof fn low_power_sleep_follows_the_rate(rate: i16, sgp40_enabled: bool)
    ensures
        sgp40_enabled ==> spec_lp_sleep_ms(rate, sgp40_enabled) == 1000,
        !sgp40_enabled && 5 <= rate ==> spec_lp_sleep_ms(rate, sgp40_enabled) == rate * 1000,
        !sgp40_enabled && 0 <= rate < 5 ==> spec_lp_sleep_ms(rate, sgp40_enabled) == 5000,
{
    if !sgp40_enabled && 0 <= rate {
        assert((rate as u64) as int == rate as int) by (bit_vector)
            requires
                0 <= rate,
        ;
        assert(5 <= rate ==> ((rate as u64) * 1000) % 0x1_0000_0000_0000_0000 == (rate as u64) * 1000);
    }
}

} // verus!
