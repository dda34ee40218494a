use vstd::prelude::*;

verus! {

/// Number of blinks that stand for a battery charge percentage.
pub open spec fn spec_blink_level(pct: i8) -> u8 {
    if 0 <= pct <= 19 {
        1
    } else if 20 <= pct <= 39 {
        2
    } else if 40 <= pct <= 59 {
        3
    } else if 60 <= pct <= 79 {
        4
    } else {
        5
    }
}

/// Maps a battery charge percentage to the number of blinks shown on the status LED.
pub fn blink_level(pct: i8) -> (level: u8)
    ensures
        level == spec_blink_level(pct),
{
    match pct {
        0..=19 => 1,
        20..=39 => 2,
        40..=59 => 3,
        60..=79 => 4,
        _ => 5,
    }
}

} // verus!

verus! {

#[derive(Clone, Copy, Debug, PartialEq, Eq, Structural)]
pub struct FadeConfig {
    pub start_pct: u8,
    pub end_pct: u8,
    /// in ms
    pub fade_dur: u16,
}

#[derive(Clone, Copy, Debug)]
pub enum LedCommand {
    SetAll(u8),
    SetOne { led: u8, level: u8 },
    Fade((FadeConfig, u8)),
}

/// One change of an LED channel: a duty level, or a fade.
#[derive(Clone, Copy, Debug, PartialEq, Eq, Structural)]
pub enum LedAction {
    Duty { target: u8, level: u8 },
    Fade { target: u8, config: FadeConfig },
}

/// The LED channel changes that a command asks for: both LEDs for `SetAll`.
pub open spec fn spec_led_actions(cmd: LedCommand) -> Seq<LedAction> {
    match cmd {
        LedCommand::SetAll(d) => seq![LedAction::Duty { target: 1, level: d }, LedAction::Duty { target: 2, level: d }],
        LedCommand::Fade((fc, t)) => seq![LedAction::Fade { target: t, config: fc }],
        LedCommand::SetOne { led, level } => seq![LedAction::Duty { target: led, level }],
    }
}

/// The LED channel changes that `cmd` asks for, in order.
pub fn led_actions(cmd: LedCommand) -> (actions: Vec<LedAction>)
    ensures
        actions@ == spec_led_actions(cmd),
{
    let mut actions: Vec<LedAction> = Vec::new();
    match cmd {
        LedCommand::SetAll(d) => {
            actions.push(LedAction::Duty { target: 1, level: d });
            actions.push(LedAction::Duty { target: 2, level: d });
        },
        LedCommand::Fade(d) => actions.push(LedAction::Fade { target: d.1, config: d.0 }),
        LedCommand::SetOne { led, level } => actions.push(LedAction::Duty { target: led, level }),
    }
    assert(actions@ =~= spec_led_actions(cmd));
    actions
}

/// The channel (0 or 1) of LED `target`, which is 1 or 2; there is no other LED.
pub fn led_channel(target: u8) -> (channel: Option<usize>)
    ensures
        target == 1 ==> channel == Some(0usize),
        target == 2 ==> channel == Some(1usize),
        target != 1 && target != 2 ==> channel is None,
{
    match target {
        1 => Some(0),
        2 => Some(1),
        _ => None,
    }
}

/// A step of an LED sequence: a command to publish, or a wait in milliseconds.
#[derive(Clone, Copy, Debug)]
pub enum BlinkStep {
    Publish(LedCommand),
    Wait(u64),
}

/// `n` blinks of `led`: on at full level for `on_ms`, then off, with `off_ms` between blinks.
pub open spec fn spec_blink_steps(led: u8, n: nat, on_ms: u64, off_ms: u64) -> Seq<BlinkStep>
    decreases n,
{
    if n == 0 {
        Seq::empty()
    } else {
        let one = seq![
            BlinkStep::Publish(LedCommand::SetOne { led, level: 100 }),
            BlinkStep::Wait(on_ms),
            BlinkStep::Publish(LedCommand::SetOne { led, level: 0 }),
        ];
        if n == 1 {
            one
        } else {
            one.push(BlinkStep::Wait(off_ms)) + spec_blink_steps(led, (n - 1) as nat, on_ms, off_ms)
        }
    }
}

/// The steps of `n` blinks of `led`.
pub fn blink_n(led: u8, n: u8, on_ms: u64, off_ms: u64) -> (steps: Vec<BlinkStep>)
    ensures
        steps@ == spec_blink_steps(led, n as nat, on_ms, off_ms),
{
    let mut steps: Vec<BlinkStep> = Vec::new();
    let mut i: u8 = 0;
    while i < n
        invariant
            i <= n,
            steps@ + spec_blink_steps(led, (n - i) as nat, on_ms, off_ms) == spec_blink_steps(
                led,
                n as nat,
                on_ms,
                off_ms,
            ),
        decreases n - i,
    {
        let ghost before = steps@;
        steps.push(BlinkStep::Publish(LedCommand::SetOne { led, level: 100 }));
        steps.push(BlinkStep::Wait(on_ms));
        steps.push(BlinkStep::Publish(LedCommand::SetOne { led, level: 0 }));
        if i < n - 1 {
            steps.push(BlinkStep::Wait(off_ms));
        }
        proof {
            let rest = spec_blink_steps(led, (n - i - 1) as nat, on_ms, off_ms);
            let one = seq![
                BlinkStep::Publish(LedCommand::SetOne { led, level: 100 }),
                BlinkStep::Wait(on_ms),
                BlinkStep::Publish(LedCommand::SetOne { led, level: 0 }),
            ];
            if i < n - 1 {
                assert(spec_blink_steps(led, (n - i) as nat, on_ms, off_ms) == one.push(BlinkStep::Wait(off_ms)) + rest);
                assert(steps@ =~= before + one.push(BlinkStep::Wait(off_ms)));
                assert(steps@ + rest =~= before + (one.push(BlinkStep::Wait(off_ms)) + rest));
            } else {
                assert(spec_blink_steps(led, (n - i) as nat, on_ms, off_ms) == one);
                assert(rest == Seq::<BlinkStep>::empty());
                assert(steps@ =~= before + one);
                assert(steps@ + rest =~= steps@);
            }
        }
        i = i + 1;
    }
    assert(steps@ + spec_blink_steps(led, 0, on_ms, off_ms) =~= steps@);
    steps
}

/// How the battery charge is shown: with one level, five quick blinks of the first LED,
/// otherwise the first LED lit; then as many blinks of the second LED as the level; then both
/// LEDs off.
pub open spec fn spec_battery_display(pct: i8) -> Seq<BlinkStep> {
    let lvl = spec_blink_level(pct);
    let first = if lvl == 1 {
        spec_blink_steps(1, 5, 100, 100)
    } else {
        seq![BlinkStep::Publish(LedCommand::SetOne { led: 1, level: 100 })]
    };
    first + spec_blink_steps(2, lvl as nat, 300, 200) + seq![BlinkStep::Publish(LedCommand::SetAll(0))]
}

/// The LED sequence that shows a battery charge of `pct` percent.
pub fn show_battery_percentage(pct: i8) -> (steps: Vec<BlinkStep>)
    ensures
        steps@ == spec_battery_display(pct),
{
    let lvl = blink_level(pct);
    let mut steps = if lvl == 1 {
        blink_n(1, 5, 100, 100)
    } else {
        let mut v: Vec<BlinkStep> = Vec::new();
        v.push(BlinkStep::Publish(LedCommand::SetOne { led: 1, level: 100 }));
        v
    };
    let mut blinks = blink_n(2, lvl, 300, 200);
    steps.append(&mut blinks);
    steps.push(BlinkStep::Publish(LedCommand::SetAll(0)));
    proof {
        if lvl != 1 {
            assert(steps@ =~= seq![BlinkStep::Publish(LedCommand::SetOne { led: 1, level: 100 })]
                + spec_blink_steps(2, lvl as nat, 300, 200) + seq![BlinkStep::Publish(LedCommand::SetAll(0))]);
        } else {
            assert(steps@ =~= spec_blink_steps(1, 5, 100, 100) + spec_blink_steps(2, lvl as nat, 300, 200)
                + seq![BlinkStep::Publish(LedCommand::SetAll(0))]);
        }
    }
    steps
}

/// A higher charge never shows fewer blinks.
pub proof fn blink_level_monotone(a: i8, b: i8)
    requires
        0 <= a <= b,
    ensures
        spec_blink_level(a) <= spec_blink_level(b),
        1 <= spec_blink_level(a) <= 5,
{
}


/// Each blink stands for a fifth of the charge: from 0 % to 79 % the level is one more than the
/// number of whole 20 % steps, and every other value (80 % and above, or a negative reading)
/// shows the full five blinks.
pub proof fn blink_level_counts_fifths(pct: i8)
    ensures
        0 <= pct <= 79 ==> spec_blink_level(pct) == 1 + pct / 20,
        !(0 <= pct <= 79) ==> spec_blink_level(pct) == 5,
{
}


/// Step `r` (0 to 3) of one blink round: LED on at full level, wait `on_ms`, LED off, wait
/// `off_ms`.
pub open spec fn blink_round_step(led: u8, on_ms: u64, off_ms: u64, r: int) -> BlinkStep {
    if r == 0 {
        BlinkStep::Publish(LedCommand::SetOne { led, level: 100 })
    } else if r == 1 {
        BlinkStep::Wait(on_ms)
    } else if r == 2 {
        BlinkStep::Publish(LedCommand::SetOne { led, level: 0 })
    } else {
        BlinkStep::Wait(off_ms)
    }
}

/// `n` blinks are `n` rounds of four steps, the last without its closing pause: LED on at full
/// level, wait `on_ms`, LED off, wait `off_ms`.
pub proof fn blinks_are_on_wait_off_rounds(led: u8, n: nat, on_ms: u64, off_ms: u64)
    ensures
        n == 0 ==> spec_blink_steps(led, n, on_ms, off_ms).len() == 0,
        n >= 1 ==> spec_blink_steps(led, n, on_ms, off_ms).len() == 4 * n - 1,
        forall|i: int|
            0 <= i < spec_blink_steps(led, n, on_ms, off_ms).len() ==> #[trigger] spec_blink_steps(
                led,
                n,
                on_ms,
                off_ms,
            )[i] == blink_round_step(led, on_ms, off_ms, i % 4),
    decreases n,
{
    let s = spec_blink_steps(led, n, on_ms, off_ms);
    if n > 1 {
        let rest = spec_blink_steps(led, (n - 1) as nat, on_ms, off_ms);
        blinks_are_on_wait_off_rounds(led, (n - 1) as nat, on_ms, off_ms);
        let one = seq![
            BlinkStep::Publish(LedCommand::SetOne { led, level: 100 }),
            BlinkStep::Wait(on_ms),
            BlinkStep::Publish(LedCommand::SetOne { led, level: 0 }),
        ];
        assert(s == one.push(BlinkStep::Wait(off_ms)) + rest);
        assert forall|i: int| 0 <= i < s.len() implies #[trigger] s[i] == blink_round_step(led, on_ms, off_ms, i % 4) by {
            if i >= 4 {
                assert(s[i] == rest[i - 4]);
                assert((i - 4) % 4 == i % 4);
            }
        }
    } else if n == 1 {
        assert forall|i: int| 0 <= i < s.len() implies #[trigger] s[i] == blink_round_step(led, on_ms, off_ms, i % 4) by {
        }
    }
}

} // verus!
