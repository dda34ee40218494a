use vstd::prelude::*;
use crate::commands::{Commands, long_press_sleep, restart_soon};
use crate::leds::{FadeConfig, LedCommand};
use crate::power::{PowerState, SleepOptions};

verus! {

/// What the button reports.
#[derive(Clone, Copy, Debug, PartialEq, Eq, Structural)]
pub enum ButtonEvent {
    ShortPress { count: usize },
    LongPress,
}

/// A step of a task's response: publish a command, wait some milliseconds, or set the
/// power state kept for the next wake-up.
#[derive(Clone, Copy, Debug)]
pub enum TaskStep {
    Publish(Commands),
    Wait(u64),
    EnterPowerState(PowerState),
}

/// Whether a step is the publication of the LED fade `fc` on LED `led`.
pub open spec fn is_fade(step: TaskStep, fc: FadeConfig, led: u8) -> bool {
    step matches TaskStep::Publish(Commands::Led(LedCommand::Fade((c, l)))) && c == fc && l == led
}

/// Whether a step is the publication of a sleep with `options`.
pub open spec fn is_sleep(step: TaskStep, options: SleepOptions) -> bool {
    step matches TaskStep::Publish(Commands::Sleep(o)) && o == options
}

/// The response to a button event, and whether the button task ends with it. A double
/// press flashes the first LED and restarts into standby; a long press ends the task and, a
/// second later, sleeps for a minute; other presses do nothing.
pub fn button_response(event: ButtonEvent) -> (r: (Vec<TaskStep>, bool))
    ensures
        event is LongPress ==> r.1 && r.0@.len() == 2 && (r.0@[0] matches TaskStep::Wait(1000))
            && is_sleep(r.0@[1], SleepOptions { allow_buttons: true, wake_in_ms: Some(60000u64) }),
        event matches ButtonEvent::ShortPress { count } ==> !r.1 && (count == 2 ==> {
            &&& r.0@.len() == 6
            &&& is_fade(r.0@[0], FadeConfig { start_pct: 0, end_pct: 100, fade_dur: 50 }, 1)
            &&& r.0@[1] matches TaskStep::Wait(50)
            &&& is_fade(r.0@[2], FadeConfig { start_pct: 100, end_pct: 0, fade_dur: 300 }, 1)
            &&& r.0@[3] matches TaskStep::EnterPowerState(PowerState::SensorActiveSleep)
            &&& r.0@[4] matches TaskStep::Wait(290)
            &&& is_sleep(r.0@[5], SleepOptions { allow_buttons: true, wake_in_ms: Some(20u64) })
        }) && (count != 2 ==> r.0@.len() == 0),
{
    let mut steps: Vec<TaskStep> = Vec::new();
    match event {
        ButtonEvent::LongPress => {
            steps.push(TaskStep::Wait(1000));
            steps.push(TaskStep::Publish(Commands::Sleep(long_press_sleep())));
            (steps, true)
        },
        ButtonEvent::ShortPress { count } => {
            if count == 2 {
                steps.push(
                    TaskStep::Publish(
                        Commands::Led(
                            LedCommand::Fade((FadeConfig { start_pct: 0, end_pct: 100, fade_dur: 50 }, 1)),
                        ),
                    ),
                );
                steps.push(TaskStep::Wait(50));
                steps.push(
                    TaskStep::Publish(
                        Commands::Led(
                            LedCommand::Fade((FadeConfig { start_pct: 100, end_pct: 0, fade_dur: 300 }, 1)),
                        ),
                    ),
                );
                steps.push(TaskStep::EnterPowerState(PowerState::SensorActiveSleep));
                steps.push(TaskStep::Wait(290));
                steps.push(TaskStep::Publish(Commands::Sleep(restart_soon())));
            }
            (steps, false)
        },
    }
}

/// One round of the automatic sleep, which starts five minutes after boot: while a central is
/// connected, look again in ten seconds; otherwise restart into standby and look again five
/// seconds later.
pub fn auto_sleep_steps(connected: bool) -> (steps: Vec<TaskStep>)
    ensures
        connected ==> steps@.len() == 1 && (steps@[0] matches TaskStep::Wait(10000)),
        !connected ==> {
            &&& steps@.len() == 4
            &&& steps@[0] matches TaskStep::EnterPowerState(PowerState::SensorActiveSleep)
            &&& steps@[1] matches TaskStep::Wait(290)
            &&& is_sleep(steps@[2], SleepOptions { allow_buttons: true, wake_in_ms: Some(20u64) })
            &&& steps@[3] matches TaskStep::Wait(5000)
        },
{
    let mut steps: Vec<TaskStep> = Vec::new();
    if connected {
        steps.push(TaskStep::Wait(10 * 1000));
    } else {
        steps.push(TaskStep::EnterPowerState(PowerState::SensorActiveSleep));
        steps.push(TaskStep::Wait(290));
        steps.push(TaskStep::Publish(Commands::Sleep(restart_soon())));
        steps.push(TaskStep::Wait(5 * 1000));
    }
    steps
}

} // verus!
