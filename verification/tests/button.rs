use ambient_air::button::{auto_sleep_steps, button_response, ButtonEvent, TaskStep};
use ambient_air::commands::Commands;
use ambient_air::leds::LedCommand;
use ambient_air::power::{PowerState, SleepOptions};

#[test]
fn long_press_sleeps_for_a_minute() {
    let (steps, stop) = button_response(ButtonEvent::LongPress);
    assert!(stop);
    assert_eq!(steps.len(), 2);
    assert!(matches!(steps[0], TaskStep::Wait(1000)));
    match steps[1] {
        TaskStep::Publish(Commands::Sleep(o)) => {
            assert_eq!(o, SleepOptions { allow_buttons: true, wake_in_ms: Some(60_000) })
        }
        _ => panic!("expected a sleep"),
    }
}

#[test]
fn double_press_flashes_and_restarts_into_standby() {
    let (steps, stop) = button_response(ButtonEvent::ShortPress { count: 2 });
    assert!(!stop);
    assert_eq!(steps.len(), 6);
    match steps[0] {
        TaskStep::Publish(Commands::Led(LedCommand::Fade((c, 1)))) => {
            assert_eq!((c.start_pct, c.end_pct, c.fade_dur), (0, 100, 50))
        }
        _ => panic!("expected a fade"),
    }
    assert!(matches!(steps[1], TaskStep::Wait(50)));
    match steps[2] {
        TaskStep::Publish(Commands::Led(LedCommand::Fade((c, 1)))) => {
            assert_eq!((c.start_pct, c.end_pct, c.fade_dur), (100, 0, 300))
        }
        _ => panic!("expected a fade"),
    }
    assert!(matches!(steps[3], TaskStep::EnterPowerState(PowerState::SensorActiveSleep)));
    assert!(matches!(steps[4], TaskStep::Wait(290)));
    match steps[5] {
        TaskStep::Publish(Commands::Sleep(o)) => {
            assert_eq!(o, SleepOptions { allow_buttons: true, wake_in_ms: Some(20) })
        }
        _ => panic!("expected a sleep"),
    }
}

#[test]
fn other_presses_do_nothing() {
    for count in [0usize, 1, 3, 10] {
        let (steps, stop) = button_response(ButtonEvent::ShortPress { count });
        assert!(steps.is_empty());
        assert!(!stop);
    }
}

#[test]
fn auto_sleep_waits_while_connected() {
    let steps = auto_sleep_steps(true);
    assert_eq!(steps.len(), 1);
    assert!(matches!(steps[0], TaskStep::Wait(10_000)));
}

#[test]
fn auto_sleep_restarts_into_standby_when_alone() {
    let steps = auto_sleep_steps(false);
    assert_eq!(steps.len(), 4);
    assert!(matches!(steps[0], TaskStep::EnterPowerState(PowerState::SensorActiveSleep)));
    assert!(matches!(steps[1], TaskStep::Wait(290)));
    match steps[2] {
        TaskStep::Publish(Commands::Sleep(o)) => {
            assert_eq!(o, SleepOptions { allow_buttons: true, wake_in_ms: Some(20) })
        }
        _ => panic!("expected a sleep"),
    }
    assert!(matches!(steps[3], TaskStep::Wait(5_000)));
}
