use ambient_air::leds::{
    blink_level, blink_n, led_actions, led_channel, show_battery_percentage, BlinkStep, FadeConfig, LedAction,
    LedCommand,
};

fn describe(steps: &[BlinkStep]) -> Vec<String> {
    steps
        .iter()
        .map(|s| match s {
            BlinkStep::Wait(ms) => format!("wait {}", ms),
            BlinkStep::Publish(LedCommand::SetOne { led, level }) => format!("led{} {}", led, level),
            BlinkStep::Publish(LedCommand::SetAll(level)) => format!("all {}", level),
            BlinkStep::Publish(LedCommand::Fade((c, led))) => {
                format!("fade{} {}->{} {}", led, c.start_pct, c.end_pct, c.fade_dur)
            }
        })
        .collect()
}

#[test]
fn blink_levels() {
    assert_eq!(blink_level(0), 1);
    assert_eq!(blink_level(19), 1);
    assert_eq!(blink_level(20), 2);
    assert_eq!(blink_level(39), 2);
    assert_eq!(blink_level(40), 3);
    assert_eq!(blink_level(60), 4);
    assert_eq!(blink_level(79), 4);
    assert_eq!(blink_level(80), 5);
    assert_eq!(blink_level(100), 5);
    assert_eq!(blink_level(-3), 5);
}

#[test]
fn led_commands_become_channel_actions() {
    assert_eq!(
        led_actions(LedCommand::SetAll(40)),
        vec![LedAction::Duty { target: 1, level: 40 }, LedAction::Duty { target: 2, level: 40 }]
    );
    assert_eq!(led_actions(LedCommand::SetOne { led: 2, level: 7 }), vec![LedAction::Duty { target: 2, level: 7 }]);
    let fc = FadeConfig { start_pct: 0, end_pct: 100, fade_dur: 50 };
    assert_eq!(led_actions(LedCommand::Fade((fc, 1))), vec![LedAction::Fade { target: 1, config: fc }]);
    assert_eq!(led_channel(1), Some(0));
    assert_eq!(led_channel(2), Some(1));
    assert_eq!(led_channel(3), None);
}

#[test]
fn blinking() {
    assert!(blink_n(1, 0, 10, 20).is_empty());
    assert_eq!(
        describe(&blink_n(2, 2, 300, 200)),
        vec!["led2 100", "wait 300", "led2 0", "wait 200", "led2 100", "wait 300", "led2 0"]
    );
}

#[test]
fn battery_display() {
    assert_eq!(
        describe(&show_battery_percentage(45)),
        vec!["led1 100", "led2 100", "wait 300", "led2 0", "wait 200", "led2 100", "wait 300", "led2 0", "wait 200",
            "led2 100", "wait 300", "led2 0", "all 0"]
    );
    let low = describe(&show_battery_percentage(5));
    assert_eq!(low.len(), 5 * 4 - 1 + 3 + 1);
    assert_eq!(&low[0..4], &["led1 100", "wait 100", "led1 0", "wait 100"]);
    assert_eq!(&low[19..], &["led2 100", "wait 300", "led2 0", "all 0"]);
}
