use robohand::servo::{
    duty_index, duty_middle, duty_pinky, duty_ring, max_duty_supported, show_paper, show_rock,
    show_scissors, startup_duty_supported,
    startup_steps, Channel, ServoStep,
};

#[test]
fn duty_formula_values() {
    assert_eq!(duty_index(0, 1000), 35);
    assert_eq!(duty_middle(90, 1000), 72);
    assert_eq!(duty_ring(180, 65535), 7208);
    assert_eq!(duty_pinky(60, 20000), 1200);
    assert_eq!(duty_index(50, 0), 0);
    assert_eq!(duty_ring(1, 20000), 708);
}

#[test]
fn duty_grows_with_angle() {
    let max = 40000;
    let mut last = 0;
    for angle in 0..=180 {
        let d = duty_index(angle, max);
        assert!(d >= last);
        assert!(d <= max);
        last = d;
    }
}

fn step(channel: Channel, angle: u32, max: u32, hold_ms: u64) -> ServoStep {
    ServoStep { channel, duty: duty_index(angle, max), hold_ms }
}

#[test]
fn gesture_sequences() {
    let max = 40000;
    assert_eq!(
        show_rock(max),
        vec![
            step(Channel::Ch1, 0, max, 700),
            step(Channel::Ch3, 60, max, 700),
            step(Channel::Ch2, 120, max, 800),
            step(Channel::Ch4, 180, max, 1500),
        ]
    );
    assert_eq!(
        show_paper(max),
        vec![
            step(Channel::Ch2, 60, max, 600),
            step(Channel::Ch2, 50, max, 700),
            step(Channel::Ch1, 180, max, 700),
            step(Channel::Ch3, 0, max, 700),
            step(Channel::Ch4, 0, max, 1500),
        ]
    );
    assert_eq!(
        show_scissors(max),
        vec![
            step(Channel::Ch1, 180, max, 700),
            step(Channel::Ch3, 0, max, 700),
            step(Channel::Ch2, 120, max, 800),
            step(Channel::Ch4, 180, max, 1500),
        ]
    );
    assert_eq!(
        startup_steps(max),
        vec![step(Channel::Ch3, 0, max, 1000), step(Channel::Ch2, 50, max, 1000)]
    );
    assert_eq!(show_rock(max)[0].duty, 1400);
    assert_eq!(show_rock(max)[3].duty, 4400);
}

#[test]
fn startup_bound_is_wider_than_gesture_bound() {
    assert!(max_duty_supported(1_952_257));
    assert!(!max_duty_supported(1_952_258));
    assert!(startup_duty_supported(3_848_537));
    assert!(!startup_duty_supported(3_848_538));
    let max = 3_000_000;
    assert!(!max_duty_supported(max) && startup_duty_supported(max));
    let steps = startup_steps(max);
    assert_eq!(steps[0].duty, 105_000);
    assert_eq!(steps[1].duty, 167_400);
}
