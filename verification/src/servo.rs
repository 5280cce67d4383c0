//! Servo control of the hand: the PWM duty for a finger angle, and the
//! timed sequences of finger moves that show each gesture.

use vstd::prelude::*;

verus! {

/// The pulse width, in microseconds, for a finger angle in degrees: 700 µs
/// at 0° rising by 1500 µs over 180°, rounded down.
pub open spec fn pulse_us(angle: int) -> int {
    700 + angle * 1500 / 180
}

/// The PWM duty for a finger angle: the pulse's share of the 20 000 µs
/// period of a 50 Hz signal, scaled to the timer's maximum duty and rounded
/// down.
pub open spec fn duty_for(angle: int, max_duty: int) -> int {
    pulse_us(angle) * max_duty / 20000
}

/// Whether computing the duty for `angle` stays within `u32`.
pub open spec fn duty_fits(angle: u32, max_duty: u32) -> bool {
    &&& angle * 1500 <= u32::MAX
    &&& pulse_us(angle as int) * max_duty <= u32::MAX
}

/// Whether every angle from 0° to 180° has a duty that fits in `u32` for
/// this maximum duty.
pub open spec fn max_duty_fits(max_duty: u32) -> bool {
    2200 * max_duty <= u32::MAX
}

/// Whether the start-up moves can be computed for this maximum duty: the
/// widest start-up angle, 50°, has a pulse of 1116 µs.
pub open spec fn startup_duty_fits(max_duty: u32) -> bool {
    1116 * max_duty <= u32::MAX
}

/// Whether the start-up moves can be computed for this maximum duty.
pub fn startup_duty_supported(max_duty: u32) -> (r: bool)
    ensures
        r == startup_duty_fits(max_duty),
{
    max_duty <= 3_848_537
}

/// Whether the sequences can be computed for this maximum duty: whether
/// every angle from 0° to 180° has a duty that fits in `u32`.
pub fn max_duty_supported(max_duty: u32) -> (r: bool)
    ensures
        r == max_duty_fits(max_duty),
{
    max_duty <= 1_952_257
}

fn duty(angle: u32, max_duty: u32) -> (d: u32)
    requires
        duty_fits(angle, max_duty),
    ensures
        d == duty_for(angle as int, max_duty as int),
{
    let pulse_us: u32 = 700 + (angle * 1500 / 180);
    (pulse_us * max_duty) / 20_000
}

/// The duty for the index finger's servo at `angle` degrees.
pub fn duty_index(angle: u32, max_duty: u32) -> (d: u32)
    requires
        duty_fits(angle, max_duty),
    ensures
        d == duty_for(angle as int, max_duty as int),
{
    duty(angle, max_duty)
}

/// The duty for the middle finger's servo at `angle` degrees.
pub fn duty_middle(angle: u32, max_duty: u32) -> (d: u32)
    requires
        duty_fits(angle, max_duty),
    ensures
        d == duty_for(angle as int, max_duty as int),
{
    duty(angle, max_duty)
}

/// The duty for the ring finger's servo at `angle` degrees.
pub fn duty_ring(angle: u32, max_duty: u32) -> (d: u32)
    requires
        duty_fits(angle, max_duty),
    ensures
        d == duty_for(angle as int, max_duty as int),
{
    duty(angle, max_duty)
}

/// The duty for the little finger's servo at `angle` degrees.
pub fn duty_pinky(angle: u32, max_duty: u32) -> (d: u32)
    requires
        duty_fits(angle, max_duty),
    ensures
        d == duty_for(angle as int, max_duty as int),
{
    duty(angle, max_duty)
}

/// A PWM channel of the hand's timer; each drives one finger: 1 the index,
/// 2 the ring finger, 3 the middle finger, 4 the little finger.
#[derive(Clone, Copy, PartialEq, Eq, Debug, Structural)]
pub enum Channel {
    Ch1,
    Ch2,
    Ch3,
    Ch4,
}

/// One move of a sequence: set `channel` to `duty`, then hold for `hold_ms`
/// milliseconds.
#[derive(Clone, Copy, PartialEq, Eq, Debug, Structural)]
pub struct ServoStep {
    pub channel: Channel,
    pub duty: u32,
    pub hold_ms: u64,
}

/// The step that moves `channel` to `angle` and holds it for `hold_ms`.
pub open spec fn step_to(channel: Channel, angle: int, max_duty: u32, hold_ms: u64) -> ServoStep {
    ServoStep { channel, duty: duty_for(angle, max_duty as int) as u32, hold_ms }
}

/// The pulse of every angle from 0° to 180° lies within 700–2200 µs.
pub proof fn law_pulse_in_range(angle: int)
    requires
        0 <= angle <= 180,
    ensures
        700 <= pulse_us(angle) <= 2200,
{
    assert(angle * 1500 <= 270000) by (nonlinear_arith)
        requires
            0 <= angle <= 180,
    ;
    assert(0 <= angle * 1500) by (nonlinear_arith)
        requires
            0 <= angle,
    ;
}

/// A wider angle never gives a smaller duty.
pub proof fn law_duty_monotonic(a: int, b: int, max_duty: int)
    requires
        0 <= a <= b,
        0 <= max_duty,
    ensures
        duty_for(a, max_duty) <= duty_for(b, max_duty),
{
    assert(a * 1500 <= b * 1500) by (nonlinear_arith)
        requires
            a <= b,
    ;
    assert(a * 1500 / 180 <= b * 1500 / 180) by (nonlinear_arith)
        requires
            a * 1500 <= b * 1500,
    ;
    let pa = pulse_us(a);
    let pb = pulse_us(b);
    assert(pa * max_duty <= pb * max_duty) by (nonlinear_arith)
        requires
            pa <= pb,
            0 <= max_duty,
    ;
    assert(pa * max_duty / 20000 <= pb * max_duty / 20000) by (nonlinear_arith)
        requires
            pa * max_duty <= pb * max_duty,
    ;
}

/// Within 0°–180° the pulse stays inside the 20 ms period: the duty never
/// exceeds the timer's maximum.
pub proof fn law_duty_within_period(angle: int, max_duty: int)
    requires
        0 <= angle <= 180,
        0 <= max_duty,
    ensures
        0 <= duty_for(angle, max_duty) <= max_duty,
{
    law_pulse_in_range(angle);
    let p = pulse_us(angle);
    assert(p * max_duty <= 20000 * max_duty) by (nonlinear_arith)
        requires
            p <= 2200,
            0 <= max_duty,
    ;
    assert(0 <= p * max_duty) by (nonlinear_arith)
        requires
            0 <= p,
            0 <= max_duty,
    ;
    assert(p * max_duty / 20000 <= max_duty) by (nonlinear_arith)
        requires
            p * max_duty <= 20000 * max_duty,
    ;
}

/// An angle whose pulse is at most `bound` has a duty that fits in `u32`
/// when `bound` times the maximum duty does.
proof fn lemma_duty_fits_below(angle: u32, bound: int, max_duty: u32)
    requires
        angle <= 180,
        pulse_us(angle as int) <= bound,
        bound * max_duty <= u32::MAX,
    ensures
        duty_fits(angle, max_duty),
{
    let p = pulse_us(angle as int);
    assert(p * max_duty <= bound * max_duty) by (nonlinear_arith)
        requires
            p <= bound,
    ;
}

/// Every angle from 0° to 180° has a duty that fits in `u32` when the
/// maximum duty does.
proof fn lemma_duty_fits(angle: u32, max_duty: u32)
    requires
        angle <= 180,
        max_duty_fits(max_duty),
    ensures
        duty_fits(angle, max_duty),
{
    law_pulse_in_range(angle as int);
    lemma_duty_fits_below(angle, 2200, max_duty);
}

/// The start-up moves: the middle finger to 0°, then the ring finger to 50°,
/// each held for a second.
pub open spec fn startup_sequence(max_duty: u32) -> Seq<ServoStep> {
    seq![
        step_to(Channel::Ch3, 0, max_duty, 1000),
        step_to(Channel::Ch2, 50, max_duty, 1000),
    ]
}

/// The rock moves: index to 0°, middle to 60°, ring to 120°, little finger
/// to 180°.
pub open spec fn show_rock_steps(max_duty: u32) -> Seq<ServoStep> {
    seq![
        step_to(Channel::Ch1, 0, max_duty, 700),
        step_to(Channel::Ch3, 60, max_duty, 700),
        step_to(Channel::Ch2, 120, max_duty, 800),
        step_to(Channel::Ch4, 180, max_duty, 1500),
    ]
}

/// The paper moves: ring to 60° then 50°, index to 180°, middle and little
/// finger to 0°.
pub open spec fn show_paper_steps(max_duty: u32) -> Seq<ServoStep> {
    seq![
        step_to(Channel::Ch2, 60, max_duty, 600),
        step_to(Channel::Ch2, 50, max_duty, 700),
        step_to(Channel::Ch1, 180, max_duty, 700),
        step_to(Channel::Ch3, 0, max_duty, 700),
        step_to(Channel::Ch4, 0, max_duty, 1500),
    ]
}

/// The scissors moves: index to 180°, middle to 0°, ring to 120°, little
/// finger to 180°.
pub open spec fn show_scissors_steps(max_duty: u32) -> Seq<ServoStep> {
    seq![
        step_to(Channel::Ch1, 180, max_duty, 700),
        step_to(Channel::Ch3, 0, max_duty, 700),
        step_to(Channel::Ch2, 120, max_duty, 800),
        step_to(Channel::Ch4, 180, max_duty, 1500),
    ]
}

/// The moves that open the hand at start-up: the middle finger to 0°, then
/// the ring finger to 50°, each held for a second.
pub fn startup_steps(max_duty: u32) -> (steps: Vec<ServoStep>)
    requires
        startup_duty_fits(max_duty),
    ensures
        steps@ == startup_sequence(max_duty),
{
    proof {
        lemma_duty_fits_below(0, 1116, max_duty);
        lemma_duty_fits_below(50, 1116, max_duty);
    }
    let mut steps: Vec<ServoStep> = Vec::new();
    steps.push(ServoStep { channel: Channel::Ch3, duty: duty_middle(0, max_duty), hold_ms: 1000 });
    steps.push(ServoStep { channel: Channel::Ch2, duty: duty_ring(50, max_duty), hold_ms: 1000 });
    assert(steps@ =~= startup_sequence(max_duty));
    steps
}

/// The moves that show rock: index to 0°, middle to 60°, ring to 120°,
/// little finger to 180°.
pub fn show_rock(max_duty: u32) -> (steps: Vec<ServoStep>)
    requires
        max_duty_fits(max_duty),
    ensures
        steps@ == show_rock_steps(max_duty),
{
    proof {
        lemma_duty_fits(0, max_duty);
        lemma_duty_fits(60, max_duty);
        lemma_duty_fits(120, max_duty);
        lemma_duty_fits(180, max_duty);
    }
    let mut steps: Vec<ServoStep> = Vec::new();
    steps.push(ServoStep { channel: Channel::Ch1, duty: duty_index(0, max_duty), hold_ms: 700 });
    steps.push(ServoStep { channel: Channel::Ch3, duty: duty_middle(60, max_duty), hold_ms: 700 });
    steps.push(ServoStep { channel: Channel::Ch2, duty: duty_ring(120, max_duty), hold_ms: 800 });
    steps.push(ServoStep { channel: Channel::Ch4, duty: duty_pinky(180, max_duty), hold_ms: 1500 });
    assert(steps@ =~= show_rock_steps(max_duty));
    steps
}

/// The moves that show paper: ring to 60° then 50°, index to 180°, middle
/// and little finger to 0°.
pub fn show_paper(max_duty: u32) -> (steps: Vec<ServoStep>)
    requires
        max_duty_fits(max_duty),
    ensures
        steps@ == show_paper_steps(max_duty),
{
    proof {
        lemma_duty_fits(0, max_duty);
        lemma_duty_fits(50, max_duty);
        lemma_duty_fits(60, max_duty);
        lemma_duty_fits(180, max_duty);
    }
    let mut steps: Vec<ServoStep> = Vec::new();
    steps.push(ServoStep { channel: Channel::Ch2, duty: duty_ring(60, max_duty), hold_ms: 600 });
    steps.push(ServoStep { channel: Channel::Ch2, duty: duty_ring(50, max_duty), hold_ms: 700 });
    steps.push(ServoStep { channel: Channel::Ch1, duty: duty_index(180, max_duty), hold_ms: 700 });
    steps.push(ServoStep { channel: Channel::Ch3, duty: duty_middle(0, max_duty), hold_ms: 700 });
    steps.push(ServoStep { channel: Channel::Ch4, duty: duty_pinky(0, max_duty), hold_ms: 1500 });
    assert(steps@ =~= show_paper_steps(max_duty));
    steps
}

/// The moves that show scissors: index to 180°, middle to 0°, ring to 120°,
/// little finger to 180°.
pub fn show_scissors(max_duty: u32) -> (steps: Vec<ServoStep>)
    requires
        max_duty_fits(max_duty),
    ensures
        steps@ == show_scissors_steps(max_duty),
{
    proof {
        lemma_duty_fits(0, max_duty);
        lemma_duty_fits(120, max_duty);
        lemma_duty_fits(180, max_duty);
    }
    let mut steps: Vec<ServoStep> = Vec::new();
    steps.push(ServoStep { channel: Channel::Ch1, duty: duty_index(180, max_duty), hold_ms: 700 });
    steps.push(ServoStep { channel: Channel::Ch3, duty: duty_middle(0, max_duty), hold_ms: 700 });
    steps.push(ServoStep { channel: Channel::Ch2, duty: duty_ring(120, max_duty), hold_ms: 800 });
    steps.push(ServoStep { channel: Channel::Ch4, duty: duty_pinky(180, max_duty), hold_ms: 1500 });
    assert(steps@ =~= show_scissors_steps(max_duty));
    steps
}

} // verus!
