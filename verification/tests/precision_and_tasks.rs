//! Tests for the decimal-cursor editing type, the task builder, and the
//! screen layout.

use protovolt::event::{AppTaskBuilder, DisplayTask, HardwareTask, Limits, Task};
use protovolt::layout::Layout;
use protovolt::precision::{DecimalPrecision, VoltageCurrentWithSetter, WithPrecision};

#[test]
fn cursor_clamps_to_its_range() {
    let mut p = DecimalPrecision::default();
    assert_eq!(p.get_exponent(), 0);
    p.cursor_left();
    assert_eq!(p.get_exponent(), 1);
    p.cursor_left();
    assert_eq!(p.get_exponent(), 1);
    p.cursor_right();
    p.cursor_right();
    p.cursor_right();
    assert_eq!(p.get_exponent(), -2);
    p.cursor_right();
    assert_eq!(p.get_exponent(), -2);
}

#[test]
fn increment_steps_by_the_cursor_decade() {
    let mut w = WithPrecision {
        value: 5000,
        precision: DecimalPrecision { exponent: 0 },
        init_range: Some((1000, 20000)),
        min_step: 10,
    };
    w.increment();
    assert_eq!(w.value(), 6000);
    w.cursor_left();
    w.increment();
    assert_eq!(w.value(), 16000);
    w.cursor_right();
    w.cursor_right();
    w.cursor_right();
    w.decrement();
    assert_eq!(w.value(), 15990);
}

#[test]
fn increment_clamps_into_the_configured_range() {
    let mut w = WithPrecision {
        value: 19500,
        precision: DecimalPrecision { exponent: 1 },
        init_range: Some((1000, 20000)),
        min_step: 10,
    };
    w.increment();
    assert_eq!(w.value(), 20000);
    w.increment();
    assert_eq!(w.value(), 20000);
    for _ in 0..3 {
        w.decrement();
    }
    assert_eq!(w.value(), 1000);
    w.decrement();
    assert_eq!(w.value(), 1000);
}

#[test]
fn minimum_step_overrides_a_finer_decade() {
    let mut w = WithPrecision {
        value: 1000,
        precision: DecimalPrecision { exponent: -2 },
        init_range: Some((0, 5000)),
        min_step: 50,
    };
    w.increment();
    assert_eq!(w.value(), 1050);
}

#[test]
fn setter_pair_starts_on_its_limits() {
    let pair = VoltageCurrentWithSetter::new(
        Limits {
            voltage: 5000,
            current: 1000,
        },
        (1000, 20000),
        (0, 5000),
    );
    let limits = pair.get_limits();
    assert_eq!(limits.voltage, 5000);
    assert_eq!(limits.current, 1000);
    assert_eq!(pair.voltage.min_step, 10);
    assert_eq!(pair.current.min_step, 50);
}

#[test]
fn builder_keeps_emission_order() {
    let a = AppTaskBuilder::new()
        .hardware(HardwareTask::EnableSense)
        .display(DisplayTask::SetupSplash);
    let b = AppTaskBuilder::new().hardware(HardwareTask::EnableReadoutLoop);
    let built = a.extend(b).build().unwrap();
    assert_eq!(
        built.tasks,
        vec![
            Task::Hardware(HardwareTask::EnableSense),
            Task::Display(DisplayTask::SetupSplash),
            Task::Hardware(HardwareTask::EnableReadoutLoop),
        ]
    );

    let single = AppTaskBuilder::hardware_task(HardwareTask::EnablePowerDelivery).unwrap();
    assert_eq!(
        single.tasks,
        vec![Task::Hardware(HardwareTask::EnablePowerDelivery)]
    );
    let single = AppTaskBuilder::display_task(DisplayTask::SetupSplash).unwrap();
    assert_eq!(single.tasks, vec![Task::Display(DisplayTask::SetupSplash)]);
}

#[test]
fn builder_grows_past_five_tasks() {
    let mut b = AppTaskBuilder::new();
    for _ in 0..7 {
        b = b.hardware(HardwareTask::EnableSense);
    }
    assert_eq!(b.build().unwrap().tasks.len(), 7);
}

#[test]
fn layout_reports_the_rotated_panel() {
    let mut layout = Layout;
    assert_eq!(layout.width(), 320);
    assert_eq!(layout.height(), 240);
    assert_eq!(layout.center_x(), 160);
    assert_eq!(layout.center_y(), 120);
    assert_eq!(
        layout.channel_origin(protovolt::event::Channel::A),
        (0, 40)
    );
    assert_eq!(
        layout.channel_origin(protovolt::event::Channel::B),
        (163, 40)
    );
}

#[test]
fn defaults_match_the_power_on_state() {
    let limits = Limits::default();
    assert_eq!(limits.voltage, 5000);
    assert_eq!(limits.current, 500);
    assert_eq!(
        protovolt::event::PowerType::default(),
        protovolt::event::PowerType::Standard(limits)
    );
    assert_eq!(
        protovolt::event::Channel::A.get_other(),
        protovolt::event::Channel::B
    );
    assert_eq!(
        protovolt::event::Channel::B.get_other(),
        protovolt::event::Channel::A
    );
}
