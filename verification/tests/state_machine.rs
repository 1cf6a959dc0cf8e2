//! Scenario tests for the application state machine.

use protovolt::app::{App, ArrowsFunction, HardwareState, Screen, SetSelect};
use protovolt::event::{
    AppEvent, Change, Channel, ChannelFocus, ConfirmState, DisplayTask, FunctionButton,
    HardwareEvent, HardwareTask, InterfaceEvent, Limits, PowerType, Readout, Task,
};

fn hw(app: &mut App, event: HardwareEvent) -> Vec<Task> {
    app.handle_event(AppEvent::Hardware(event))
        .expect("expected a task list")
        .tasks
}

fn ui(app: &mut App, event: InterfaceEvent) -> Vec<Task> {
    app.handle_event(AppEvent::Interface(event))
        .expect("expected a task list")
        .tasks
}

#[test]
fn bring_up_sequence_reaches_standby() {
    let mut app = App::default();
    assert!(matches!(app.hardware_state, HardwareState::PowerOn));

    let tasks = hw(&mut app, HardwareEvent::PowerOn);
    assert_eq!(
        tasks,
        vec![
            Task::Hardware(HardwareTask::EnablePowerDelivery),
            Task::Display(DisplayTask::SetupSplash),
        ]
    );
    assert!(matches!(
        app.hardware_state,
        HardwareState::WaitingForPowerDelivery
    ));

    let pt = PowerType::Standard(Limits {
        voltage: 12000,
        current: 2000,
    });
    let tasks = hw(&mut app, HardwareEvent::PowerDeliveryReady(pt));
    assert_eq!(
        tasks,
        vec![
            Task::Hardware(HardwareTask::EnableSense),
            Task::Display(DisplayTask::ConfirmPowerDelivery(pt)),
        ]
    );
    assert!(matches!(app.hardware_state, HardwareState::WaitingForSense));

    let tasks = hw(&mut app, HardwareEvent::SenseReady(Ok(())));
    assert_eq!(
        tasks,
        vec![
            Task::Hardware(HardwareTask::EnableConverter),
            Task::Display(DisplayTask::ConfirmSense(Ok(()))),
        ]
    );
    assert!(matches!(
        app.hardware_state,
        HardwareState::WaitingForConverter
    ));

    let tasks = hw(&mut app, HardwareEvent::ConverterReady(Ok(())));
    assert_eq!(
        tasks,
        vec![
            Task::Hardware(HardwareTask::DelayedHardwareEvent(
                500,
                HardwareEvent::StartMainInterface,
            )),
            Task::Display(DisplayTask::ConfirmConverter(Ok(()))),
        ]
    );
    assert!(matches!(app.hardware_state, HardwareState::WaitingMainUi));

    let tasks = hw(&mut app, HardwareEvent::StartMainInterface);
    let limits = Limits {
        voltage: 5000,
        current: 1000,
    };
    assert_eq!(
        tasks,
        vec![
            Task::Hardware(HardwareTask::UpdateConverterVoltage(Channel::A, 5000)),
            Task::Hardware(HardwareTask::UpdateConverterCurrent(Channel::A, 1000)),
            Task::Hardware(HardwareTask::UpdateConverterVoltage(Channel::B, 5000)),
            Task::Hardware(HardwareTask::UpdateConverterCurrent(Channel::B, 1000)),
            Task::Hardware(HardwareTask::EnableReadoutLoop),
            Task::Display(DisplayTask::SetupMain(pt, limits, limits)),
        ]
    );
    assert!(matches!(app.hardware_state, HardwareState::Standby));
    assert!(matches!(app.interface_state.screen, Screen::Main));
}

#[test]
fn out_of_sequence_hardware_events_are_ignored() {
    let mut app = App::default();
    assert!(app
        .handle_event(AppEvent::Hardware(HardwareEvent::SenseReady(Ok(()))))
        .is_none());
    assert!(matches!(app.hardware_state, HardwareState::PowerOn));

    assert!(app
        .handle_event(AppEvent::Hardware(HardwareEvent::StartMainInterface))
        .is_none());
    assert!(matches!(app.hardware_state, HardwareState::PowerOn));

    hw(&mut app, HardwareEvent::PowerOn);
    // A duplicate power-on is no longer expected and is dropped.
    assert!(app
        .handle_event(AppEvent::Hardware(HardwareEvent::PowerOn))
        .is_none());
    assert!(matches!(
        app.hardware_state,
        HardwareState::WaitingForPowerDelivery
    ));
}

#[test]
fn readout_is_stored_and_redrawn_in_standby() {
    let mut app = App::default();
    hw(&mut app, HardwareEvent::PowerOn);
    hw(
        &mut app,
        HardwareEvent::PowerDeliveryReady(PowerType::default()),
    );
    hw(&mut app, HardwareEvent::SenseReady(Ok(())));
    hw(&mut app, HardwareEvent::ConverterReady(Ok(())));
    hw(&mut app, HardwareEvent::StartMainInterface);

    let readout = Readout {
        voltage: 5_012_000,
        current: 1_003_000,
        power: 5_027_000,
    };
    let tasks = hw(&mut app, HardwareEvent::ReadoutAcquired(Channel::B, readout));
    assert_eq!(
        tasks,
        vec![Task::Display(DisplayTask::UpdateReadout(
            Channel::B, readout
        ))]
    );
    assert_eq!(app.ch_b.readout, Some(readout));
    assert_eq!(app.ch_a.readout, None);
}

#[test]
fn selecting_a_channel_then_toggling_it() {
    let mut app = App::default();

    // First press selects channel A and resets the arrows to navigation.
    let tasks = ui(&mut app, InterfaceEvent::ButtonChannel(Channel::A));
    assert_eq!(app.interface_state.selected_channel, Some(Channel::A));
    assert!(matches!(
        app.interface_state.arrows_function,
        ArrowsFunction::Navigation
    ));
    assert!(!app.ch_a.enable);
    assert_eq!(tasks.len(), 6);
    assert_eq!(
        tasks[4],
        Task::Display(DisplayTask::UpdateChannelFocus(
            ChannelFocus::SelectedInactive,
            ChannelFocus::UnselectedInactive,
        ))
    );
    assert_eq!(
        tasks[5],
        Task::Display(DisplayTask::UpdateButton(ConfirmState::AwaitModify, None))
    );

    // Second press toggles the channel's output on.
    let tasks = ui(&mut app, InterfaceEvent::ButtonChannel(Channel::A));
    assert!(app.ch_a.enable);
    assert_eq!(
        tasks.last(),
        Some(&Task::Hardware(HardwareTask::UpdateConverterState(
            Channel::A, true
        )))
    );
    assert_eq!(
        tasks[4],
        Task::Display(DisplayTask::UpdateChannelFocus(
            ChannelFocus::SelectedActive,
            ChannelFocus::UnselectedInactive,
        ))
    );

    // A third press toggles it back off.
    let tasks = ui(&mut app, InterfaceEvent::ButtonChannel(Channel::A));
    assert!(!app.ch_a.enable);
    assert_eq!(
        tasks.last(),
        Some(&Task::Hardware(HardwareTask::UpdateConverterState(
            Channel::A, false
        )))
    );
}

#[test]
fn setpoint_edit_commits_on_leaving() {
    let mut app = App::default();
    ui(&mut app, InterfaceEvent::ButtonChannel(Channel::A));
    assert!(matches!(app.ch_a.set_select, SetSelect::Voltage));

    // Enter starts a setpoint edit.
    let tasks = ui(&mut app, InterfaceEvent::ButtonEnter(Change::Pressed));
    assert!(matches!(
        app.interface_state.arrows_function,
        ArrowsFunction::SetpointEdit
    ));
    assert!(tasks.contains(&Task::Display(DisplayTask::UpdateButton(
        ConfirmState::AwaitConfirmModify(Some(Channel::A)),
        Some(FunctionButton::Enter),
    ))));

    // Up steps the voltage by one unit-digit step: 1 V.
    ui(&mut app, InterfaceEvent::ButtonUp);
    assert_eq!(app.ch_a.target.voltage.value(), 6000);

    // The cursor moves one digit right: steps of 0.1 V.
    ui(&mut app, InterfaceEvent::ButtonRight);
    ui(&mut app, InterfaceEvent::ButtonUp);
    assert_eq!(app.ch_a.target.voltage.value(), 6100);

    // One more digit right: steps of 0.01 V.
    ui(&mut app, InterfaceEvent::ButtonRight);
    ui(&mut app, InterfaceEvent::ButtonUp);
    assert_eq!(app.ch_a.target.voltage.value(), 6110);

    // No edits reached the hardware yet; leaving the edit commits both
    // target values of the channel.
    let tasks = ui(&mut app, InterfaceEvent::ButtonEnter(Change::Pressed));
    assert!(matches!(
        app.interface_state.arrows_function,
        ArrowsFunction::Navigation
    ));
    assert!(tasks.contains(&Task::Hardware(HardwareTask::UpdateConverterVoltage(
        Channel::A, 6110
    ))));
    assert!(tasks.contains(&Task::Hardware(HardwareTask::UpdateConverterCurrent(
        Channel::A, 1000
    ))));
}

#[test]
fn current_edits_respect_the_minimum_step() {
    let mut app = App::default();
    ui(&mut app, InterfaceEvent::ButtonChannel(Channel::B));
    // Down in navigation selects the current field.
    ui(&mut app, InterfaceEvent::ButtonDown);
    assert!(matches!(app.ch_b.set_select, SetSelect::Current));

    ui(&mut app, InterfaceEvent::ButtonEnter(Change::Pressed));
    // Finest cursor position: the decade says 10 mA but the current's
    // minimum step is 50 mA.
    ui(&mut app, InterfaceEvent::ButtonRight);
    ui(&mut app, InterfaceEvent::ButtonRight);
    ui(&mut app, InterfaceEvent::ButtonUp);
    assert_eq!(app.ch_b.target.current.value(), 1050);

    // Down steps back by the same amount.
    ui(&mut app, InterfaceEvent::ButtonDown);
    assert_eq!(app.ch_b.target.current.value(), 1000);
}

#[test]
fn navigation_moves_focus_and_propagates_the_field() {
    let mut app = App::default();
    // Without a selection, left/right do nothing.
    assert!(app
        .handle_event(AppEvent::Interface(InterfaceEvent::ButtonRight))
        .is_none());

    ui(&mut app, InterfaceEvent::ButtonChannel(Channel::A));
    // Select the current field on channel A.
    ui(&mut app, InterfaceEvent::ButtonDown);
    assert!(matches!(app.ch_a.set_select, SetSelect::Current));

    // Moving focus to B makes B inherit A's active field.
    let tasks = ui(&mut app, InterfaceEvent::ButtonRight);
    assert_eq!(app.interface_state.selected_channel, Some(Channel::B));
    assert!(matches!(app.ch_b.set_select, SetSelect::Current));
    assert_eq!(tasks.len(), 5);

    // Moving right again is a no-op: focus is already on B.
    assert!(app
        .handle_event(AppEvent::Interface(InterfaceEvent::ButtonRight))
        .is_none());
}

#[test]
fn switch_toggles_between_targets_and_limits() {
    let mut app = App::default();
    let tasks = ui(&mut app, InterfaceEvent::ButtonSwitch(Change::Pressed));
    // The redraw now shows the protection ceilings.
    assert!(tasks.iter().any(|t| matches!(
        t,
        Task::Display(DisplayTask::UpdateSetpoint(
            Channel::A,
            Limits {
                voltage: 20000,
                current: 5000,
            },
            _,
            _,
            _,
        ))
    )));
    let tasks = ui(&mut app, InterfaceEvent::ButtonSwitch(Change::Released));
    assert_eq!(
        tasks,
        vec![Task::Display(DisplayTask::UpdateButton(
            ConfirmState::AwaitModify,
            None
        ))]
    );

    // Pressing again flips back to the live targets.
    let tasks = ui(&mut app, InterfaceEvent::ButtonSwitch(Change::Pressed));
    assert!(tasks.iter().any(|t| matches!(
        t,
        Task::Display(DisplayTask::UpdateSetpoint(
            Channel::A,
            Limits {
                voltage: 5000,
                current: 1000,
            },
            _,
            _,
            _,
        ))
    )));
}

#[test]
fn settings_press_highlights_the_button() {
    let mut app = App::default();
    let tasks = ui(&mut app, InterfaceEvent::ButtonSettings(Change::Pressed));
    assert_eq!(
        tasks,
        vec![Task::Display(DisplayTask::UpdateButton(
            ConfirmState::AwaitModify,
            Some(FunctionButton::Settings),
        ))]
    );
    let tasks = ui(&mut app, InterfaceEvent::ButtonSettings(Change::Released));
    assert_eq!(
        tasks,
        vec![Task::Display(DisplayTask::UpdateButton(
            ConfirmState::AwaitModify,
            None
        ))]
    );
}

#[test]
fn enter_without_selection_only_highlights() {
    let mut app = App::default();
    let tasks = ui(&mut app, InterfaceEvent::ButtonEnter(Change::Pressed));
    assert_eq!(
        tasks,
        vec![Task::Display(DisplayTask::UpdateButton(
            ConfirmState::AwaitModify,
            Some(FunctionButton::Enter),
        ))]
    );
    assert!(matches!(
        app.interface_state.arrows_function,
        ArrowsFunction::Navigation
    ));
}
