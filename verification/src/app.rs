//! The application state machine.
//!
//! [`App`] owns the two channel records, the hardware bring-up state and the
//! interface state.  It consumes one [`AppEvent`] at a time and produces an
//! ordered task list for the dispatcher.  The whole transition relation is
//! written out as the spec function [`spec_handle_event`]; the executable
//! handlers are proved to implement it exactly.

use vstd::prelude::*;

use crate::event::{
    AppEvent, AppTask, AppTaskBuilder, Change, Channel, ChannelFocus, ConfirmState, DisplayTask,
    FunctionButton, HardwareEvent, HardwareTask, InterfaceEvent, Limits, PowerType, Readout,
    SetState, Task,
};
use crate::precision::{DecimalPrecision, VoltageCurrentWithSetter, WithPrecision};

verus! {

/// Which of the two fields of a channel the arrows edit.
#[derive(Clone, Copy, Debug, PartialEq, Eq, Structural)]
pub enum SetSelect {
    Voltage,
    Current,
}

impl Default for SetSelect {
    fn default() -> (r: Self)
        ensures
            r == SetSelect::Voltage,
    {
        SetSelect::Voltage
    }
}

/// What the arrow buttons do: move focus, or edit the focused setpoint.
#[derive(Clone, Copy, Debug, PartialEq, Eq, Structural)]
pub enum ArrowsFunction {
    Navigation,
    SetpointEdit,
}

impl Default for ArrowsFunction {
    fn default() -> (r: Self)
        ensures
            r == ArrowsFunction::Navigation,
    {
        ArrowsFunction::Navigation
    }
}

/// Which screen the display currently shows.
#[derive(Clone, Copy, Debug, PartialEq, Eq, Structural)]
pub enum Screen {
    Boot,
    Main,
}

impl Default for Screen {
    fn default() -> (r: Self)
        ensures
            r == Screen::Boot,
    {
        Screen::Boot
    }
}

/// The linear hardware bring-up sequence; `Standby` is the steady state.
#[derive(Clone, Copy, Debug, PartialEq, Eq, Structural)]
pub enum HardwareState {
    PowerOn,
    WaitingForPowerDelivery,
    WaitingForSense,
    WaitingForConverter,
    WaitingMainUi,
    Standby,
}

impl Default for HardwareState {
    fn default() -> (r: Self)
        ensures
            r == HardwareState::PowerOn,
    {
        HardwareState::PowerOn
    }
}

/// Front-panel navigation state.
#[derive(Clone, Copy, Debug, PartialEq, Eq)]
pub struct InterfaceState {
    pub screen: Screen,
    pub selected_channel: Option<Channel>,
    pub arrows_function: ArrowsFunction,
}

impl Default for InterfaceState {
    fn default() -> (r: Self)
        ensures
            r == (InterfaceState {
                screen: Screen::Boot,
                selected_channel: None,
                arrows_function: ArrowsFunction::Navigation,
            }),
    {
        InterfaceState {
            screen: Screen::Boot,
            selected_channel: None,
            arrows_function: ArrowsFunction::Navigation,
        }
    }
}

/// Everything the application tracks about one output channel.
#[derive(Clone, Copy, Debug, PartialEq, Eq)]
pub struct ChannelState {
    pub enable: bool,
    pub set_select: SetSelect,
    /// Live output targets pushed to the converter.
    pub target: VoltageCurrentWithSetter,
    /// Protection ceilings.
    pub limits: VoltageCurrentWithSetter,
    pub readout: Option<Readout>,
}

impl ChannelState {
    pub open spec fn wf(self) -> bool {
        self.target.wf() && self.limits.wf()
    }
}

impl Default for ChannelState {
    /// A disabled channel targeting 5 V / 1 A, ceilings at 20 V / 5 A,
    /// editable between 1 V and 20 V and between 0 A and 5 A.
    fn default() -> (r: Self)
        ensures
            r == spec_default_channel_state(),
            r.wf(),
    {
        let target_limits = Limits { voltage: 5000, current: 1000 };
        let max_limits = Limits { voltage: 20000, current: 5000 };
        ChannelState {
            enable: false,
            target: VoltageCurrentWithSetter::new(target_limits, (1000, 20000), (0, 5000)),
            limits: VoltageCurrentWithSetter::new(max_limits, (1000, 20000), (0, 5000)),
            set_select: SetSelect::Voltage,
            readout: None,
        }
    }
}

/// The default channel record, spelled out.
pub open spec fn spec_default_channel_state() -> ChannelState {
    ChannelState {
        enable: false,
        set_select: SetSelect::Voltage,
        target: VoltageCurrentWithSetter {
            voltage: WithPrecision {
                value: 5000,
                precision: DecimalPrecision { exponent: 0 },
                init_range: Some((1000, 20000)),
                min_step: 10,
            },
            current: WithPrecision {
                value: 1000,
                precision: DecimalPrecision { exponent: 0 },
                init_range: Some((0, 5000)),
                min_step: 50,
            },
        },
        limits: VoltageCurrentWithSetter {
            voltage: WithPrecision {
                value: 20000,
                precision: DecimalPrecision { exponent: 0 },
                init_range: Some((1000, 20000)),
                min_step: 10,
            },
            current: WithPrecision {
                value: 5000,
                precision: DecimalPrecision { exponent: 0 },
                init_range: Some((0, 5000)),
                min_step: 50,
            },
        },
        readout: None,
    }
}

/// The application state machine.
#[derive(Clone, Copy, Debug, PartialEq, Eq)]
pub struct App {
    pub power_type: PowerType,
    pub set_state: SetState,
    pub interface_state: InterfaceState,
    pub hardware_state: HardwareState,
    pub ch_a: ChannelState,
    pub ch_b: ChannelState,
}

impl Default for App {
    fn default() -> (r: Self)
        ensures
            r == spec_default_app(),
            r.wf(),
    {
        App {
            power_type: PowerType::default(),
            set_state: SetState::default(),
            interface_state: InterfaceState::default(),
            hardware_state: HardwareState::default(),
            ch_a: ChannelState::default(),
            ch_b: ChannelState::default(),
        }
    }
}

/// The freshly powered-on application, spelled out.
pub open spec fn spec_default_app() -> App {
    App {
        power_type: PowerType::Standard(Limits { voltage: 5000, current: 500 }),
        set_state: SetState::Setpoint,
        interface_state: InterfaceState {
            screen: Screen::Boot,
            selected_channel: None,
            arrows_function: ArrowsFunction::Navigation,
        },
        hardware_state: HardwareState::PowerOn,
        ch_a: spec_default_channel_state(),
        ch_b: spec_default_channel_state(),
    }
}

/// Which of the four setpoint fields an editing operation touches.
#[derive(Clone, Copy, Debug, PartialEq, Eq, Structural)]
pub enum EditOp {
    Increment,
    Decrement,
    CursorLeft,
    CursorRight,
}

pub open spec fn spec_apply_edit_op(w: WithPrecision, op: EditOp) -> WithPrecision {
    match op {
        EditOp::Increment => w.spec_increment(),
        EditOp::Decrement => w.spec_decrement(),
        EditOp::CursorLeft => WithPrecision {
            precision: DecimalPrecision {
                exponent: crate::precision::spec_clamp_exponent(w.precision.exponent + 1) as i8,
            },
            ..w
        },
        EditOp::CursorRight => WithPrecision {
            precision: DecimalPrecision {
                exponent: crate::precision::spec_clamp_exponent(w.precision.exponent - 1) as i8,
            },
            ..w
        },
    }
}

impl App {
    /// Structural invariant: channel records well formed, and setpoint
    /// editing only ever happens with a channel selected.
    pub open spec fn wf(self) -> bool {
        &&& self.ch_a.wf()
        &&& self.ch_b.wf()
        &&& self.interface_state.arrows_function is SetpointEdit
            ==> self.interface_state.selected_channel is Some
    }

    pub open spec fn spec_channel(self, ch: Channel) -> ChannelState {
        match ch {
            Channel::A => self.ch_a,
            Channel::B => self.ch_b,
        }
    }

    pub open spec fn spec_with_channel(self, ch: Channel, cs: ChannelState) -> App {
        match ch {
            Channel::A => App { ch_a: cs, ..self },
            Channel::B => App { ch_b: cs, ..self },
        }
    }

    /// The pair of limits currently shown: live targets or ceilings.
    pub open spec fn spec_current_set(self) -> (Limits, Limits) {
        match self.set_state {
            SetState::Setpoint => (self.ch_a.target.spec_limits(), self.ch_b.target.spec_limits()),
            SetState::Limits => (self.ch_a.limits.spec_limits(), self.ch_b.limits.spec_limits()),
        }
    }

    /// Which field is highlighted on each channel: only the selected
    /// channel shows its active field.
    pub open spec fn spec_current_select_set(self) -> (Option<SetSelect>, Option<SetSelect>) {
        match self.interface_state.selected_channel {
            Some(Channel::A) => (Some(self.ch_a.set_select), None),
            Some(Channel::B) => (None, Some(self.ch_b.set_select)),
            None => (None, None),
        }
    }

    pub open spec fn spec_confirm_state(self) -> ConfirmState {
        match self.interface_state.arrows_function {
            ArrowsFunction::Navigation => ConfirmState::AwaitModify,
            ArrowsFunction::SetpointEdit => ConfirmState::AwaitConfirmModify(
                self.interface_state.selected_channel,
            ),
        }
    }

    /// The decimal cursor of the field being edited, if a channel is
    /// selected.
    pub open spec fn spec_select_precision(self) -> Option<DecimalPrecision> {
        match self.interface_state.selected_channel {
            None => None,
            Some(ch) => {
                let cs = self.spec_channel(ch);
                let vcws = match self.set_state {
                    SetState::Setpoint => cs.target,
                    SetState::Limits => cs.limits,
                };
                match cs.set_select {
                    SetSelect::Voltage => Some(vcws.voltage.precision),
                    SetSelect::Current => Some(vcws.current.precision),
                }
            },
        }
    }

    /// The four display tasks that redraw both channels' mode tags and
    /// setpoint rows together.
    pub open spec fn spec_setpoints_tasks(self) -> Seq<Task> {
        let sets = self.spec_current_set();
        let selects = self.spec_current_select_set();
        let confirm = self.spec_confirm_state();
        let precision = match self.interface_state.arrows_function {
            ArrowsFunction::Navigation => None,
            ArrowsFunction::SetpointEdit => self.spec_select_precision(),
        };
        seq![
            Task::Display(DisplayTask::UpdateSetState(Channel::A, self.set_state, selects.0, confirm)),
            Task::Display(DisplayTask::UpdateSetState(Channel::B, self.set_state, selects.1, confirm)),
            Task::Display(DisplayTask::UpdateSetpoint(Channel::A, sets.0, selects.0, confirm, precision)),
            Task::Display(DisplayTask::UpdateSetpoint(Channel::B, sets.1, selects.1, confirm, precision)),
        ]
    }

    pub open spec fn spec_focus_of(cs: ChannelState, selected: bool) -> ChannelFocus {
        if selected {
            if cs.enable {
                ChannelFocus::SelectedActive
            } else {
                ChannelFocus::SelectedInactive
            }
        } else {
            if cs.enable {
                ChannelFocus::UnselectedActive
            } else {
                ChannelFocus::UnselectedInactive
            }
        }
    }

    /// Setpoint redraw plus both channel focus boxes, `ch` being focused.
    pub open spec fn spec_shift_channel_focus_tasks(self, ch: Channel) -> Seq<Task> {
        let focus_a = Self::spec_focus_of(self.ch_a, ch is A);
        let focus_b = Self::spec_focus_of(self.ch_b, ch is B);
        self.spec_setpoints_tasks().push(
            Task::Display(DisplayTask::UpdateChannelFocus(focus_a, focus_b)),
        )
    }

    pub open spec fn spec_confirm_button_tasks(self, fb: Option<FunctionButton>) -> Seq<Task> {
        seq![Task::Display(DisplayTask::UpdateButton(self.spec_confirm_state(), fb))]
    }

    pub open spec fn spec_return_button_tasks(self) -> Seq<Task> {
        let fb = match self.interface_state.arrows_function {
            ArrowsFunction::Navigation => None,
            ArrowsFunction::SetpointEdit => Some(FunctionButton::Enter),
        };
        self.spec_confirm_button_tasks(fb)
    }

    /// Push one channel's live targets to its converter.
    pub open spec fn spec_update_converter_tasks(self, ch: Channel) -> Seq<Task> {
        let target = self.spec_channel(ch).target;
        seq![
            Task::Hardware(HardwareTask::UpdateConverterVoltage(ch, target.voltage.value)),
            Task::Hardware(HardwareTask::UpdateConverterCurrent(ch, target.current.value)),
        ]
    }

    pub open spec fn spec_initialize_converters_tasks(self) -> Seq<Task> {
        self.spec_update_converter_tasks(Channel::A) + self.spec_update_converter_tasks(Channel::B)
    }

    /// Set the selected channel's active field; no-op when none is selected.
    pub open spec fn spec_set_current_select_set(self, s: SetSelect) -> App {
        match self.interface_state.selected_channel {
            Some(Channel::A) => App { ch_a: ChannelState { set_select: s, ..self.ch_a }, ..self },
            Some(Channel::B) => App { ch_b: ChannelState { set_select: s, ..self.ch_b }, ..self },
            None => self,
        }
    }

    /// Apply an editing operation to the field the interface points at.
    pub open spec fn spec_edit_selected(self, op: EditOp) -> App {
        match self.interface_state.selected_channel {
            None => self,
            Some(ch) => {
                let cs = self.spec_channel(ch);
                let vcws = match self.set_state {
                    SetState::Setpoint => cs.target,
                    SetState::Limits => cs.limits,
                };
                let vcws2 = match cs.set_select {
                    SetSelect::Voltage => VoltageCurrentWithSetter {
                        voltage: spec_apply_edit_op(vcws.voltage, op),
                        ..vcws
                    },
                    SetSelect::Current => VoltageCurrentWithSetter {
                        current: spec_apply_edit_op(vcws.current, op),
                        ..vcws
                    },
                };
                let cs2 = match self.set_state {
                    SetState::Setpoint => ChannelState { target: vcws2, ..cs },
                    SetState::Limits => ChannelState { limits: vcws2, ..cs },
                };
                self.spec_with_channel(ch, cs2)
            },
        }
    }

    /// Move channel focus while navigating: a no-op unless some channel is
    /// selected and the focus actually moves; the newly focused channel
    /// inherits the previously focused channel's active field.
    pub open spec fn spec_navigation_channel_focus(self, ch: Channel) -> (App, Option<Seq<Task>>) {
        match self.interface_state.selected_channel {
            None => (self, None),
            Some(cur) => {
                if cur == ch {
                    (self, None)
                } else {
                    let inherited = self.spec_channel(ch.spec_other()).set_select;
                    let moved = self.spec_with_channel(
                        ch,
                        ChannelState { set_select: inherited, ..self.spec_channel(ch) },
                    );
                    let post = App {
                        interface_state: InterfaceState {
                            selected_channel: Some(ch),
                            ..moved.interface_state
                        },
                        ..moved
                    };
                    (post, Some(post.spec_shift_channel_focus_tasks(ch)))
                }
            },
        }
    }
}

/// Whether an event is the one the bring-up sequence expects in a state.
pub open spec fn spec_expected_hardware_event(s: HardwareState, ev: HardwareEvent) -> bool {
    match (s, ev) {
        (HardwareState::PowerOn, HardwareEvent::PowerOn) => true,
        (HardwareState::WaitingForPowerDelivery, HardwareEvent::PowerDeliveryReady(_)) => true,
        (HardwareState::WaitingForSense, HardwareEvent::SenseReady(_)) => true,
        (HardwareState::WaitingForConverter, HardwareEvent::ConverterReady(_)) => true,
        (HardwareState::WaitingMainUi, HardwareEvent::StartMainInterface) => true,
        (HardwareState::Standby, HardwareEvent::ReadoutAcquired(_, _)) => true,
        _ => false,
    }
}

/// The hardware-event transition relation, exactly as the executable
/// handler implements it.  `None` means the event was ignored.
pub open spec fn spec_handle_hardware_event(pre: App, ev: HardwareEvent) -> (App, Option<Seq<Task>>) {
    match (pre.hardware_state, ev) {
        (HardwareState::PowerOn, HardwareEvent::PowerOn) => {
            let post = App { hardware_state: HardwareState::WaitingForPowerDelivery, ..pre };
            (post, Some(seq![
                Task::Hardware(HardwareTask::EnablePowerDelivery),
                Task::Display(DisplayTask::SetupSplash),
            ]))
        },
        (HardwareState::WaitingForPowerDelivery, HardwareEvent::PowerDeliveryReady(pt)) => {
            let post = App {
                hardware_state: HardwareState::WaitingForSense,
                power_type: pt,
                ..pre
            };
            (post, Some(seq![
                Task::Hardware(HardwareTask::EnableSense),
                Task::Display(DisplayTask::ConfirmPowerDelivery(pt)),
            ]))
        },
        (HardwareState::WaitingForSense, HardwareEvent::SenseReady(result)) => {
            let post = App { hardware_state: HardwareState::WaitingForConverter, ..pre };
            (post, Some(seq![
                Task::Hardware(HardwareTask::EnableConverter),
                Task::Display(DisplayTask::ConfirmSense(result)),
            ]))
        },
        (HardwareState::WaitingForConverter, HardwareEvent::ConverterReady(result)) => {
            let post = App { hardware_state: HardwareState::WaitingMainUi, ..pre };
            (post, Some(seq![
                Task::Hardware(HardwareTask::DelayedHardwareEvent(
                    START_MAIN_DELAY_MS,
                    HardwareEvent::StartMainInterface,
                )),
                Task::Display(DisplayTask::ConfirmConverter(result)),
            ]))
        },
        (HardwareState::WaitingMainUi, HardwareEvent::StartMainInterface) => {
            let post = App {
                hardware_state: HardwareState::Standby,
                interface_state: InterfaceState { screen: Screen::Main, ..pre.interface_state },
                ..pre
            };
            let sets = post.spec_current_set();
            (post, Some(
                post.spec_initialize_converters_tasks()
                    + seq![
                        Task::Hardware(HardwareTask::EnableReadoutLoop),
                        Task::Display(DisplayTask::SetupMain(post.power_type, sets.0, sets.1)),
                    ],
            ))
        },
        (HardwareState::Standby, HardwareEvent::ReadoutAcquired(ch, readout)) => {
            let post = pre.spec_with_channel(
                ch,
                ChannelState { readout: Some(readout), ..pre.spec_channel(ch) },
            );
            (post, Some(seq![Task::Display(DisplayTask::UpdateReadout(ch, readout))]))
        },
        _ => (pre, None),
    }
}

/// The button-event transition relation, exactly as the executable handler
/// implements it.
pub open spec fn spec_handle_interface_event(pre: App, ev: InterfaceEvent) -> (App, Option<Seq<Task>>) {
    match ev {
        InterfaceEvent::ButtonSettings(Change::Pressed) => (
            pre,
            Some(pre.spec_confirm_button_tasks(Some(FunctionButton::Settings))),
        ),
        InterfaceEvent::ButtonSettings(Change::Released) => (
            pre,
            Some(pre.spec_return_button_tasks()),
        ),
        InterfaceEvent::ButtonSwitch(Change::Pressed) => {
            let toggled = match pre.set_state {
                SetState::Setpoint => SetState::Limits,
                SetState::Limits => SetState::Setpoint,
            };
            let post = App { set_state: toggled, ..pre };
            (post, Some(
                post.spec_setpoints_tasks()
                    + post.spec_confirm_button_tasks(Some(FunctionButton::Switch)),
            ))
        },
        InterfaceEvent::ButtonSwitch(Change::Released) => (
            pre,
            Some(pre.spec_return_button_tasks()),
        ),
        InterfaceEvent::ButtonEnter(Change::Pressed) => {
            match pre.interface_state.selected_channel {
                None => (pre, Some(pre.spec_confirm_button_tasks(Some(FunctionButton::Enter)))),
                Some(ch) => {
                    match pre.interface_state.arrows_function {
                        ArrowsFunction::Navigation => {
                            let post = App {
                                interface_state: InterfaceState {
                                    arrows_function: ArrowsFunction::SetpointEdit,
                                    ..pre.interface_state
                                },
                                ..pre
                            };
                            (post, Some(
                                post.spec_setpoints_tasks()
                                    + post.spec_confirm_button_tasks(Some(FunctionButton::Enter)),
                            ))
                        },
                        ArrowsFunction::SetpointEdit => {
                            let post = App {
                                interface_state: InterfaceState {
                                    arrows_function: ArrowsFunction::Navigation,
                                    ..pre.interface_state
                                },
                                ..pre
                            };
                            (post, Some(
                                post.spec_setpoints_tasks()
                                    + post.spec_confirm_button_tasks(Some(FunctionButton::Enter))
                                    + post.spec_update_converter_tasks(ch),
                            ))
                        },
                    }
                },
            }
        },
        InterfaceEvent::ButtonEnter(Change::Released) => {
            let fb = match pre.interface_state.arrows_function {
                ArrowsFunction::Navigation => None,
                ArrowsFunction::SetpointEdit => Some(FunctionButton::Enter),
            };
            (pre, Some(pre.spec_confirm_button_tasks(fb)))
        },
        InterfaceEvent::ButtonUp => match pre.interface_state.arrows_function {
            ArrowsFunction::Navigation => {
                let post = pre.spec_set_current_select_set(SetSelect::Voltage);
                (post, Some(post.spec_setpoints_tasks()))
            },
            ArrowsFunction::SetpointEdit => match pre.interface_state.selected_channel {
                None => (pre, None),
                Some(_) => {
                    let post = pre.spec_edit_selected(EditOp::Increment);
                    (post, Some(post.spec_setpoints_tasks()))
                },
            },
        },
        InterfaceEvent::ButtonDown => match pre.interface_state.arrows_function {
            ArrowsFunction::Navigation => {
                let post = pre.spec_set_current_select_set(SetSelect::Current);
                (post, Some(post.spec_setpoints_tasks()))
            },
            ArrowsFunction::SetpointEdit => match pre.interface_state.selected_channel {
                None => (pre, None),
                Some(_) => {
                    let post = pre.spec_edit_selected(EditOp::Decrement);
                    (post, Some(post.spec_setpoints_tasks()))
                },
            },
        },
        InterfaceEvent::ButtonRight => match pre.interface_state.arrows_function {
            ArrowsFunction::Navigation => pre.spec_navigation_channel_focus(Channel::B),
            ArrowsFunction::SetpointEdit => match pre.interface_state.selected_channel {
                None => (pre, None),
                Some(_) => {
                    let post = pre.spec_edit_selected(EditOp::CursorRight);
                    (post, Some(post.spec_setpoints_tasks()))
                },
            },
        },
        InterfaceEvent::ButtonLeft => match pre.interface_state.arrows_function {
            ArrowsFunction::Navigation => pre.spec_navigation_channel_focus(Channel::A),
            ArrowsFunction::SetpointEdit => match pre.interface_state.selected_channel {
                None => (pre, None),
                Some(_) => {
                    let post = pre.spec_edit_selected(EditOp::CursorLeft);
                    (post, Some(post.spec_setpoints_tasks()))
                },
            },
        },
        InterfaceEvent::ButtonChannel(ch) => {
            let already = pre.interface_state.selected_channel == Some(ch);
            if already {
                let cs = pre.spec_channel(ch);
                let toggled = ChannelState { enable: !cs.enable, ..cs };
                let mid = pre.spec_with_channel(ch, toggled);
                let post = App {
                    interface_state: InterfaceState {
                        selected_channel: Some(ch),
                        ..mid.interface_state
                    },
                    ..mid
                };
                (post, Some(
                    post.spec_shift_channel_focus_tasks(ch).push(
                        Task::Hardware(HardwareTask::UpdateConverterState(ch, toggled.enable)),
                    ),
                ))
            } else {
                let post = App {
                    interface_state: InterfaceState {
                        selected_channel: Some(ch),
                        arrows_function: ArrowsFunction::Navigation,
                        ..pre.interface_state
                    },
                    ..pre
                };
                (post, Some(
                    post.spec_shift_channel_focus_tasks(ch) + post.spec_confirm_button_tasks(None),
                ))
            }
        },
    }
}

/// The whole transition relation of the application.
pub open spec fn spec_handle_event(pre: App, ev: AppEvent) -> (App, Option<Seq<Task>>) {
    match ev {
        AppEvent::Hardware(hw) => spec_handle_hardware_event(pre, hw),
        AppEvent::Interface(ui) => spec_handle_interface_event(pre, ui),
    }
}

/// Delay before the main interface starts, in milliseconds.
pub const START_MAIN_DELAY_MS: u64 = 500;

/// Out-of-sequence hardware events are ignored: when the event is not the
/// one the current bring-up state expects, the state is unchanged and no
/// task is emitted.
pub proof fn lemma_unexpected_hardware_event_is_noop(pre: App, ev: HardwareEvent)
    requires
        !spec_expected_hardware_event(pre.hardware_state, ev),
    ensures
        spec_handle_hardware_event(pre, ev) == (pre, None::<Seq<Task>>),
{
}

impl App {
    /// Feed one event through the machine; returns the ordered task list it
    /// produced, or `None` when the event was ignored.
    pub fn handle_event(&mut self, event: AppEvent) -> (r: Option<AppTask>)
        requires
            old(self).wf(),
        ensures
            *final(self) == spec_handle_event(*old(self), event).0,
            match spec_handle_event(*old(self), event).1 {
                Some(ts) => r matches Some(t) && t@ == ts,
                None => r is None,
            },
            final(self).wf(),
    {
        match event {
            AppEvent::Hardware(hw) => self.handle_hardware_event(hw),
            AppEvent::Interface(ui) => self.handle_interface_event(ui),
        }
    }

    fn handle_hardware_event(&mut self, event: HardwareEvent) -> (r: Option<AppTask>)
        requires
            old(self).wf(),
        ensures
            *final(self) == spec_handle_hardware_event(*old(self), event).0,
            match spec_handle_hardware_event(*old(self), event).1 {
                Some(ts) => r matches Some(t) && t@ == ts,
                None => r is None,
            },
            final(self).wf(),
    {
        match (self.hardware_state, event) {
            (HardwareState::PowerOn, HardwareEvent::PowerOn) => {
                self.hardware_state = HardwareState::WaitingForPowerDelivery;
                AppTaskBuilder::new()
                    .hardware(HardwareTask::EnablePowerDelivery)
                    .display(DisplayTask::SetupSplash)
                    .build()
            },
            (HardwareState::WaitingForPowerDelivery, HardwareEvent::PowerDeliveryReady(power_type)) => {
                self.hardware_state = HardwareState::WaitingForSense;
                self.power_type = power_type;
                AppTaskBuilder::new()
                    .hardware(HardwareTask::EnableSense)
                    .display(DisplayTask::ConfirmPowerDelivery(power_type))
                    .build()
            },
            (HardwareState::WaitingForSense, HardwareEvent::SenseReady(result)) => {
                self.hardware_state = HardwareState::WaitingForConverter;
                AppTaskBuilder::new()
                    .hardware(HardwareTask::EnableConverter)
                    .display(DisplayTask::ConfirmSense(result))
                    .build()
            },
            (HardwareState::WaitingForConverter, HardwareEvent::ConverterReady(result)) => {
                self.hardware_state = HardwareState::WaitingMainUi;
                AppTaskBuilder::new()
                    .hardware(HardwareTask::DelayedHardwareEvent(
                        START_MAIN_DELAY_MS,
                        HardwareEvent::StartMainInterface,
                    ))
                    .display(DisplayTask::ConfirmConverter(result))
                    .build()
            },
            (HardwareState::WaitingMainUi, HardwareEvent::StartMainInterface) => {
                self.hardware_state = HardwareState::Standby;
                self.interface_state.screen = Screen::Main;
                let power_type = self.power_type;
                let (ch_a_limit, ch_b_limit) = self.get_current_set();
                self.initialize_converters_task()
                    .hardware(HardwareTask::EnableReadoutLoop)
                    .display(DisplayTask::SetupMain(power_type, ch_a_limit, ch_b_limit))
                    .build()
            },
            (HardwareState::Standby, HardwareEvent::ReadoutAcquired(channel, readout)) => {
                match channel {
                    Channel::A => {
                        self.ch_a.readout = Some(readout);
                    },
                    Channel::B => {
                        self.ch_b.readout = Some(readout);
                    },
                }
                AppTaskBuilder::display_task(DisplayTask::UpdateReadout(channel, readout))
            },
            _ => None,
        }
    }

    fn handle_interface_event(&mut self, event: InterfaceEvent) -> (r: Option<AppTask>)
        requires
            old(self).wf(),
        ensures
            *final(self) == spec_handle_interface_event(*old(self), event).0,
            match spec_handle_interface_event(*old(self), event).1 {
                Some(ts) => r matches Some(t) && t@ == ts,
                None => r is None,
            },
            final(self).wf(),
    {
        match event {
            InterfaceEvent::ButtonSettings(change) => match change {
                Change::Pressed => self
                    .current_confirm_state_button_task(Some(FunctionButton::Settings))
                    .build(),
                Change::Released => self.return_current_button_state_task().build(),
            },
            InterfaceEvent::ButtonSwitch(change) => match change {
                Change::Pressed => {
                    self.set_state = match self.set_state {
                        SetState::Setpoint => SetState::Limits,
                        SetState::Limits => SetState::Setpoint,
                    };
                    self.setpoints_task()
                        .extend(self.current_confirm_state_button_task(Some(FunctionButton::Switch)))
                        .build()
                },
                Change::Released => self.return_current_button_state_task().build(),
            },
            InterfaceEvent::ButtonEnter(change) => match change {
                Change::Pressed => {
                    let channel = match self.interface_state.selected_channel {
                        None => {
                            return self
                                .current_confirm_state_button_task(Some(FunctionButton::Enter))
                                .build();
                        },
                        Some(channel) => channel,
                    };
                    let mut converter_task = AppTaskBuilder::new();
                    match self.interface_state.arrows_function {
                        ArrowsFunction::Navigation => {
                            self.interface_state.arrows_function = ArrowsFunction::SetpointEdit;
                        },
                        ArrowsFunction::SetpointEdit => {
                            converter_task = converter_task.extend(self.update_converter_task(channel));
                            self.interface_state.arrows_function = ArrowsFunction::Navigation;
                        },
                    }
                    self.setpoints_task()
                        .extend(self.current_confirm_state_button_task(Some(FunctionButton::Enter)))
                        .extend(converter_task)
                        .build()
                },
                Change::Released => {
                    let function_button = match self.interface_state.arrows_function {
                        ArrowsFunction::Navigation => None,
                        ArrowsFunction::SetpointEdit => Some(FunctionButton::Enter),
                    };
                    self.current_confirm_state_button_task(function_button).build()
                },
            },
            InterfaceEvent::ButtonUp => match self.interface_state.arrows_function {
                ArrowsFunction::Navigation => {
                    self.set_current_select_set(SetSelect::Voltage);
                    self.setpoints_task().build()
                },
                ArrowsFunction::SetpointEdit => {
                    if self.edit_selected(EditOp::Increment) {
                        self.setpoints_task().build()
                    } else {
                        None
                    }
                },
            },
            InterfaceEvent::ButtonDown => match self.interface_state.arrows_function {
                ArrowsFunction::Navigation => {
                    self.set_current_select_set(SetSelect::Current);
                    self.setpoints_task().build()
                },
                ArrowsFunction::SetpointEdit => {
                    if self.edit_selected(EditOp::Decrement) {
                        self.setpoints_task().build()
                    } else {
                        None
                    }
                },
            },
            InterfaceEvent::ButtonRight => match self.interface_state.arrows_function {
                ArrowsFunction::Navigation => self.navigation_channel_focus(Channel::B),
                ArrowsFunction::SetpointEdit => {
                    if self.edit_selected(EditOp::CursorRight) {
                        self.setpoints_task().build()
                    } else {
                        None
                    }
                },
            },
            InterfaceEvent::ButtonLeft => match self.interface_state.arrows_function {
                ArrowsFunction::Navigation => self.navigation_channel_focus(Channel::A),
                ArrowsFunction::SetpointEdit => {
                    if self.edit_selected(EditOp::CursorLeft) {
                        self.setpoints_task().build()
                    } else {
                        None
                    }
                },
            },
            InterfaceEvent::ButtonChannel(event_channel) => {
                let already = match (self.interface_state.selected_channel, event_channel) {
                    (Some(Channel::A), Channel::A) => true,
                    (Some(Channel::B), Channel::B) => true,
                    _ => false,
                };
                if already {
                    let new_enable = match event_channel {
                        Channel::A => {
                            self.ch_a.enable = !self.ch_a.enable;
                            self.ch_a.enable
                        },
                        Channel::B => {
                            self.ch_b.enable = !self.ch_b.enable;
                            self.ch_b.enable
                        },
                    };
                    self.interface_state.selected_channel = Some(event_channel);
                    self.shift_channel_focus_task(event_channel)
                        .hardware(HardwareTask::UpdateConverterState(event_channel, new_enable))
                        .build()
                } else {
                    self.interface_state.arrows_function = ArrowsFunction::Navigation;
                    self.interface_state.selected_channel = Some(event_channel);
                    self.shift_channel_focus_task(event_channel)
                        .extend(self.current_confirm_state_button_task(None))
                        .build()
                }
            },
        }
    }

    /// The limits pair currently on show, by set/limits mode.
    pub fn get_current_set(&mut self) -> (r: (Limits, Limits))
        ensures
            *final(self) == *old(self),
            r == old(self).spec_current_set(),
    {
        match self.set_state {
            SetState::Setpoint => (self.ch_a.target.get_limits(), self.ch_b.target.get_limits()),
            SetState::Limits => (self.ch_a.limits.get_limits(), self.ch_b.limits.get_limits()),
        }
    }

    /// Which field is highlighted on each channel.
    pub fn get_current_select_set(&mut self) -> (r: (Option<SetSelect>, Option<SetSelect>))
        ensures
            *final(self) == *old(self),
            r == old(self).spec_current_select_set(),
    {
        match self.interface_state.selected_channel {
            Some(Channel::A) => (Some(self.ch_a.set_select), None),
            Some(Channel::B) => (None, Some(self.ch_b.set_select)),
            _ => (None, None),
        }
    }

    /// Set the selected channel's active field; no-op when none is selected.
    pub fn set_current_select_set(&mut self, set_select: SetSelect)
        ensures
            *final(self) == old(self).spec_set_current_select_set(set_select),
    {
        match self.interface_state.selected_channel {
            Some(Channel::A) => {
                self.ch_a.set_select = set_select;
            },
            Some(Channel::B) => {
                self.ch_b.set_select = set_select;
            },
            _ => {},
        }
    }

    fn get_confirm_state(&self) -> (r: ConfirmState)
        ensures
            r == self.spec_confirm_state(),
    {
        match self.interface_state.arrows_function {
            ArrowsFunction::Navigation => ConfirmState::AwaitModify,
            ArrowsFunction::SetpointEdit => ConfirmState::AwaitConfirmModify(
                self.interface_state.selected_channel,
            ),
        }
    }

    fn get_select_precision(&self) -> (r: Option<DecimalPrecision>)
        ensures
            r == self.spec_select_precision(),
    {
        let ch = match self.interface_state.selected_channel {
            Some(ch) => ch,
            None => {
                return None;
            },
        };
        let cs = match ch {
            Channel::A => &self.ch_a,
            Channel::B => &self.ch_b,
        };
        let vcws = match self.set_state {
            SetState::Setpoint => &cs.target,
            SetState::Limits => &cs.limits,
        };
        match cs.set_select {
            SetSelect::Voltage => Some(vcws.voltage.precision),
            SetSelect::Current => Some(vcws.current.precision),
        }
    }

    /// Apply an edit to the field the interface points at; false when no
    /// channel is selected.
    fn edit_selected(&mut self, op: EditOp) -> (changed: bool)
        requires
            old(self).wf(),
        ensures
            *final(self) == old(self).spec_edit_selected(op),
            changed == (old(self).interface_state.selected_channel is Some),
            final(self).wf(),
    {
        let ch = match self.interface_state.selected_channel {
            Some(ch) => ch,
            None => {
                return false;
            },
        };
        let cs = match ch {
            Channel::A => &mut self.ch_a,
            Channel::B => &mut self.ch_b,
        };
        let vcws = match self.set_state {
            SetState::Setpoint => &mut cs.target,
            SetState::Limits => &mut cs.limits,
        };
        let field = match cs.set_select {
            SetSelect::Voltage => &mut vcws.voltage,
            SetSelect::Current => &mut vcws.current,
        };
        match op {
            EditOp::Increment => field.increment(),
            EditOp::Decrement => field.decrement(),
            EditOp::CursorLeft => field.cursor_left(),
            EditOp::CursorRight => field.cursor_right(),
        }
        true
    }

    /// Redraw both channels' mode tags and setpoint rows together.
    pub fn setpoints_task(&mut self) -> (r: AppTaskBuilder)
        ensures
            *final(self) == *old(self),
            r@ == old(self).spec_setpoints_tasks(),
    {
        let (ch_a_set, ch_b_set) = self.get_current_set();
        let (ch_a_select, ch_b_select) = self.get_current_select_set();
        let confirm_state = self.get_confirm_state();
        let select_precision = match self.interface_state.arrows_function {
            ArrowsFunction::Navigation => None,
            ArrowsFunction::SetpointEdit => self.get_select_precision(),
        };
        AppTaskBuilder::new()
            .display(DisplayTask::UpdateSetState(
                Channel::A,
                self.set_state,
                ch_a_select,
                confirm_state,
            ))
            .display(DisplayTask::UpdateSetState(
                Channel::B,
                self.set_state,
                ch_b_select,
                confirm_state,
            ))
            .display(DisplayTask::UpdateSetpoint(
                Channel::A,
                ch_a_set,
                ch_a_select,
                confirm_state,
                select_precision,
            ))
            .display(DisplayTask::UpdateSetpoint(
                Channel::B,
                ch_b_set,
                ch_b_select,
                confirm_state,
                select_precision,
            ))
    }

    /// Setpoint redraw plus both focus boxes, `channel` being focused.
    pub fn shift_channel_focus_task(&mut self, channel: Channel) -> (r: AppTaskBuilder)
        ensures
            *final(self) == *old(self),
            r@ == old(self).spec_shift_channel_focus_tasks(channel),
    {
        let (current_enable, other_enable) = match channel {
            Channel::A => (self.ch_a.enable, self.ch_b.enable),
            Channel::B => (self.ch_b.enable, self.ch_a.enable),
        };
        let other_focus = if other_enable {
            ChannelFocus::UnselectedActive
        } else {
            ChannelFocus::UnselectedInactive
        };
        let current_focus = if current_enable {
            ChannelFocus::SelectedActive
        } else {
            ChannelFocus::SelectedInactive
        };
        let (focus_a, focus_b) = match channel {
            Channel::A => (current_focus, other_focus),
            Channel::B => (other_focus, current_focus),
        };
        self.setpoints_task().display(DisplayTask::UpdateChannelFocus(focus_a, focus_b))
    }

    /// Redraw the function-button row, with one button highlighted.
    pub fn current_confirm_state_button_task(
        &mut self,
        function_button: Option<FunctionButton>,
    ) -> (r: AppTaskBuilder)
        ensures
            *final(self) == *old(self),
            r@ == old(self).spec_confirm_button_tasks(function_button),
    {
        let confirm_state = self.get_confirm_state();
        AppTaskBuilder::new().display(DisplayTask::UpdateButton(confirm_state, function_button))
    }

    /// Redraw the function-button row with no button highlighted, except
    /// that an edit in progress keeps the Enter icon.
    pub fn return_current_button_state_task(&mut self) -> (r: AppTaskBuilder)
        ensures
            *final(self) == *old(self),
            r@ == old(self).spec_return_button_tasks(),
    {
        let function_button = match self.interface_state.arrows_function {
            ArrowsFunction::Navigation => None,
            ArrowsFunction::SetpointEdit => Some(FunctionButton::Enter),
        };
        self.current_confirm_state_button_task(function_button)
    }

    /// Push one channel's live targets to its converter.
    pub fn update_converter_task(&self, channel: Channel) -> (r: AppTaskBuilder)
        ensures
            r@ == self.spec_update_converter_tasks(channel),
    {
        let target = match channel {
            Channel::A => &self.ch_a.target,
            Channel::B => &self.ch_b.target,
        };
        AppTaskBuilder::new()
            .hardware(HardwareTask::UpdateConverterVoltage(channel, target.voltage.value()))
            .hardware(HardwareTask::UpdateConverterCurrent(channel, target.current.value()))
    }

    /// Push both channels' live targets.
    pub fn initialize_converters_task(&self) -> (r: AppTaskBuilder)
        ensures
            r@ == self.spec_initialize_converters_tasks(),
    {
        self.update_converter_task(Channel::A).extend(self.update_converter_task(Channel::B))
    }

    /// Move channel focus while navigating.
    pub fn navigation_channel_focus(&mut self, resulting_channel: Channel) -> (r: Option<AppTask>)
        requires
            old(self).wf(),
        ensures
            *final(self) == old(self).spec_navigation_channel_focus(resulting_channel).0,
            match old(self).spec_navigation_channel_focus(resulting_channel).1 {
                Some(ts) => r matches Some(t) && t@ == ts,
                None => r is None,
            },
            final(self).wf(),
    {
        let current_channel = match self.interface_state.selected_channel {
            Some(ch) => ch,
            None => {
                return None;
            },
        };
        if current_channel == resulting_channel {
            return None;
        }
        self.interface_state.selected_channel = Some(resulting_channel);
        match resulting_channel {
            Channel::A => {
                self.ch_a.set_select = self.ch_b.set_select;
            },
            Channel::B => {
                self.ch_b.set_select = self.ch_a.set_select;
            },
        }
        self.shift_channel_focus_task(resulting_channel).build()
    }
}

} // verus!
