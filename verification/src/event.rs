//! Events consumed and tasks produced by the application state machine.
//!
//! Setpoints and negotiated limits are integers in milli-units (millivolts,
//! milliamps); measured readouts are integers in micro-units (microvolts,
//! microamps, microwatts), signed because the sense chip reports signed
//! current and shunt voltage.

use vstd::prelude::*;

use crate::app::SetSelect;
use crate::precision::DecimalPrecision;

verus! {

/// One of the two output channels.
#[derive(Clone, Copy, Debug, PartialEq, Eq, Structural)]
pub enum Channel {
    A,
    B,
}

impl Channel {
    pub open spec fn spec_other(self) -> Channel {
        match self {
            Channel::A => Channel::B,
            Channel::B => Channel::A,
        }
    }

    /// The other channel.
    pub fn get_other(self) -> (r: Channel)
        ensures
            r == self.spec_other(),
    {
        match self {
            Channel::A => Channel::B,
            Channel::B => Channel::A,
        }
    }
}

/// A button edge: pressed or released.
#[derive(Clone, Copy, Debug, PartialEq, Eq, Structural)]
pub enum Change {
    Pressed,
    Released,
}

/// Whether the setpoint rows show live targets or protection ceilings.
#[derive(Clone, Copy, Debug, PartialEq, Eq, Structural)]
pub enum SetState {
    Setpoint,
    Limits,
}

impl Default for SetState {
    fn default() -> (r: Self)
        ensures
            r == SetState::Setpoint,
    {
        SetState::Setpoint
    }
}

/// A voltage/current pair in milli-units (millivolts, milliamps).
#[derive(Clone, Copy, Debug, PartialEq, Eq, Structural)]
pub struct Limits {
    pub voltage: i32,
    pub current: i32,
}

impl Default for Limits {
    /// 5 V, 0.5 A.
    fn default() -> (r: Self)
        ensures
            r == (Limits { voltage: 5000, current: 500 }),
    {
        Limits { voltage: 5000, current: 500 }
    }
}

/// A measurement triple in micro-units (microvolts, microamps, microwatts).
#[derive(Clone, Copy, Debug, PartialEq, Eq)]
pub struct Readout {
    pub voltage: i64,
    pub current: i64,
    pub power: i64,
}

/// What the input negotiation settled on.
#[derive(Clone, Copy, Debug, PartialEq, Eq)]
pub enum PowerType {
    PowerDelivery(Limits),
    Standard(Limits),
}

impl Default for PowerType {
    fn default() -> (r: Self)
        ensures
            r == PowerType::Standard(Limits { voltage: 5000, current: 500 }),
    {
        PowerType::Standard(Limits::default())
    }
}

/// Completion and timer events fed back by the hardware side.
#[derive(Clone, Copy, Debug, PartialEq, Eq)]
pub enum HardwareEvent {
    PowerOn,
    PowerDeliveryReady(PowerType),
    SenseReady(Result<(), ()>),
    ConverterReady(Result<(), ()>),
    StartMainInterface,
    ReadoutAcquired(Channel, Readout),
}

/// Discrete button events from the front panel.
#[derive(Clone, Copy, Debug, PartialEq, Eq)]
pub enum InterfaceEvent {
    ButtonUp,
    ButtonDown,
    ButtonLeft,
    ButtonRight,
    ButtonEnter(Change),
    ButtonSwitch(Change),
    ButtonSettings(Change),
    ButtonChannel(Channel),
}

/// Any event the application consumes.
#[derive(Clone, Copy, Debug, PartialEq, Eq)]
pub enum AppEvent {
    Hardware(HardwareEvent),
    Interface(InterfaceEvent),
}

/// Orders for the hardware side of the dispatcher.  Voltages and currents
/// are milli-units; the delay of a deferred event is in milliseconds.
#[derive(Clone, Copy, Debug, PartialEq, Eq)]
pub enum HardwareTask {
    EnablePowerDelivery,
    EnableSense,
    EnableConverter,
    EnableReadoutLoop,
    UpdateConverterVoltage(Channel, i32),
    UpdateConverterCurrent(Channel, i32),
    UpdateConverterState(Channel, bool),
    DelayedHardwareEvent(u64, HardwareEvent),
}

/// How a channel box is drawn: selected/unselected x active/inactive.
#[derive(Clone, Copy, Debug, PartialEq, Eq)]
pub enum ChannelFocus {
    SelectedActive,
    UnselectedActive,
    SelectedInactive,
    UnselectedInactive,
}

/// Whether an edit is pending confirmation, and for which channel.
#[derive(Clone, Copy, Debug, PartialEq, Eq)]
pub enum ConfirmState {
    AwaitModify,
    AwaitConfirmModify(Option<Channel>),
}

/// Which function button is currently highlighted.
#[derive(Clone, Copy, Debug, PartialEq, Eq)]
pub enum FunctionButton {
    Enter,
    Switch,
    Settings,
}

/// Orders for the display side of the dispatcher (pure rendering).
#[derive(Clone, Copy, Debug, PartialEq, Eq)]
pub enum DisplayTask {
    SetupSplash,
    ConfirmPowerDelivery(PowerType),
    ConfirmSense(Result<(), ()>),
    ConfirmConverter(Result<(), ()>),
    SetupMain(PowerType, Limits, Limits),
    UpdateReadout(Channel, Readout),
    UpdateSetpoint(Channel, Limits, Option<SetSelect>, ConfirmState, Option<DecimalPrecision>),
    UpdateChannelFocus(ChannelFocus, ChannelFocus),
    UpdateSetState(Channel, SetState, Option<SetSelect>, ConfirmState),
    UpdateButton(ConfirmState, Option<FunctionButton>),
    SetupSettings,
}

/// One order for the dispatcher, hardware or display.
#[derive(Clone, Copy, Debug, PartialEq, Eq)]
pub enum Task {
    Hardware(HardwareTask),
    Display(DisplayTask),
}

/// The ordered list of tasks one event produced, consumed in order.
#[derive(Clone, Debug, PartialEq, Eq)]
pub struct AppTask {
    pub tasks: Vec<Task>,
}

impl View for AppTask {
    type V = Seq<Task>;

    open spec fn view(&self) -> Seq<Task> {
        self.tasks@
    }
}

/// Accumulates tasks in emission order.
#[derive(Clone, Debug)]
pub struct AppTaskBuilder {
    inner: AppTask,
}

impl View for AppTaskBuilder {
    type V = Seq<Task>;

    closed spec fn view(&self) -> Seq<Task> {
        self.inner.tasks@
    }
}

impl AppTaskBuilder {
    pub fn new() -> (r: Self)
        ensures
            r@ == Seq::<Task>::empty(),
    {
        let r = AppTaskBuilder { inner: AppTask { tasks: Vec::new() } };
        proof {
            assert(r@ =~= Seq::<Task>::empty());
        }
        r
    }

    /// Append all of `other`'s tasks after this builder's own.
    pub fn extend(self, other: AppTaskBuilder) -> (r: Self)
        ensures
            r@ == self@ + other@,
    {
        let mut tasks = self.inner.tasks;
        let mut more = other.inner.tasks;
        let ghost left = tasks@;
        let ghost right = more@;
        let mut i: usize = 0;
        while i < more.len()
            invariant
                i <= more.len(),
                more@ == right,
                tasks@ == left + right.take(i as int),
            decreases more.len() - i,
        {
            tasks.push(more[i]);
            i = i + 1;
            proof {
                assert(tasks@ =~= left + right.take(i as int));
            }
        }
        proof {
            assert(left + right.take(right.len() as int) =~= left + right);
        }
        AppTaskBuilder { inner: AppTask { tasks } }
    }

    pub fn push_task(self, task: Task) -> (r: Self)
        ensures
            r@ == self@.push(task),
    {
        let mut tasks = self.inner.tasks;
        tasks.push(task);
        AppTaskBuilder { inner: AppTask { tasks } }
    }

    pub fn hardware(self, task: HardwareTask) -> (r: Self)
        ensures
            r@ == self@.push(Task::Hardware(task)),
    {
        self.push_task(Task::Hardware(task))
    }

    pub fn display(self, task: DisplayTask) -> (r: Self)
        ensures
            r@ == self@.push(Task::Display(task)),
    {
        self.push_task(Task::Display(task))
    }

    pub fn build(self) -> (r: Option<AppTask>)
        ensures
            r matches Some(t) && t@ == self@,
    {
        Some(self.inner)
    }

    /// A single hardware task, already built.
    pub fn hardware_task(task: HardwareTask) -> (r: Option<AppTask>)
        ensures
            r matches Some(t) && t@ == seq![Task::Hardware(task)],
    {
        Self::new().hardware(task).build()
    }

    /// A single display task, already built.
    pub fn display_task(task: DisplayTask) -> (r: Option<AppTask>)
        ensures
            r matches Some(t) && t@ == seq![Task::Display(task)],
    {
        Self::new().display(task).build()
    }
}

/// Commands for the sense context: bring the chips up, then start the
/// periodic readout loop.
#[derive(Clone, Copy, Debug, PartialEq, Eq, Structural)]
pub enum SenseEvent {
    Enable,
    StartReadoutLoop,
}

} // verus!
