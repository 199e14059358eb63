//! The scheduling core: it owns the dive computer, the filters of the four
//! buttons and the two periodic tasks, and turns each event of the hardware
//! into the next state and the action that the hardware must take.
//!
//! The computer is reached only through the scheduler, which is borrowed
//! exclusively by whoever handles an event: two handlers never touch the state
//! at the same time. Instants and periods are in milliseconds of the
//! monotonic clock.
//!
//! Button events come before timer events. Of two timers that are both due,
//! the one that was due first is served first, and together the logic tick
//! goes before the presentation. With nothing pending, the processor waits.

use crate::computer::{Command, DiveComputer, DiveState, MAX_TICK_MS};
use crate::debounce::{ChannelState, DebounceChannel, Pending};
use crate::periodic::{PeriodicTask, TaskState};
use vstd::prelude::*;

verus! {

/// The four buttons.
#[derive(PartialEq, Eq, Clone, Copy, Debug, Structural)]
pub enum Button {
    /// Fills air.
    A,
    /// Switches the unit.
    B,
    /// Raises the rate.
    X,
    /// Lowers the rate.
    Y,
}

impl Button {
    /// The command bound to the button.
    pub open spec fn binding(self) -> Command {
        match self {
            Button::A => Command::FillAir,
            Button::B => Command::ToggleUnit,
            Button::X => Command::IncreaseRate,
            Button::Y => Command::DecreaseRate,
        }
    }

    /// The command bound to the button.
    pub fn command(&self) -> (command: Command)
        ensures
            command == self.binding(),
    {
        match self {
            Button::A => Command::FillAir,
            Button::B => Command::ToggleUnit,
            Button::X => Command::IncreaseRate,
            Button::Y => Command::DecreaseRate,
        }
    }
}

/// Trigger flags of the four buttons, as read in one interrupt.
#[derive(PartialEq, Eq, Clone, Copy, Debug, Structural)]
pub struct ButtonFlags {
    pub a: Pending,
    pub b: Pending,
    pub x: Pending,
    pub y: Pending,
}

impl ButtonFlags {
    /// Whether any flag is set.
    pub open spec fn any(self) -> bool {
        ||| self.a.edge
        ||| self.a.level
        ||| self.b.edge
        ||| self.b.level
        ||| self.x.edge
        ||| self.x.level
        ||| self.y.edge
        ||| self.y.level
    }

    /// No flag set.
    pub fn none() -> (flags: Self)
        ensures
            !flags.any(),
    {
        let clear = Pending { edge: false, level: false };
        ButtonFlags { a: clear, b: clear, x: clear, y: clear }
    }

    /// Whether any flag is set.
    pub fn is_any(&self) -> (any: bool)
        ensures
            any == self.any(),
    {
        self.a.edge || self.a.level || self.b.edge || self.b.level || self.x.edge || self.x.level
            || self.y.edge || self.y.level
    }
}

/// The two periodic tasks.
#[derive(PartialEq, Eq, Clone, Copy, Debug, Structural)]
pub enum Task {
    /// Advances the simulation by one period.
    Logic,
    /// Renders the state for the display.
    Presentation,
}

/// An event of the hardware.
#[derive(PartialEq, Eq, Clone, Copy, Debug, Structural)]
pub enum Event {
    /// The button interrupt, with the instant and the flags it found.
    Buttons { now: u64, flags: ButtonFlags },
    /// The timer of a periodic task expired.
    Timer(Task),
}

/// What the hardware must do after an event.
#[derive(PartialEq, Eq, Clone, Copy, Debug, Structural)]
pub enum Action {
    /// Clear these trigger flags, fired or not.
    ClearFlags(ButtonFlags),
    /// Set the timer of the task to expire at the instant `at`; for the
    /// presentation, also render the computer and show the text.
    Schedule { task: Task, at: u64 },
}

/// Windows of the buttons and periods of the tasks, in milliseconds.
#[derive(PartialEq, Eq, Clone, Copy, Debug, Structural)]
pub struct Timing {
    pub debounce_window: u64,
    pub repeat_window: u64,
    pub logic_period: u64,
    pub presentation_period: u64,
}

impl Timing {
    /// A held button repeats more slowly than it debounces, the logic ticks
    /// at least once a second, and the presentation has a period.
    pub open spec fn valid(self) -> bool {
        &&& self.debounce_window < self.repeat_window
        &&& 0 < self.logic_period <= MAX_TICK_MS
        &&& 0 < self.presentation_period
    }

    /// Debounce after 100 ms, repeat after 200 ms, tick the logic twice a
    /// second and refresh the display ten times a second.
    pub fn standard() -> (timing: Self)
        ensures
            timing.valid(),
            timing == (Timing {
                debounce_window: 100,
                repeat_window: 200,
                logic_period: 500,
                presentation_period: 100,
            }),
    {
        Timing {
            debounce_window: 100,
            repeat_window: 200,
            logic_period: 500,
            presentation_period: 100,
        }
    }
}

/// The mathematical state of the scheduler.
pub struct SchedulerState {
    pub computer: DiveState,
    pub a: ChannelState,
    pub b: ChannelState,
    pub x: ChannelState,
    pub y: ChannelState,
    pub logic: TaskState,
    pub presentation: TaskState,
}

impl SchedulerState {
    /// The state at start-up: a fresh computer, filters whose last trigger
    /// was at instant zero, and both tasks due at once.
    pub open spec fn initial(timing: Timing, now: nat) -> SchedulerState {
        let channel = ChannelState {
            last_trigger: 0,
            debounce_window: timing.debounce_window as nat,
            repeat_window: timing.repeat_window as nat,
        };
        SchedulerState {
            computer: DiveState::initial(),
            a: channel,
            b: channel,
            x: channel,
            y: channel,
            logic: TaskState { period: timing.logic_period as nat, next_due: now },
            presentation: TaskState { period: timing.presentation_period as nat, next_due: now },
        }
    }

    /// Every part is valid, and the logic period is a tick that the computer
    /// accepts.
    pub open spec fn valid(self) -> bool {
        &&& self.computer.valid()
        &&& self.a.valid()
        &&& self.b.valid()
        &&& self.x.valid()
        &&& self.y.valid()
        &&& self.logic.valid()
        &&& self.presentation.valid()
        &&& self.logic.period <= MAX_TICK_MS
    }

    /// The filter of a button.
    pub open spec fn channel(self, button: Button) -> ChannelState {
        match button {
            Button::A => self.a,
            Button::B => self.b,
            Button::X => self.x,
            Button::Y => self.y,
        }
    }

    /// The state with the filter of a button replaced.
    pub open spec fn with_channel(self, button: Button, channel: ChannelState) -> SchedulerState {
        match button {
            Button::A => SchedulerState { a: channel, ..self },
            Button::B => SchedulerState { b: channel, ..self },
            Button::X => SchedulerState { x: channel, ..self },
            Button::Y => SchedulerState { y: channel, ..self },
        }
    }

    /// The state after the flags of one button: its filter takes the flags,
    /// and where it fires, the computer carries out the button's command.
    pub open spec fn press(self, now: nat, button: Button, pending: Pending) -> SchedulerState {
        let channel = self.channel(button);
        let pressed = self.with_channel(button, channel.interrupt(now, pending));
        if channel.fires(now, pending) {
            SchedulerState { computer: self.computer.apply(button.binding()), ..pressed }
        } else {
            pressed
        }
    }

    /// The state after a button interrupt: the buttons are taken in the order
    /// A, B, X, Y.
    pub open spec fn buttons(self, now: nat, flags: ButtonFlags) -> SchedulerState {
        self.press(now, Button::A, flags.a).press(now, Button::B, flags.b).press(
            now,
            Button::X,
            flags.x,
        ).press(now, Button::Y, flags.y)
    }

    /// The periodic task.
    pub open spec fn task(self, task: Task) -> TaskState {
        match task {
            Task::Logic => self.logic,
            Task::Presentation => self.presentation,
        }
    }

    /// The state after the timer of a task: the task is re-armed; the logic
    /// tick then advances the computer by its period, the presentation leaves
    /// the computer as it is.
    pub open spec fn tick(self, task: Task) -> SchedulerState {
        match task {
            Task::Logic => SchedulerState {
                logic: self.logic.rearm(),
                computer: self.computer.advance(self.logic.period),
                ..self
            },
            Task::Presentation => SchedulerState { presentation: self.presentation.rearm(), ..self },
        }
    }

    /// The state after an event.
    pub open spec fn handle(self, event: Event) -> SchedulerState {
        match event {
            Event::Buttons { now, flags } => self.buttons(now as nat, flags),
            Event::Timer(task) => self.tick(task),
        }
    }

    /// The action that answers an event: every flag that a button interrupt
    /// found is cleared, and a task is scheduled for the instant for which it
    /// was re-armed.
    pub open spec fn action(self, event: Event) -> Action {
        match event {
            Event::Buttons { now, flags } => Action::ClearFlags(flags),
            Event::Timer(task) => Action::Schedule {
                task,
                at: self.task(task).rearm().next_due as u64,
            },
        }
    }

    /// The event to serve at `now`, given the button flags: the buttons where
    /// any flag is set; else the task that is due, of two the one that was
    /// due first, and the logic where both were due together; else none.
    pub open spec fn select(self, now: u64, flags: ButtonFlags) -> Option<Event> {
        if flags.any() {
            Some(Event::Buttons { now, flags })
        } else if self.logic.is_due(now as nat) && !(self.presentation.is_due(now as nat)
            && self.presentation.next_due < self.logic.next_due) {
            Some(Event::Timer(Task::Logic))
        } else if self.presentation.is_due(now as nat) {
            Some(Event::Timer(Task::Presentation))
        } else {
            None
        }
    }
}

/// Every event keeps a valid state valid.
pub proof fn lemma_handle_keeps_valid(state: SchedulerState, event: Event)
    requires
        state.valid(),
    ensures
        state.handle(event).valid(),
{
    match event {
        Event::Buttons { now, flags } => {
            let after_a = state.press(now as nat, Button::A, flags.a);
            let after_b = after_a.press(now as nat, Button::B, flags.b);
            let after_x = after_b.press(now as nat, Button::X, flags.x);
            assert(after_a.valid());
            assert(after_b.valid());
            assert(after_x.valid());
        },
        Event::Timer(task) => {},
    }
}

/// Buttons come first: with any flag set the buttons are served, whatever
/// timers are due.
pub proof fn lemma_buttons_before_timers(state: SchedulerState, now: u64, flags: ButtonFlags)
    requires
        flags.any(),
    ensures
        state.select(now, flags) == Some(Event::Buttons { now, flags }),
{
}

/// Timers are served in the order in which they were due, the logic first
/// where both were due together.
pub proof fn lemma_timers_first_due_first(state: SchedulerState, now: u64, flags: ButtonFlags)
    requires
        !flags.any(),
        state.logic.is_due(now as nat),
        state.presentation.is_due(now as nat),
    ensures
        state.logic.next_due <= state.presentation.next_due ==> state.select(now, flags) == Some(
            Event::Timer(Task::Logic),
        ),
        state.presentation.next_due < state.logic.next_due ==> state.select(now, flags) == Some(
            Event::Timer(Task::Presentation),
        ),
{
}

/// A timer is served only when due, and nothing is served exactly when no
/// flag is set and no task is due.
pub proof fn lemma_idle_when_nothing_pending(state: SchedulerState, now: u64, flags: ButtonFlags)
    ensures
        state.select(now, flags) is None <==> !flags.any() && !state.logic.is_due(now as nat)
            && !state.presentation.is_due(now as nat),
        forall|task: Task| state.select(now, flags) == Some(Event::Timer(task)) ==> state.task(
            task,
        ).is_due(now as nat),
{
}

/// A button interrupt carries out each button's command at most once, and
/// only the commands of buttons with a flag set.
pub proof fn lemma_press_dispatches_once(
    state: SchedulerState,
    now: nat,
    button: Button,
    pending: Pending,
)
    ensures
        state.press(now, button, pending).computer == state.computer || state.press(
            now,
            button,
            pending,
        ).computer == state.computer.apply(button.binding()),
        !pending.edge && !pending.level ==> state.press(now, button, pending) == state,
{
    let channel = state.channel(button);
    if !pending.edge && !pending.level {
        assert(state.with_channel(button, channel) == state);
    }
}

/// The scheduler.
pub struct Scheduler {
    computer: DiveComputer,
    a: DebounceChannel,
    b: DebounceChannel,
    x: DebounceChannel,
    y: DebounceChannel,
    logic: PeriodicTask,
    presentation: PeriodicTask,
}

impl View for Scheduler {
    type V = SchedulerState;

    closed spec fn view(&self) -> SchedulerState {
        SchedulerState {
            computer: self.computer@,
            a: self.a@,
            b: self.b@,
            x: self.x@,
            y: self.y@,
            logic: self.logic@,
            presentation: self.presentation@,
        }
    }
}

impl Scheduler {
    /// Holds of every scheduler.
    #[verifier::type_invariant]
    pub open spec fn well_formed(self) -> bool {
        self@.valid()
    }

    /// A scheduler that starts at `now` with a fresh computer and both tasks
    /// due at once, or nothing where the timing is not valid.
    pub fn new(timing: Timing, now: u64) -> (scheduler: Option<Self>)
        ensures
            scheduler is Some <==> timing.valid(),
            scheduler matches Some(s) ==> s@ == SchedulerState::initial(timing, now as nat)
                && s@.valid(),
    {
        if timing.logic_period > MAX_TICK_MS as u64 {
            return None;
        }
        let channel = match DebounceChannel::new(timing.debounce_window, timing.repeat_window) {
            Some(channel) => channel,
            None => { return None; },
        };
        let logic = match PeriodicTask::new(timing.logic_period, now) {
            Some(task) => task,
            None => { return None; },
        };
        let presentation = match PeriodicTask::new(timing.presentation_period, now) {
            Some(task) => task,
            None => { return None; },
        };
        Some(
            Scheduler {
                computer: DiveComputer::new(),
                a: channel,
                b: channel,
                x: channel,
                y: channel,
                logic,
                presentation,
            },
        )
    }

    /// The dive computer, to read.
    pub fn computer(&self) -> (computer: &DiveComputer)
        ensures
            computer@ == self@.computer,
    {
        &self.computer
    }

    /// The instant at which a task is next due.
    pub fn next_due(&self, task: Task) -> (at: u64)
        ensures
            at == self@.task(task).next_due,
    {
        match task {
            Task::Logic => self.logic.next_due(),
            Task::Presentation => self.presentation.next_due(),
        }
    }

    /// The event to serve at `now`, given the button flags, or nothing where
    /// the processor may wait for the next interrupt.
    pub fn select(&self, now: u64, flags: ButtonFlags) -> (event: Option<Event>)
        ensures
            event == self@.select(now, flags),
    {
        if flags.is_any() {
            Some(Event::Buttons { now, flags })
        } else if self.logic.is_due(now) && !(self.presentation.is_due(now)
            && self.presentation.next_due() < self.logic.next_due()) {
            Some(Event::Timer(Task::Logic))
        } else if self.presentation.is_due(now) {
            Some(Event::Timer(Task::Presentation))
        } else {
            None
        }
    }

    /// Takes the flags of one button and carries out its command where the
    /// filter fires.
    fn press(&mut self, now: u64, button: Button, pending: Pending)
        ensures
            final(self)@ == old(self)@.press(now as nat, button, pending),
            final(self)@.valid(),
    {
        proof {
            use_type_invariant(&*self);
        }
        // Each part is changed on a copy and stored back whole.
        let mut channel = match button {
            Button::A => self.a,
            Button::B => self.b,
            Button::X => self.x,
            Button::Y => self.y,
        };
        let fired = channel.on_interrupt(now, pending);
        match button {
            Button::A => { self.a = channel; },
            Button::B => { self.b = channel; },
            Button::X => { self.x = channel; },
            Button::Y => { self.y = channel; },
        }
        if fired {
            let mut computer = self.computer;
            computer.apply(button.command());
            self.computer = computer;
        }
    }

    /// Handles an event and gives the action that the hardware must take.
    pub fn handle(&mut self, event: Event) -> (action: Action)
        ensures
            final(self)@ == old(self)@.handle(event),
            final(self)@.valid(),
            action == old(self)@.action(event),
    {
        proof {
            use_type_invariant(&*self);
        }
        match event {
            Event::Buttons { now, flags } => {
                self.press(now, Button::A, flags.a);
                self.press(now, Button::B, flags.b);
                self.press(now, Button::X, flags.x);
                self.press(now, Button::Y, flags.y);
                Action::ClearFlags(flags)
            },
            Event::Timer(Task::Logic) => {
                // The task is re-armed before its work is done.
                let mut logic = self.logic;
                let interval_ms = logic.period() as u32;
                let at = logic.rearm();
                self.logic = logic;
                let mut computer = self.computer;
                computer.change_depth(interval_ms);
                self.computer = computer;
                Action::Schedule { task: Task::Logic, at }
            },
            Event::Timer(Task::Presentation) => {
                let mut presentation = self.presentation;
                let at = presentation.rearm();
                self.presentation = presentation;
                Action::Schedule { task: Task::Presentation, at }
            },
        }
    }
}

} // verus!
