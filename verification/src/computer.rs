//! The dive state machine: depth, vertical rate, air reserve, elapsed dive
//! time and display unit, with the alarm that is derived from them.
//!
//! [`DiveState`] is the mathematical model and holds the transition functions;
//! [`DiveComputer`] is the executable state, and each of its operations is
//! proved to compute the matching transition of its model.

use crate::clock::ticks_per_second;
use crate::gas::{
    gas_rate,
    gas_rate_in_cl,
    gas_to_surface,
    gas_to_surface_in_cl,
    lemma_gas_rate_linear,
    lemma_gas_to_surface_closed_form,
    lemma_gas_to_surface_fits,
    lemma_gas_to_surface_monotonic,
    MAX_SAFE_ASCEND_RATE,
};
use vstd::arithmetic::div_mod::lemma_fundamental_div_mod;
use vstd::prelude::*;

verus! {

/// Depth in millimetres beyond which the low alarm is raised.
pub const MAX_DEPTH: u32 = 40_000;

/// Largest air reserve, in centilitres (2000 litres).
pub const MAX_AIR: u32 = 2000 * 100;

/// Air added by one fill, in centilitres.
pub const AIR_INCREMENT: u32 = 500;

/// Air reserve of a fresh computer, in centilitres.
pub const INITIAL_AIR: u32 = 5000;

/// Largest vertical speed in either direction, in metres per minute.
pub const MAX_RATE: i32 = 50;

/// Largest depth the computer tracks, in millimetres.
pub const DEPTH_LIMIT: u32 = 2_147_483_647;

/// Longest tick, in milliseconds, that still gives a whole tick per second.
pub const MAX_TICK_MS: u32 = 1000;

/// Deepest start, in metres, from which a full air reserve reaches the
/// surface.
pub const MAX_REACH_M: u32 = 214;

/// Unit in which lengths are shown.
#[derive(PartialEq, Eq, Clone, Copy, Debug, Structural)]
pub enum Unit {
    /// Metres.
    Metric,
    /// Feet.
    Imperial,
}

impl Unit {
    /// The label that follows a length on the display.
    pub open spec fn text(self) -> Seq<char> {
        match self {
            Unit::Metric => "M"@,
            Unit::Imperial => "FT"@,
        }
    }

    /// The label that follows a length on the display.
    pub fn label(&self) -> (label: &'static str)
        ensures
            label@ == self.text(),
    {
        match self {
            Unit::Metric => "M",
            Unit::Imperial => "FT",
        }
    }
}

/// Safety alarm, from the most to the least urgent.
#[derive(PartialEq, Eq, Clone, Copy, Debug, Structural)]
pub enum Alarm {
    /// The air does not reach the surface.
    High,
    /// The ascent is faster than is safe.
    Medium,
    /// The depth is beyond the maximum.
    Low,
    /// No alarm.
    Off,
}

impl Alarm {
    /// The label shown for this alarm.
    pub open spec fn text(self) -> Seq<char> {
        match self {
            Alarm::High => "HIGH"@,
            Alarm::Medium => "MEDIUM"@,
            Alarm::Low => "LOW"@,
            Alarm::Off => "NONE"@,
        }
    }

    /// The label shown for this alarm.
    pub fn label(&self) -> (label: &'static str)
        ensures
            label@ == self.text(),
    {
        match self {
            Alarm::High => "HIGH",
            Alarm::Medium => "MEDIUM",
            Alarm::Low => "LOW",
            Alarm::Off => "NONE",
        }
    }

    /// Number of characters of the label.
    pub fn display_len(&self) -> (len: usize)
        ensures
            len == self.text().len(),
    {
        proof {
            reveal_strlit("HIGH");
            reveal_strlit("MEDIUM");
            reveal_strlit("LOW");
            reveal_strlit("NONE");
        }
        match self {
            Alarm::High => 4,
            Alarm::Medium => 6,
            Alarm::Low => 3,
            Alarm::Off => 4,
        }
    }
}

/// A command bound to a button.
#[derive(PartialEq, Eq, Clone, Copy, Debug, Structural)]
pub enum Command {
    /// Refill air by one increment.
    FillAir,
    /// Switch between metres and feet.
    ToggleUnit,
    /// Descend faster, or ascend more slowly.
    IncreaseRate,
    /// Ascend faster, or descend more slowly.
    DecreaseRate,
}

/// The quotient of `x` by a positive `d`, rounded toward zero.
pub open spec fn div_toward_zero(x: int, d: int) -> int {
    if x >= 0 {
        x / d
    } else {
        -((-x) / d)
    }
}

/// The mathematical state of a dive computer.
pub struct DiveState {
    /// Unit in which lengths are shown.
    pub unit: Unit,
    /// Depth below the surface, in millimetres.
    pub depth_mm: nat,
    /// Vertical speed in metres per minute; positive is descending.
    pub rate: int,
    /// Air reserve, in centilitres.
    pub air_cl: nat,
    /// Time spent below the surface, in milliseconds.
    pub elapsed_ms: nat,
}

/// One transition of the state machine.
pub enum Transition {
    /// A button command.
    Command(Command),
    /// A simulation tick of the given length in milliseconds.
    Advance(nat),
}

impl Transition {
    /// Whether the state machine accepts this transition: a tick is neither
    /// empty nor longer than a second.
    pub open spec fn admissible(self) -> bool {
        match self {
            Transition::Command(_) => true,
            Transition::Advance(interval_ms) => 0 < interval_ms <= MAX_TICK_MS,
        }
    }
}

impl DiveState {
    /// The state of a fresh computer: at the surface, at rest, metric.
    pub open spec fn initial() -> DiveState {
        DiveState { unit: Unit::Metric, depth_mm: 0, rate: 0, air_cl: INITIAL_AIR as nat, elapsed_ms: 0 }
    }

    /// The bounds that every state of a computer keeps.
    pub open spec fn valid(self) -> bool {
        &&& self.depth_mm <= DEPTH_LIMIT
        &&& -MAX_RATE <= self.rate <= MAX_RATE
        &&& self.air_cl <= MAX_AIR
        &&& self.elapsed_ms <= u64::MAX
    }

    /// Depth in whole metres.
    pub open spec fn depth_m(self) -> nat {
        self.depth_mm / 1000
    }

    /// Vertical speed in millimetres per minute.
    pub open spec fn rate_mm_per_min(self) -> int {
        self.rate * 1000
    }

    /// The alarm, decided in order of urgency: not enough air to reach the
    /// surface, then ascending too fast, then too deep.
    pub open spec fn alarm(self) -> Alarm {
        if gas_to_surface(self.depth_m()) > self.air_cl {
            Alarm::High
        } else if self.rate < -MAX_SAFE_ASCEND_RATE {
            Alarm::Medium
        } else if self.depth_mm > MAX_DEPTH {
            Alarm::Low
        } else {
            Alarm::Off
        }
    }

    /// Refills air by one increment up to the maximum; only at the surface.
    pub open spec fn fill_air(self) -> DiveState {
        if self.depth_mm == 0 {
            DiveState {
                air_cl: if self.air_cl + AIR_INCREMENT > MAX_AIR {
                    MAX_AIR as nat
                } else {
                    self.air_cl + AIR_INCREMENT as nat
                },
                ..self
            }
        } else {
            self
        }
    }

    /// Raises the rate by one metre per minute, up to the maximum.
    pub open spec fn increase_rate(self) -> DiveState {
        DiveState { rate: if self.rate + 1 > MAX_RATE { MAX_RATE as int } else { self.rate + 1 }, ..self }
    }

    /// Lowers the rate by one metre per minute, down to the minimum; does
    /// nothing at the surface, from where one cannot ascend.
    pub open spec fn decrease_rate(self) -> DiveState {
        if self.depth_mm > 0 {
            DiveState {
                rate: if self.rate - 1 < -MAX_RATE { -MAX_RATE as int } else { self.rate - 1 },
                ..self
            }
        } else {
            self
        }
    }

    /// Switches the display unit; the stored values stay as they are.
    pub open spec fn toggle_unit(self) -> DiveState {
        DiveState {
            unit: if self.unit == Unit::Imperial { Unit::Metric } else { Unit::Imperial },
            ..self
        }
    }

    /// The state after a button command.
    pub open spec fn apply(self, command: Command) -> DiveState {
        match command {
            Command::FillAir => self.fill_air(),
            Command::ToggleUnit => self.toggle_unit(),
            Command::IncreaseRate => self.increase_rate(),
            Command::DecreaseRate => self.decrease_rate(),
        }
    }

    /// Whole ticks per second for ticks of `interval_ms` milliseconds.
    pub open spec fn tick_rate(interval_ms: nat) -> nat {
        1000nat / interval_ms
    }

    /// Change of depth in millimetres over one tick: the rate in millimetres
    /// per minute over the ticks per minute, rounded toward zero.
    pub open spec fn depth_change(self, interval_ms: nat) -> int {
        div_toward_zero(self.rate * 1000, 60 * Self::tick_rate(interval_ms) as int)
    }

    /// Depth after one tick: the old depth moved by the change and kept
    /// between the surface and the depth limit.
    pub open spec fn depth_after(self, interval_ms: nat) -> nat {
        let moved = self.depth_mm + self.depth_change(interval_ms);
        if moved < 0 {
            0
        } else if moved > DEPTH_LIMIT {
            DEPTH_LIMIT as nat
        } else {
            moved as nat
        }
    }

    /// Air breathed during one tick at `depth_mm`, in centilitres.
    pub open spec fn air_used(depth_mm: nat, interval_ms: nat) -> nat {
        gas_rate(depth_mm / 1000) / Self::tick_rate(interval_ms)
    }

    /// The state after a tick of `interval_ms` milliseconds. The depth moves
    /// first. At the surface an ascent stops; below it the dive time grows by
    /// the tick, up to the largest value it can hold, and the air breathed at
    /// the new depth leaves the reserve, which stops at zero.
    pub open spec fn advance(self, interval_ms: nat) -> DiveState {
        let depth = self.depth_after(interval_ms);
        if depth == 0 {
            DiveState { depth_mm: 0, rate: if self.rate < 0 { 0 } else { self.rate }, ..self }
        } else {
            let used = Self::air_used(depth, interval_ms);
            DiveState {
                depth_mm: depth,
                air_cl: if used > self.air_cl { 0 } else { (self.air_cl - used) as nat },
                elapsed_ms: if self.elapsed_ms + interval_ms > u64::MAX {
                    u64::MAX as nat
                } else {
                    self.elapsed_ms + interval_ms
                },
                ..self
            }
        }
    }

    /// The state after one transition.
    pub open spec fn step(self, transition: Transition) -> DiveState {
        match transition {
            Transition::Command(command) => self.apply(command),
            Transition::Advance(interval_ms) => self.advance(interval_ms),
        }
    }

    /// The state after a sequence of transitions, first to last.
    pub open spec fn run(self, transitions: Seq<Transition>) -> DiveState
        decreases transitions.len(),
    {
        if transitions.len() == 0 {
            self
        } else {
            self.run(transitions.drop_last()).step(transitions.last())
        }
    }
}

/// The quotients of a tick, from the bounds that fix them. The tick rate is
/// the `hz` with `hz * interval_ms <= 1000 < (hz + 1) * interval_ms`. The
/// change of depth is the `change` with
/// `change * 60 * hz <= rate * 1000 < (change + 1) * 60 * hz` where the rate
/// is not negative, and with the mirrored bounds where it is. Called with
/// numbers for `hz` and `change`, this gives the state after a tick without
/// any division.
pub proof fn lemma_tick_values(state: DiveState, interval_ms: int, hz: int, change: int)
    requires
        0 < interval_ms <= MAX_TICK_MS,
        hz * interval_ms <= 1000 < (hz + 1) * interval_ms,
        state.rate >= 0 ==> change * (60 * hz) <= state.rate * 1000 < (change + 1) * (60 * hz),
        state.rate < 0 ==> (change - 1) * (60 * hz) < state.rate * 1000 <= change * (60 * hz),
    ensures
        DiveState::tick_rate(interval_ms as nat) == hz,
        state.depth_change(interval_ms as nat) == change,
{
    lemma_quotient(1000, interval_ms, hz);
    assert(hz > 0) by (nonlinear_arith)
        requires
            1000 < (hz + 1) * interval_ms,
            0 < interval_ms <= 1000,
    ;
    if state.rate >= 0 {
        lemma_quotient(state.rate * 1000, 60 * hz, change);
    } else {
        let d = 60 * hz;
        let x = state.rate * 1000;
        assert((-change) * d <= -x < (-change + 1) * d) by (nonlinear_arith)
            requires
                (change - 1) * d < x <= change * d,
        ;
        lemma_quotient(-x, d, -change);
    }
}

/// A quotient is fixed by its bounds: `q` is `x / d` where
/// `q * d <= x < (q + 1) * d`.
proof fn lemma_quotient(x: int, d: int, q: int)
    requires
        d > 0,
        q * d <= x < (q + 1) * d,
    ensures
        x / d == q,
{
    lemma_fundamental_div_mod(x, d);
    let k = x / d;
    let r = x % d;
    assert(k == q) by (nonlinear_arith)
        requires
            d > 0,
            0 <= r < d,
            x == d * k + r,
            q * d <= x < (q + 1) * d,
    ;
}

/// A tick of at most a second gives between one and a thousand ticks per
/// second.
pub proof fn lemma_tick_rate_bounds(interval_ms: nat)
    requires
        0 < interval_ms <= MAX_TICK_MS,
    ensures
        1 <= DiveState::tick_rate(interval_ms) <= 1000,
{
    assert(1 <= 1000nat / interval_ms <= 1000) by (nonlinear_arith)
        requires
            0 < interval_ms <= 1000,
    ;
}

/// Over one tick the depth changes by no more than it would in a minute.
pub proof fn lemma_depth_change_bounds(state: DiveState, interval_ms: nat)
    requires
        0 < interval_ms <= MAX_TICK_MS,
    ensures
        state.rate >= 0 ==> 0 <= state.depth_change(interval_ms) <= state.rate_mm_per_min(),
        state.rate <= 0 ==> state.rate_mm_per_min() <= state.depth_change(interval_ms) <= 0,
{
    lemma_tick_rate_bounds(interval_ms);
    let d = 60 * DiveState::tick_rate(interval_ms) as int;
    let x = state.rate_mm_per_min();
    if x >= 0 {
        assert(0 <= x / d <= x) by (nonlinear_arith)
            requires
                x >= 0,
                d >= 1,
        ;
    } else {
        assert(0 <= (-x) / d <= -x) by (nonlinear_arith)
            requires
                x < 0,
                d >= 1,
        ;
    }
}

/// Every admissible transition keeps a valid state valid.
pub proof fn lemma_step_keeps_valid(state: DiveState, transition: Transition)
    requires
        state.valid(),
        transition.admissible(),
    ensures
        state.step(transition).valid(),
{
}

/// Every state reached from a fresh computer is valid: the depth is never
/// negative nor beyond the limit, the air stays between zero and the
/// maximum, and the rate within fifty metres per minute either way.
pub proof fn lemma_reachable_states_valid(transitions: Seq<Transition>)
    requires
        forall|i: int| 0 <= i < transitions.len() ==> (#[trigger] transitions[i]).admissible(),
    ensures
        DiveState::initial().run(transitions).valid(),
        DiveState::initial().run(transitions).depth_mm >= 0,
        0 <= DiveState::initial().run(transitions).air_cl <= 200_000,
        -50_000 <= DiveState::initial().run(transitions).rate_mm_per_min() <= 50_000,
    decreases transitions.len(),
{
    if transitions.len() > 0 {
        lemma_reachable_states_valid(transitions.drop_last());
        lemma_step_keeps_valid(
            DiveState::initial().run(transitions.drop_last()),
            transitions.last(),
        );
    }
}

/// A tick that ends at the surface leaves no ascent: the rate is not
/// negative afterwards.
pub proof fn lemma_no_ascent_at_surface(state: DiveState, interval_ms: nat)
    ensures
        state.advance(interval_ms).depth_mm == 0 ==> state.advance(interval_ms).rate >= 0,
{
}

/// Dive time never runs backwards, and it grows only by a tick that ends
/// below the surface.
pub proof fn lemma_elapsed_time_monotonic(state: DiveState, transition: Transition)
    requires
        state.valid(),
    ensures
        state.step(transition).elapsed_ms >= state.elapsed_ms,
        state.step(transition).elapsed_ms > state.elapsed_ms ==> transition is Advance
            && state.step(transition).depth_mm > 0,
{
}

/// Air is refilled only at the surface: the reserve grows by no transition
/// but a fill at depth zero.
pub proof fn lemma_air_grows_only_at_surface(state: DiveState, transition: Transition)
    ensures
        state.step(transition).air_cl > state.air_cl ==> transition == Transition::Command(
            Command::FillAir,
        ) && state.depth_mm == 0,
{
}

/// A full reserve reaches the surface exactly from `MAX_REACH_M` metres or
/// less.
pub proof fn lemma_reach(depth_m: nat)
    ensures
        depth_m <= MAX_REACH_M <==> gas_to_surface(depth_m) <= MAX_AIR,
{
    lemma_gas_to_surface_closed_form(214);
    lemma_gas_to_surface_closed_form(215);
    assert(gas_to_surface(214) == 199_448);
    assert(gas_to_surface(215) == 201_240);
    if depth_m <= 214 {
        lemma_gas_to_surface_monotonic(depth_m, 214);
    } else {
        lemma_gas_to_surface_monotonic(215, depth_m);
    }
}

/// The alarm goes by urgency. Too little air gives the high alarm whatever
/// else holds, so a state with too little air that also ascends too fast
/// reports the high alarm; with enough air, too fast an ascent gives the
/// medium alarm whatever the depth; then comes the depth.
pub proof fn lemma_alarm_priority(state: DiveState)
    ensures
        gas_to_surface(state.depth_m()) > state.air_cl && state.rate < -15 ==> state.alarm()
            == Alarm::High,
        gas_to_surface(state.depth_m()) > state.air_cl ==> state.alarm() == Alarm::High,
        gas_to_surface(state.depth_m()) <= state.air_cl && state.rate < -15 ==> state.alarm()
            == Alarm::Medium,
        gas_to_surface(state.depth_m()) <= state.air_cl && state.rate >= -15 && state.depth_mm
            > 40_000 ==> state.alarm() == Alarm::Low,
        gas_to_surface(state.depth_m()) <= state.air_cl && state.rate >= -15 && state.depth_mm
            <= 40_000 ==> state.alarm() == Alarm::Off,
{
}

/// Switching the unit twice restores the state; switching it once changes
/// nothing but the unit.
pub proof fn lemma_toggle_unit_involution(state: DiveState)
    ensures
        state.toggle_unit().toggle_unit() == state,
        state.toggle_unit().unit != state.unit,
        state.toggle_unit().depth_mm == state.depth_mm,
        state.toggle_unit().rate == state.rate,
        state.toggle_unit().air_cl == state.air_cl,
        state.toggle_unit().elapsed_ms == state.elapsed_ms,
{
}

/// The dive computer.
#[derive(Clone, Copy, Debug)]
pub struct DiveComputer {
    /// Unit in which lengths are shown.
    unit: Unit,
    /// Depth in millimetres.
    depth: u32,
    /// Vertical speed in metres per minute.
    rate: i32,
    /// Air reserve in centilitres.
    air: u32,
    /// Elapsed dive time in milliseconds.
    edt: u64,
}

impl View for DiveComputer {
    type V = DiveState;

    closed spec fn view(&self) -> DiveState {
        DiveState {
            unit: self.unit,
            depth_mm: self.depth as nat,
            rate: self.rate as int,
            air_cl: self.air as nat,
            elapsed_ms: self.edt as nat,
        }
    }
}

impl DiveComputer {
    /// Holds of every value of the type.
    #[verifier::type_invariant]
    pub open spec fn well_formed(self) -> bool {
        self@.valid()
    }

    /// A fresh computer: at the surface, at rest, metric, with the initial
    /// air reserve.
    pub fn new() -> (computer: Self)
        ensures
            computer@ == DiveState::initial(),
            computer@.valid(),
    {
        DiveComputer { unit: Unit::Metric, air: INITIAL_AIR, depth: 0, edt: 0, rate: 0 }
    }

    /// A computer in the given state, or nothing where the state is not
    /// valid: the depth beyond the limit, the rate beyond the maximum in
    /// either direction, or more air than the maximum.
    pub fn from_parts(
        unit: Unit,
        depth_mm: u32,
        rate: i32,
        air_cl: u32,
        elapsed_ms: u64,
    ) -> (computer: Option<Self>)
        ensures
            computer is Some <==> (DiveState {
                unit,
                depth_mm: depth_mm as nat,
                rate: rate as int,
                air_cl: air_cl as nat,
                elapsed_ms: elapsed_ms as nat,
            }).valid(),
            computer matches Some(c) ==> c@ == (DiveState {
                unit,
                depth_mm: depth_mm as nat,
                rate: rate as int,
                air_cl: air_cl as nat,
                elapsed_ms: elapsed_ms as nat,
            }),
    {
        if depth_mm <= DEPTH_LIMIT && -MAX_RATE <= rate && rate <= MAX_RATE && air_cl <= MAX_AIR {
            Some(DiveComputer { unit, depth: depth_mm, rate, air: air_cl, edt: elapsed_ms })
        } else {
            None
        }
    }

    /// Unit in which lengths are shown.
    pub fn unit(&self) -> (unit: Unit)
        ensures
            unit == self@.unit,
    {
        self.unit
    }

    /// Depth in millimetres.
    pub fn depth(&self) -> (depth_mm: u32)
        ensures
            depth_mm == self@.depth_mm,
            self@.valid(),
    {
        proof {
            use_type_invariant(self);
        }
        self.depth
    }

    /// Vertical speed in metres per minute; positive is descending.
    pub fn rate(&self) -> (rate: i32)
        ensures
            rate == self@.rate,
            self@.valid(),
    {
        proof {
            use_type_invariant(self);
        }
        self.rate
    }

    /// Air reserve in centilitres.
    pub fn air(&self) -> (air_cl: u32)
        ensures
            air_cl == self@.air_cl,
            self@.valid(),
    {
        proof {
            use_type_invariant(self);
        }
        self.air
    }

    /// Elapsed dive time in milliseconds.
    pub fn elapsed_ms(&self) -> (elapsed_ms: u64)
        ensures
            elapsed_ms == self@.elapsed_ms,
    {
        self.edt
    }

    /// The alarm for the current state. The high alarm is up exactly when the
    /// gas to the surface, `4 d^2 + 76 d` from `d` whole metres, is more than
    /// the air in reserve.
    pub fn get_alarm(&self) -> (alarm: Alarm)
        ensures
            alarm == self@.alarm(),
            alarm == Alarm::High <==> 4 * (self@.depth_m() * self@.depth_m()) + 76
                * self@.depth_m() > self@.air_cl,
    {
        proof {
            use_type_invariant(self);
            lemma_gas_to_surface_closed_form(self@.depth_m());
        }
        let depth_m = self.depth / 1000;
        if depth_m > MAX_REACH_M {
            // No reserve is enough from here, so the sum need not be taken.
            proof {
                lemma_reach(depth_m as nat);
            }
            return Alarm::High;
        }
        proof {
            lemma_gas_to_surface_fits(depth_m as nat);
        }
        if gas_to_surface_in_cl(depth_m) > self.air {
            return Alarm::High;
        }
        if self.rate < -(MAX_SAFE_ASCEND_RATE as i32) {
            return Alarm::Medium;
        }
        if self.depth > MAX_DEPTH {
            return Alarm::Low;
        }
        Alarm::Off
    }

    /// Refills air by one increment, up to the maximum; only at the surface.
    pub fn fill_air(&mut self)
        ensures
            final(self)@ == old(self)@.fill_air(),
            final(self)@.valid(),
    {
        proof {
            use_type_invariant(&*self);
        }
        if self.depth == 0 {
            let filled = self.air + AIR_INCREMENT;
            self.air = if filled > MAX_AIR { MAX_AIR } else { filled };
        }
    }

    /// Raises the rate by one metre per minute, up to the maximum.
    pub fn increase_rate(&mut self)
        ensures
            final(self)@ == old(self)@.increase_rate(),
            final(self)@.valid(),
    {
        proof {
            use_type_invariant(&*self);
        }
        let raised = self.rate + 1;
        self.rate = if raised > MAX_RATE { MAX_RATE } else { raised };
    }

    /// Lowers the rate by one metre per minute, down to the minimum; does
    /// nothing at the surface.
    pub fn decrease_rate(&mut self)
        ensures
            final(self)@ == old(self)@.decrease_rate(),
            final(self)@.valid(),
    {
        proof {
            use_type_invariant(&*self);
        }
        if self.depth > 0 {
            let lowered = self.rate - 1;
            self.rate = if lowered < -MAX_RATE { -MAX_RATE } else { lowered };
        }
    }

    /// Advances the simulation by one tick of `interval_ms` milliseconds. The
    /// tick is neither empty nor longer than a second, so that there is at
    /// least one whole tick per second to divide by. On given numbers,
    /// `lemma_tick_values` gives the tick rate and the change of depth.
    pub fn change_depth(&mut self, interval_ms: u32)
        requires
            0 < interval_ms <= MAX_TICK_MS,
        ensures
            final(self)@ == old(self)@.advance(interval_ms as nat),
            final(self)@.valid(),
            final(self)@.depth_mm == 0 ==> final(self)@.rate >= 0,
    {
        proof {
            use_type_invariant(&*self);
            lemma_tick_rate_bounds(interval_ms as nat);
            lemma_depth_change_bounds(self@, interval_ms as nat);
        }
        let hz = ticks_per_second(interval_ms);
        let ticks_per_minute: i64 = 60 * (hz as i64);
        let rate_mm_per_min: i64 = (self.rate as i64) * 1000;
        let change: i64 = rate_mm_per_min / ticks_per_minute;
        let moved: i64 = (self.depth as i64) + change;
        let depth: u32 = if moved < 0 {
            0
        } else if moved > DEPTH_LIMIT as i64 {
            DEPTH_LIMIT
        } else {
            moved as u32
        };
        if depth == 0 {
            // Surfaced: an ascent cannot go on out of the water.
            self.depth = 0;
            if self.rate < 0 {
                self.rate = 0;
            }
        } else {
            proof {
                lemma_gas_rate_linear((depth / 1000) as nat);
            }
            let used = gas_rate_in_cl(depth / 1000) / hz;
            self.depth = depth;
            self.edt = self.edt.saturating_add(interval_ms as u64);
            self.air = self.air.saturating_sub(used);
        }
    }

    /// Switches the display unit; the stored values stay as they are.
    pub fn toggle_unit(&mut self)
        ensures
            final(self)@ == old(self)@.toggle_unit(),
            final(self)@.valid(),
    {
        proof {
            use_type_invariant(&*self);
        }
        self.unit = if self.unit == Unit::Imperial { Unit::Metric } else { Unit::Imperial };
    }

    /// Carries out a button command.
    pub fn apply(&mut self, command: Command)
        ensures
            final(self)@ == old(self)@.apply(command),
            final(self)@.valid(),
    {
        match command {
            Command::FillAir => self.fill_air(),
            Command::ToggleUnit => self.toggle_unit(),
            Command::IncreaseRate => self.increase_rate(),
            Command::DecreaseRate => self.decrease_rate(),
        }
    }
}

impl Default for DiveComputer {
    fn default() -> (computer: Self)
        ensures
            computer@ == DiveState::initial(),
    {
        Self::new()
    }
}

} // verus!
