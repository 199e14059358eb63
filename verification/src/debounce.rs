//! Debounce and repeat filter of one button.
//!
//! A button reports two kinds of trigger: an edge when it goes down and a
//! level while it is held down. The filter lets a trigger through only when
//! enough time has passed since the last one that it let through, so that a
//! bouncing contact gives one command and a held button a steady repeat.
//!
//! Time is counted in ticks of the monotonic clock. A trigger fires when
//! `now - last_trigger >= window`: the boundary instant itself fires.

use vstd::arithmetic::div_mod::lemma_fundamental_div_mod;
use vstd::prelude::*;

verus! {

/// Kind of trigger that a button reports.
#[derive(PartialEq, Eq, Clone, Copy, Debug, Structural)]
pub enum Trigger {
    /// The button went down.
    Edge,
    /// The button is held down.
    Level,
}

/// Trigger flags of one button, as read in an interrupt.
#[derive(PartialEq, Eq, Clone, Copy, Debug, Structural)]
pub struct Pending {
    pub edge: bool,
    pub level: bool,
}

/// A trigger seen at an instant.
pub struct Observation {
    pub kind: Trigger,
    pub at: nat,
}

/// The mathematical state of a filter.
pub struct ChannelState {
    /// Instant of the last trigger that fired.
    pub last_trigger: nat,
    /// Least spacing of two edges that both fire.
    pub debounce_window: nat,
    /// Least spacing of two firings while the button is held.
    pub repeat_window: nat,
}

impl ChannelState {
    /// A filter repeats more slowly than it debounces.
    pub open spec fn valid(self) -> bool {
        self.debounce_window < self.repeat_window
    }

    /// The window that applies to a kind of trigger.
    pub open spec fn window(self, kind: Trigger) -> nat {
        match kind {
            Trigger::Edge => self.debounce_window,
            Trigger::Level => self.repeat_window,
        }
    }

    /// Whether a trigger of this kind fires at `now`.
    pub open spec fn accepts(self, kind: Trigger, now: nat) -> bool {
        now - self.last_trigger >= self.window(kind)
    }

    /// The filter after a trigger at `now`: a trigger that fires becomes the
    /// last trigger.
    pub open spec fn observe(self, kind: Trigger, now: nat) -> ChannelState {
        if self.accepts(kind, now) {
            ChannelState { last_trigger: now, ..self }
        } else {
            self
        }
    }

    /// The filter after the edge flag of an interrupt at `now`.
    pub open spec fn after_edge(self, now: nat, pending: Pending) -> ChannelState {
        if pending.edge {
            self.observe(Trigger::Edge, now)
        } else {
            self
        }
    }

    /// The filter after one interrupt at `now`: the edge flag is taken first,
    /// then the level flag, each on its own.
    pub open spec fn interrupt(self, now: nat, pending: Pending) -> ChannelState {
        if pending.level {
            self.after_edge(now, pending).observe(Trigger::Level, now)
        } else {
            self.after_edge(now, pending)
        }
    }

    /// Whether an interrupt at `now` fires the button's command.
    pub open spec fn fires(self, now: nat, pending: Pending) -> bool {
        ||| pending.edge && self.accepts(Trigger::Edge, now)
        ||| pending.level && self.after_edge(now, pending).accepts(Trigger::Level, now)
    }

    /// The filter after a sequence of triggers, first to last.
    pub open spec fn run(self, events: Seq<Observation>) -> ChannelState
        decreases events.len(),
    {
        if events.len() == 0 {
            self
        } else {
            self.run(events.drop_last()).observe(events.last().kind, events.last().at)
        }
    }

    /// How many triggers of a sequence fire.
    pub open spec fn dispatches(self, events: Seq<Observation>) -> nat
        decreases events.len(),
    {
        if events.len() == 0 {
            0
        } else {
            let fired: nat = if self.run(events.drop_last()).accepts(
                events.last().kind,
                events.last().at,
            ) {
                1
            } else {
                0
            };
            self.dispatches(events.drop_last()) + fired
        }
    }
}

/// The level trigger reported at every tick of a hold of `span` ticks that
/// begins right after `start`: at `start + 1`, `start + 2`, up to
/// `start + span`.
pub open spec fn held(start: nat, span: nat) -> Seq<Observation> {
    Seq::new(span, |i: int| Observation { kind: Trigger::Level, at: (start + 1 + i) as nat })
}

/// Two edges in a row.
pub open spec fn two_edges(first: nat, second: nat) -> Seq<Observation> {
    seq![
        Observation { kind: Trigger::Edge, at: first },
        Observation { kind: Trigger::Edge, at: second },
    ]
}

/// Debounce. Of two edges, the first of which fires, the second fires as well
/// exactly when it comes no sooner than a debounce window later: closer
/// together they give one dispatch, otherwise two.
pub proof fn lemma_debounce(channel: ChannelState, first: nat, second: nat)
    requires
        channel.accepts(Trigger::Edge, first),
        first <= second,
    ensures
        second - first < channel.debounce_window ==> channel.dispatches(two_edges(first, second))
            == 1,
        second - first >= channel.debounce_window ==> channel.dispatches(two_edges(first, second))
            == 2,
{
    // The first edge fires and becomes the last trigger.
    let head = two_edges(first, second).drop_last();
    assert(head.drop_last() =~= Seq::<Observation>::empty());
    assert(channel.run(head.drop_last()) == channel);
    assert(channel.dispatches(head.drop_last()) == 0);
    assert(channel.dispatches(head) == 1);
    assert(channel.run(head).last_trigger == first);
}

/// Repeat. While a button is held, with the level reported at every tick, a
/// hold of `span` ticks after the last trigger fires once per full repeat
/// window, and the last firing is the end of the last full window.
pub proof fn lemma_repeat(channel: ChannelState, span: nat)
    requires
        channel.repeat_window > 0,
    ensures
        channel.dispatches(held(channel.last_trigger, span)) == span / channel.repeat_window,
        channel.run(held(channel.last_trigger, span)) == (ChannelState {
            last_trigger: channel.last_trigger + (span / channel.repeat_window)
                * channel.repeat_window,
            ..channel
        }),
    decreases span,
{
    let start = channel.last_trigger;
    let window = channel.repeat_window;
    if span == 0 {
        assert(0nat / window == 0) by (nonlinear_arith)
            requires
                window > 0,
        ;
        assert((0nat / window) * window == 0) by (nonlinear_arith)
            requires
                0nat / window == 0,
        ;
    } else {
        let before = (span - 1) as nat;
        lemma_repeat(channel, before);
        // The hold without its last tick is the shorter hold, and the last
        // tick fires exactly when it completes a window.
        assert(held(start, span).drop_last() =~= held(start, before));
        lemma_window_count(before, window);
    }
}

/// Counting full windows one tick at a time: the count grows by one exactly
/// when the tick completes a window.
proof fn lemma_window_count(before: nat, window: nat)
    requires
        window > 0,
    ensures
        before + 1 - (before / window) * window >= window ==> (before + 1) / window == before
            / window + 1 && (before + 1) == (before / window + 1) * window,
        before + 1 - (before / window) * window < window ==> (before + 1) / window == before
            / window,
{
    let q = before / window;
    let r = before % window;
    lemma_fundamental_div_mod(before as int, window as int);
    assert(before == window * q + r);
    assert(q * window == window * q) by (nonlinear_arith);
    assert(0 <= r < window);
    if r + 1 >= window {
        assert(before + 1 == (q + 1) * window) by (nonlinear_arith)
            requires
                before == window * q + r,
                r + 1 == window,
        ;
        assert((before + 1) / window == q + 1) by (nonlinear_arith)
            requires
                before + 1 == (q + 1) * window,
                window > 0,
        ;
    } else {
        assert((before + 1) / window == q) by (nonlinear_arith)
            requires
                before + 1 == window * q + (r + 1),
                0 <= r + 1 < window,
                window > 0,
        ;
    }
}

/// A hold of three repeat windows fires exactly three times, the last time at
/// its very end.
pub proof fn lemma_repeat_three_windows(channel: ChannelState)
    requires
        channel.repeat_window > 0,
    ensures
        channel.dispatches(held(channel.last_trigger, 3 * channel.repeat_window)) == 3,
        channel.run(held(channel.last_trigger, 3 * channel.repeat_window)).last_trigger
            == channel.last_trigger + 3 * channel.repeat_window,
{
    let window = channel.repeat_window;
    lemma_repeat(channel, 3 * window);
    assert((3 * window) / window == 3) by (nonlinear_arith)
        requires
            window > 0,
    ;
}

/// One interrupt fires a button's command at most once: when the edge fires,
/// the level that is looked at next does not.
pub proof fn lemma_one_dispatch_per_interrupt(channel: ChannelState, now: nat, pending: Pending)
    requires
        channel.valid(),
    ensures
        pending.edge && channel.accepts(Trigger::Edge, now) ==> !channel.after_edge(
            now,
            pending,
        ).accepts(Trigger::Level, now),
{
}

/// Debounce and repeat filter of one button.
#[derive(Clone, Copy, Debug)]
pub struct DebounceChannel {
    last_trigger: u64,
    debounce_window: u64,
    repeat_window: u64,
}

impl View for DebounceChannel {
    type V = ChannelState;

    closed spec fn view(&self) -> ChannelState {
        ChannelState {
            last_trigger: self.last_trigger as nat,
            debounce_window: self.debounce_window as nat,
            repeat_window: self.repeat_window as nat,
        }
    }
}

impl DebounceChannel {
    /// Holds of every value of the type.
    #[verifier::type_invariant]
    pub open spec fn well_formed(self) -> bool {
        self@.valid()
    }

    /// A filter with the given windows whose last trigger was at instant
    /// zero, or nothing where the repeat window is not the longer one.
    pub fn new(debounce_window: u64, repeat_window: u64) -> (channel: Option<Self>)
        ensures
            channel is Some <==> debounce_window < repeat_window,
            channel matches Some(c) ==> c@ == (ChannelState {
                last_trigger: 0,
                debounce_window: debounce_window as nat,
                repeat_window: repeat_window as nat,
            }),
    {
        if debounce_window < repeat_window {
            Some(DebounceChannel { last_trigger: 0, debounce_window, repeat_window })
        } else {
            None
        }
    }

    /// Instant of the last trigger that fired.
    pub fn last_trigger(&self) -> (at: u64)
        ensures
            at == self@.last_trigger,
    {
        self.last_trigger
    }

    /// Takes one trigger at `now` and says whether it fires.
    pub fn observe(&mut self, kind: Trigger, now: u64) -> (fired: bool)
        ensures
            fired == old(self)@.accepts(kind, now as nat),
            final(self)@ == old(self)@.observe(kind, now as nat),
            final(self)@.valid(),
    {
        proof {
            use_type_invariant(&*self);
        }
        let window = match kind {
            Trigger::Edge => self.debounce_window,
            Trigger::Level => self.repeat_window,
        };
        if now >= self.last_trigger && now - self.last_trigger >= window {
            self.last_trigger = now;
            true
        } else {
            false
        }
    }

    /// Takes the flags of one interrupt at `now`, the edge before the level,
    /// and says whether the button's command fires.
    pub fn on_interrupt(&mut self, now: u64, pending: Pending) -> (fired: bool)
        ensures
            fired == old(self)@.fires(now as nat, pending),
            final(self)@ == old(self)@.interrupt(now as nat, pending),
            final(self)@.valid(),
    {
        proof {
            use_type_invariant(&*self);
        }
        let mut fired = false;
        if pending.edge {
            fired = self.observe(Trigger::Edge, now);
        }
        if pending.level {
            let repeated = self.observe(Trigger::Level, now);
            fired = fired || repeated;
        }
        fired
    }
}

} // verus!
