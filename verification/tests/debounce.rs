use dive_computer::debounce::{DebounceChannel, Pending, Trigger};

const DEBOUNCE: u64 = 100;
const REPEAT: u64 = 200;

fn channel() -> DebounceChannel {
    DebounceChannel::new(DEBOUNCE, REPEAT).unwrap()
}

#[test]
fn new_needs_a_longer_repeat_window() {
    assert!(DebounceChannel::new(100, 200).is_some());
    assert!(DebounceChannel::new(0, 1).is_some());
    assert!(DebounceChannel::new(100, 100).is_none());
    assert!(DebounceChannel::new(200, 100).is_none());
    assert!(DebounceChannel::new(0, 0).is_none());
}

#[test]
fn new_starts_at_instant_zero() {
    assert_eq!(channel().last_trigger(), 0);
}

#[test]
fn two_close_edges_give_one_dispatch() {
    let mut channel = channel();
    let mut dispatches = 0;
    for at in [1000, 1000 + DEBOUNCE - 1] {
        if channel.observe(Trigger::Edge, at) {
            dispatches += 1;
        }
    }
    assert_eq!(dispatches, 1);
    assert_eq!(channel.last_trigger(), 1000);
}

#[test]
fn two_distant_edges_give_two_dispatches() {
    let mut channel = channel();
    let mut dispatches = 0;
    for at in [1000, 1000 + DEBOUNCE + 1] {
        if channel.observe(Trigger::Edge, at) {
            dispatches += 1;
        }
    }
    assert_eq!(dispatches, 2);
    assert_eq!(channel.last_trigger(), 1000 + DEBOUNCE + 1);
}

#[test]
fn an_edge_at_the_end_of_the_window_fires() {
    let mut channel = channel();
    assert!(channel.observe(Trigger::Edge, 1000));
    assert!(channel.observe(Trigger::Edge, 1000 + DEBOUNCE));
}

#[test]
fn an_edge_right_after_start_up_is_dropped() {
    let mut channel = channel();
    assert!(!channel.observe(Trigger::Edge, DEBOUNCE - 1));
    assert_eq!(channel.last_trigger(), 0);
    assert!(channel.observe(Trigger::Edge, DEBOUNCE));
}

#[test]
fn a_hold_of_three_repeat_windows_gives_three_dispatches() {
    let mut channel = channel();
    assert!(channel.observe(Trigger::Edge, 5000));
    let mut fired_at = Vec::new();
    for at in 5001..=5000 + 3 * REPEAT {
        if channel.observe(Trigger::Level, at) {
            fired_at.push(at);
        }
    }
    assert_eq!(fired_at, vec![5200, 5400, 5600]);
}

#[test]
fn a_hold_fires_once_per_full_window() {
    for span in [0u64, 1, 199, 200, 201, 399, 400, 1000, 1001] {
        let mut channel = channel();
        assert!(channel.observe(Trigger::Edge, 700));
        let mut dispatches = 0;
        for at in 701..=700 + span {
            if channel.observe(Trigger::Level, at) {
                dispatches += 1;
            }
        }
        assert_eq!(dispatches, span / REPEAT);
        assert_eq!(channel.last_trigger(), 700 + (span / REPEAT) * REPEAT);
    }
}

#[test]
fn a_level_uses_the_repeat_window() {
    let mut channel = channel();
    assert!(channel.observe(Trigger::Edge, 1000));
    assert!(!channel.observe(Trigger::Level, 1000 + DEBOUNCE));
    assert!(!channel.observe(Trigger::Level, 1000 + REPEAT - 1));
    assert!(channel.observe(Trigger::Level, 1000 + REPEAT));
    assert_eq!(channel.last_trigger(), 1000 + REPEAT);
}

#[test]
fn a_clock_that_ran_backwards_fires_nothing() {
    let mut channel = channel();
    assert!(channel.observe(Trigger::Edge, 1000));
    assert!(!channel.observe(Trigger::Edge, 500));
    assert!(!channel.observe(Trigger::Level, 0));
    assert_eq!(channel.last_trigger(), 1000);
}

#[test]
fn an_interrupt_with_both_flags_fires_once() {
    let mut channel = channel();
    let both = Pending { edge: true, level: true };
    assert!(channel.on_interrupt(1000, both));
    assert_eq!(channel.last_trigger(), 1000);
    // Inside the debounce window neither fires.
    assert!(!channel.on_interrupt(1050, both));
    assert_eq!(channel.last_trigger(), 1000);
    // Past the debounce window the edge fires, and the level after it does not.
    assert!(channel.on_interrupt(1150, both));
    assert_eq!(channel.last_trigger(), 1150);
}

#[test]
fn an_interrupt_takes_each_flag_on_its_own() {
    let mut channel = channel();
    let none = Pending { edge: false, level: false };
    let edge = Pending { edge: true, level: false };
    let level = Pending { edge: false, level: true };
    assert!(!channel.on_interrupt(1000, none));
    assert_eq!(channel.last_trigger(), 0);
    assert!(channel.on_interrupt(1000, edge));
    assert!(!channel.on_interrupt(1150, level));
    assert!(channel.on_interrupt(1200, level));
    assert!(!channel.on_interrupt(1250, edge));
    assert!(channel.on_interrupt(1300, edge));
    assert_eq!(channel.last_trigger(), 1300);
}
