//! A simulated dive computer: the dive state machine, the breathing-gas model
//! behind its alarm, and the scheduling core that drives both from timer ticks
//! and debounced button events.

pub mod clock;
pub mod computer;
pub mod debounce;
pub mod gas;
pub mod periodic;
pub mod presentation;
pub mod scheduler;

pub use computer::{Alarm, DiveComputer, DiveState, Unit};
pub use gas::{gas_rate_in_cl, gas_to_surface_in_cl};
