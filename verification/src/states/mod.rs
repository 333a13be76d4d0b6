//! The scenes that the library brings along.

pub mod day2_state;
pub mod transition_state;
