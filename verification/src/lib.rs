//! A scene lifecycle and transition engine for full-screen terminal
//! applications: a back buffer to draw on, a per-frame input model, a radial
//! wipe effect, a host that owns the single active scene, and a scene that
//! masks the switch to another one.
//!
//! Everything runs on one thread, frame by frame: the input model is
//! refreshed, the host runs the active scene, the back buffer is flushed.
//! Reading the terminal and writing to it is left to the caller. Time is
//! counted in whole ticks, a million to the second, so that all arithmetic is
//! exact.

pub mod drawing;
pub mod input;
pub mod screen;
pub mod state_machine;
pub mod states;
pub mod transition;
