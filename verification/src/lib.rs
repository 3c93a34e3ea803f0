//! A falling-sand particle sandbox: a fixed-size grid of cells advanced one
//! frame at a time by a cellular-automaton pass that models gravity and the
//! sideways dispersion of liquids.

pub mod particle;
pub mod grid;
pub mod tracker;
pub mod chance;
pub mod census;
pub mod rules;
pub mod scheduler;
pub mod laws;
pub mod display;
pub mod brush;
