//! Fan control for an embedded controller: register map, temperature curve
//! interpolation, duty mapping, adaptive polling, performance-mode selection
//! and the decisions of the control loop.
pub mod control;
pub mod curve;
pub mod duty;
pub mod mode;
pub mod poll;
pub mod registers;
