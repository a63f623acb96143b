//! Fixed-point core of a terminal Julia-set animator.
//!
//! Real quantities are held as signed counts of millionths, time as whole
//! milliseconds on a monotonic clock, so every rule of the animation is
//! stated and proved over the integers.

pub mod colors;
pub mod complexity;
pub mod julia;
pub mod numeric;
pub mod parameters;
pub mod renderer;
pub mod state;
