//! Core of an interactive Mandelbrot viewer: the colour palette, the view
//! transform, the pointer/touch state machine and the escape-time evaluator,
//! all in exact integer or fixed-point arithmetic.
use vstd::prelude::*;

pub mod coloring;
pub mod escape;
pub mod interaction;
pub mod palette;
pub mod view;

verus! {

} // verus!
