//! Signal-processing building blocks.

pub mod fft;
pub mod delay;
pub mod filters;
