//! A linear threshold classifier for two-input boolean functions, trained by
//! an elitist evolution strategy.
//!
//! All arithmetic is exact. A weight is a fixed-point number held in an
//! `i32`: [`model::UNIT`] stands for `1.0`. Inputs and labels are plain
//! integers, so a weighted sum is again a fixed-point number in weight units.

pub mod dataset;
pub mod fitness;
pub mod model;
pub mod optimizer;
pub mod random;
pub mod training;
