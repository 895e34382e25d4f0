//! A Mamdani fuzzy inference core whose rule evaluation is verified.
//!
//! Numbers cross the library boundary as IEEE 754 binary64 bit patterns and
//! are held as [`scalar::Scalar`] values, which order exactly as the numbers
//! do. Everything the engine decides by comparing numbers is proved here:
//! which segment of a membership shape a value falls on, how rules fire, how
//! their consequents are clipped and aggregated, when a curve is silent, and
//! which term matches a value best. Arithmetic on the numbers (the value on
//! a ramp or a bell, the sample points of a range, the weighted mean of a
//! curve) is left to the caller, who hands its results in.
//!
//! - [`scalar`]: numbers and their order
//! - [`membership`], [`term`], [`variable`], [`rule`]: the parts of a system
//! - [`fis`]: the engine
//! - [`laws`]: what holds of every inference
//! - [`math_helpers`]: sampling and silence
//! - [`output`]: summaries of the outputs

pub mod fis;
pub mod laws;
pub mod math_helpers;
pub mod membership;
pub mod output;
pub mod rule;
pub mod scalar;
pub mod term;
pub mod variable;
