//! Procedural expression trees for per-pixel evaluation.
//!
//! A [`tree::Tree`] holds three randomly grown expression trees, one per
//! colour channel. Each tick the scalar parameters inside the trees are
//! moved on by their oscillators, and each channel is flattened into a
//! fixed-size buffer of instruction words and a parallel pool of constants
//! that a stack-based evaluator consumes in order.
//!
//! - [`catalog`]: the operators, their ids, arities and constants.
//! - [`constant`]: one oscillating parameter and its step.
//! - [`rates`] and [`random`]: weighted draws of operators.
//! - [`synthesis`]: growing a tree.
//! - [`tree`]: the tree itself and its tick.
//! - [`encoder`]: compiling a tree; [`walk`]: what the evaluator can rely on.
//! - [`display`] and [`text`]: a readable dump.
//!
//! All scalars are fixed-point integers, [`catalog::UNIT`] steps to one
//! whole; whoever feeds the evaluator divides by that on the way.

pub mod catalog;
pub mod constant;
pub mod display;
pub mod encoder;
pub mod error;
pub mod random;
pub mod rates;
pub mod synthesis;
pub mod text;
pub mod tree;
pub mod walk;
