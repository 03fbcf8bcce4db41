//! The instruction set: decoding operands and executing against the runtime.
pub mod base;
pub mod comparisons;
pub mod constants;
pub mod control;
pub mod math;
pub mod references;
pub mod stores;
