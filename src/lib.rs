//! Population-based continuous optimization: a pipeline engine, the
//! algorithm assemblies built on it, and the discrete machinery of SHADE.
pub mod algorithms;
pub mod archive;
pub mod best;
pub mod conditions;
pub mod crossover;
pub mod donors;
pub mod memory;
pub mod pipeline;
pub mod ranking;
pub mod stages;
pub mod termination;
