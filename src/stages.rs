//! The closed sets of stages and conditions that the assemblies compose.
//!
//! Each variant carries the parameters its stage needs. The numeric type `R`
//! of those parameters is chosen by the driver that runs the stages.
use vstd::prelude::*;

use crate::pipeline::Instr;

verus! {

/// How an exploration mechanism decides when its own search is over.
#[derive(Debug, Clone, Copy, PartialEq, Eq)]
pub enum Termination {
    /// After a fixed number of its own iterations.
    Iterations,
    /// After a fixed number of evaluations.
    Evaluations,
}

/// An atomic transformation of the optimization state.
#[derive(Debug, Clone, PartialEq)]
pub enum Stage<R> {
    /// Spread `population_size` individuals uniformly over the feasible region.
    RandomSpread { population_size: u32 },
    /// Evaluate every individual that has no objective value yet.
    Evaluate,
    /// Replace the global best where an individual improves on it.
    UpdateBestIndividual,
    /// Give every particle a random velocity within `v_max` and set its
    /// personal best to its position.
    ParticleSwarmInit { v_max: R },
    /// The PSO velocity and position update, velocities clamped to `v_max`.
    ParticleVelocitiesUpdate { w: R, c1: R, c2: R, v_max: R },
    /// Update the personal bests from the new objective values.
    ParticleSwarmUpdate,
    /// Measure the minimum distance between two individuals.
    MinimumIndividualDistance,
    /// Append a record to the log.
    Logger,
    /// Clamp out-of-bounds coordinates and zero their velocity.
    Saturation,
    /// Reverse the offending velocity component by a cosine factor, then clamp.
    CosineCorrection,
    /// Redraw an offending coordinate from a one-tailed normal at its bound.
    CompleteOneTailedNormalCorrection,
    /// Select the whole population for the next stage.
    SelectAll,
    /// Multi-candidate reaction-style generation of `new_pop` candidates.
    NuclearReaction { new_pop: u32, mu: R, termination: Termination, termination_value: usize },
    /// Leader-stepping generation of `new_pop` candidates.
    SteppedLeader { new_pop: u32, leader: String },
    /// Replace the `n` best individuals by the new candidates.
    ReplaceBest { n: u32, v_max: R },
    /// Replace the `n` worst individuals by the new candidates.
    ReplaceWorst { n: u32, v_max: R },
    /// Replace `n` individuals picked at random by the new candidates.
    ReplaceRandom { n: u32, v_max: R },
    /// Set up an adaptation memory of `history` slots.
    ShadeAdaptationInit { history: usize },
    /// Draw each target's (F, CR) from the adaptation memory.
    ShadeAdaptation,
    /// Pick the p-best, r1 and r2 donors of every target.
    CurrentToPBest { y: u32, p_min: R, population: usize, max_archive: usize },
    /// Build the mutants `x + F (pbest - x) + F (r1 - r2)`.
    DeMutation { y: u32, f: R },
    /// Binomial crossover with rate `cr`.
    BinomialCrossover { cr: R },
    /// Exponential crossover with rate `cr`.
    ExponentialCrossover { cr: R },
    /// Push each replaced parent into an archive of at most `max_archive`.
    KeepParentsArchive { max_archive: usize },
    /// Write the weighted means of the successful (F, CR) into the memory.
    ShadeHistoryUpdate,
    /// Keep, at each index, the better of parent and trial.
    KeepBetterAtIndex,
}

/// A predicate over the optimization state.
#[derive(Debug, Clone, Copy, PartialEq)]
pub enum Condition<R> {
    /// Fewer than `n` evaluations have been spent.
    LessThanEvaluations(u32),
    /// The iteration count is a multiple of `n`.
    EveryIterations(u32),
    /// The evaluation count is a multiple of `n`.
    EveryEvaluations(u32),
    /// The best objective value has not changed over the last `n` evaluations.
    StagnationForEvaluations(usize),
    /// The normalized minimum individual distance is below the threshold.
    DiversityBelow(R),
}

/// The instructions of an assembled algorithm.
pub type Program<R> = Vec<Instr<Stage<R>, Condition<R>>>;

/// Their mathematical value.
pub type Steps<R> = Seq<Instr<Stage<R>, Condition<R>>>;

/// The instruction that runs `s`.
pub open spec fn run<R>(s: Stage<R>) -> Instr<Stage<R>, Condition<R>> {
    Instr::Do(s)
}

} // verus!
