use vstd::prelude::*;

use crate::pipeline::{loop_spec, loop_while, sequence, well_formed, Instr};
use crate::stages::{run, Condition, Program, Stage, Steps};

verus! {

/// Why a SHADE configuration cannot be assembled.
#[derive(Debug, Clone, Copy, PartialEq, Eq, Structural)]
pub enum ShadeError {
    /// The adaptation memory would have no slot.
    ZeroHistory,
    /// The mutation would use no difference vector.
    NoDifferenceVectors,
    /// Fewer individuals than the target, the p-best and the donors need.
    PopulationTooSmall,
    /// The archive would hold nothing.
    ZeroArchive,
    /// The stage given as crossover is not one.
    NotACrossover,
}

/// The smallest population with room for the target, a p-best and `2 y`
/// distinct donors.
pub open spec fn min_population(y: u32) -> int {
    2 * y + 2
}

pub open spec fn is_crossover<R>(s: Stage<R>) -> bool {
    s is BinomialCrossover || s is ExponentialCrossover
}

/// The first parameter that prevents a run, if any.
pub open spec fn shade_error<R>(
    population_size: u32,
    y: u32,
    max_archive: usize,
    history: usize,
    crossover: Stage<R>,
) -> Option<ShadeError> {
    if history == 0 {
        Some(ShadeError::ZeroHistory)
    } else if y == 0 {
        Some(ShadeError::NoDifferenceVectors)
    } else if population_size < min_population(y) {
        Some(ShadeError::PopulationTooSmall)
    } else if max_archive == 0 {
        Some(ShadeError::ZeroArchive)
    } else if !is_crossover(crossover) {
        Some(ShadeError::NotACrossover)
    } else {
        None
    }
}

pub open spec fn shade_spec<R>(
    evaluations: u32,
    population_size: u32,
    y: u32,
    p_min: R,
    max_archive: usize,
    history: usize,
    f: R,
    crossover: Stage<R>,
) -> Steps<R> {
    seq![
        run(Stage::RandomSpread { population_size }),
        run(Stage::Evaluate),
        run(Stage::UpdateBestIndividual),
        run(Stage::MinimumIndividualDistance),
        run(Stage::ShadeAdaptationInit { history }),
        run(Stage::Logger),
    ] + loop_spec(
        Condition::LessThanEvaluations(evaluations),
        seq![
            run(Stage::ShadeAdaptation),
            run(
                Stage::CurrentToPBest {
                    y,
                    p_min,
                    population: population_size as usize,
                    max_archive,
                },
            ),
            run(Stage::DeMutation { y, f }),
            run(crossover),
            run(Stage::CosineCorrection),
            run(Stage::Evaluate),
            run(Stage::UpdateBestIndividual),
            run(Stage::KeepParentsArchive { max_archive }),
            run(Stage::ShadeHistoryUpdate),
            run(Stage::KeepBetterAtIndex),
            run(Stage::MinimumIndividualDistance),
            run(Stage::Logger),
        ],
    )
}

/// SHADE with current-to-pbest/`y` mutation, the given crossover and cosine
/// correction, run until `evaluations` evaluations have been spent.
/// Parameters that would make a run fail are rejected before anything runs.
pub fn shade<R: Copy>(
    evaluations: u32,
    population_size: u32,
    y: u32,
    p_min: R,
    max_archive: usize,
    history: usize,
    f: R,
    crossover: Stage<R>,
) -> (r: Result<Program<R>, ShadeError>)
    ensures
        match shade_error(population_size, y, max_archive, history, crossover) {
            Some(e) => r == Err::<Program<R>, ShadeError>(e),
            None => r is Ok && well_formed(r->Ok_0@) && r->Ok_0@ == shade_spec(
                evaluations,
                population_size,
                y,
                p_min,
                max_archive,
                history,
                f,
                crossover,
            ),
        },
{
    if history == 0 {
        return Err(ShadeError::ZeroHistory);
    }
    if y == 0 {
        return Err(ShadeError::NoDifferenceVectors);
    }
    if (population_size as u64) < 2 * (y as u64) + 2 {
        return Err(ShadeError::PopulationTooSmall);
    }
    if max_archive == 0 {
        return Err(ShadeError::ZeroArchive);
    }
    match crossover {
        Stage::BinomialCrossover { .. } | Stage::ExponentialCrossover { .. } => {},
        _ => {
            return Err(ShadeError::NotACrossover);
        },
    }
    let start = vec![
        Instr::Do(Stage::RandomSpread { population_size }),
        Instr::Do(Stage::Evaluate),
        Instr::Do(Stage::UpdateBestIndividual),
        Instr::Do(Stage::MinimumIndividualDistance),
        Instr::Do(Stage::ShadeAdaptationInit { history }),
        Instr::Do(Stage::Logger),
    ];
    let body = vec![
        Instr::Do(Stage::ShadeAdaptation),
        Instr::Do(
            Stage::CurrentToPBest { y, p_min, population: population_size as usize, max_archive },
        ),
        Instr::Do(Stage::DeMutation { y, f }),
        Instr::Do(crossover),
        Instr::Do(Stage::CosineCorrection),
        Instr::Do(Stage::Evaluate),
        Instr::Do(Stage::UpdateBestIndividual),
        Instr::Do(Stage::KeepParentsArchive { max_archive }),
        Instr::Do(Stage::ShadeHistoryUpdate),
        Instr::Do(Stage::KeepBetterAtIndex),
        Instr::Do(Stage::MinimumIndividualDistance),
        Instr::Do(Stage::Logger),
    ];
    let main = loop_while(Condition::LessThanEvaluations(evaluations), body);
    Ok(sequence(start, main))
}

} // verus!
