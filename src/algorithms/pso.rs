use vstd::prelude::*;

use crate::pipeline::{loop_spec, loop_while, sequence, well_formed, Instr};
use crate::stages::{run, Condition, Program, Stage, Steps};

verus! {

/// The start shared by the PSO variants: spread, evaluate, initialize the
/// swarm, measure and log.
pub open spec fn pso_start<R>(population_size: u32, v_max: R) -> Steps<R> {
    seq![
        run(Stage::RandomSpread { population_size }),
        run(Stage::Evaluate),
        run(Stage::UpdateBestIndividual),
        run(Stage::ParticleSwarmInit { v_max }),
        run(Stage::MinimumIndividualDistance),
        run(Stage::Logger),
    ]
}

pub open spec fn basic_pso_spec<R>(
    evaluations: u32,
    population_size: u32,
    w: R,
    c1: R,
    c2: R,
    v_max: R,
) -> Steps<R> {
    pso_start(population_size, v_max) + loop_spec(
        Condition::LessThanEvaluations(evaluations),
        seq![
            run(Stage::ParticleVelocitiesUpdate { w, c1, c2, v_max }),
            run(Stage::CosineCorrection),
            run(Stage::Evaluate),
            run(Stage::UpdateBestIndividual),
            run(Stage::MinimumIndividualDistance),
            run(Stage::ParticleSwarmUpdate),
            run(Stage::Logger),
        ],
    )
}

/// The start shared by the PSO variants.
pub fn pso_start_program<R: Copy>(population_size: u32, v_max: R) -> (r: Program<R>)
    ensures
        r@ == pso_start(population_size, v_max),
        well_formed(r@),
{
    let r = vec![
        Instr::Do(Stage::RandomSpread { population_size }),
        Instr::Do(Stage::Evaluate),
        Instr::Do(Stage::UpdateBestIndividual),
        Instr::Do(Stage::ParticleSwarmInit { v_max }),
        Instr::Do(Stage::MinimumIndividualDistance),
        Instr::Do(Stage::Logger),
    ];
    assert(r@ =~= pso_start(population_size, v_max));
    r
}

/// Plain PSO with cosine boundary correction, run until `evaluations`
/// evaluations have been spent.
pub fn basic_pso<R: Copy>(
    evaluations: u32,
    population_size: u32,
    w: R,
    c1: R,
    c2: R,
    v_max: R,
) -> (r: Program<R>)
    ensures
        r@ == basic_pso_spec(evaluations, population_size, w, c1, c2, v_max),
        well_formed(r@),
{
    let body = vec![
        Instr::Do(Stage::ParticleVelocitiesUpdate { w, c1, c2, v_max }),
        Instr::Do(Stage::CosineCorrection),
        Instr::Do(Stage::Evaluate),
        Instr::Do(Stage::UpdateBestIndividual),
        Instr::Do(Stage::MinimumIndividualDistance),
        Instr::Do(Stage::ParticleSwarmUpdate),
        Instr::Do(Stage::Logger),
    ];
    let start = pso_start_program(population_size, v_max);
    let main = loop_while(Condition::LessThanEvaluations(evaluations), body);
    sequence(start, main)
}

} // verus!
