use vstd::prelude::*;

use crate::algorithms::pso::{pso_start, pso_start_program};
use crate::pipeline::{
    branch_optional, loop_spec, loop_while, optional_spec, sequence, well_formed, Instr,
};
use crate::stages::{run, Condition, Program, Stage, Steps};

verus! {

pub open spec fn restart_body<R>(w: R, c1: R, c2: R, v_max: R) -> Steps<R> {
    seq![
        run(Stage::ParticleVelocitiesUpdate { w, c1, c2, v_max }),
        run(Stage::Saturation),
        run(Stage::Evaluate),
        run(Stage::UpdateBestIndividual),
        run(Stage::MinimumIndividualDistance),
        run(Stage::ParticleSwarmUpdate),
        run(Stage::Logger),
    ]
}

pub open spec fn random_restart_pso_spec<R>(
    evaluations: u32,
    population_size: u32,
    w: R,
    c1: R,
    c2: R,
    v_max: R,
    condition: Condition<R>,
) -> Steps<R> {
    pso_start(population_size, v_max) + loop_spec(
        Condition::LessThanEvaluations(evaluations),
        restart_body(w, c1, c2, v_max) + optional_spec(
            condition,
            pso_start(population_size, v_max),
        ),
    )
}

/// PSO with saturation at the bounds that, after an iteration in which
/// `condition` holds, starts over from a fresh random swarm; the global best
/// is kept across restarts.
pub fn random_restart_pso<R: Copy>(
    evaluations: u32,
    population_size: u32,
    w: R,
    c1: R,
    c2: R,
    v_max: R,
    condition: Condition<R>,
) -> (r: Program<R>)
    ensures
        r@ == random_restart_pso_spec(
            evaluations,
            population_size,
            w,
            c1,
            c2,
            v_max,
            condition,
        ),
        well_formed(r@),
{
    let body = vec![
        Instr::Do(Stage::ParticleVelocitiesUpdate { w, c1, c2, v_max }),
        Instr::Do(Stage::Saturation),
        Instr::Do(Stage::Evaluate),
        Instr::Do(Stage::UpdateBestIndividual),
        Instr::Do(Stage::MinimumIndividualDistance),
        Instr::Do(Stage::ParticleSwarmUpdate),
        Instr::Do(Stage::Logger),
    ];
    assert(body@ =~= restart_body(w, c1, c2, v_max));
    let restart = branch_optional(condition, pso_start_program(population_size, v_max));
    let body = sequence(body, restart);
    let main = loop_while(Condition::LessThanEvaluations(evaluations), body);
    sequence(pso_start_program(population_size, v_max), main)
}

} // verus!
