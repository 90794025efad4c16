use vstd::prelude::*;

use crate::algorithms::pso::{pso_start, pso_start_program};
use crate::pipeline::{branch, branch_spec, loop_spec, loop_while, sequence, well_formed, Instr};
use crate::stages::{run, Condition, Program, Stage, Steps};

verus! {

/// The tail of every iteration of the PSO variants that branch.
pub open spec fn pso_tail<R>() -> Steps<R> {
    seq![
        run(Stage::MinimumIndividualDistance),
        run(Stage::ParticleSwarmUpdate),
        run(Stage::Logger),
    ]
}

pub open spec fn restart_spec<R>(population_size: u32, v_max: R) -> Steps<R> {
    seq![
        run(Stage::RandomSpread { population_size }),
        run(Stage::Evaluate),
        run(Stage::UpdateBestIndividual),
        run(Stage::ParticleSwarmInit { v_max }),
    ]
}

pub open spec fn move_spec<R>(w: R, c1: R, c2: R, v_max: R) -> Steps<R> {
    seq![
        run(Stage::ParticleVelocitiesUpdate { w, c1, c2, v_max }),
        run(Stage::CosineCorrection),
        run(Stage::Evaluate),
        run(Stage::UpdateBestIndividual),
    ]
}

pub open spec fn random_restart_pso_spec<R>(
    evaluations: u32,
    population_size: u32,
    w: R,
    c1: R,
    c2: R,
    v_max: R,
    condition: Condition<R>,
) -> Steps<R> {
    pso_start(population_size, v_max) + loop_spec(
        Condition::LessThanEvaluations(evaluations),
        branch_spec(
            condition,
            restart_spec(population_size, v_max),
            move_spec(w, c1, c2, v_max),
        ) + pso_tail(),
    )
}

/// The tail of every iteration of the PSO variants that branch.
pub fn pso_tail_program<R>() -> (r: Program<R>)
    ensures
        r@ == pso_tail::<R>(),
        well_formed(r@),
{
    let r = vec![
        Instr::Do(Stage::MinimumIndividualDistance),
        Instr::Do(Stage::ParticleSwarmUpdate),
        Instr::Do(Stage::Logger),
    ];
    assert(r@ =~= pso_tail::<R>());
    r
}

/// PSO whose iteration either restarts the swarm from random positions,
/// where `condition` holds, or moves it with cosine correction.
pub fn random_restart_pso<R: Copy>(
    evaluations: u32,
    population_size: u32,
    w: R,
    c1: R,
    c2: R,
    v_max: R,
    condition: Condition<R>,
) -> (r: Program<R>)
    ensures
        r@ == random_restart_pso_spec(
            evaluations,
            population_size,
            w,
            c1,
            c2,
            v_max,
            condition,
        ),
        well_formed(r@),
{
    let restart = vec![
        Instr::Do(Stage::RandomSpread { population_size }),
        Instr::Do(Stage::Evaluate),
        Instr::Do(Stage::UpdateBestIndividual),
        Instr::Do(Stage::ParticleSwarmInit { v_max }),
    ];
    assert(restart@ =~= restart_spec(population_size, v_max));
    let moves = vec![
        Instr::Do(Stage::ParticleVelocitiesUpdate { w, c1, c2, v_max }),
        Instr::Do(Stage::CosineCorrection),
        Instr::Do(Stage::Evaluate),
        Instr::Do(Stage::UpdateBestIndividual),
    ];
    assert(moves@ =~= move_spec(w, c1, c2, v_max));
    let body = sequence(branch(condition, restart, moves), pso_tail_program());
    let main = loop_while(Condition::LessThanEvaluations(evaluations), body);
    sequence(pso_start_program(population_size, v_max), main)
}

} // verus!
