use vstd::prelude::*;

use crate::algorithms::pso::{pso_start, pso_start_program};
use crate::algorithms::pso_rr::{pso_tail, pso_tail_program};
use crate::pipeline::{branch, branch_spec, loop_spec, loop_while, sequence, well_formed, Instr};
use crate::stages::{run, Condition, Program, Stage, Steps, Termination};

verus! {

pub open spec fn gpgm_pso_spec<R>(
    evaluations: u32,
    population_size: u32,
    w: R,
    c1: R,
    c2: R,
    v_max: R,
    condition: Condition<R>,
    new_pop: u32,
    mu: R,
    termination: Termination,
    termination_value: usize,
    replacement: Stage<R>,
) -> Steps<R> {
    pso_start(population_size, v_max) + loop_spec(
        Condition::LessThanEvaluations(evaluations),
        branch_spec(
            condition,
            seq![
                run(Stage::SelectAll),
                run(Stage::NuclearReaction { new_pop, mu, termination, termination_value }),
                run(Stage::CosineCorrection),
                run(replacement),
            ],
            seq![
                run(Stage::ParticleVelocitiesUpdate { w, c1, c2, v_max }),
                run(Stage::CosineCorrection),
            ],
        ) + seq![run(Stage::Evaluate), run(Stage::UpdateBestIndividual)] + pso_tail(),
    )
}

/// PSO whose iteration, where `condition` holds, generates `new_pop`
/// candidates by the reaction mechanism and merges them in by `replacement`,
/// and otherwise moves the swarm.
pub fn gpgm_pso<R: Copy>(
    evaluations: u32,
    population_size: u32,
    w: R,
    c1: R,
    c2: R,
    v_max: R,
    condition: Condition<R>,
    new_pop: u32,
    mu: R,
    termination: Termination,
    termination_value: usize,
    replacement: Stage<R>,
) -> (r: Program<R>)
    ensures
        r@ == gpgm_pso_spec(
            evaluations,
            population_size,
            w,
            c1,
            c2,
            v_max,
            condition,
            new_pop,
            mu,
            termination,
            termination_value,
            replacement,
        ),
        well_formed(r@),
{
    let explore = vec![
        Instr::Do(Stage::SelectAll),
        Instr::Do(Stage::NuclearReaction { new_pop, mu, termination, termination_value }),
        Instr::Do(Stage::CosineCorrection),
        Instr::Do(replacement),
    ];
    let moves = vec![
        Instr::Do(Stage::ParticleVelocitiesUpdate { w, c1, c2, v_max }),
        Instr::Do(Stage::CosineCorrection),
    ];
    let evaluate = vec![Instr::Do(Stage::Evaluate), Instr::Do(Stage::UpdateBestIndividual)];
    let body = sequence(branch(condition, explore, moves), evaluate);
    let body = sequence(body, pso_tail_program());
    let main = loop_while(Condition::LessThanEvaluations(evaluations), body);
    sequence(pso_start_program(population_size, v_max), main)
}

} // verus!
