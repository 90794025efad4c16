use optpipe::algorithms::pso::basic_pso;
use optpipe::algorithms::pso_gpgm::gpgm_pso;
use optpipe::algorithms::pso_random_restarts;
use optpipe::algorithms::pso_rr;
use optpipe::algorithms::pso_stepped_leader::stepped_leader_pso;
use optpipe::algorithms::shade::{shade, ShadeError};
use optpipe::conditions::{counter_condition, Counters};
use optpipe::pipeline::{step, Instr};
use optpipe::stages::{Condition, Program, Stage, Termination};

/// Runs `p` with every stage but evaluation left out, each evaluation
/// spending `batch` evaluations, and every condition that the counters do
/// not decide answered by `other`. Returns the counters and the best-update
/// count.
fn drive(p: &Program<f64>, batch: u64, other: bool) -> (Counters, u64) {
    let mut k = Counters::new();
    let mut updates = 0;
    let mut pc = 0;
    let mut steps = 0;
    while pc < p.len() {
        steps += 1;
        assert!(steps < 1_000_000);
        let holds = match &p[pc] {
            Instr::Do(Stage::Evaluate) => {
                k.record_evaluations(batch);
                false
            }
            Instr::Do(Stage::UpdateBestIndividual) => {
                updates += 1;
                false
            }
            Instr::Do(Stage::Logger) => {
                k.next_iteration();
                false
            }
            Instr::Unless(c, _) => counter_condition(c, &k).unwrap_or(other),
            _ => false,
        };
        pc = step(p, pc, holds);
    }
    (k, updates)
}

#[test]
fn basic_pso_layout() {
    let p = basic_pso(500, 10, 0.7, 1.5, 1.5, 5.0);
    assert_eq!(p.len(), 15);
    assert_eq!(p[0], Instr::Do(Stage::RandomSpread { population_size: 10 }));
    assert_eq!(p[3], Instr::Do(Stage::ParticleSwarmInit { v_max: 5.0 }));
    assert_eq!(p[6], Instr::Unless(Condition::LessThanEvaluations(500), 9));
    assert_eq!(p[7], Instr::Do(Stage::ParticleVelocitiesUpdate { w: 0.7, c1: 1.5, c2: 1.5, v_max: 5.0 }));
    assert_eq!(p[8], Instr::Do(Stage::CosineCorrection));
    assert_eq!(p[14], Instr::Back(8));
}

#[test]
fn basic_pso_spends_the_budget_exactly() {
    let p = basic_pso(500, 10, 0.7, 1.5, 1.5, 5.0);
    let (k, updates) = drive(&p, 10, false);
    assert_eq!(k.evaluations, 500);
    assert_eq!(k.iterations, 50);
    assert_eq!(updates, 50);
}

#[test]
fn basic_pso_budget_not_a_multiple_of_population() {
    let p = basic_pso(505, 10, 0.7, 1.5, 1.5, 5.0);
    let (k, _) = drive(&p, 10, false);
    assert_eq!(k.evaluations, 510);
}

#[test]
fn random_restarts_restart_when_condition_holds() {
    let p = pso_random_restarts::random_restart_pso(100, 10, 0.7, 1.5, 1.5, 5.0, Condition::DiversityBelow(0.01));
    let (k, _) = drive(&p, 10, false);
    assert_eq!(k.evaluations, 100);
    assert!(p.contains(&Instr::Do(Stage::Saturation)));
    let (k, updates) = drive(&p, 10, true);
    assert_eq!(k.evaluations, 110);
    assert_eq!(updates, 11);
}

#[test]
fn random_restart_branch_layout() {
    let p = pso_rr::random_restart_pso(100, 10, 0.7, 1.5, 1.5, 5.0, Condition::EveryIterations(5));
    assert_eq!(p[6], Instr::Unless(Condition::LessThanEvaluations(100), 15));
    assert_eq!(p[20], Instr::Back(14));
    assert_eq!(p[7], Instr::Unless(Condition::EveryIterations(5), 6));
    assert_eq!(p[12], Instr::Skip(5));
    assert_eq!(p[13], Instr::Do(Stage::ParticleVelocitiesUpdate { w: 0.7, c1: 1.5, c2: 1.5, v_max: 5.0 }));
    let (k, _) = drive(&p, 10, false);
    assert_eq!(k.evaluations, 100);
}

#[test]
fn gpgm_layout() {
    let p = gpgm_pso(
        200,
        10,
        0.7,
        1.5,
        1.5,
        5.0,
        Condition::StagnationForEvaluations(50),
        5,
        0.5,
        Termination::Iterations,
        3,
        Stage::ReplaceWorst { n: 5, v_max: 5.0 },
    );
    assert_eq!(p[8], Instr::Do(Stage::SelectAll));
    assert_eq!(
        p[9],
        Instr::Do(Stage::NuclearReaction { new_pop: 5, mu: 0.5, termination: Termination::Iterations, termination_value: 3 })
    );
    assert_eq!(p[11], Instr::Do(Stage::ReplaceWorst { n: 5, v_max: 5.0 }));
    let (k, _) = drive(&p, 10, true);
    assert_eq!(k.evaluations, 200);
}

#[test]
fn stepped_leader_layout() {
    let p = stepped_leader_pso(
        200,
        10,
        0.7,
        1.5,
        1.5,
        5.0,
        Condition::DiversityBelow(0.1),
        5,
        String::from("best"),
        Stage::ReplaceRandom { n: 5, v_max: 5.0 },
    );
    assert_eq!(p[9], Instr::Do(Stage::SteppedLeader { new_pop: 5, leader: String::from("best") }));
    assert_eq!(p[10], Instr::Do(Stage::CompleteOneTailedNormalCorrection));
    let (k, _) = drive(&p, 10, false);
    assert_eq!(k.evaluations, 200);
}

#[test]
fn shade_layout_and_budget() {
    let p = shade(1000, 20, 1, 0.1, 20, 50, 0.5, Stage::BinomialCrossover { cr: 0.9 }).unwrap();
    assert_eq!(p[4], Instr::Do(Stage::ShadeAdaptationInit { history: 50 }));
    assert_eq!(p[6], Instr::Unless(Condition::LessThanEvaluations(1000), 14));
    assert_eq!(
        p[8],
        Instr::Do(Stage::CurrentToPBest { y: 1, p_min: 0.1, population: 20, max_archive: 20 })
    );
    assert_eq!(p[10], Instr::Do(Stage::BinomialCrossover { cr: 0.9 }));
    let (k, _) = drive(&p, 20, false);
    assert_eq!(k.evaluations, 1000);
}

#[test]
fn shade_rejects_bad_parameters() {
    let cr = Stage::ExponentialCrossover { cr: 0.5 };
    assert_eq!(shade(100, 20, 1, 0.1, 20, 0, 0.5, cr.clone()), Err(ShadeError::ZeroHistory));
    assert_eq!(shade(100, 20, 0, 0.1, 20, 5, 0.5, cr.clone()), Err(ShadeError::NoDifferenceVectors));
    assert_eq!(shade(100, 3, 1, 0.1, 20, 5, 0.5, cr.clone()), Err(ShadeError::PopulationTooSmall));
    assert!(shade(100, 4, 1, 0.1, 20, 5, 0.5, cr.clone()).is_ok());
    assert_eq!(shade(100, 20, 1, 0.1, 0, 5, 0.5, cr.clone()), Err(ShadeError::ZeroArchive));
    assert_eq!(shade(100, 20, 1, 0.1, 20, 5, 0.5, Stage::Logger), Err(ShadeError::NotACrossover));
}
