//! Runs of assembled programs under an evaluation budget.
//!
//! A counted run follows a program as the driver does, keeping only the
//! evaluation count: every evaluation stage spends one batch, and a budget
//! test reads the count. Other conditions never appear in the programs
//! that these laws are about.
use vstd::prelude::*;

use crate::algorithms::pso::basic_pso_spec;
use crate::algorithms::shade::{is_crossover, shade_spec};
use crate::pipeline::{loop_spec, next_pc, Instr};
use crate::stages::{Condition, Stage, Steps};

verus! {

/// How a loop condition reads the evaluation count.
pub open spec fn budget_holds<R>(c: Condition<R>, evaluations: nat) -> bool {
    match c {
        Condition::LessThanEvaluations(n) => evaluations < n,
        _ => false,
    }
}

/// One instruction of a counted run; past the end nothing changes.
pub open spec fn counted_step<R>(p: Steps<R>, pc: int, evaluations: nat, batch: nat) -> (int, nat) {
    if 0 <= pc < p.len() {
        match p[pc] {
            Instr::Do(s) => (pc + 1, if s is Evaluate {
                evaluations + batch
            } else {
                evaluations
            }),
            Instr::Unless(c, _) => (next_pc(p, pc, budget_holds(c, evaluations)), evaluations),
            _ => (next_pc(p, pc, false), evaluations),
        }
    } else {
        (pc, evaluations)
    }
}

/// `steps` instructions of a counted run.
pub open spec fn counted_run<R>(
    p: Steps<R>,
    pc: int,
    evaluations: nat,
    batch: nat,
    steps: nat,
) -> (int, nat)
    decreases steps,
{
    if steps == 0 {
        (pc, evaluations)
    } else {
        let (q, e) = counted_step(p, pc, evaluations, batch);
        counted_run(p, q, e, batch, (steps - 1) as nat)
    }
}

/// A sequence of stages alone, without tests or jumps.
pub open spec fn straight<R>(s: Steps<R>) -> bool {
    forall|i: int| 0 <= i < s.len() ==> #[trigger] s[i] is Do
}

/// How many evaluation stages `s` holds.
pub open spec fn evaluate_count<R>(s: Steps<R>) -> nat
    decreases s.len(),
{
    if s.len() == 0 {
        0
    } else {
        (if s[0] == Instr::<Stage<R>, Condition<R>>::Do(Stage::Evaluate) {
            1nat
        } else {
            0nat
        }) + evaluate_count(s.drop_first())
    }
}

/// The number of passes of a budget loop that starts at `first` evaluations
/// and spends `per` evaluations a pass.
pub open spec fn passes(first: nat, per: nat, budget: nat) -> nat
    decreases if first < budget {
        budget - first
    } else {
        0
    },
{
    if per == 0 || first >= budget {
        0
    } else {
        1 + passes(first + per, per, budget)
    }
}

proof fn lemma_run_split<R>(p: Steps<R>, pc: int, ev: nat, b: nat, s1: nat, s2: nat)
    ensures
        counted_run(p, pc, ev, b, s1 + s2) == counted_run(
            p,
            counted_run(p, pc, ev, b, s1).0,
            counted_run(p, pc, ev, b, s1).1,
            b,
            s2,
        ),
    decreases s1,
{
    if s1 > 0 {
        let (q, e) = counted_step(p, pc, ev, b);
        lemma_run_split(p, q, e, b, (s1 - 1) as nat, s2);
        assert((s1 + s2 - 1) as nat == (s1 - 1) as nat + s2);
    }
}

/// Running the straight stretch `s` that stands in `p` at `o`, from its
/// `j`-th instruction to its end.
proof fn lemma_straight_run<R>(p: Steps<R>, o: int, s: Steps<R>, j: int, ev: nat, b: nat)
    requires
        straight(s),
        0 <= o,
        o + s.len() <= p.len(),
        forall|i: int| 0 <= i < s.len() ==> p[o + i] == #[trigger] s[i],
        0 <= j <= s.len(),
    ensures
        counted_run(p, o + j, ev, b, (s.len() - j) as nat) == (
            o + s.len(),
            ev + b * evaluate_count(s.skip(j)),
        ),
    decreases s.len() - j,
{
    if j == s.len() {
        assert(s.skip(j).len() == 0);
        assert(evaluate_count(s.skip(j)) == 0);
        assert(b * 0 == 0);
    } else {
        assert(p[o + j] == s[j]);
        assert(s[j] is Do);
        assert(s.skip(j).drop_first() =~= s.skip(j + 1));
        assert(s.skip(j)[0] == s[j]);
        let c0: nat = if s[j] == Instr::<Stage<R>, Condition<R>>::Do(Stage::Evaluate) {
            1
        } else {
            0
        };
        let rest = evaluate_count(s.skip(j + 1));
        assert(evaluate_count(s.skip(j)) == c0 + rest);
        let e1 = ev + b * c0;
        assert(counted_step(p, o + j, ev, b) == (o + j + 1, e1));
        let n = (s.len() - j) as nat;
        assert(counted_run(p, o + j, ev, b, n) == counted_run(p, o + j + 1, e1, b, (n - 1) as nat));
        lemma_straight_run(p, o, s, j + 1, e1, b);
        assert((n - 1) as nat == (s.len() - (j + 1)) as nat);
        vstd::arithmetic::mul::lemma_mul_is_distributive_add(b as int, c0 as int, rest as int);
        assert(e1 + b * rest == ev + b * evaluate_count(s.skip(j)));
    }
}

/// The program of a budget loop after a straight start.
pub open spec fn budget_program<R>(start: Steps<R>, budget: u32, body: Steps<R>) -> Steps<R> {
    start + loop_spec(Condition::LessThanEvaluations(budget), body)
}

/// The number of instructions that a counted run of `budget_program` takes.
pub open spec fn budget_steps(start_len: nat, body_len: nat, k: nat) -> nat {
    start_len + (body_len + 2) * k + 1
}

/// `k` passes of the loop from its test, each below the budget when it
/// starts, bring the run back to the test with `k` batches per pass more.
proof fn lemma_passes<R>(start: Steps<R>, budget: u32, body: Steps<R>, ev: nat, b: nat, k: nat)
    requires
        straight(body),
        body.len() + 2 <= usize::MAX,
        ev + b * evaluate_count(body) * (k - 1) < budget || k == 0,
    ensures
        counted_run(
            budget_program(start, budget, body),
            start.len() as int,
            ev,
            b,
            (body.len() + 2) * k,
        ) == (start.len() as int, ev + b * evaluate_count(body) * k),
    decreases k,
{
    let p = budget_program(start, budget, body);
    let h = start.len() as int;
    let per = b * evaluate_count(body);
    let step_len = (body.len() + 2) as nat;
    if k > 0 {
        assert(per * (k - 1) >= 0) by (nonlinear_arith)
            requires
                per >= 0,
                k >= 1,
        ;
        assert(ev < budget);
        // the test
        assert(p[h] == Instr::<Stage<R>, Condition<R>>::Unless(
            Condition::LessThanEvaluations(budget),
            (body.len() + 2) as usize,
        ));
        assert(counted_step(p, h, ev, b) == (h + 1, ev));
        // the body
        assert forall|i: int| 0 <= i < body.len() implies p[(h + 1) + i] == #[trigger] body[i] by {
            assert(p[h + 1 + i] == loop_spec(Condition::LessThanEvaluations(budget), body)[1 + i]);
        }
        lemma_straight_run(p, h + 1, body, 0, ev, b);
        assert(body.skip(0) =~= body);
        // the jump back
        let last = h + 1 + body.len();
        assert(p[last] == Instr::<Stage<R>, Condition<R>>::Back((body.len() + 1) as usize));
        assert(counted_step(p, last, ev + per, b) == (h, ev + per));
        lemma_run_split(p, h, ev, b, 1, body.len() as nat);
        lemma_run_split(p, h, ev, b, 1 + body.len() as nat, 1);
        assert(counted_run(p, h, ev + per, b, 0) == (h, ev + per));
        assert(counted_run(p, last, ev + per, b, 1) == (h, ev + per));
        assert(counted_run(p, h, ev, b, step_len) == (h, ev + per));
        // the passes that follow
        assert(ev + per + per * ((k - 1) - 1) < budget || k - 1 == 0) by (nonlinear_arith)
            requires
                ev + per * (k - 1) < budget || k == 0,
                k >= 1,
        ;
        lemma_passes(start, budget, body, ev + per, b, (k - 1) as nat);
        assert(step_len * k == step_len + step_len * (k - 1)) by (nonlinear_arith)
            requires
                k >= 1,
        ;
        lemma_run_split(p, h, ev, b, step_len, step_len * (k - 1) as nat);
        assert(ev + per + per * (k - 1) == ev + per * k) by (nonlinear_arith)
            requires
                k >= 1,
        ;
    } else {
        assert(per * k == 0 && (body.len() + 2) * k == 0) by (nonlinear_arith)
            requires
                k == 0,
        ;
    }
}

/// After `passes` passes the budget is spent, and every pass before the
/// last started below it.
proof fn lemma_passes_bound(first: nat, per: nat, budget: nat)
    requires
        per > 0,
    ensures
        first + per * passes(first, per, budget) >= budget,
        passes(first, per, budget) > 0 ==> first + per * (passes(first, per, budget) - 1)
            < budget,
    decreases if first < budget {
        budget - first
    } else {
        0
    },
{
    if first < budget {
        lemma_passes_bound(first + per, per, budget);
        let k = passes(first + per, per, budget);
        assert(passes(first, per, budget) == 1 + k);
        assert(first + per + per * k == first + per * (k + 1)) by (nonlinear_arith);
        if k == 0 {
            assert(per * 0 == 0);
        }
        if k > 0 {
            assert(first + per + per * (k - 1) == first + per * k) by (nonlinear_arith)
                requires
                    k > 0,
            ;
        }
    }
}

/// A budget loop after a straight start halts: with a batch of `b`
/// evaluations, at least one evaluation stage in the body and `b > 0`, the
/// counted run from the start ends at the end of the program after
/// `budget_steps` instructions; the budget is then spent, and it was not yet
/// when the last pass began.
pub proof fn lemma_budget_program_halts<R>(start: Steps<R>, budget: u32, body: Steps<R>, b: nat)
    requires
        straight(start),
        straight(body),
        body.len() + 2 <= usize::MAX,
        b > 0,
        evaluate_count(body) > 0,
    ensures
        ({
            let first = b * evaluate_count(start);
            let per = b * evaluate_count(body);
            let k = passes(first, per, budget as nat);
            let p = budget_program(start, budget, body);
            &&& counted_run(p, 0, 0, b, budget_steps(start.len(), body.len(), k)) == (
                p.len() as int,
                first + per * k,
            )
            &&& first + per * k >= budget
            &&& k > 0 ==> first + per * (k - 1) < budget
        }),
{
    let first = b * evaluate_count(start);
    let per = b * evaluate_count(body);
    assert(per > 0) by (nonlinear_arith)
        requires
            b > 0,
            evaluate_count(body) > 0,
            per == b * evaluate_count(body),
    ;
    let k = passes(first, per, budget as nat);
    let p = budget_program(start, budget, body);
    let h = start.len() as int;
    lemma_passes_bound(first, per, budget as nat);
    assert forall|i: int| 0 <= i < start.len() implies p[0 + i] == #[trigger] start[i] by {}
    lemma_straight_run(p, 0, start, 0, 0, b);
    assert(start.skip(0) =~= start);
    assert(per * k == b * evaluate_count(body) * k) by (nonlinear_arith)
        requires
            per == b * evaluate_count(body),
    ;
    if k > 0 {
        assert(per * (k - 1) == b * evaluate_count(body) * (k - 1)) by (nonlinear_arith)
            requires
                per == b * evaluate_count(body),
        ;
    }
    lemma_passes(start, budget, body, first, b, k);
    assert(p[h] == Instr::<Stage<R>, Condition<R>>::Unless(
        Condition::LessThanEvaluations(budget),
        (body.len() + 2) as usize,
    ));
    assert(counted_step(p, h, first + per * k, b) == (p.len() as int, first + per * k));
    assert(counted_run(p, p.len() as int, first + per * k, b, 0) == (
        p.len() as int,
        first + per * k,
    ));
    assert(counted_run(p, h, first + per * k, b, 1) == (p.len() as int, first + per * k));
    lemma_run_split(p, 0, 0, b, start.len(), ((body.len() + 2) * k) as nat);
    lemma_run_split(p, 0, 0, b, (start.len() + (body.len() + 2) * k) as nat, 1);
}

/// Plain PSO halts on its budget. With `population_size` evaluations per
/// evaluation stage, its counted run reaches the end of the program after
/// six starting instructions, nine per pass and the final test; it spends
/// one batch at the start and one per pass, which is at least the budget,
/// and the last pass began below it.
pub proof fn lemma_basic_pso_halts<R>(
    evaluations: u32,
    population_size: u32,
    w: R,
    c1: R,
    c2: R,
    v_max: R,
)
    requires
        population_size > 0,
    ensures
        ({
            let n = population_size as nat;
            let k = passes(n, n, evaluations as nat);
            let p = basic_pso_spec(evaluations, population_size, w, c1, c2, v_max);
            &&& counted_run(p, 0, 0, n, 6 + 9 * k + 1) == (p.len() as int, n + n * k)
            &&& n + n * k >= evaluations
            &&& k > 0 ==> n + n * (k - 1) < evaluations
        }),
{
    let p = basic_pso_spec(evaluations, population_size, w, c1, c2, v_max);
    let start = p.take(6);
    let body = p.subrange(7, 14);
    assert(p =~= budget_program(start, evaluations, body));
    assert(straight(start));
    assert(straight(body));
    reveal_with_fuel(evaluate_count, 8);
    assert(start.drop_first().drop_first() =~= p.subrange(2, 6));
    assert(evaluate_count(start) == 1);
    assert(body.drop_first().drop_first().drop_first() =~= p.subrange(10, 14));
    assert(evaluate_count(body) == 1);
    lemma_budget_program_halts(start, evaluations, body, population_size as nat);
}

/// SHADE halts on its budget. With `population_size` evaluations per
/// evaluation stage, its counted run reaches the end of the program after
/// six starting instructions, fourteen per generation and the final test;
/// it spends one batch at the start and one per generation, which is at
/// least the budget, and the last generation began below it.
pub proof fn lemma_shade_halts<R>(
    evaluations: u32,
    population_size: u32,
    y: u32,
    p_min: R,
    max_archive: usize,
    history: usize,
    f: R,
    crossover: Stage<R>,
)
    requires
        population_size > 0,
        is_crossover(crossover),
    ensures
        ({
            let n = population_size as nat;
            let k = passes(n, n, evaluations as nat);
            let p = shade_spec(
                evaluations,
                population_size,
                y,
                p_min,
                max_archive,
                history,
                f,
                crossover,
            );
            &&& counted_run(p, 0, 0, n, 6 + 14 * k + 1) == (p.len() as int, n + n * k)
            &&& n + n * k >= evaluations
            &&& k > 0 ==> n + n * (k - 1) < evaluations
        }),
{
    let p = shade_spec(evaluations, population_size, y, p_min, max_archive, history, f, crossover);
    let start = p.take(6);
    let body = p.subrange(7, 19);
    assert(p =~= budget_program(start, evaluations, body));
    assert(straight(start));
    assert(straight(body));
    reveal_with_fuel(evaluate_count, 14);
    assert(start.drop_first().drop_first() =~= p.subrange(2, 6));
    assert(evaluate_count(start) == 1);
    assert(body[3] != Instr::<Stage<R>, Condition<R>>::Do(Stage::Evaluate));
    assert(body.drop_first().drop_first().drop_first().drop_first().drop_first().drop_first()
        =~= p.subrange(13, 19));
    assert(evaluate_count(body) == 1);
    lemma_budget_program_halts(start, evaluations, body, population_size as nat);
}

} // verus!
