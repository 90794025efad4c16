//! Pipelines as flat programs of stages and condition tests.
//!
//! A pipeline is pure data: a sequence of instructions whose jumps are
//! relative, so that two well-formed pipelines concatenate into a well-formed
//! one without any relocation. The driver that owns the optimization state
//! runs `step` until the program counter reaches the end of the program.
use vstd::prelude::*;

verus! {

/// One instruction of a pipeline.
#[derive(Debug, Clone, PartialEq)]
pub enum Instr<S, C> {
    /// Run a stage, then go on with the next instruction.
    Do(S),
    /// Test a condition: go on with the next instruction when it holds,
    /// else skip forward by the given offset.
    Unless(C, usize),
    /// Skip forward by the given offset.
    Skip(usize),
    /// Go back by the given offset.
    Back(usize),
}

/// Where each instruction of `p` may continue: never outside `0..=p.len()`.
pub open spec fn well_formed<S, C>(p: Seq<Instr<S, C>>) -> bool {
    forall|i: int|
        0 <= i < p.len() ==> match #[trigger] p[i] {
            Instr::Do(_) => true,
            Instr::Unless(_, k) => i + k <= p.len(),
            Instr::Skip(k) => i + k <= p.len(),
            Instr::Back(k) => k <= i,
        }
}

/// The instruction that follows the one at `pc`, given whether its condition
/// holds (ignored by instructions without a condition).
pub open spec fn next_pc<S, C>(p: Seq<Instr<S, C>>, pc: int, holds: bool) -> int {
    match p[pc] {
        Instr::Do(_) => pc + 1,
        Instr::Unless(_, k) => if holds {
            pc + 1
        } else {
            pc + k
        },
        Instr::Skip(k) => pc + k,
        Instr::Back(k) => pc - k,
    }
}

/// A condition tested against the current state before each pass of `body`;
/// the loop ends as soon as it does not hold.
pub open spec fn loop_spec<S, C>(c: C, body: Seq<Instr<S, C>>) -> Seq<Instr<S, C>> {
    seq![Instr::Unless(c, (body.len() + 2) as usize)] + body + seq![
        Instr::Back((body.len() + 1) as usize),
    ]
}

/// Exactly one of `then_` and `else_` runs, chosen by `c`.
pub open spec fn branch_spec<S, C>(
    c: C,
    then_: Seq<Instr<S, C>>,
    else_: Seq<Instr<S, C>>,
) -> Seq<Instr<S, C>> {
    seq![Instr::Unless(c, (then_.len() + 2) as usize)] + then_ + seq![
        Instr::Skip((else_.len() + 1) as usize),
    ] + else_
}

/// `then_` runs only where `c` holds.
pub open spec fn optional_spec<S, C>(c: C, then_: Seq<Instr<S, C>>) -> Seq<Instr<S, C>> {
    seq![Instr::Unless(c, (then_.len() + 1) as usize)] + then_
}

/// Upper bound on program lengths, far from `usize::MAX`.
pub const MAX_PROGRAM: usize = 1_000_000;

pub proof fn lemma_concat_well_formed<S, C>(a: Seq<Instr<S, C>>, b: Seq<Instr<S, C>>)
    requires
        well_formed(a),
        well_formed(b),
    ensures
        well_formed(a + b),
{
    let ab = a + b;
    assert forall|i: int| 0 <= i < ab.len() implies match #[trigger] ab[i] {
        Instr::Do(_) => true,
        Instr::Unless(_, k) => i + k <= ab.len(),
        Instr::Skip(k) => i + k <= ab.len(),
        Instr::Back(k) => k <= i,
    } by {
        if i < a.len() {
            assert(ab[i] == a[i]);
        } else {
            assert(ab[i] == b[i - a.len()]);
        }
    }
}

/// Running `step` from any counter of a well-formed program keeps the counter
/// inside the program or at its end.
pub proof fn lemma_next_in_range<S, C>(p: Seq<Instr<S, C>>, pc: int, holds: bool)
    requires
        well_formed(p),
        0 <= pc < p.len(),
    ensures
        0 <= next_pc(p, pc, holds) <= p.len(),
{
    assert(match p[pc] {
        Instr::Do(_) => true,
        Instr::Unless(_, k) => pc + k <= p.len(),
        Instr::Skip(k) => pc + k <= p.len(),
        Instr::Back(k) => k <= pc,
    });
}

/// A loop tests its condition first: where it holds the body starts, where
/// it does not the loop is over; the end of the body goes back to the test.
pub proof fn lemma_loop_steps<S, C>(c: C, body: Seq<Instr<S, C>>)
    requires
        body.len() + 2 <= usize::MAX,
    ensures
        next_pc(loop_spec(c, body), 0, true) == 1,
        next_pc(loop_spec(c, body), 0, false) == loop_spec(c, body).len(),
        next_pc(loop_spec(c, body), body.len() + 1 as int, true) == 0,
        next_pc(loop_spec(c, body), body.len() + 1 as int, false) == 0,
{
    let p = loop_spec(c, body);
    assert(p[0] == Instr::<S, C>::Unless(c, (body.len() + 2) as usize));
    assert(p[body.len() + 1 as int] == Instr::<S, C>::Back((body.len() + 1) as usize));
}

/// A program that runs one stage.
pub fn stage<S, C>(s: S) -> (r: Vec<Instr<S, C>>)
    ensures
        r@ == seq![Instr::<S, C>::Do(s)],
        well_formed(r@),
{
    let mut r = Vec::new();
    r.push(Instr::Do(s));
    proof {
        assert(r@ =~= seq![Instr::<S, C>::Do(s)]);
    }
    r
}

/// Runs `a`, then `b`.
pub fn sequence<S, C>(a: Vec<Instr<S, C>>, b: Vec<Instr<S, C>>) -> (r: Vec<Instr<S, C>>)
    requires
        well_formed(a@),
        well_formed(b@),
    ensures
        r@ == a@ + b@,
        well_formed(r@),
{
    let ghost a0 = a@;
    let ghost b0 = b@;
    let mut a = a;
    let mut b = b;
    a.append(&mut b);
    proof {
        lemma_concat_well_formed(a0, b0);
    }
    a
}

/// Runs `body` again and again while `c` holds when tested before a pass.
pub fn loop_while<S, C>(c: C, body: Vec<Instr<S, C>>) -> (r: Vec<Instr<S, C>>)
    requires
        well_formed(body@),
        body.len() <= MAX_PROGRAM,
    ensures
        r@ == loop_spec(c, body@),
        well_formed(r@),
{
    let n = body.len();
    let ghost b0 = body@;
    let mut r: Vec<Instr<S, C>> = Vec::new();
    r.push(Instr::Unless(c, n + 2));
    let mut body = body;
    r.append(&mut body);
    r.push(Instr::Back(n + 1));
    proof {
        let want = loop_spec(c, b0);
        assert(r@ =~= want);
        assert forall|i: int| 0 <= i < want.len() implies match #[trigger] want[i] {
            Instr::Do(_) => true,
            Instr::Unless(_, k) => i + k <= want.len(),
            Instr::Skip(k) => i + k <= want.len(),
            Instr::Back(k) => k <= i,
        } by {
            if 1 <= i < n + 1 {
                assert(want[i] == b0[i - 1]);
            }
        }
    }
    r
}

/// Runs `then_` where `c` holds and `else_` where it does not.
pub fn branch<S, C>(c: C, then_: Vec<Instr<S, C>>, else_: Vec<Instr<S, C>>) -> (r: Vec<
    Instr<S, C>,
>)
    requires
        well_formed(then_@),
        well_formed(else_@),
        then_.len() <= MAX_PROGRAM,
        else_.len() <= MAX_PROGRAM,
    ensures
        r@ == branch_spec(c, then_@, else_@),
        well_formed(r@),
{
    let n = then_.len();
    let m = else_.len();
    let ghost t0 = then_@;
    let ghost e0 = else_@;
    let mut r: Vec<Instr<S, C>> = Vec::new();
    r.push(Instr::Unless(c, n + 2));
    let mut then_ = then_;
    let mut else_ = else_;
    r.append(&mut then_);
    r.push(Instr::Skip(m + 1));
    r.append(&mut else_);
    proof {
        let want = branch_spec(c, t0, e0);
        assert(r@ =~= want);
        assert forall|i: int| 0 <= i < want.len() implies match #[trigger] want[i] {
            Instr::Do(_) => true,
            Instr::Unless(_, k) => i + k <= want.len(),
            Instr::Skip(k) => i + k <= want.len(),
            Instr::Back(k) => k <= i,
        } by {
            if 1 <= i < n + 1 {
                assert(want[i] == t0[i - 1]);
            } else if n + 2 <= i {
                assert(want[i] == e0[i - n - 2]);
            }
        }
    }
    r
}

/// Runs `then_` where `c` holds and passes the state on unchanged otherwise.
pub fn branch_optional<S, C>(c: C, then_: Vec<Instr<S, C>>) -> (r: Vec<Instr<S, C>>)
    requires
        well_formed(then_@),
        then_.len() <= MAX_PROGRAM,
    ensures
        r@ == optional_spec(c, then_@),
        well_formed(r@),
{
    let n = then_.len();
    let ghost t0 = then_@;
    let mut r: Vec<Instr<S, C>> = Vec::new();
    r.push(Instr::Unless(c, n + 1));
    let mut then_ = then_;
    r.append(&mut then_);
    proof {
        let want = optional_spec(c, t0);
        assert(r@ =~= want);
        assert forall|i: int| 0 <= i < want.len() implies match #[trigger] want[i] {
            Instr::Do(_) => true,
            Instr::Unless(_, k) => i + k <= want.len(),
            Instr::Skip(k) => i + k <= want.len(),
            Instr::Back(k) => k <= i,
        } by {
            if 1 <= i {
                assert(want[i] == t0[i - 1]);
            }
        }
    }
    r
}

/// The counter that follows `pc` in `p`, given whether the condition of the
/// instruction at `pc` holds; the driver stops once it equals `p.len()`.
pub fn step<S, C>(p: &Vec<Instr<S, C>>, pc: usize, holds: bool) -> (r: usize)
    requires
        well_formed(p@),
        pc < p.len(),
    ensures
        r == next_pc(p@, pc as int, holds),
        r <= p.len(),
{
    proof {
        lemma_next_in_range(p@, pc as int, holds);
    }
    match &p[pc] {
        Instr::Do(_) => pc + 1,
        Instr::Unless(_, k) => if holds {
            pc + 1
        } else {
            pc + *k
        },
        Instr::Skip(k) => pc + *k,
        Instr::Back(k) => pc - *k,
    }
}

} // verus!
