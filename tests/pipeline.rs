use optpipe::pipeline::{branch, branch_optional, loop_while, sequence, stage, step, Instr};

fn stages(ids: &[u32]) -> Vec<Instr<u32, char>> {
    let mut p = Vec::new();
    for id in ids {
        p = sequence(p, stage(*id));
    }
    p
}

/// Runs `p`, answering condition tests from `answers` in turn, and returns
/// the stages in the order they ran.
fn trace(p: &Vec<Instr<u32, char>>, answers: &[bool]) -> Vec<u32> {
    let mut ran = Vec::new();
    let mut pc = 0;
    let mut next_answer = 0;
    while pc < p.len() {
        let holds = match &p[pc] {
            Instr::Do(s) => {
                ran.push(*s);
                false
            }
            Instr::Unless(_, _) => {
                let a = answers[next_answer];
                next_answer += 1;
                a
            }
            _ => false,
        };
        pc = step(p, pc, holds);
    }
    assert_eq!(next_answer, answers.len());
    ran
}

#[test]
fn sequence_runs_stages_in_order() {
    let p = stages(&[1, 2, 3]);
    assert_eq!(p, vec![Instr::Do(1), Instr::Do(2), Instr::Do(3)]);
    assert_eq!(trace(&p, &[]), vec![1, 2, 3]);
}

#[test]
fn loop_layout_is_test_body_back() {
    let p = loop_while('c', stages(&[7, 8]));
    assert_eq!(p, vec![Instr::Unless('c', 4), Instr::Do(7), Instr::Do(8), Instr::Back(3)]);
}

#[test]
fn loop_tests_before_each_pass() {
    let p = loop_while('c', stages(&[7, 8]));
    assert_eq!(trace(&p, &[false]), Vec::<u32>::new());
    assert_eq!(trace(&p, &[true, false]), vec![7, 8]);
    assert_eq!(trace(&p, &[true, true, true, false]), vec![7, 8, 7, 8, 7, 8]);
}

#[test]
fn branch_runs_exactly_one_side() {
    let p = branch('c', stages(&[1, 2]), stages(&[3]));
    assert_eq!(
        p,
        vec![Instr::Unless('c', 4), Instr::Do(1), Instr::Do(2), Instr::Skip(2), Instr::Do(3)]
    );
    assert_eq!(trace(&p, &[true]), vec![1, 2]);
    assert_eq!(trace(&p, &[false]), vec![3]);
}

#[test]
fn branch_optional_passes_through() {
    let p = sequence(branch_optional('c', stages(&[5])), stage(6));
    assert_eq!(trace(&p, &[true]), vec![5, 6]);
    assert_eq!(trace(&p, &[false]), vec![6]);
}

#[test]
fn nested_loops_and_branches() {
    let inner = branch('b', stages(&[2]), stages(&[3]));
    let body = sequence(stages(&[1]), inner);
    let p = sequence(stages(&[0]), loop_while('l', body));
    assert_eq!(trace(&p, &[true, true, true, false, false]), vec![0, 1, 2, 1, 3]);
}

#[test]
fn step_stays_within_program() {
    let p = loop_while('c', branch('b', stages(&[1]), Vec::new()));
    for pc in 0..p.len() {
        for holds in [false, true] {
            assert!(step(&p, pc, holds) <= p.len());
        }
    }
}
