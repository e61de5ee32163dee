//! Laws that relate several evaluations or operations.
use vstd::prelude::*;
use crate::engine::{
    conditions_from, eval, for_each_output, iterate, n_conditions, rules_from, Round,
};
use crate::outcome::{insert_value, lemma_insert_value, Halt, Verdict};
use crate::rules::{Judgment, Program, Rule};
use crate::stack::Frames;

verus! {

/// Evaluation is deterministic: the same judgment evaluated twice on equal
/// inputs, with the same program, call stack and budget, gives equal results.
pub proof fn lemma_determinism(p: Program, s: Frames, j: usize, x: i64, y: i64, fuel: nat)
    requires
        x == y,
    ensures
        eval(p, s, j, x, fuel) == eval(p, s, j, y, fuel),
{
}

/// A proven result never has an empty output set.
pub proof fn lemma_proven_never_empty(p: Program, s: Frames, j: usize, x: i64, fuel: nat)
    ensures
        eval(p, s, j, x, fuel) matches Ok(Verdict::Proven(o)) ==> o.len() > 0,
{
    if j < p.judgments@.len() && fuel > 0 {
        lemma_iterate_never_empty(p, s, j, x, Seq::empty(), (fuel - 1) as nat);
    }
}

proof fn lemma_iterate_never_empty(
    p: Program,
    s: Frames,
    j: usize,
    x: i64,
    approx: Seq<i64>,
    fuel: nat,
)
    ensures
        iterate(p, s, j, x, approx, fuel) matches Ok(Verdict::Proven(o)) ==> o.len() > 0,
    decreases fuel,
{
    let e = Round { outputs: Seq::empty(), failures: Seq::empty() };
    if let Ok(r) = rules_from(p, s.push((j, x, approx)), j, x, 0, e, fuel) {
        if r.outputs.to_set() != approx.to_set() && fuel > 0 {
            lemma_iterate_never_empty(p, s, j, x, r.outputs, (fuel - 1) as nat);
        }
    }
}

/// Inserting a value that is already in an output set changes nothing, and the
/// values of a set do not depend on the order in which they were inserted.
pub proof fn lemma_set_semantics(s: Seq<i64>, a: i64, b: i64)
    ensures
        insert_value(insert_value(s, a), a) == insert_value(s, a),
        insert_value(insert_value(s, a), b).to_set() == insert_value(insert_value(s, b), a).to_set(),
{
    lemma_insert_value(s, a);
    lemma_insert_value(s, b);
    lemma_insert_value(insert_value(s, a), b);
    lemma_insert_value(insert_value(s, b), a);
    assert(insert_value(s, a).contains(a)) by {
        if !s.contains(a) {
            assert(s.push(a)[s.len() as int] == a);
        }
    }
    assert(s.to_set().insert(a).insert(b) =~= s.to_set().insert(b).insert(a));
}

/// A failure at condition `step` is dropped under a commit point after it and
/// recorded under a commit point at or before it; outputs are kept either way.
pub proof fn lemma_commit_point_filters_one_failure(
    acc: Round,
    rule: usize,
    step: usize,
    late: usize,
    early: usize,
    cause: crate::outcome::RuleFailureCause,
)
    requires
        early <= step < late,
    ensures
        crate::engine::record(acc, rule, step, late, cause) == acc,
        crate::engine::record(acc, rule, step, early, cause).outputs == acc.outputs,
        crate::engine::record(acc, rule, step, early, cause).failures == crate::outcome::insert_failure(
            acc.failures,
            crate::outcome::FailedRule { rule, step, cause },
        ),
{
}

/// Two rules that differ at most in their commit point.
pub open spec fn same_rule_but_commit(a: Rule, b: Rule) -> bool {
    &&& a.input == b.input
    &&& a.conditions@ == b.conditions@
    &&& a.conclusion == b.conclusion
}

/// Two judgments whose rules differ at most in their commit points.
pub open spec fn same_judgment_but_commits(a: Judgment, b: Judgment) -> bool {
    &&& a.assertions@ == b.assertions@
    &&& a.trivial@ == b.trivial@
    &&& a.rules@.len() == b.rules@.len()
    &&& forall|i: int|
        0 <= i < a.rules@.len() ==> same_rule_but_commit(#[trigger] a.rules@[i], b.rules@[i])
}

/// Two programs whose rules differ at most in their commit points.
pub open spec fn same_but_commits(p: Program, q: Program) -> bool {
    &&& p.judgments@.len() == q.judgments@.len()
    &&& forall|j: int|
        0 <= j < p.judgments@.len() ==> same_judgment_but_commits(
            #[trigger] p.judgments@[j],
            q.judgments@[j],
        )
}

/// Two evaluation results that halt alike, or are both proven with the same
/// outputs, or both fail for the same judgment and input.
pub open spec fn same_status(a: Result<Verdict, Halt>, b: Result<Verdict, Halt>) -> bool {
    match (a, b) {
        (Err(h1), Err(h2)) => h1 == h2,
        (Ok(Verdict::Proven(o1)), Ok(Verdict::Proven(o2))) => o1 == o2,
        (
            Ok(Verdict::Failed { judgment: j1, input: x1, .. }),
            Ok(Verdict::Failed { judgment: j2, input: x2, .. }),
        ) => j1 == j2 && x1 == x2,
        _ => false,
    }
}

/// Two round results that halt alike or gathered the same outputs.
pub open spec fn same_outputs(a: Result<Round, Halt>, b: Result<Round, Halt>) -> bool {
    match (a, b) {
        (Err(h1), Err(h2)) => h1 == h2,
        (Ok(r1), Ok(r2)) => r1.outputs == r2.outputs,
        _ => false,
    }
}

/// Commit points decide only which failures are reported: moving them leaves
/// the result's proven or failed status, its proven outputs and any halt as
/// they were.
pub proof fn lemma_commit_points_only_filter_failures(
    p: Program,
    q: Program,
    j: usize,
    x: i64,
    fuel: nat,
)
    requires
        same_but_commits(p, q),
    ensures
        same_status(eval(p, Frames::empty(), j, x, fuel), eval(q, Frames::empty(), j, x, fuel)),
{
    lemma_eval_commits(p, q, Frames::empty(), j, x, fuel);
}

proof fn lemma_eval_commits(p: Program, q: Program, s: Frames, j: usize, x: i64, fuel: nat)
    requires
        same_but_commits(p, q),
    ensures
        same_status(eval(p, s, j, x, fuel), eval(q, s, j, x, fuel)),
    decreases fuel, 1int, 0int, 0int, 0int,
{
    if j < p.judgments@.len() {
        assert(same_judgment_but_commits(p.judgments@[j as int], q.judgments@[j as int]));
        if fuel > 0 {
            lemma_iterate_commits(p, q, s, j, x, Seq::empty(), (fuel - 1) as nat);
        }
    }
}

proof fn lemma_iterate_commits(
    p: Program,
    q: Program,
    s: Frames,
    j: usize,
    x: i64,
    approx: Seq<i64>,
    fuel: nat,
)
    requires
        same_but_commits(p, q),
        j < p.judgments@.len(),
    ensures
        same_status(iterate(p, s, j, x, approx, fuel), iterate(q, s, j, x, approx, fuel)),
    decreases fuel, 4int, 0int, 0int, 0int,
{
    let e = Round { outputs: Seq::empty(), failures: Seq::empty() };
    lemma_rules_commits(p, q, s.push((j, x, approx)), j, x, 0, e, e, fuel);
    match rules_from(p, s.push((j, x, approx)), j, x, 0, e, fuel) {
        Ok(r) => {
            if r.outputs.to_set() != approx.to_set() && fuel > 0 {
                lemma_iterate_commits(p, q, s, j, x, r.outputs, (fuel - 1) as nat);
            }
        },
        Err(_) => {},
    }
}

proof fn lemma_rules_commits(
    p: Program,
    q: Program,
    s: Frames,
    j: usize,
    x: i64,
    ri: nat,
    a1: Round,
    a2: Round,
    fuel: nat,
)
    requires
        same_but_commits(p, q),
        j < p.judgments@.len(),
        a1.outputs == a2.outputs,
    ensures
        same_outputs(rules_from(p, s, j, x, ri, a1, fuel), rules_from(q, s, j, x, ri, a2, fuel)),
    decreases fuel, 3int, p.judgments@[j as int].rules@.len() - ri, 0int, 0int,
{
    assert(same_judgment_but_commits(p.judgments@[j as int], q.judgments@[j as int]));
    if ri < p.judgments@[j as int].rules@.len() {
        assert(same_rule_but_commit(
            p.judgments@[j as int].rules@[ri as int],
            q.judgments@[j as int].rules@[ri as int],
        ));
        if p.judgments@[j as int].rules@[ri as int].input.spec_matches(x) {
            lemma_conditions_commits(p, q, s, j, ri, seq![x], 0, a1, a2, fuel);
            match (
                conditions_from(p, s, j, ri, seq![x], 0, a1, fuel),
                conditions_from(q, s, j, ri, seq![x], 0, a2, fuel),
            ) {
                (Ok(b1), Ok(b2)) => {
                    lemma_rules_commits(p, q, s, j, x, ri + 1, b1, b2, fuel);
                },
                _ => {},
            }
        } else {
            lemma_rules_commits(p, q, s, j, x, ri + 1, a1, a2, fuel);
        }
    }
}

proof fn lemma_conditions_commits(
    p: Program,
    q: Program,
    s: Frames,
    j: usize,
    ri: nat,
    env: Seq<i64>,
    k: nat,
    a1: Round,
    a2: Round,
    fuel: nat,
)
    requires
        same_but_commits(p, q),
        j < p.judgments@.len(),
        ri < p.judgments@[j as int].rules@.len(),
        a1.outputs == a2.outputs,
    ensures
        same_outputs(
            conditions_from(p, s, j, ri, env, k, a1, fuel),
            conditions_from(q, s, j, ri, env, k, a2, fuel),
        ),
    decreases fuel, 2int, n_conditions(p, j, ri) - k, 1int, 0int,
{
    assert(same_judgment_but_commits(p.judgments@[j as int], q.judgments@[j as int]));
    let rule = p.judgments@[j as int].rules@[ri as int];
    assert(same_rule_but_commit(rule, q.judgments@[j as int].rules@[ri as int]));
    if k < rule.conditions@.len() {
        match rule.conditions@[k as int] {
            crate::rules::Condition::If(t) => {
                if t.spec_holds(env) {
                    lemma_conditions_commits(p, q, s, j, ri, env, k + 1, a1, a2, fuel);
                }
            },
            crate::rules::Condition::IfMatch(e, pat) => {
                let v = e.value(env);
                if pat.spec_matches(v) {
                    lemma_conditions_commits(p, q, s, j, ri, env.push(v), k + 1, a1, a2, fuel);
                }
            },
            crate::rules::Condition::Let(e) => {
                lemma_conditions_commits(p, q, s, j, ri, env.push(e.value(env)), k + 1, a1, a2, fuel);
            },
            crate::rules::Condition::Range(lo, hi) => {
                let outs = crate::rules::range_values(lo.value(env), hi.value(env));
                lemma_for_each_commits(p, q, s, j, ri, env, k, outs, 0, a1, a2, fuel);
            },
            crate::rules::Condition::Judge(sub, e) => {
                let y = e.value(env);
                lemma_eval_commits(p, q, s, sub, y, fuel);
                match eval(p, s, sub, y, fuel) {
                    Ok(Verdict::Proven(outs)) => {
                        lemma_for_each_commits(p, q, s, j, ri, env, k, outs, 0, a1, a2, fuel);
                    },
                    _ => {},
                }
            },
        }
    }
}

proof fn lemma_for_each_commits(
    p: Program,
    q: Program,
    s: Frames,
    j: usize,
    ri: nat,
    env: Seq<i64>,
    k: nat,
    outs: Seq<i64>,
    i: int,
    a1: Round,
    a2: Round,
    fuel: nat,
)
    requires
        same_but_commits(p, q),
        j < p.judgments@.len(),
        ri < p.judgments@[j as int].rules@.len(),
        a1.outputs == a2.outputs,
    ensures
        same_outputs(
            for_each_output(p, s, j, ri, env, k, outs, i, a1, fuel),
            for_each_output(q, s, j, ri, env, k, outs, i, a2, fuel),
        ),
    decreases fuel, 2int, n_conditions(p, j, ri) - k, 0int, outs.len() - i,
{
    assert(same_judgment_but_commits(p.judgments@[j as int], q.judgments@[j as int]));
    assert(same_rule_but_commit(
        p.judgments@[j as int].rules@[ri as int],
        q.judgments@[j as int].rules@[ri as int],
    ));
    if 0 <= i < outs.len() && k < n_conditions(p, j, ri) {
        lemma_conditions_commits(p, q, s, j, ri, env.push(outs[i]), k + 1, a1, a2, fuel);
        match (
            conditions_from(p, s, j, ri, env.push(outs[i]), k + 1, a1, fuel),
            conditions_from(q, s, j, ri, env.push(outs[i]), k + 1, a2, fuel),
        ) {
            (Ok(b1), Ok(b2)) => {
                lemma_for_each_commits(p, q, s, j, ri, env, k, outs, i + 1, b1, b2, fuel);
            },
            _ => {},
        }
    }
}

} // verus!
