//! The evaluator: the meaning of a program as recursive spec functions, and
//! the executable interpreter proved to compute it.
//!
//! A judgment call first checks the judgment's preconditions and fast paths.
//! A call whose (judgment, input) pair is already in progress further up the
//! call stack returns the approximation recorded there, which breaks cycles.
//! Otherwise the pair is pushed with an empty approximation and the rules are
//! run round after round; each round's output set replaces the approximation,
//! until a round yields the same set as the one before it.
//!
//! Termination is bounded by fuel: entering a fixed point costs one unit and
//! every further round one more; the judgment calls made during a round get
//! the fuel left to that round. An evaluation that runs out halts.
use vstd::prelude::*;
use crate::outcome::{
    answer_view, insert_failed_rule, insert_failure, insert_output, insert_value, verdict_of,
    FailedRule, Halt, Outcome, OutputSet, RuleFailureCause, Verdict,
};
use crate::rules::{range_values, range_vec, Condition, Program, Test, Trivial};
use crate::stack::{copy_values, frames_wf, lemma_find_frame_wf, lookup, CallStack, Frames};

verus! {

/// What one evaluation round has gathered so far.
pub struct Round {
    pub outputs: Seq<i64>,
    pub failures: Seq<FailedRule>,
}

pub open spec fn empty_round() -> Round {
    Round { outputs: Seq::empty(), failures: Seq::empty() }
}

/// Records a failure of rule `rule` at condition `step`, unless the step lies
/// before the rule's commit point.
pub open spec fn record(
    acc: Round,
    rule: usize,
    step: usize,
    commit: usize,
    cause: RuleFailureCause,
) -> Round {
    if step >= commit {
        Round {
            outputs: acc.outputs,
            failures: insert_failure(acc.failures, FailedRule { rule, step, cause }),
        }
    } else {
        acc
    }
}

/// The position of the first assertion, from `i` on, that is false of `input`.
pub open spec fn first_violation(assertions: Seq<Test>, input: i64, i: int) -> Option<usize>
    decreases assertions.len() - i,
{
    if i < 0 || i >= assertions.len() {
        None
    } else if !assertions[i].spec_holds(seq![input]) {
        Some(i as usize)
    } else {
        first_violation(assertions, input, i + 1)
    }
}

/// The result of the first fast path, from `i` on, whose test holds of `input`.
pub open spec fn first_trivial(trivial: Seq<Trivial>, input: i64, i: int) -> Option<i64>
    decreases trivial.len() - i,
{
    if i < 0 || i >= trivial.len() {
        None
    } else if trivial[i].when.spec_holds(seq![input]) {
        Some(trivial[i].result.value(seq![input]))
    } else {
        first_trivial(trivial, input, i + 1)
    }
}

/// The number of conditions of rule `ri` of judgment `j`.
pub open spec fn n_conditions(p: Program, j: usize, ri: nat) -> int {
    p.judgments@[j as int].rules@[ri as int].conditions@.len() as int
}

/// Evaluates judgment `j` on input `x` with the call stack `s`.
pub open spec fn eval(p: Program, s: Frames, j: usize, x: i64, fuel: nat) -> Result<
    Verdict,
    Halt,
>
    decreases fuel, 1int, 0int, 0int, 0int,
{
    if j >= p.judgments@.len() {
        Ok(Verdict::Failed { judgment: j, input: x, failed_rules: Seq::empty() })
    } else {
        let jd = p.judgments@[j as int];
        match first_violation(jd.assertions@, x, 0) {
            Some(a) => Err(Halt::Violated { judgment: j, input: x, assertion: a }),
            None => match first_trivial(jd.trivial@, x, 0) {
                Some(v) => Ok(Verdict::Proven(seq![v])),
                None => match lookup(s, j, x) {
                    Some(approx) => Ok(verdict_of(j, x, approx, Seq::empty())),
                    None => if fuel == 0 {
                        Err(Halt::Exhausted)
                    } else {
                        iterate(p, s, j, x, Seq::empty(), (fuel - 1) as nat)
                    },
                },
            },
        }
    }
}

/// Runs rounds for judgment `j` on `x`, whose frame above `s` holds `approx`,
/// until a round's output set equals the approximation.
pub open spec fn iterate(p: Program, s: Frames, j: usize, x: i64, approx: Seq<i64>, fuel: nat) -> Result<
    Verdict,
    Halt,
>
    decreases fuel, 4int, 0int, 0int, 0int,
{
    match rules_from(p, s.push((j, x, approx)), j, x, 0, empty_round(), fuel) {
        Err(h) => Err(h),
        Ok(r) => if r.outputs.to_set() == approx.to_set() {
            Ok(verdict_of(j, x, r.outputs, r.failures))
        } else if fuel == 0 {
            Err(Halt::Exhausted)
        } else {
            iterate(p, s, j, x, r.outputs, (fuel - 1) as nat)
        },
    }
}

/// Runs the rules of judgment `j` from rule `ri` on, on input `x`.
pub open spec fn rules_from(
    p: Program,
    s: Frames,
    j: usize,
    x: i64,
    ri: nat,
    acc: Round,
    fuel: nat,
) -> Result<Round, Halt>
    decreases fuel, 3int, p.judgments@[j as int].rules@.len() - ri, 0int, 0int,
{
    if ri >= p.judgments@[j as int].rules@.len() {
        Ok(acc)
    } else if p.judgments@[j as int].rules@[ri as int].input.spec_matches(x) {
        match conditions_from(p, s, j, ri, seq![x], 0, acc, fuel) {
            Err(h) => Err(h),
            Ok(a) => rules_from(p, s, j, x, ri + 1, a, fuel),
        }
    } else {
        rules_from(p, s, j, x, ri + 1, acc, fuel)
    }
}

/// Runs the conditions of rule `ri` of judgment `j` from condition `k` on, in
/// the environment `env`, then its conclusion.
pub open spec fn conditions_from(
    p: Program,
    s: Frames,
    j: usize,
    ri: nat,
    env: Seq<i64>,
    k: nat,
    acc: Round,
    fuel: nat,
) -> Result<Round, Halt>
    decreases fuel, 2int, n_conditions(p, j, ri) - k, 1int, 0int,
{
    let rule = p.judgments@[j as int].rules@[ri as int];
    if k >= rule.conditions@.len() {
        Ok(Round { outputs: insert_value(acc.outputs, rule.conclusion.value(env)), failures: acc.failures })
    } else {
        match rule.conditions@[k as int] {
            Condition::If(t) => if t.spec_holds(env) {
                conditions_from(p, s, j, ri, env, k + 1, acc, fuel)
            } else {
                Ok(record(acc, ri as usize, k as usize, rule.commit, RuleFailureCause::ConditionFalse { test: t }))
            },
            Condition::IfMatch(e, pat) => {
                let v = e.value(env);
                if pat.spec_matches(v) {
                    conditions_from(p, s, j, ri, env.push(v), k + 1, acc, fuel)
                } else {
                    Ok(record(acc, ri as usize, k as usize, rule.commit, RuleFailureCause::PatternMismatch { pattern: pat, value: v }))
                }
            },
            Condition::Let(e) => conditions_from(
                p,
                s,
                j,
                ri,
                env.push(e.value(env)),
                k + 1,
                acc,
                fuel,
            ),
            Condition::Range(lo, hi) => for_each_output(
                p,
                s,
                j,
                ri,
                env,
                k,
                range_values(lo.value(env), hi.value(env)),
                0,
                acc,
                fuel,
            ),
            Condition::Judge(sub, e) => {
                let y = e.value(env);
                match eval(p, s, sub, y, fuel) {
                    Err(h) => Err(h),
                    Ok(Verdict::Proven(outs)) => for_each_output(p, s, j, ri, env, k, outs, 0, acc, fuel),
                    Ok(Verdict::Failed { .. }) => Ok(
                        record(
                            acc,
                            ri as usize,
                            k as usize,
                            rule.commit,
                            RuleFailureCause::IterationSourceError { judgment: sub, input: y },
                        ),
                    ),
                }
            },
        }
    }
}

/// Continues rule `ri` after condition `k` once for each of `outs` from `i`
/// on, each bound as the next variable.
pub open spec fn for_each_output(
    p: Program,
    s: Frames,
    j: usize,
    ri: nat,
    env: Seq<i64>,
    k: nat,
    outs: Seq<i64>,
    i: int,
    acc: Round,
    fuel: nat,
) -> Result<Round, Halt>
    decreases fuel, 2int, n_conditions(p, j, ri) - k, 0int, outs.len() - i,
{
    if 0 <= i < outs.len() && k < n_conditions(p, j, ri) {
        match conditions_from(p, s, j, ri, env.push(outs[i]), k + 1, acc, fuel) {
            Err(h) => Err(h),
            Ok(a) => for_each_output(p, s, j, ri, env, k, outs, i + 1, a, fuel),
        }
    } else {
        Ok(acc)
    }
}

/// The rounds' gatherings in executable form.
pub struct Acc {
    outputs: Vec<i64>,
    failures: Vec<FailedRule>,
}

impl View for Acc {
    type V = Round;

    closed spec fn view(&self) -> Round {
        Round { outputs: self.outputs@, failures: self.failures@ }
    }
}

impl Acc {
    fn new() -> (r: Acc)
        ensures
            r@ == empty_round(),
    {
        Acc { outputs: Vec::new(), failures: Vec::new() }
    }

    fn add_output(&mut self, v: i64)
        ensures
            final(self)@ == (Round {
                outputs: insert_value(old(self)@.outputs, v),
                failures: old(self)@.failures,
            }),
    {
        insert_output(&mut self.outputs, v);
    }

    fn record(&mut self, rule: usize, step: usize, commit: usize, cause: RuleFailureCause)
        ensures
            final(self)@ == record(old(self)@, rule, step, commit, cause),
    {
        if step >= commit {
            insert_failed_rule(&mut self.failures, FailedRule { rule, step, cause });
        }
    }

    fn outputs(&self) -> (r: &Vec<i64>)
        ensures
            r@ == self@.outputs,
    {
        &self.outputs
    }
}

/// The gatherings of a round that went through, or why it halted.
pub open spec fn round_answer(r: Result<Acc, Halt>) -> Result<Round, Halt> {
    match r {
        Ok(a) => Ok(a@),
        Err(h) => Err(h),
    }
}

/// A round that went through has no duplicate outputs.
pub open spec fn round_wf(r: Result<Acc, Halt>) -> bool {
    r matches Ok(a) ==> a@.outputs.no_duplicates()
}

/// An outcome that was reached is well formed.
pub open spec fn answer_wf(r: Result<Outcome, Halt>) -> bool {
    r matches Ok(o) ==> o@.wf()
}

fn check_assertions(assertions: &Vec<Test>, x: i64) -> (r: Option<usize>)
    ensures
        r == first_violation(assertions@, x, 0),
{
    let env: Vec<i64> = vec![x];
    assert(env@ =~= seq![x]);
    let mut i: usize = 0;
    while i < assertions.len()
        invariant
            0 <= i <= assertions@.len(),
            env@ == seq![x],
            first_violation(assertions@, x, i as int) == first_violation(assertions@, x, 0),
        decreases assertions@.len() - i,
    {
        if !assertions[i].holds(&env) {
            return Some(i);
        }
        i = i + 1;
    }
    None
}

fn check_trivial(trivial: &Vec<Trivial>, x: i64) -> (r: Option<i64>)
    ensures
        r == first_trivial(trivial@, x, 0),
{
    let env: Vec<i64> = vec![x];
    assert(env@ =~= seq![x]);
    let mut i: usize = 0;
    while i < trivial.len()
        invariant
            0 <= i <= trivial@.len(),
            env@ == seq![x],
            first_trivial(trivial@, x, i as int) == first_trivial(trivial@, x, 0),
        decreases trivial@.len() - i,
    {
        if trivial[i].when.holds(&env) {
            return Some(trivial[i].result.eval(&env));
        }
        i = i + 1;
    }
    None
}

/// Whether `a` and `b` hold the same values.
fn same_values(a: &Vec<i64>, b: &Vec<i64>) -> (r: bool)
    ensures
        r == (a@.to_set() == b@.to_set()),
{
    let ab = all_in(a, b);
    let ba = all_in(b, a);
    if ab && ba {
        assert(a@.to_set() =~= b@.to_set());
    } else if !ab {
        proof {
            let i = choose|i: int| 0 <= i < a@.len() && !b@.contains(a@[i]);
            assert(a@.to_set().contains(a@[i]));
        }
    } else {
        proof {
            let i = choose|i: int| 0 <= i < b@.len() && !a@.contains(b@[i]);
            assert(b@.to_set().contains(b@[i]));
        }
    }
    ab && ba
}

fn all_in(a: &Vec<i64>, b: &Vec<i64>) -> (r: bool)
    ensures
        r == (forall|i: int| 0 <= i < a@.len() ==> b@.contains(#[trigger] a@[i])),
{
    let mut i: usize = 0;
    while i < a.len()
        invariant
            0 <= i <= a@.len(),
            forall|k: int| 0 <= k < i ==> b@.contains(#[trigger] a@[k]),
        decreases a@.len() - i,
    {
        let mut found = false;
        let mut m: usize = 0;
        while m < b.len()
            invariant
                0 <= m <= b@.len(),
                0 <= i < a@.len(),
                found == (exists|t: int| 0 <= t < m && b@[t] == a@[i as int]),
            decreases b@.len() - m,
        {
            if b[m] == a[i] {
                found = true;
            }
            m = m + 1;
        }
        if !found {
            assert(!b@.contains(a@[i as int]));
            return false;
        }
        i = i + 1;
    }
    true
}

/// A copy of `env` with `v` bound as its next variable.
fn bind(env: &Vec<i64>, v: i64) -> (r: Vec<i64>)
    ensures
        r@ == env@.push(v),
{
    let mut r = copy_values(env);
    r.push(v);
    r
}

fn run_eval(p: &Program, st: &mut CallStack, j: usize, x: i64, fuel: u64) -> (r: Result<Outcome, Halt>)
    requires
        frames_wf(old(st)@),
    ensures
        final(st)@ == old(st)@,
        answer_view(r) == eval(*p, old(st)@, j, x, fuel as nat),
        answer_wf(r),
    decreases fuel, 1int, 0int, 0int, 0int,
{
    if j >= p.judgments.len() {
        return Ok(Outcome::failed(j, x, Vec::new()));
    }
    let jd = &p.judgments[j];
    if let Some(a) = check_assertions(&jd.assertions, x) {
        return Err(Halt::Violated { judgment: j, input: x, assertion: a });
    }
    if let Some(v) = check_trivial(&jd.trivial, x) {
        let mut set = OutputSet::new();
        set.insert(v);
        assert(set@ =~= seq![v]);
        return Ok(Outcome::proven(set));
    }
    match st.lookup(j, x) {
        Some(approx) => {
            proof {
                lemma_find_frame_wf(st@, j, x, st@.len() as int);
            }
            if approx.len() > 0 {
                Ok(Outcome::proven(OutputSet::from_unique(approx)))
            } else {
                Ok(Outcome::failed(j, x, Vec::new()))
            }
        },
        None => {
            if fuel == 0 {
                return Err(Halt::Exhausted);
            }
            st.push(j, x);
            assert(st@.drop_last() == old(st)@);
            let r = run_iterate(p, st, j, x, fuel - 1);
            st.pop();
            r
        },
    }
}

fn run_iterate(p: &Program, st: &mut CallStack, j: usize, x: i64, fuel: u64) -> (r: Result<Outcome, Halt>)
    requires
        j < p.judgments@.len(),
        old(st)@.len() > 0,
        old(st)@.last().0 == j,
        old(st)@.last().1 == x,
        frames_wf(old(st)@),
    ensures
        final(st)@.len() == old(st)@.len(),
        final(st)@.drop_last() == old(st)@.drop_last(),
        answer_view(r) == iterate(*p, old(st)@.drop_last(), j, x, old(st)@.last().2, fuel as nat),
        answer_wf(r),
    decreases fuel, 4int, 0int, 0int, 0int,
{
    assert(old(st)@ == old(st)@.drop_last().push((j, x, old(st)@.last().2)));
    let approx = st.top_approximation();
    let acc = Acc::new();
    match run_rules(p, st, j, x, 0, acc, fuel) {
        Err(h) => Err(h),
        Ok(a) => {
            if same_values(a.outputs(), &approx) {
                if a.outputs.len() > 0 {
                    Ok(Outcome::proven(OutputSet::from_unique(a.outputs)))
                } else {
                    Ok(Outcome::failed(j, x, a.failures))
                }
            } else if fuel == 0 {
                Err(Halt::Exhausted)
            } else {
                st.set_approximation(a.outputs);
                assert(frames_wf(st@)) by {
                    assert forall|i: int| 0 <= i < st@.len() implies (#[trigger] st@[i]).2.no_duplicates() by {
                        if i < st@.len() - 1 {
                            assert(st@[i] == old(st)@[i]);
                        }
                    }
                }
                run_iterate(p, st, j, x, fuel - 1)
            }
        },
    }
}

fn run_rules(
    p: &Program,
    st: &mut CallStack,
    j: usize,
    x: i64,
    ri: usize,
    acc: Acc,
    fuel: u64,
) -> (r: Result<Acc, Halt>)
    requires
        j < p.judgments@.len(),
        frames_wf(old(st)@),
        acc@.outputs.no_duplicates(),
    ensures
        final(st)@ == old(st)@,
        round_answer(r) == rules_from(*p, old(st)@, j, x, ri as nat, acc@, fuel as nat),
        round_wf(r),
    decreases fuel, 3int, p.judgments@[j as int].rules@.len() - ri, 0int, 0int,
{
    let rules = &p.judgments[j].rules;
    if ri >= rules.len() {
        return Ok(acc);
    }
    if rules[ri].input.matches(x) {
        let env: Vec<i64> = vec![x];
        assert(env@ =~= seq![x]);
        match run_conditions(p, st, j, ri, &env, 0, acc, fuel) {
            Err(h) => Err(h),
            Ok(a) => run_rules(p, st, j, x, ri + 1, a, fuel),
        }
    } else {
        run_rules(p, st, j, x, ri + 1, acc, fuel)
    }
}

fn run_conditions(
    p: &Program,
    st: &mut CallStack,
    j: usize,
    ri: usize,
    env: &Vec<i64>,
    k: usize,
    acc: Acc,
    fuel: u64,
) -> (r: Result<Acc, Halt>)
    requires
        j < p.judgments@.len(),
        ri < p.judgments@[j as int].rules@.len(),
        frames_wf(old(st)@),
        acc@.outputs.no_duplicates(),
    ensures
        final(st)@ == old(st)@,
        round_answer(r) == conditions_from(*p, old(st)@, j, ri as nat, env@, k as nat, acc@, fuel as nat),
        round_wf(r),
    decreases fuel, 2int, n_conditions(*p, j, ri as nat) - k, 1int, 0int,
{
    let rule = &p.judgments[j].rules[ri];
    let mut acc = acc;
    if k >= rule.conditions.len() {
        let v = rule.conclusion.eval(env);
        proof {
            lemma_insert_keeps_unique(acc@.outputs, v);
        }
        acc.add_output(v);
        return Ok(acc);
    }
    match rule.conditions[k] {
        Condition::If(t) => {
            if t.holds(env) {
                run_conditions(p, st, j, ri, env, k + 1, acc, fuel)
            } else {
                acc.record(ri, k, rule.commit, RuleFailureCause::ConditionFalse { test: t });
                Ok(acc)
            }
        },
        Condition::IfMatch(e, pat) => {
            let v = e.eval(env);
            if pat.matches(v) {
                let env2 = bind(env, v);
                run_conditions(p, st, j, ri, &env2, k + 1, acc, fuel)
            } else {
                acc.record(ri, k, rule.commit, RuleFailureCause::PatternMismatch { pattern: pat, value: v });
                Ok(acc)
            }
        },
        Condition::Let(e) => {
            let v = e.eval(env);
            let env2 = bind(env, v);
            run_conditions(p, st, j, ri, &env2, k + 1, acc, fuel)
        },
        Condition::Range(lo, hi) => {
            let outs = range_vec(lo.eval(env), hi.eval(env));
            run_for_each(p, st, j, ri, env, k, &outs, 0, acc, fuel)
        },
        Condition::Judge(sub, e) => {
            let y = e.eval(env);
            match run_eval(p, st, sub, y, fuel) {
                Err(h) => Err(h),
                Ok(Outcome::Proven(set)) => {
                    let outs = set.to_vec();
                    run_for_each(p, st, j, ri, env, k, &outs, 0, acc, fuel)
                },
                Ok(Outcome::Failed(_)) => {
                    acc.record(
                        ri,
                        k,
                        rule.commit,
                        RuleFailureCause::IterationSourceError { judgment: sub, input: y },
                    );
                    Ok(acc)
                },
            }
        },
    }
}

fn run_for_each(
    p: &Program,
    st: &mut CallStack,
    j: usize,
    ri: usize,
    env: &Vec<i64>,
    k: usize,
    outs: &Vec<i64>,
    i: usize,
    acc: Acc,
    fuel: u64,
) -> (r: Result<Acc, Halt>)
    requires
        j < p.judgments@.len(),
        ri < p.judgments@[j as int].rules@.len(),
        frames_wf(old(st)@),
        acc@.outputs.no_duplicates(),
    ensures
        final(st)@ == old(st)@,
        round_answer(r) == for_each_output(
            *p,
            old(st)@,
            j,
            ri as nat,
            env@,
            k as nat,
            outs@,
            i as int,
            acc@,
            fuel as nat,
        ),
        round_wf(r),
    decreases fuel, 2int, n_conditions(*p, j, ri as nat) - k, 0int, outs@.len() - i,
{
    if i < outs.len() && k < p.judgments[j].rules[ri].conditions.len() {
        let env2 = bind(env, outs[i]);
        match run_conditions(p, st, j, ri, &env2, k + 1, acc, fuel) {
            Err(h) => Err(h),
            Ok(a) => run_for_each(p, st, j, ri, env, k, outs, i + 1, a, fuel),
        }
    } else {
        Ok(acc)
    }
}

proof fn lemma_insert_keeps_unique(s: Seq<i64>, v: i64)
    requires
        s.no_duplicates(),
    ensures
        insert_value(s, v).no_duplicates(),
{
    crate::outcome::lemma_insert_value(s, v);
}

impl Program {
    /// Evaluates judgment `judgment` on `input` with the budget `fuel`, on an
    /// empty call stack. A proven outcome never has an empty output set.
    pub fn evaluate(&self, judgment: usize, input: i64, fuel: u64) -> (r: Result<Outcome, Halt>)
        ensures
            answer_view(r) == eval(*self, Frames::empty(), judgment, input, fuel as nat),
            answer_wf(r),
    {
        let mut st = CallStack::new();
        run_eval(self, &mut st, judgment, input, fuel)
    }
}

} // verus!
