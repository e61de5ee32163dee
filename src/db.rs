//! The knowledge base that supplies clauses to proof search and may force an
//! ambiguous answer, and the entry point that consults it.
use vstd::prelude::*;
use crate::engine::eval;
use crate::outcome::{answer_view, Halt, Outcome};
use crate::rules::{Program, Rule, Test};
use crate::stack::Frames;

verus! {

/// The overall proof strategy.
#[derive(Clone, Copy, Debug, PartialEq, Eq, Structural, Hash, PartialOrd, Ord)]
pub enum SolverConfiguration {
    Cosld,
}

/// A goal: a judgment, named by its position in a program, and its input.
#[derive(Clone, Copy, Debug, PartialEq, Eq, Structural, Hash, PartialOrd, Ord)]
pub struct Goal {
    pub judgment: usize,
    pub input: i64,
}

/// A source of clauses and invariants for proof search, implemented by the
/// surrounding system.
pub trait Database {
    /// Whether this knowledge base forces an ambiguous answer for `goal`.
    spec fn forces_ambiguous(&self, goal: Goal) -> bool;

    /// Whether the solver must not try to prove `goal` and answer ambiguous
    /// instead.
    fn force_ambiguous(&self, goal: &Goal) -> (r: bool)
        ensures
            r == self.forces_ambiguous(*goal),
    ;

    /// A superset of the rules that can prove `goal`; never asked for a goal
    /// whose ambiguity is forced.
    fn program_clauses(&self, goal: &Goal) -> Vec<Rule>
        requires
            !self.forces_ambiguous(*goal),
    ;

    /// The structural axioms that hold of every input of `goal`'s judgment.
    fn invariants_for(&self, goal: &Goal) -> Vec<Test>;
}

/// The answer of proof search on a goal.
pub enum Answer {
    /// The knowledge base forced an ambiguous answer; no rule was consulted.
    Ambiguous,
    /// The evaluation's outcome, or why it halted.
    Decided(Result<Outcome, Halt>),
}

/// `q` is `p` with the rule table of judgment `j` replaced by `rules`.
pub open spec fn with_rules(p: Program, q: Program, j: usize, rules: Seq<Rule>) -> bool {
    &&& q.judgments@.len() == p.judgments@.len()
    &&& forall|i: int|
        0 <= i < p.judgments@.len() && i != j ==> #[trigger] q.judgments@[i] == p.judgments@[i]
    &&& j < p.judgments@.len() ==> {
        &&& q.judgments@[j as int].rules@ == rules
        &&& q.judgments@[j as int].name == p.judgments@[j as int].name
        &&& q.judgments@[j as int].assertions == p.judgments@[j as int].assertions
        &&& q.judgments@[j as int].trivial == p.judgments@[j as int].trivial
    }
    &&& j >= p.judgments@.len() ==> q == p
}

impl Program {
    /// Replaces the rule table of judgment `j` by `rules`; a program without
    /// that judgment stays as it is.
    pub fn set_rules(&mut self, j: usize, rules: Vec<Rule>)
        ensures
            with_rules(*old(self), *final(self), j, rules@),
    {
        if j < self.judgments.len() {
            let mut jd = self.judgments.remove(j);
            jd.rules = rules;
            self.judgments.insert(j, jd);
            assert forall|i: int|
                0 <= i < old(self).judgments@.len() && i != j implies #[trigger] self.judgments@[i]
                == old(self).judgments@[i] by {
                if i < j {
                    assert(self.judgments@[i] == old(self).judgments@.remove(j as int)[i]);
                } else {
                    assert(self.judgments@[i] == old(self).judgments@.remove(j as int)[i - 1]);
                }
            }
        }
    }
}

/// Proves `goal` with the clauses that `db` supplies for it as the rule table
/// of its judgment. When `db` forces ambiguity, nothing else is asked of it
/// and the program is left as it was.
pub fn prove<D: Database>(db: &D, program: &mut Program, goal: Goal, fuel: u64) -> (r: Answer)
    ensures
        (r is Ambiguous) == db.forces_ambiguous(goal),
        r is Ambiguous ==> *final(program) == *old(program),
        r matches Answer::Decided(a) ==> {
            &&& exists|rules: Seq<Rule>| with_rules(*old(program), *final(program), goal.judgment, rules)
            &&& answer_view(a) == eval(*final(program), Frames::empty(), goal.judgment, goal.input, fuel as nat)
            &&& (a matches Ok(o) ==> o@.wf())
        },
{
    if db.force_ambiguous(&goal) {
        return Answer::Ambiguous;
    }
    let clauses = db.program_clauses(&goal);
    let ghost rules = clauses@;
    program.set_rules(goal.judgment, clauses);
    assert(with_rules(*old(program), *program, goal.judgment, rules));
    Answer::Decided(program.evaluate(goal.judgment, goal.input, fuel))
}

} // verus!
