//! Rule tables: the data that describes a judgment's rules, and the meaning
//! of the terms, tests and patterns that make up their conditions.
use vstd::prelude::*;

verus! {

/// The value of variable `k` of the environment; an unbound variable reads as 0.
pub open spec fn env_get(env: Seq<i64>, k: usize) -> i64 {
    if k < env.len() {
        env[k as int]
    } else {
        0
    }
}

/// An expression over the environment of a rule. Variable 0 is the
/// judgment's input; each binding condition adds the next variable.
#[derive(Clone, Copy, Debug, PartialEq, Eq, Structural, Hash, PartialOrd, Ord)]
pub enum Term {
    Var(usize),
    Lit(i64),
    /// A variable plus a constant, wrapping on overflow.
    Offset(usize, i64),
}

impl Term {
    pub open spec fn value(self, env: Seq<i64>) -> i64 {
        match self {
            Term::Var(k) => env_get(env, k),
            Term::Lit(c) => c,
            Term::Offset(k, c) => env_get(env, k).wrapping_add(c),
        }
    }

    /// Evaluates the term in `env`.
    pub fn eval(&self, env: &Vec<i64>) -> (r: i64)
        ensures
            r == self.value(env@),
    {
        match *self {
            Term::Var(k) => get(env, k),
            Term::Lit(c) => c,
            Term::Offset(k, c) => get(env, k).wrapping_add(c),
        }
    }
}

fn get(env: &Vec<i64>, k: usize) -> (r: i64)
    ensures
        r == env_get(env@, k),
{
    if k < env.len() {
        env[k]
    } else {
        0
    }
}

/// A comparison between two values.
#[derive(Clone, Copy, Debug, PartialEq, Eq, Structural, Hash, PartialOrd, Ord)]
pub enum Cmp {
    Eq,
    Ne,
    Lt,
    Le,
}

impl Cmp {
    pub open spec fn spec_holds(self, a: i64, b: i64) -> bool {
        match self {
            Cmp::Eq => a == b,
            Cmp::Ne => a != b,
            Cmp::Lt => a < b,
            Cmp::Le => a <= b,
        }
    }

    pub fn holds(&self, a: i64, b: i64) -> (r: bool)
        ensures
            r == self.spec_holds(a, b),
    {
        match *self {
            Cmp::Eq => a == b,
            Cmp::Ne => a != b,
            Cmp::Lt => a < b,
            Cmp::Le => a <= b,
        }
    }
}

/// A boolean test: `lhs cmp rhs`.
#[derive(Clone, Copy, Debug, PartialEq, Eq, Structural, Hash, PartialOrd, Ord)]
pub struct Test {
    pub cmp: Cmp,
    pub lhs: Term,
    pub rhs: Term,
}

impl Test {
    pub open spec fn spec_holds(self, env: Seq<i64>) -> bool {
        self.cmp.spec_holds(self.lhs.value(env), self.rhs.value(env))
    }

    /// Whether the test is true in `env`.
    pub fn holds(&self, env: &Vec<i64>) -> (r: bool)
        ensures
            r == self.spec_holds(env@),
    {
        let a = self.lhs.eval(env);
        let b = self.rhs.eval(env);
        self.cmp.holds(a, b)
    }
}

/// The values from `lo` up to, not including, `hi`, in increasing order.
pub open spec fn range_values(lo: i64, hi: i64) -> Seq<i64> {
    Seq::new(if lo < hi { (hi - lo) as nat } else { 0 }, |i: int| (lo + i) as i64)
}

/// The values from `lo` up to, not including, `hi`.
pub fn range_vec(lo: i64, hi: i64) -> (r: Vec<i64>)
    ensures
        r@ == range_values(lo, hi),
{
    let mut r: Vec<i64> = Vec::new();
    if lo >= hi {
        assert(r@ =~= range_values(lo, hi));
        return r;
    }
    let mut x: i64 = lo;
    while x < hi
        invariant
            lo <= x <= hi,
            r@ =~= Seq::new((x - lo) as nat, |i: int| (lo + i) as i64),
        decreases hi - x,
    {
        r.push(x);
        x = x + 1;
    }
    assert(r@ =~= range_values(lo, hi));
    r
}

/// A structural pattern on a value.
#[derive(Clone, Copy, Debug, PartialEq, Eq, Structural, Hash, PartialOrd, Ord)]
pub enum Pattern {
    Any,
    Exactly(i64),
    AtLeast(i64),
    AtMost(i64),
}

impl Pattern {
    pub open spec fn spec_matches(self, v: i64) -> bool {
        match self {
            Pattern::Any => true,
            Pattern::Exactly(c) => v == c,
            Pattern::AtLeast(c) => v >= c,
            Pattern::AtMost(c) => v <= c,
        }
    }

    /// Whether `v` matches the pattern.
    pub fn matches(&self, v: i64) -> (r: bool)
        ensures
            r == self.spec_matches(v),
    {
        match *self {
            Pattern::Any => true,
            Pattern::Exactly(c) => v == c,
            Pattern::AtLeast(c) => v >= c,
            Pattern::AtMost(c) => v <= c,
        }
    }
}

/// One condition of a rule.
#[derive(Clone, Copy, Debug, PartialEq, Eq, Structural, Hash, PartialOrd, Ord)]
pub enum Condition {
    /// Proceeds if the test holds.
    If(Test),
    /// Evaluates the term and proceeds, binding its value, if it matches the
    /// pattern.
    IfMatch(Term, Pattern),
    /// Binds the term's value; always proceeds.
    Let(Term),
    /// Invokes judgment `.0` on the term's value and proceeds once for each of
    /// its proven outputs, binding it.
    Judge(usize, Term),
    /// Proceeds once for each value from the first term's value up to, not
    /// including, the second's, binding it; an empty range ends the rule
    /// without output or failure.
    Range(Term, Term),
}

/// A rule: a pattern that the input must match for the rule to apply at all,
/// ordered conditions, a commit point, and the conclusion's output term.
/// Failures at a condition before position `commit` are not reported.
pub struct Rule {
    pub name: String,
    pub input: Pattern,
    pub conditions: Vec<Condition>,
    pub commit: usize,
    pub conclusion: Term,
}

/// A fast path: when `when` holds of the input, the judgment is proven with the
/// single output `result`, and no rule runs.
#[derive(Clone, Copy, Debug, PartialEq, Eq, Structural, Hash, PartialOrd, Ord)]
pub struct Trivial {
    pub when: Test,
    pub result: Term,
}

/// A judgment: its preconditions, its fast paths and its ordered rules.
pub struct Judgment {
    pub name: String,
    pub assertions: Vec<Test>,
    pub trivial: Vec<Trivial>,
    pub rules: Vec<Rule>,
}

/// The judgments that can invoke one another, each named by its position.
pub struct Program {
    pub judgments: Vec<Judgment>,
}

impl Program {
    /// The name of rule `ri` of judgment `j`, the rule that a failure report
    /// designates by these positions.
    pub fn rule_name(&self, j: usize, ri: usize) -> (r: Option<&String>)
        ensures
            match r {
                Some(n) => j < self.judgments@.len() && ri < self.judgments@[j as int].rules@.len()
                    && *n == self.judgments@[j as int].rules@[ri as int].name,
                None => j >= self.judgments@.len() || ri >= self.judgments@[j as int].rules@.len(),
            },
    {
        if j < self.judgments.len() && ri < self.judgments[j].rules.len() {
            Some(&self.judgments[j].rules[ri].name)
        } else {
            None
        }
    }
}

} // verus!
