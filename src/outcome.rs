//! Output sets, failure diagnostics and the proven-or-failed outcome of a judgment.
use vstd::prelude::*;
use crate::rules::{Pattern, Test};

verus! {

/// Adds `v` at the end of `s` unless it is already there.
pub open spec fn insert_value(s: Seq<i64>, v: i64) -> Seq<i64> {
    if s.contains(v) {
        s
    } else {
        s.push(v)
    }
}

/// Why a rule stopped short of its conclusion.
#[derive(Clone, Copy, Debug, PartialEq, Eq, Structural, Hash, PartialOrd, Ord)]
pub enum RuleFailureCause {
    /// The boolean test `test` came out false.
    ConditionFalse { test: Test },
    /// The pattern `pattern` did not match the evaluated value `value`.
    PatternMismatch { pattern: Pattern, value: i64 },
    /// The sequence to iterate over could not be had: the sub-judgment
    /// `judgment` was not proven for `input`.
    IterationSourceError { judgment: usize, input: i64 },
}

/// One rule that was attempted and did not reach its conclusion: the rule's
/// position in its judgment, the position of the failing condition, and why.
#[derive(Clone, Copy, Debug, PartialEq, Eq, Structural, Hash, PartialOrd, Ord)]
pub struct FailedRule {
    pub rule: usize,
    pub step: usize,
    pub cause: RuleFailureCause,
}

/// Adds `f` at the end of `s` unless it is already there.
pub open spec fn insert_failure(s: Seq<FailedRule>, f: FailedRule) -> Seq<FailedRule> {
    if s.contains(f) {
        s
    } else {
        s.push(f)
    }
}

/// Inserts `v` into the duplicate-free vector `s`; an equal value already there
/// leaves it as it is.
pub fn insert_output(s: &mut Vec<i64>, v: i64)
    ensures
        final(s)@ == insert_value(old(s)@, v),
{
    let mut i: usize = 0;
    while i < s.len()
        invariant
            0 <= i <= s@.len(),
            s@ == old(s)@,
            forall|k: int| 0 <= k < i ==> s@[k] != v,
        decreases s@.len() - i,
    {
        if s[i] == v {
            assert(s@.contains(v));
            return;
        }
        i = i + 1;
    }
    assert(!s@.contains(v));
    s.push(v);
}

/// The values of `s`, each once, in the order of their first occurrence.
pub open spec fn dedup(s: Seq<i64>) -> Seq<i64>
    decreases s.len(),
{
    if s.len() == 0 {
        s
    } else {
        insert_value(dedup(s.drop_last()), s.last())
    }
}

/// Inserts `f` into the duplicate-free vector `s`; an equal entry already
/// there leaves it as it is.
pub fn insert_failed_rule(s: &mut Vec<FailedRule>, f: FailedRule)
    ensures
        final(s)@ == insert_failure(old(s)@, f),
{
    let mut i: usize = 0;
    while i < s.len()
        invariant
            0 <= i <= s@.len(),
            s@ == old(s)@,
            forall|k: int| 0 <= k < i ==> s@[k] != f,
        decreases s@.len() - i,
    {
        if s[i] == f {
            assert(s@.contains(f));
            return;
        }
        i = i + 1;
    }
    assert(!s@.contains(f));
    s.push(f);
}

/// A set of judgment outputs: no value occurs twice, and values keep the
/// order in which they were first inserted.
#[derive(Debug, PartialEq, Eq)]
pub struct OutputSet {
    items: Vec<i64>,
}

impl View for OutputSet {
    type V = Seq<i64>;

    closed spec fn view(&self) -> Seq<i64> {
        self.items@
    }
}

impl OutputSet {
    /// No value occurs twice.
    pub open spec fn wf(&self) -> bool {
        self@.no_duplicates()
    }

    /// The empty set.
    pub fn new() -> (r: OutputSet)
        ensures
            r@ == Seq::<i64>::empty(),
            r.wf(),
    {
        OutputSet { items: Vec::new() }
    }

    /// The set whose values are those of `v`, which has no duplicates.
    pub fn from_unique(v: Vec<i64>) -> (r: OutputSet)
        requires
            v@.no_duplicates(),
        ensures
            r@ == v@,
            r.wf(),
    {
        OutputSet { items: v }
    }

    /// The set that holds the values of `v`, each once, in the order of their
    /// first occurrence.
    pub fn from_vec(v: Vec<i64>) -> (r: OutputSet)
        ensures
            r.wf(),
            r@ == dedup(v@),
            r@.to_set() == v@.to_set(),
    {
        let mut r = OutputSet::new();
        let mut i: usize = 0;
        while i < v.len()
            invariant
                0 <= i <= v@.len(),
                r.wf(),
                r@ == dedup(v@.subrange(0, i as int)),
                r@.to_set() == v@.subrange(0, i as int).to_set(),
            decreases v@.len() - i,
        {
            r.insert(v[i]);
            proof {
                v@.subrange(0, i as int).lemma_push_to_set_commute(v@[i as int]);
            }
            assert(v@.subrange(0, i + 1) == v@.subrange(0, i as int).push(v@[i as int]));
            assert(v@.subrange(0, i + 1).drop_last() == v@.subrange(0, i as int));
            i = i + 1;
        }
        assert(v@.subrange(0, v@.len() as int) == v@);
        r
    }

    /// Inserts `v`; inserting a value that is already there changes nothing.
    pub fn insert(&mut self, v: i64)
        requires
            old(self).wf(),
        ensures
            final(self)@ == insert_value(old(self)@, v),
            final(self).wf(),
            final(self)@.to_set() == old(self)@.to_set().insert(v),
    {
        insert_output(&mut self.items, v);
        proof {
            lemma_insert_value(old(self)@, v);
        }
    }

    /// Whether `v` is in the set.
    pub fn contains(&self, v: i64) -> (r: bool)
        ensures
            r == self@.contains(v),
    {
        let mut i: usize = 0;
        while i < self.items.len()
            invariant
                0 <= i <= self@.len(),
                forall|k: int| 0 <= k < i ==> self@[k] != v,
            decreases self@.len() - i,
        {
            if self.items[i] == v {
                return true;
            }
            i = i + 1;
        }
        false
    }

    /// The number of values in the set.
    pub fn len(&self) -> (r: usize)
        ensures
            r == self@.len(),
    {
        self.items.len()
    }

    /// Whether the set is empty.
    pub fn is_empty(&self) -> (r: bool)
        ensures
            r == (self@.len() == 0),
    {
        self.items.len() == 0
    }

    /// The values, in insertion order.
    pub fn to_vec(&self) -> (r: Vec<i64>)
        ensures
            r@ == self@,
    {
        let mut r: Vec<i64> = Vec::new();
        let mut i: usize = 0;
        while i < self.items.len()
            invariant
                0 <= i <= self@.len(),
                r@ == self@.subrange(0, i as int),
            decreases self@.len() - i,
        {
            r.push(self.items[i]);
            i = i + 1;
        }
        r
    }
}

/// Inserting keeps a sequence free of duplicates and adds exactly `v` to its
/// set of values.
pub proof fn lemma_insert_value(s: Seq<i64>, v: i64)
    ensures
        insert_value(s, v).to_set() == s.to_set().insert(v),
        s.no_duplicates() ==> insert_value(s, v).no_duplicates(),
{
    if s.contains(v) {
        assert(s.to_set().insert(v) =~= s.to_set());
    } else {
        s.lemma_push_to_set_commute(v);
    }
}

/// The report of a judgment that proved nothing: which judgment, on which
/// input, and every rule failure recorded in its last evaluation round.
#[derive(Debug, PartialEq, Eq)]
pub struct FailedJudgment {
    pub judgment: usize,
    pub input: i64,
    pub failed_rules: Vec<FailedRule>,
}

/// What a judgment evaluation gives: a non-empty set of proven outputs, or the
/// diagnostics of a failure.
#[derive(Debug, PartialEq, Eq)]
pub enum Outcome {
    Proven(OutputSet),
    Failed(FailedJudgment),
}

/// The mathematical value of an outcome.
pub enum Verdict {
    /// The proven outputs, in the order in which they were derived.
    Proven(Seq<i64>),
    /// The judgment, its input, and the recorded rule failures.
    Failed { judgment: usize, input: i64, failed_rules: Seq<FailedRule> },
}

/// Why an evaluation was cut off before it gave an outcome.
#[derive(Clone, Copy, Debug, PartialEq, Eq, Structural, Hash)]
pub enum Halt {
    /// The budget of evaluation rounds ran out before a fixed point was reached.
    Exhausted,
    /// A declared precondition of `judgment` was false for `input`.
    Violated { judgment: usize, input: i64, assertion: usize },
}

impl Verdict {
    /// A proven verdict never has an empty output set.
    pub open spec fn wf(self) -> bool {
        match self {
            Verdict::Proven(s) => s.len() > 0 && s.no_duplicates(),
            Verdict::Failed { .. } => true,
        }
    }

    pub open spec fn is_proven(self) -> bool {
        self is Proven
    }
}

impl View for Outcome {
    type V = Verdict;

    open spec fn view(&self) -> Verdict {
        match self {
            Outcome::Proven(s) => Verdict::Proven(s@),
            Outcome::Failed(f) => Verdict::Failed {
                judgment: f.judgment,
                input: f.input,
                failed_rules: f.failed_rules@,
            },
        }
    }
}

/// The mathematical value of an evaluation's result.
pub open spec fn answer_view(r: Result<Outcome, Halt>) -> Result<Verdict, Halt> {
    match r {
        Ok(o) => Ok(o@),
        Err(h) => Err(h),
    }
}

/// The verdict for a round that derived `outputs` and recorded `failures`:
/// proven exactly when something was derived.
pub open spec fn verdict_of(
    judgment: usize,
    input: i64,
    outputs: Seq<i64>,
    failures: Seq<FailedRule>,
) -> Verdict {
    if outputs.len() > 0 {
        Verdict::Proven(outputs)
    } else {
        Verdict::Failed { judgment, input, failed_rules: failures }
    }
}

impl Outcome {
    /// A proven outcome; the set must not be empty.
    pub fn proven(set: OutputSet) -> (r: Outcome)
        requires
            set@.len() > 0,
        ensures
            r@ == Verdict::Proven(set@),
    {
        Outcome::Proven(set)
    }

    /// A failed outcome carrying the rules that failed.
    pub fn failed(judgment: usize, input: i64, failed_rules: Vec<FailedRule>) -> (r: Outcome)
        ensures
            r@ == (Verdict::Failed { judgment, input, failed_rules: failed_rules@ }),
    {
        Outcome::Failed(FailedJudgment { judgment, input, failed_rules })
    }

    /// Whether the outcome is proven.
    pub fn is_proven(&self) -> (r: bool)
        ensures
            r == self@.is_proven(),
    {
        match self {
            Outcome::Proven(_) => true,
            Outcome::Failed(_) => false,
        }
    }
}

} // verus!
