use formality_core::db::{prove, Answer, Database, Goal, SolverConfiguration};
use formality_core::outcome::{FailedRule, Halt, Outcome, OutputSet, RuleFailureCause};
use formality_core::rules::{Cmp, Condition, Judgment, Pattern, Program, Rule, Term, Test, Trivial};

fn rule(name: &str, input: Pattern, conditions: Vec<Condition>, commit: usize, conclusion: Term) -> Rule {
    Rule { name: String::from(name), input, conditions, commit, conclusion }
}

fn judgment(name: &str, rules: Vec<Rule>) -> Judgment {
    Judgment { name: String::from(name), assertions: vec![], trivial: vec![], rules }
}

fn eq(lhs: Term, rhs: Term) -> Test {
    Test { cmp: Cmp::Eq, lhs, rhs }
}

/// is_even(n): (n = 0) --- is_even(n); (is_even(n - 2) => _) --- is_even(n), for n >= 0.
fn is_even_rules() -> Vec<Rule> {
    vec![
        rule("zero", Pattern::Any, vec![Condition::If(eq(Term::Var(0), Term::Lit(0)))], 0, Term::Var(0)),
        rule("step", Pattern::AtLeast(0), vec![Condition::Judge(0, Term::Offset(0, -2))], 0, Term::Var(0)),
    ]
}

fn is_even() -> Program {
    Program { judgments: vec![judgment("is_even", is_even_rules())] }
}

fn proven_values(r: &Result<Outcome, Halt>) -> Vec<i64> {
    match r {
        Ok(Outcome::Proven(s)) => s.to_vec(),
        _ => panic!("expected a proven outcome"),
    }
}

fn failed_rules(r: &Result<Outcome, Halt>) -> Vec<FailedRule> {
    match r {
        Ok(Outcome::Failed(f)) => f.failed_rules.clone(),
        _ => panic!("expected a failed outcome"),
    }
}

fn sorted(mut v: Vec<i64>) -> Vec<i64> {
    v.sort();
    v
}

#[test]
fn is_even_four_is_proven() {
    let r = is_even().evaluate(0, 4, 20);
    assert_eq!(proven_values(&r), vec![4]);
}

#[test]
fn is_even_zero_is_proven() {
    let r = is_even().evaluate(0, 0, 20);
    assert_eq!(proven_values(&r), vec![0]);
}

#[test]
fn is_even_three_fails_with_causes() {
    let r = is_even().evaluate(0, 3, 20);
    match &r {
        Ok(Outcome::Failed(f)) => {
            assert_eq!(f.judgment, 0);
            assert_eq!(f.input, 3);
        }
        _ => panic!("expected a failed outcome"),
    }
    let rules = failed_rules(&r);
    assert_eq!(rules.len(), 2);
    assert!(rules.contains(&FailedRule { rule: 0, step: 0, cause: RuleFailureCause::ConditionFalse { test: eq(Term::Var(0), Term::Lit(0)) } }));
    assert!(rules.contains(&FailedRule {
        rule: 1,
        step: 0,
        cause: RuleFailureCause::IterationSourceError { judgment: 0, input: 1 },
    }));
}

#[test]
fn is_even_negative_reports_only_the_applicable_rule() {
    let r = is_even().evaluate(0, -1, 20);
    assert_eq!(failed_rules(&r), vec![FailedRule { rule: 0, step: 0, cause: RuleFailureCause::ConditionFalse { test: eq(Term::Var(0), Term::Lit(0)) } }]);
}

/// countdown(n) = {0, ..., n}: a trivial base case and a rule that recurses on n - 1.
fn countdown() -> Program {
    let mut j = judgment(
        "countdown",
        vec![
            rule("self", Pattern::AtLeast(1), vec![], 0, Term::Var(0)),
            rule("below", Pattern::AtLeast(1), vec![Condition::Judge(0, Term::Offset(0, -1))], 0, Term::Var(1)),
        ],
    );
    j.trivial = vec![Trivial { when: eq(Term::Var(0), Term::Lit(0)), result: Term::Lit(0) }];
    Program { judgments: vec![j] }
}

#[test]
fn countdown_converges_to_the_finite_set() {
    let r = countdown().evaluate(0, 5, 50);
    assert_eq!(sorted(proven_values(&r)), vec![0, 1, 2, 3, 4, 5]);
}

/// loops(n): (n = 5) --- loops(n); (loops(n) => m) --- m. Calls itself on its own input.
fn loops() -> Program {
    Program {
        judgments: vec![judgment(
            "loops",
            vec![
                rule("five", Pattern::Any, vec![Condition::If(eq(Term::Var(0), Term::Lit(5)))], 0, Term::Var(0)),
                rule("again", Pattern::Any, vec![Condition::Judge(0, Term::Var(0))], 0, Term::Var(1)),
            ],
        )],
    }
}

#[test]
fn self_reference_reaches_a_fixed_point() {
    let r = loops().evaluate(0, 5, 10);
    assert_eq!(proven_values(&r), vec![5]);
}

#[test]
fn self_reference_without_base_fails() {
    let r = loops().evaluate(0, 1, 10);
    let rules = failed_rules(&r);
    assert_eq!(rules.len(), 2);
    assert!(rules.contains(&FailedRule {
        rule: 1,
        step: 0,
        cause: RuleFailureCause::IterationSourceError { judgment: 0, input: 1 },
    }));
}

fn guarded(commit: usize) -> Program {
    Program {
        judgments: vec![judgment(
            "guarded",
            vec![rule(
                "positive",
                Pattern::Any,
                vec![
                    Condition::If(Test { cmp: Cmp::Lt, lhs: Term::Lit(0), rhs: Term::Var(0) }),
                    Condition::If(eq(Term::Var(0), Term::Lit(7))),
                ],
                commit,
                Term::Var(0),
            )],
        )],
    }
}

#[test]
fn commit_point_suppresses_early_failures() {
    let before = guarded(1).evaluate(0, -4, 5);
    let after = guarded(0).evaluate(0, -4, 5);
    assert_eq!(failed_rules(&before), vec![]);
    assert_eq!(failed_rules(&after), vec![FailedRule { rule: 0, step: 0, cause: RuleFailureCause::ConditionFalse { test: Test { cmp: Cmp::Lt, lhs: Term::Lit(0), rhs: Term::Var(0) } } }]);
}

#[test]
fn commit_point_reports_failures_after_it() {
    let r = guarded(1).evaluate(0, 3, 5);
    assert_eq!(failed_rules(&r), vec![FailedRule { rule: 0, step: 1, cause: RuleFailureCause::ConditionFalse { test: eq(Term::Var(0), Term::Lit(7)) } }]);
}

#[test]
fn commit_point_keeps_proven_status() {
    assert_eq!(proven_values(&guarded(1).evaluate(0, 7, 5)), vec![7]);
    assert_eq!(proven_values(&guarded(0).evaluate(0, 7, 5)), vec![7]);
}

#[test]
fn equal_outputs_of_two_rules_are_one_element() {
    let p = Program {
        judgments: vec![judgment(
            "twice",
            vec![
                rule("a", Pattern::Any, vec![], 0, Term::Offset(0, 1)),
                rule("b", Pattern::Any, vec![Condition::Let(Term::Offset(0, 1))], 0, Term::Var(1)),
            ],
        )],
    };
    assert_eq!(proven_values(&p.evaluate(0, 9, 5)), vec![10]);
}

#[test]
fn output_set_ignores_repeated_insertion_and_order() {
    let mut a = OutputSet::new();
    a.insert(3);
    a.insert(1);
    a.insert(3);
    assert_eq!(a.len(), 2);
    let mut b = OutputSet::new();
    b.insert(1);
    b.insert(3);
    assert_eq!(sorted(a.to_vec()), sorted(b.to_vec()));
    assert!(a.contains(1) && a.contains(3) && !a.contains(2));
    let c = OutputSet::from_vec(vec![2, 2, 5, 2]);
    assert_eq!(c.to_vec(), vec![2, 5]);
}

#[test]
fn evaluation_is_deterministic() {
    let p = countdown();
    assert_eq!(p.evaluate(0, 4, 50), p.evaluate(0, 4, 50));
    let q = is_even();
    assert_eq!(q.evaluate(0, 3, 20), q.evaluate(0, 3, 20));
}

#[test]
fn proven_outcomes_are_never_empty() {
    for n in 0..8 {
        if let Ok(Outcome::Proven(s)) = countdown().evaluate(0, n, 50) {
            assert!(!s.is_empty());
        }
    }
}

#[test]
fn pattern_mismatch_keeps_the_value() {
    let p = Program {
        judgments: vec![judgment(
            "small",
            vec![rule(
                "bounded",
                Pattern::Any,
                vec![Condition::IfMatch(Term::Offset(0, 10), Pattern::AtMost(12))],
                0,
                Term::Var(1),
            )],
        )],
    };
    assert_eq!(proven_values(&p.evaluate(0, 2, 5)), vec![12]);
    assert_eq!(
        failed_rules(&p.evaluate(0, 5, 5)),
        vec![FailedRule { rule: 0, step: 0, cause: RuleFailureCause::PatternMismatch { pattern: Pattern::AtMost(12), value: 15 } }]
    );
}

#[test]
fn pattern_mismatch_on_input_is_not_reported() {
    let p = Program {
        judgments: vec![judgment("only_zero", vec![rule("zero", Pattern::Exactly(0), vec![], 0, Term::Lit(1))])],
    };
    assert_eq!(proven_values(&p.evaluate(0, 0, 5)), vec![1]);
    assert_eq!(failed_rules(&p.evaluate(0, 4, 5)), vec![]);
}

#[test]
fn offset_wraps_on_overflow() {
    let p = Program {
        judgments: vec![judgment("next", vec![rule("succ", Pattern::Any, vec![], 0, Term::Offset(0, 1))])],
    };
    assert_eq!(proven_values(&p.evaluate(0, i64::MAX, 5)), vec![i64::MIN]);
}

#[test]
fn violated_assertion_halts() {
    let mut j = judgment("nat", is_even_rules());
    j.assertions = vec![Test { cmp: Cmp::Le, lhs: Term::Lit(0), rhs: Term::Var(0) }];
    let p = Program { judgments: vec![j] };
    assert_eq!(p.evaluate(0, -3, 5), Err(Halt::Violated { judgment: 0, input: -3, assertion: 0 }));
    // The recursion of the step rule reaches -2, where the precondition fails.
    assert_eq!(p.evaluate(0, 2, 5), Err(Halt::Violated { judgment: 0, input: -2, assertion: 0 }));
}

#[test]
fn trivial_fast_path_skips_the_rules() {
    let mut j = judgment("never", vec![rule("no", Pattern::Any, vec![Condition::If(eq(Term::Lit(0), Term::Lit(1)))], 0, Term::Var(0))]);
    j.trivial = vec![Trivial { when: eq(Term::Var(0), Term::Lit(2)), result: Term::Lit(20) }];
    let p = Program { judgments: vec![j] };
    assert_eq!(proven_values(&p.evaluate(0, 2, 5)), vec![20]);
    assert_eq!(failed_rules(&p.evaluate(0, 3, 5)).len(), 1);
}

#[test]
fn no_fuel_halts() {
    assert_eq!(is_even().evaluate(0, 4, 0), Err(Halt::Exhausted));
    assert_eq!(is_even().evaluate(0, 4, 1), Err(Halt::Exhausted));
}

#[test]
fn unknown_judgment_fails_without_rules() {
    assert_eq!(failed_rules(&is_even().evaluate(3, 0, 5)), vec![]);
}

#[test]
fn one_judgment_calls_another() {
    let p = Program {
        judgments: vec![
            judgment("double_even", vec![rule("via", Pattern::Any, vec![Condition::Judge(1, Term::Var(0))], 0, Term::Offset(1, 0))]),
            judgment("is_even", vec![
                rule("zero", Pattern::Any, vec![Condition::If(eq(Term::Var(0), Term::Lit(0)))], 0, Term::Var(0)),
                rule("step", Pattern::AtLeast(0), vec![Condition::Judge(1, Term::Offset(0, -2))], 0, Term::Var(0)),
            ]),
        ],
    };
    assert_eq!(proven_values(&p.evaluate(0, 6, 20)), vec![6]);
    assert_eq!(
        failed_rules(&p.evaluate(0, 5, 20)),
        vec![FailedRule { rule: 0, step: 0, cause: RuleFailureCause::IterationSourceError { judgment: 1, input: 5 } }]
    );
}

struct Forced;

impl Database for Forced {
    fn forces_ambiguous(&self, _goal: Goal) -> bool {
        true
    }
    fn force_ambiguous(&self, _goal: &Goal) -> bool {
        true
    }
    fn program_clauses(&self, _goal: &Goal) -> Vec<Rule> {
        panic!("clauses asked for after ambiguity was forced")
    }
    fn invariants_for(&self, _goal: &Goal) -> Vec<Test> {
        panic!("invariants asked for after ambiguity was forced")
    }
}

struct Evens;

impl Database for Evens {
    fn forces_ambiguous(&self, goal: Goal) -> bool {
        goal.input < 0
    }
    fn force_ambiguous(&self, goal: &Goal) -> bool {
        goal.input < 0
    }
    fn program_clauses(&self, _goal: &Goal) -> Vec<Rule> {
        is_even_rules()
    }
    fn invariants_for(&self, _goal: &Goal) -> Vec<Test> {
        vec![]
    }
}

#[test]
fn forced_ambiguity_consults_nothing() {
    let mut p = Program { judgments: vec![judgment("is_even", vec![])] };
    let r = prove(&Forced, &mut p, Goal { judgment: 0, input: 4 }, 20);
    assert!(matches!(r, Answer::Ambiguous));
    assert_eq!(p.judgments[0].rules.len(), 0);
}

#[test]
fn knowledge_base_supplies_the_rules() {
    let mut p = Program { judgments: vec![judgment("is_even", vec![])] };
    match prove(&Evens, &mut p, Goal { judgment: 0, input: 4 }, 20) {
        Answer::Decided(r) => assert_eq!(proven_values(&r), vec![4]),
        Answer::Ambiguous => panic!("expected a decided answer"),
    }
    assert!(matches!(prove(&Evens, &mut p, Goal { judgment: 0, input: -2 }, 20), Answer::Ambiguous));
    assert_eq!(p.judgments[0].rules.len(), 2);
}

#[test]
fn solver_configuration_is_ordered_and_copyable() {
    let a = SolverConfiguration::Cosld;
    let b = a;
    assert_eq!(a, b);
    assert!(a <= b);
}

#[test]
fn failure_reports_name_their_rule() {
    let p = is_even();
    let r = p.evaluate(0, 3, 20);
    let names: Vec<String> = failed_rules(&r).iter().map(|f| p.rule_name(0, f.rule).unwrap().clone()).collect();
    assert!(names.contains(&String::from("zero")));
    assert!(names.contains(&String::from("step")));
    assert_eq!(p.rule_name(0, 2), None);
    assert_eq!(p.rule_name(1, 0), None);
}

#[test]
fn range_condition_forks_over_a_plain_collection() {
    let p = Program {
        judgments: vec![judgment(
            "shifted",
            vec![rule("each", Pattern::Any, vec![Condition::Range(Term::Lit(0), Term::Var(0))], 0, Term::Offset(1, 10))],
        )],
    };
    assert_eq!(proven_values(&p.evaluate(0, 3, 5)), vec![10, 11, 12]);
    assert_eq!(failed_rules(&p.evaluate(0, 0, 5)), vec![]);
    assert_eq!(failed_rules(&p.evaluate(0, -2, 5)), vec![]);
}

#[test]
fn range_values_are_increasing() {
    assert_eq!(formality_core::rules::range_vec(-2, 2), vec![-2, -1, 0, 1]);
    assert_eq!(formality_core::rules::range_vec(4, 4), Vec::<i64>::new());
}

#[test]
fn from_vec_keeps_first_occurrence_order() {
    assert_eq!(OutputSet::from_vec(vec![7, 1, 7, 3, 1]).to_vec(), vec![7, 1, 3]);
}

#[test]
fn ambiguity_is_decided_per_goal() {
    let mut p = Program { judgments: vec![judgment("is_even", vec![])] };
    let first = prove(&Evens, &mut p, Goal { judgment: 0, input: -4 }, 20);
    assert!(matches!(first, Answer::Ambiguous));
    assert_eq!(p.judgments[0].rules.len(), 0);
    match prove(&Evens, &mut p, Goal { judgment: 0, input: 3 }, 20) {
        Answer::Decided(r) => assert!(matches!(r, Ok(Outcome::Failed(_)))),
        Answer::Ambiguous => panic!("expected a decided answer"),
    }
}
