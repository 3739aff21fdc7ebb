//! The fixture-based evaluation harness: runs one pipeline per fixture and
//! checks the outcome against every populated expectation field.
//!
//! Every check failure is data, never control flow: a run always yields one
//! result per fixture, and the aggregate verdict is the conjunction of the
//! individual checks. Only input errors (a malformed seed, an unknown pack)
//! abort a run, and then only that run.

use vstd::prelude::*;
use vstd::string::StringExecFns;

use crate::engine::{spec_run, Engine, RunModel, DEFAULT_MAX_CYCLES};
use crate::facts::{
    spec_context_error_message, Context, ContextError, ContextKey, ContextModel, Fact, FactModel,
};
use crate::fixtures::{EvalExpectation, EvalFixture, ExpectationModel, FixtureModel, SeedFactModel};
use crate::packs::{register_pack_agents, spec_growth_agents};
use crate::text::{
    chars_start_with, dec_str, is_prefix, push_decimal, str_eq, str_to_chars, u64_to_string,
};

verus! {

#[verifier::external_type_specification]
#[verifier::external_body]
pub struct ExUuid(uuid::Uuid);

#[verifier::external_type_specification]
#[verifier::external_body]
pub struct ExInstant(std::time::Instant);

/// Relies on `uuid::Uuid::new_v4`: a fresh random identifier; nothing is
/// promised of its value.
#[verifier::external_body]
fn fresh_run_id() -> uuid::Uuid {
    uuid::Uuid::new_v4()
}

/// Relies on `std::time::Instant::now`: the current instant; nothing is
/// promised of its value.
#[verifier::external_body]
fn instant_now() -> std::time::Instant {
    std::time::Instant::now()
}

/// Relies on `std::time::Instant::elapsed`: the time since `start`; nothing
/// is promised of its value.
#[verifier::external_body]
fn instant_elapsed(start: &std::time::Instant) -> std::time::Duration {
    start.elapsed()
}

/// Relies on `core::time::Duration::as_millis`: the duration in whole
/// milliseconds, truncated to 64 bits; nothing is promised of its value.
#[verifier::external_body]
fn duration_millis(d: &std::time::Duration) -> u64 {
    d.as_millis() as u64
}

/// Mathematical model of one check.
#[verifier::ext_equal]
pub struct CheckModel {
    pub name: Seq<char>,
    pub passed: bool,
    pub expected: Seq<char>,
    pub actual: Seq<char>,
}

/// One named check within an eval, with rendered expected and actual values.
#[derive(Debug)]
pub struct EvalCheck {
    pub name: String,
    pub passed: bool,
    pub expected: String,
    pub actual: String,
}

impl View for EvalCheck {
    type V = CheckModel;

    open spec fn view(&self) -> CheckModel {
        CheckModel {
            name: self.name@,
            passed: self.passed,
            expected: self.expected@,
            actual: self.actual@,
        }
    }
}

impl DeepView for EvalCheck {
    type V = CheckModel;

    open spec fn deep_view(&self) -> CheckModel {
        self@
    }
}

/// Mathematical model of one eval result. The run identifier and the raw
/// duration are opaque, freshly drawn values and stay outside the model.
#[verifier::ext_equal]
pub struct ResultModel {
    pub eval_id: Seq<char>,
    pub passed: bool,
    pub checks: Seq<CheckModel>,
    pub cycles: nat,
    pub fact_count: nat,
    pub converged: bool,
    pub error: Option<Seq<char>>,
}

/// The outcome of running one fixture.
#[derive(Debug)]
pub struct EvalResult {
    /// The fixture that was run.
    pub eval_id: String,
    /// Unique run identifier for tracing.
    pub run_id: uuid::Uuid,
    /// Whether every individual check passed.
    pub passed: bool,
    /// The individual checks, one per populated expectation field.
    pub checks: Vec<EvalCheck>,
    /// How many cycles the run took.
    pub cycles: u32,
    /// Total facts in the final context.
    pub fact_count: usize,
    /// Whether the run reached a fixed point.
    pub converged: bool,
    /// Wall-clock duration of the run.
    pub duration: std::time::Duration,
    /// Set only when the run itself could not complete; the checks are then
    /// empty.
    pub error: Option<String>,
}

impl View for EvalResult {
    type V = ResultModel;

    open spec fn view(&self) -> ResultModel {
        ResultModel {
            eval_id: self.eval_id@,
            passed: self.passed,
            checks: self.checks.deep_view(),
            cycles: self.cycles as nat,
            fact_count: self.fact_count as nat,
            converged: self.converged,
            error: match self.error {
                Some(ref e) => Some(e@),
                None => None,
            },
        }
    }
}

impl DeepView for EvalResult {
    type V = ResultModel;

    open spec fn deep_view(&self) -> ResultModel {
        self@
    }
}

/// The model of a result that failed before any check ran.
pub open spec fn error_result_model(eval_id: Seq<char>, error: Seq<char>) -> ResultModel {
    ResultModel {
        eval_id,
        passed: false,
        checks: Seq::empty(),
        cycles: 0,
        fact_count: 0,
        converged: false,
        error: Some(error),
    }
}

impl EvalResult {
    /// A failed result for a run that could not complete: no checks, not
    /// passed, carrying the given run identifier and duration.
    pub fn error(eval_id: &str, run_id: uuid::Uuid, error: String, duration: std::time::Duration)
        -> (r: EvalResult)
        ensures
            r@ == error_result_model(eval_id@, error@),
            r.run_id == run_id,
            r.duration == duration,
    {
        let r = EvalResult {
            eval_id: eval_id.to_owned(),
            run_id,
            passed: false,
            checks: Vec::new(),
            cycles: 0,
            fact_count: 0,
            converged: false,
            duration,
            error: Some(error),
        };
        proof {
            assert(r@ =~= error_result_model(eval_id@, error@));
        }
        r
    }
}

/// The text a boolean renders to.
pub open spec fn spec_bool_str(b: bool) -> Seq<char> {
    if b {
        "true"@
    } else {
        "false"@
    }
}

fn bool_string(b: bool) -> (s: String)
    ensures
        s@ == spec_bool_str(b),
{
    if b {
        "true".to_owned()
    } else {
        "false".to_owned()
    }
}

/// Whether some fact's id starts with the given prefix.
pub open spec fn spec_any_prefix(p: Seq<char>, facts: Seq<FactModel>) -> bool {
    exists|i: int| 0 <= i < facts.len() && is_prefix(p, (#[trigger] facts[i]).id)
}

fn any_id_has_prefix(facts: &Vec<Fact>, prefix: &str) -> (b: bool)
    ensures
        b == spec_any_prefix(prefix@, facts.deep_view()),
{
    let pv = str_to_chars(prefix);
    let mut i: usize = 0;
    while i < facts.len()
        invariant
            i <= facts.len(),
            pv@ == prefix@,
            forall|j: int| 0 <= j < i ==> !is_prefix(prefix@, (#[trigger] facts.deep_view()[j]).id),
        decreases facts.len() - i,
    {
        let idv = str_to_chars(facts[i].id.as_str());
        if chars_start_with(&idv, &pv) {
            proof {
                assert(is_prefix(prefix@, facts.deep_view()[i as int].id));
            }
            return true;
        }
        i = i + 1;
    }
    false
}

/// The category a required-context-key name denotes, if any.
pub open spec fn key_of_name(n: Seq<char>) -> Option<ContextKey> {
    if n == "Seeds"@ {
        Some(ContextKey::Seeds)
    } else if n == "Signals"@ {
        Some(ContextKey::Signals)
    } else if n == "Competitors"@ {
        Some(ContextKey::Competitors)
    } else if n == "Strategies"@ {
        Some(ContextKey::Strategies)
    } else if n == "Evaluations"@ {
        Some(ContextKey::Evaluations)
    } else if n == "Hypotheses"@ {
        Some(ContextKey::Hypotheses)
    } else if n == "Constraints"@ {
        Some(ContextKey::Constraints)
    } else {
        None
    }
}

fn key_of_name_exec(name: &str) -> (k: Option<ContextKey>)
    ensures
        k == key_of_name(name@),
{
    if str_eq(name, "Seeds") {
        Some(ContextKey::Seeds)
    } else if str_eq(name, "Signals") {
        Some(ContextKey::Signals)
    } else if str_eq(name, "Competitors") {
        Some(ContextKey::Competitors)
    } else if str_eq(name, "Strategies") {
        Some(ContextKey::Strategies)
    } else if str_eq(name, "Evaluations") {
        Some(ContextKey::Evaluations)
    } else if str_eq(name, "Hypotheses") {
        Some(ContextKey::Hypotheses)
    } else if str_eq(name, "Constraints") {
        Some(ContextKey::Constraints)
    } else {
        None
    }
}

/// The `converged` check, when the expectation names one.
pub open spec fn group_converged(exp: ExpectationModel, actual: bool) -> Seq<CheckModel> {
    match exp.converged {
        Some(c) => seq![
            CheckModel {
                name: "converged"@,
                passed: actual == c,
                expected: spec_bool_str(c),
                actual: spec_bool_str(actual),
            },
        ],
        None => Seq::empty(),
    }
}

/// The `max_cycles` upper-bound check, when the expectation names one.
pub open spec fn group_max_cycles(exp: ExpectationModel, cycles: nat) -> Seq<CheckModel> {
    match exp.max_cycles {
        Some(m) => seq![
            CheckModel {
                name: "max_cycles"@,
                passed: cycles <= m,
                expected: "<= "@ + dec_str(m as nat),
                actual: dec_str(cycles),
            },
        ],
        None => Seq::empty(),
    }
}

/// A `>= n` lower-bound check on a count.
pub open spec fn bound_check(name: Seq<char>, min: nat, actual: nat) -> CheckModel {
    CheckModel {
        name,
        passed: actual >= min,
        expected: ">= "@ + dec_str(min),
        actual: dec_str(actual),
    }
}

/// The `min_facts` lower-bound check, when the expectation names one.
pub open spec fn group_min_facts(exp: ExpectationModel, n: nat) -> Seq<CheckModel> {
    match exp.min_facts {
        Some(m) => seq![bound_check("min_facts"@, m as nat, n)],
        None => Seq::empty(),
    }
}

/// The `min_strategies` lower-bound check, when the expectation names one.
pub open spec fn group_min_strategies(exp: ExpectationModel, n: nat) -> Seq<CheckModel> {
    match exp.min_strategies {
        Some(m) => seq![bound_check("min_strategies"@, m as nat, n)],
        None => Seq::empty(),
    }
}

/// The `min_evaluations` lower-bound check, when the expectation names one.
pub open spec fn group_min_evaluations(exp: ExpectationModel, n: nat) -> Seq<CheckModel> {
    match exp.min_evaluations {
        Some(m) => seq![bound_check("min_evaluations"@, m as nat, n)],
        None => Seq::empty(),
    }
}

/// The wall-clock upper-bound check, when the expectation names one.
pub open spec fn group_max_latency(exp: ExpectationModel, ms: u64) -> Seq<CheckModel> {
    match exp.max_latency_ms {
        Some(m) => seq![
            CheckModel {
                name: "max_latency_ms"@,
                passed: ms <= m,
                expected: "<= "@ + dec_str(m as nat) + "ms"@,
                actual: dec_str(ms as nat) + "ms"@,
            },
        ],
        None => Seq::empty(),
    }
}

/// The existence check for one required id prefix.
pub open spec fn contains_check(p: Seq<char>, facts: Seq<FactModel>) -> CheckModel {
    CheckModel {
        name: "contains:"@ + p,
        passed: spec_any_prefix(p, facts),
        expected: "fact with prefix '"@ + p + "'"@,
        actual: if spec_any_prefix(p, facts) {
            "found"@
        } else {
            "not found"@
        },
    }
}

/// One existence check per required id prefix, in order.
pub open spec fn contains_checks(ps: Seq<Seq<char>>, facts: Seq<FactModel>) -> Seq<CheckModel>
    decreases ps.len(),
{
    if ps.len() == 0 {
        Seq::empty()
    } else {
        contains_checks(ps.drop_last(), facts) + seq![contains_check(ps.last(), facts)]
    }
}

/// The absence check for one forbidden id prefix.
pub open spec fn excludes_check(p: Seq<char>, facts: Seq<FactModel>) -> CheckModel {
    CheckModel {
        name: "excludes:"@ + p,
        passed: !spec_any_prefix(p, facts),
        expected: "no fact with prefix '"@ + p + "'"@,
        actual: if spec_any_prefix(p, facts) {
            "found (unexpected)"@
        } else {
            "not found (good)"@
        },
    }
}

/// One absence check per forbidden id prefix, in order.
pub open spec fn excludes_checks(ps: Seq<Seq<char>>, facts: Seq<FactModel>) -> Seq<CheckModel>
    decreases ps.len(),
{
    if ps.len() == 0 {
        Seq::empty()
    } else {
        excludes_checks(ps.drop_last(), facts) + seq![excludes_check(ps.last(), facts)]
    }
}

/// The non-emptiness check for one named category.
pub open spec fn has_key_check(n: Seq<char>, key: ContextKey, ctx: ContextModel) -> CheckModel {
    CheckModel {
        name: "has_key:"@ + n,
        passed: ctx.get(key).len() > 0,
        expected: n + " has facts"@,
        actual: if ctx.get(key).len() > 0 {
            "has facts"@
        } else {
            "empty"@
        },
    }
}

/// One non-emptiness check per recognized category name, in order; unknown
/// names are skipped.
pub open spec fn key_checks(ns: Seq<Seq<char>>, ctx: ContextModel) -> Seq<CheckModel>
    decreases ns.len(),
{
    if ns.len() == 0 {
        Seq::empty()
    } else {
        key_checks(ns.drop_last(), ctx) + (match key_of_name(ns.last()) {
            Some(k) => seq![has_key_check(ns.last(), k, ctx)],
            None => Seq::empty(),
        })
    }
}

/// Every check of an expectation against a finished run, in a fixed order:
/// convergence, cycle bound, the three count bounds, latency, required
/// prefixes, forbidden prefixes, required categories.
pub open spec fn spec_checks(
    exp: ExpectationModel,
    ctx: ContextModel,
    converged: bool,
    cycles: nat,
    ms: u64,
) -> Seq<CheckModel> {
    group_converged(exp, converged) + group_max_cycles(exp, cycles) + group_min_facts(
        exp,
        ctx.total(),
    ) + group_min_strategies(exp, ctx.get(ContextKey::Strategies).len()) + group_min_evaluations(
        exp,
        ctx.get(ContextKey::Evaluations).len(),
    ) + group_max_latency(exp, ms) + contains_checks(exp.must_contain_facts, ctx.all_facts())
        + excludes_checks(exp.must_not_contain_facts, ctx.all_facts()) + key_checks(
        exp.required_context_keys,
        ctx,
    )
}

fn push_bound_check(checks: &mut Vec<EvalCheck>, name: &str, min: usize, actual: usize)
    ensures
        final (checks).deep_view() == old(checks).deep_view() + seq![
            bound_check(name@, min as nat, actual as nat),
        ],
{
    let ghost before = checks.deep_view();
    let mut expected = ">= ".to_owned();
    push_decimal(&mut expected, min as u64);
    let check = EvalCheck {
        name: name.to_owned(),
        passed: actual >= min,
        expected,
        actual: u64_to_string(actual as u64),
    };
    checks.push(check);
    proof {
        assert(checks.deep_view() =~= before + seq![bound_check(name@, min as nat, actual as nat)]);
    }
}

fn push_contains_checks(checks: &mut Vec<EvalCheck>, prefixes: &Vec<String>, all_facts: &Vec<Fact>)
    ensures
        final (checks).deep_view() == old(checks).deep_view() + contains_checks(
            prefixes.deep_view(),
            all_facts.deep_view(),
        ),
{
    let ghost before = checks.deep_view();
    let ghost ps = prefixes.deep_view();
    let ghost factsm = all_facts.deep_view();
    let mut i: usize = 0;
    proof {
        assert(ps.take(0) =~= Seq::<Seq<char>>::empty());
        assert(checks.deep_view() =~= before + contains_checks(ps.take(0), factsm));
    }
    while i < prefixes.len()
        invariant
            i <= prefixes.len(),
            ps == prefixes.deep_view(),
            factsm == all_facts.deep_view(),
            checks.deep_view() =~= before + contains_checks(ps.take(i as int), factsm),
        decreases prefixes.len() - i,
    {
        let prefix = &prefixes[i];
        let found = any_id_has_prefix(all_facts, prefix.as_str());
        let mut name = "contains:".to_owned();
        name.append(prefix.as_str());
        let mut expected_str = "fact with prefix '".to_owned();
        expected_str.append(prefix.as_str());
        expected_str.append("'");
        let actual_str = if found {
            "found".to_owned()
        } else {
            "not found".to_owned()
        };
        let check = EvalCheck { name, passed: found, expected: expected_str, actual: actual_str };
        let ghost cs_before = checks.deep_view();
        checks.push(check);
        proof {
            assert(ps.take(i as int + 1).drop_last() =~= ps.take(i as int));
            assert(ps.take(i as int + 1).last() == ps[i as int]);
            assert(ps[i as int] == prefix@);
            assert(check@ =~= contains_check(ps[i as int], factsm));
            assert(checks.deep_view() =~= cs_before.push(check@));
            assert(contains_checks(ps.take(i as int + 1), factsm) =~= contains_checks(
                ps.take(i as int),
                factsm,
            ) + seq![contains_check(ps[i as int], factsm)]);
            assert(checks.deep_view() =~= before + contains_checks(ps.take(i as int + 1), factsm));
        }
        i = i + 1;
    }
    proof {
        assert(ps.take(prefixes.deep_view().len() as int) =~= ps);
    }
}

fn push_excludes_checks(checks: &mut Vec<EvalCheck>, prefixes: &Vec<String>, all_facts: &Vec<Fact>)
    ensures
        final (checks).deep_view() == old(checks).deep_view() + excludes_checks(
            prefixes.deep_view(),
            all_facts.deep_view(),
        ),
{
    let ghost before = checks.deep_view();
    let ghost ps = prefixes.deep_view();
    let ghost factsm = all_facts.deep_view();
    let mut i: usize = 0;
    proof {
        assert(ps.take(0) =~= Seq::<Seq<char>>::empty());
        assert(checks.deep_view() =~= before + excludes_checks(ps.take(0), factsm));
    }
    while i < prefixes.len()
        invariant
            i <= prefixes.len(),
            ps == prefixes.deep_view(),
            factsm == all_facts.deep_view(),
            checks.deep_view() =~= before + excludes_checks(ps.take(i as int), factsm),
        decreases prefixes.len() - i,
    {
        let prefix = &prefixes[i];
        let found = any_id_has_prefix(all_facts, prefix.as_str());
        let mut name = "excludes:".to_owned();
        name.append(prefix.as_str());
        let mut expected_str = "no fact with prefix '".to_owned();
        expected_str.append(prefix.as_str());
        expected_str.append("'");
        let actual_str = if found {
            "found (unexpected)".to_owned()
        } else {
            "not found (good)".to_owned()
        };
        let check = EvalCheck { name, passed: !found, expected: expected_str, actual: actual_str };
        let ghost cs_before = checks.deep_view();
        checks.push(check);
        proof {
            assert(ps.take(i as int + 1).drop_last() =~= ps.take(i as int));
            assert(ps.take(i as int + 1).last() == ps[i as int]);
            assert(ps[i as int] == prefix@);
            assert(check@ =~= excludes_check(ps[i as int], factsm));
            assert(checks.deep_view() =~= cs_before.push(check@));
            assert(excludes_checks(ps.take(i as int + 1), factsm) =~= excludes_checks(
                ps.take(i as int),
                factsm,
            ) + seq![excludes_check(ps[i as int], factsm)]);
            assert(checks.deep_view() =~= before + excludes_checks(ps.take(i as int + 1), factsm));
        }
        i = i + 1;
    }
    proof {
        assert(ps.take(prefixes.deep_view().len() as int) =~= ps);
    }
}

fn push_key_checks(checks: &mut Vec<EvalCheck>, names: &Vec<String>, ctx: &Context)
    ensures
        final (checks).deep_view() == old(checks).deep_view() + key_checks(
            names.deep_view(),
            ctx@,
        ),
{
    let ghost before = checks.deep_view();
    let ghost ns = names.deep_view();
    let mut i: usize = 0;
    proof {
        assert(ns.take(0) =~= Seq::<Seq<char>>::empty());
        assert(checks.deep_view() =~= before + key_checks(ns.take(0), ctx@));
    }
    while i < names.len()
        invariant
            i <= names.len(),
            ns == names.deep_view(),
            checks.deep_view() =~= before + key_checks(ns.take(i as int), ctx@),
        decreases names.len() - i,
    {
        let key_name = &names[i];
        match key_of_name_exec(key_name.as_str()) {
            Some(context_key) => {
                let has_facts = ctx.has(context_key);
                let mut name = "has_key:".to_owned();
                name.append(key_name.as_str());
                let mut expected_str = key_name.clone();
                expected_str.append(" has facts");
                let actual_str = if has_facts {
                    "has facts".to_owned()
                } else {
                    "empty".to_owned()
                };
                let check = EvalCheck {
                    name,
                    passed: has_facts,
                    expected: expected_str,
                    actual: actual_str,
                };
                let ghost cs_before = checks.deep_view();
                checks.push(check);
                proof {
                    assert(ns.take(i as int + 1).drop_last() =~= ns.take(i as int));
                    assert(ns.take(i as int + 1).last() == ns[i as int]);
                    assert(ns[i as int] == key_name@);
                    assert(check@ =~= has_key_check(ns[i as int], context_key, ctx@));
                    assert(checks.deep_view() =~= cs_before.push(check@));
                    assert(key_checks(ns.take(i as int + 1), ctx@) =~= key_checks(
                        ns.take(i as int),
                        ctx@,
                    ) + seq![has_key_check(ns[i as int], context_key, ctx@)]);
                    assert(checks.deep_view() =~= before + key_checks(ns.take(i as int + 1), ctx@));
                }
            },
            None => {
                proof {
                    assert(ns.take(i as int + 1).drop_last() =~= ns.take(i as int));
                    assert(ns.take(i as int + 1).last() == ns[i as int]);
                    assert(ns[i as int] == key_name@);
                    assert(key_checks(ns.take(i as int + 1), ctx@) =~= key_checks(
                        ns.take(i as int),
                        ctx@,
                    ));
                    assert(checks.deep_view() =~= before + key_checks(ns.take(i as int + 1), ctx@));
                }
            },
        }
        i = i + 1;
    }
    proof {
        assert(ns.take(names.deep_view().len() as int) =~= ns);
    }
}

/// Evaluates every populated field of the expectation against the finished
/// run, one check per field, in a fixed order.
pub fn evaluate_expectation(
    expected: &EvalExpectation,
    ctx: &Context,
    converged: bool,
    cycles: u32,
    duration_ms: u64,
) -> (checks: Vec<EvalCheck>)
    ensures
        checks.deep_view() == spec_checks(expected@, ctx@, converged, cycles as nat, duration_ms),
{
    let ghost exp = expected@;
    let all_facts = ctx.all_facts();
    let fact_count = ctx.total_facts();
    let strategy_count = ctx.get(ContextKey::Strategies).len();
    let evaluation_count = ctx.get(ContextKey::Evaluations).len();

    let mut checks: Vec<EvalCheck> = Vec::new();

    if let Some(expected_converged) = expected.converged {
        let check = EvalCheck {
            name: "converged".to_owned(),
            passed: converged == expected_converged,
            expected: bool_string(expected_converged),
            actual: bool_string(converged),
        };
        checks.push(check);
    }
    let ghost g1 = group_converged(exp, converged);
    proof {
        assert(checks.deep_view() =~= g1);
    }

    if let Some(max_cycles) = expected.max_cycles {
        let mut expected_str = "<= ".to_owned();
        push_decimal(&mut expected_str, max_cycles as u64);
        let check = EvalCheck {
            name: "max_cycles".to_owned(),
            passed: cycles <= max_cycles,
            expected: expected_str,
            actual: u64_to_string(cycles as u64),
        };
        checks.push(check);
    }
    let ghost g2 = g1 + group_max_cycles(exp, cycles as nat);
    proof {
        assert(checks.deep_view() =~= g2);
    }

    if let Some(min_facts) = expected.min_facts {
        push_bound_check(&mut checks, "min_facts", min_facts, fact_count);
    }
    let ghost g3 = g2 + group_min_facts(exp, ctx@.total());
    proof {
        assert(checks.deep_view() =~= g3);
    }

    if let Some(min_strategies) = expected.min_strategies {
        push_bound_check(&mut checks, "min_strategies", min_strategies, strategy_count);
    }
    let ghost g4 = g3 + group_min_strategies(exp, ctx@.get(ContextKey::Strategies).len());
    proof {
        assert(checks.deep_view() =~= g4);
    }

    if let Some(min_evaluations) = expected.min_evaluations {
        push_bound_check(&mut checks, "min_evaluations", min_evaluations, evaluation_count);
    }
    let ghost g5 = g4 + group_min_evaluations(exp, ctx@.get(ContextKey::Evaluations).len());
    proof {
        assert(checks.deep_view() =~= g5);
    }

    if let Some(max_latency_ms) = expected.max_latency_ms {
        let mut expected_str = "<= ".to_owned();
        push_decimal(&mut expected_str, max_latency_ms);
        expected_str.append("ms");
        let mut actual_str = u64_to_string(duration_ms);
        actual_str.append("ms");
        let check = EvalCheck {
            name: "max_latency_ms".to_owned(),
            passed: duration_ms <= max_latency_ms,
            expected: expected_str,
            actual: actual_str,
        };
        checks.push(check);
    }
    let ghost g6 = g5 + group_max_latency(exp, duration_ms);
    proof {
        assert(checks.deep_view() =~= g6);
    }

    push_contains_checks(&mut checks, &expected.must_contain_facts, &all_facts);
    push_excludes_checks(&mut checks, &expected.must_not_contain_facts, &all_facts);
    push_key_checks(&mut checks, &expected.required_context_keys, ctx);
    proof {
        assert(checks.deep_view() =~= spec_checks(
            exp,
            ctx@,
            converged,
            cycles as nat,
            duration_ms,
        ));
    }
    checks
}

/// Whether every check of a list passed; an empty list trivially passes.
pub open spec fn all_passed(checks: Seq<CheckModel>) -> bool {
    forall|i: int| 0 <= i < checks.len() ==> (#[trigger] checks[i]).passed
}

fn all_checks_passed(checks: &Vec<EvalCheck>) -> (b: bool)
    ensures
        b == all_passed(checks.deep_view()),
{
    let mut i: usize = 0;
    while i < checks.len()
        invariant
            i <= checks.len(),
            forall|j: int| 0 <= j < i ==> (#[trigger] checks.deep_view()[j]).passed,
        decreases checks.len() - i,
    {
        if !checks[i].passed {
            proof {
                assert(!checks.deep_view()[i as int].passed);
            }
            return false;
        }
        i = i + 1;
    }
    true
}

/// Whether some seed carries an empty id (which the fact store refuses).
pub open spec fn has_empty_seed_id(seeds: Seq<SeedFactModel>) -> bool {
    exists|i: int| 0 <= i < seeds.len() && (#[trigger] seeds[i]).id.len() == 0
}

/// The context seeded with the fixture's seed facts, in order.
pub open spec fn seeded_context(seeds: Seq<SeedFactModel>) -> ContextModel
    decreases seeds.len(),
{
    if seeds.len() == 0 {
        ContextModel::empty()
    } else {
        seeded_context(seeds.drop_last()).with_fact(
            FactModel {
                key: ContextKey::Seeds,
                id: seeds.last().id,
                content: seeds.last().content,
            },
        )
    }
}

/// What a successfully completed eval run looks like, given the wall-clock
/// milliseconds `ms` the run happened to take: every observable field is
/// pinned to the deterministic run of the fixture's pack over its seeds.
pub open spec fn eval_outcome_ok(f: FixtureModel, r: ResultModel, ms: u64) -> bool {
    let run = spec_run(spec_growth_agents(), seeded_context(f.seeds), DEFAULT_MAX_CYCLES as nat);
    &&& r.eval_id == f.eval_id
    &&& r.error is None
    &&& r.converged == run.converged
    &&& r.cycles == run.cycles
    &&& r.fact_count == run.ctx.total()
    &&& r.checks == spec_checks(f.expected, run.ctx, run.converged, run.cycles, ms)
    &&& r.passed == all_passed(r.checks)
}

/// The full contract of `run_eval`: a malformed seed or an unknown pack
/// aborts the run with the corresponding error result and no checks;
/// otherwise the result reflects the deterministic run, up to the measured
/// wall-clock time.
pub open spec fn run_eval_post(f: FixtureModel, r: ResultModel) -> bool {
    if has_empty_seed_id(f.seeds) {
        r == error_result_model(
            f.eval_id,
            "Failed to add seed: "@ + spec_context_error_message(ContextError::MalformedFact),
        )
    } else if f.pack != "growth-strategy"@ {
        r == error_result_model(f.eval_id, "Failed to register agents: Unknown pack: "@ + f.pack)
    } else {
        exists|ms: u64| eval_outcome_ok(f, r, ms)
    }
}

/// Runs a single eval fixture and checks every populated expectation.
pub fn run_eval(fixture: &EvalFixture) -> (r: EvalResult)
    ensures
        run_eval_post(fixture@, r@),
{
    let run_id = fresh_run_id();
    let start = instant_now();
    let ghost seeds = fixture.seeds.deep_view();

    // Build the context from the fixture's seeds.
    let mut context = Context::new();
    let mut i: usize = 0;
    proof {
        assert(seeds.take(0) =~= Seq::<SeedFactModel>::empty());
        assert(context@ =~= seeded_context(seeds.take(0)));
    }
    while i < fixture.seeds.len()
        invariant
            i <= fixture.seeds.len(),
            seeds == fixture.seeds.deep_view(),
            forall|j: int| 0 <= j < i ==> (#[trigger] seeds[j]).id.len() > 0,
            context@ == seeded_context(seeds.take(i as int)),
        decreases fixture.seeds.len() - i,
    {
        let seed = &fixture.seeds[i];
        let fact = Fact::new(ContextKey::Seeds, seed.id.as_str(), seed.content.as_str());
        match context.add_fact(fact) {
            Ok(()) => {
                proof {
                    assert(seeds.take(i as int + 1).drop_last() =~= seeds.take(i as int));
                    assert(seeds.take(i as int + 1).last() == seeds[i as int]);
                }
            },
            Err(e) => {
                let mut msg = "Failed to add seed: ".to_owned();
                msg.append(e.message().as_str());
                let r = EvalResult::error(
                    fixture.eval_id.as_str(),
                    run_id,
                    msg,
                    instant_elapsed(&start),
                );
                proof {
                    assert(has_empty_seed_id(seeds));
                    assert(msg@ =~= "Failed to add seed: "@ + spec_context_error_message(
                        ContextError::MalformedFact,
                    ));
                }
                return r;
            },
        }
        i = i + 1;
    }
    proof {
        assert(!has_empty_seed_id(seeds));
        assert(seeds.take(fixture.seeds.deep_view().len() as int) =~= seeds);
    }

    // Build the engine and register the fixture's pack.
    let mut engine = Engine::new();
    match register_pack_agents(&mut engine, fixture.pack.as_str(), fixture.use_mock_llm) {
        Ok(()) => {},
        Err(pack_err) => {
            let mut msg = "Failed to register agents: ".to_owned();
            msg.append(pack_err.as_str());
            let r = EvalResult::error(
                fixture.eval_id.as_str(),
                run_id,
                msg,
                instant_elapsed(&start),
            );
            proof {
                assert(fixture@.pack != "growth-strategy"@);
                reveal_strlit("Failed to register agents: ");
                reveal_strlit("Unknown pack: ");
                reveal_strlit("Failed to register agents: Unknown pack: ");
                assert(msg@ =~= "Failed to register agents: Unknown pack: "@ + fixture@.pack);
            }
            return r;
        },
    }
    proof {
        assert(engine@.agents =~= spec_growth_agents());
    }

    // Run to a fixed point (or until the cycle budget is spent).
    let result = engine.run(context);
    let duration = instant_elapsed(&start);
    let duration_ms = duration_millis(&duration);

    let fact_count = result.context.total_facts();
    let checks = evaluate_expectation(
        &fixture.expected,
        &result.context,
        result.converged,
        result.cycles,
        duration_ms,
    );
    let passed = all_checks_passed(&checks);

    let r = EvalResult {
        eval_id: fixture.eval_id.clone(),
        run_id,
        passed,
        checks,
        cycles: result.cycles,
        fact_count,
        converged: result.converged,
        duration,
        error: None,
    };
    proof {
        assert(eval_outcome_ok(fixture@, r@, duration_ms));
    }
    r
}

/// Runs every fixture, independently; the output order mirrors the input
/// order.
pub fn run_evals(fixtures: &Vec<EvalFixture>) -> (results: Vec<EvalResult>)
    ensures
        results@.len() == fixtures@.len(),
        forall|i: int|
            0 <= i < fixtures@.len() ==> run_eval_post(
                fixtures.deep_view()[i],
                (#[trigger] results.deep_view()[i]),
            ),
{
    let mut results: Vec<EvalResult> = Vec::new();
    let mut i: usize = 0;
    while i < fixtures.len()
        invariant
            i <= fixtures.len(),
            results@.len() == i,
            forall|j: int|
                0 <= j < i ==> run_eval_post(
                    fixtures.deep_view()[j],
                    (#[trigger] results.deep_view()[j]),
                ),
        decreases fixtures.len() - i,
    {
        let r = run_eval(&fixtures[i]);
        let ghost before = results.deep_view();
        let ghost rm = r@;
        results.push(r);
        proof {
            assert(results.deep_view() =~= before.push(rm));
            assert(fixtures.deep_view()[i as int] == fixtures@[i as int]@);
        }
        i = i + 1;
    }
    results
}

/// How many results of a list passed.
pub open spec fn count_passed(rs: Seq<ResultModel>) -> nat
    decreases rs.len(),
{
    if rs.len() == 0 {
        0
    } else {
        count_passed(rs.drop_last()) + (if rs.last().passed {
            1nat
        } else {
            0nat
        })
    }
}

/// The tally a results report prints: total, passed, failed.
pub fn summary_counts(results: &Vec<EvalResult>) -> (counts: (usize, usize, usize))
    ensures
        counts.0 == results@.len(),
        counts.1 == count_passed(results.deep_view()),
        counts.2 == results@.len() - count_passed(results.deep_view()),
{
    let mut passed: usize = 0;
    let mut i: usize = 0;
    while i < results.len()
        invariant
            i <= results.len(),
            passed == count_passed(results.deep_view().take(i as int)),
            passed <= i,
        decreases results.len() - i,
    {
        proof {
            assert(results.deep_view().take(i as int + 1).drop_last() =~= results.deep_view().take(
                i as int,
            ));
            assert(results.deep_view().take(i as int + 1).last() == results.deep_view()[i as int]);
        }
        if results[i].passed {
            passed = passed + 1;
        }
        i = i + 1;
    }
    proof {
        assert(results.deep_view().take(results@.len() as int) =~= results.deep_view());
    }
    (results.len(), passed, results.len() - passed)
}

/// Aggregate law: a completed (non-error) result fails exactly when at least
/// one of its individual checks failed.
pub proof fn lemma_aggregate_pass(f: FixtureModel, r: ResultModel, ms: u64)
    requires
        eval_outcome_ok(f, r, ms),
    ensures
        (!r.passed) <==> (exists|i: int| 0 <= i < r.checks.len() && !(#[trigger] r.checks[i]).passed),
{
}

/// Determinism law: two completed runs of the same fixture agree on fact
/// count, cycle count and convergence, whatever wall-clock times they took.
pub proof fn lemma_eval_deterministic(
    f: FixtureModel,
    r1: ResultModel,
    r2: ResultModel,
    ms1: u64,
    ms2: u64,
)
    requires
        eval_outcome_ok(f, r1, ms1),
        eval_outcome_ok(f, r2, ms2),
    ensures
        r1.fact_count == r2.fact_count,
        r1.cycles == r2.cycles,
        r1.converged == r2.converged,
{
}

} // verus!
