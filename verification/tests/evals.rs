use converge_app::evals::{run_eval, run_evals, summary_counts, EvalCheck};
use converge_app::fixtures::{
    collect_fixtures, parse_fixture, sort_fixtures, EvalExpectation, EvalFixture, SeedFact,
};

fn fixture_json(expected: &str, mock: bool) -> String {
    format!(
        r#"{{
            "eval_id": "test_001",
            "description": "Test fixture",
            "pack": "growth-strategy",
            "seeds": [
                {{"id": "seed1", "content": "Test seed"}}
            ],
            "expected": {expected},
            "use_mock_llm": {mock}
        }}"#
    )
}

#[test]
fn test_fixture_parsing() {
    let json = r#"{
            "eval_id": "test_001",
            "description": "Test fixture",
            "pack": "growth-strategy",
            "seeds": [
                {"id": "seed1", "content": "Test seed"}
            ],
            "expected": {
                "converged": true,
                "max_cycles": 10
            },
            "use_mock_llm": true
        }"#;

    let fixture: EvalFixture = parse_fixture(json).unwrap();
    assert_eq!(fixture.eval_id, "test_001");
    assert_eq!(fixture.seeds.len(), 1);
    assert_eq!(fixture.expected.converged, Some(true));
    assert!(fixture.use_mock_llm);
}

#[test]
fn test_eval_check_logic() {
    let check = EvalCheck {
        name: "test".to_string(),
        passed: true,
        expected: "foo".to_string(),
        actual: "foo".to_string(),
    };
    assert!(check.passed);
}

#[test]
fn fixture_parsing_rejects_missing_fields() {
    assert!(parse_fixture("not json at all").is_err());
    assert!(parse_fixture("{}").is_err());
    let missing_expected = r#"{
        "eval_id": "x", "description": "d", "pack": "p", "seeds": []
    }"#;
    let err = parse_fixture(missing_expected).unwrap_err();
    assert!(err.contains("expected"));
    let bad_type = r#"{
        "eval_id": "x", "description": "d", "pack": "p", "seeds": [],
        "expected": {"converged": "yes"}
    }"#;
    let err = parse_fixture(bad_type).unwrap_err();
    assert!(err.contains("converged"));
}

#[test]
fn fixture_parsing_rejects_out_of_range_and_bad_lists() {
    let out_of_range = r#"{
        "eval_id": "x", "description": "d", "pack": "p", "seeds": [],
        "expected": {"max_cycles": 4294967296}
    }"#;
    let err = parse_fixture(out_of_range).unwrap_err();
    assert_eq!(err, "fixture field 'max_cycles' is out of range");

    let bad_list = r#"{
        "eval_id": "x", "description": "d", "pack": "p", "seeds": [],
        "expected": {"must_contain_facts": ["ok", 3]}
    }"#;
    let err = parse_fixture(bad_list).unwrap_err();
    assert_eq!(err, "fixture field 'must_contain_facts' must be a list of strings");

    let fractional = r#"{
        "eval_id": "x", "description": "d", "pack": "p", "seeds": [],
        "expected": {"min_facts": 1.5}
    }"#;
    let err = parse_fixture(fractional).unwrap_err();
    assert_eq!(err, "fixture field 'min_facts' must be an unsigned integer");
}

#[test]
fn fixture_parsing_defaults_absent_fields() {
    let minimal = r#"{
        "eval_id": "x", "description": "d", "pack": "p", "seeds": [],
        "expected": {}
    }"#;
    let fixture = parse_fixture(minimal).unwrap();
    assert!(!fixture.use_mock_llm);
    assert_eq!(fixture.expected.converged, None);
    assert_eq!(fixture.expected.max_cycles, None);
    assert!(fixture.expected.must_contain_facts.is_empty());
    assert!(fixture.expected.required_context_keys.is_empty());
}

#[test]
fn collect_fixtures_skips_malformed_documents() {
    let texts = vec![
        fixture_json(r#"{"converged": true}"#, true),
        "{ this is not valid json".to_string(),
    ];
    let fixtures = collect_fixtures(&texts);
    assert_eq!(fixtures.len(), 1);
    assert_eq!(fixtures[0].eval_id, "test_001");
}

#[test]
fn collect_fixtures_sorts_by_eval_id() {
    let mk = |id: &str| {
        format!(
            r#"{{"eval_id": "{id}", "description": "d", "pack": "growth-strategy",
                "seeds": [], "expected": {{}}, "use_mock_llm": true}}"#
        )
    };
    let texts = vec![mk("b_eval"), mk("a_eval"), mk("c_eval"), mk("a_eval")];
    let fixtures = collect_fixtures(&texts);
    let ids: Vec<&str> = fixtures.iter().map(|f| f.eval_id.as_str()).collect();
    assert_eq!(ids, vec!["a_eval", "a_eval", "b_eval", "c_eval"]);
}

#[test]
fn sort_fixtures_orders_and_keeps_everything() {
    let mk = |id: &str| EvalFixture {
        eval_id: id.to_string(),
        description: String::new(),
        pack: "growth-strategy".to_string(),
        seeds: Vec::new(),
        expected: empty_expectation(),
        use_mock_llm: true,
    };
    let mut fixtures = vec![mk("zz"), mk("aa"), mk("mm")];
    sort_fixtures(&mut fixtures);
    let ids: Vec<&str> = fixtures.iter().map(|f| f.eval_id.as_str()).collect();
    assert_eq!(ids, vec!["aa", "mm", "zz"]);
}

fn empty_expectation() -> EvalExpectation {
    EvalExpectation {
        converged: None,
        max_cycles: None,
        min_facts: None,
        must_contain_facts: Vec::new(),
        must_not_contain_facts: Vec::new(),
        min_strategies: None,
        min_evaluations: None,
        max_latency_ms: None,
        required_context_keys: Vec::new(),
    }
}

#[test]
fn run_eval_checks_convergence_and_cycles() {
    let json = fixture_json(r#"{"converged": true, "max_cycles": 10}"#, true);
    let fixture = parse_fixture(&json).unwrap();
    let result = run_eval(&fixture);

    assert!(result.error.is_none());
    assert_eq!(result.checks.len(), 2);
    assert_eq!(result.checks[0].name, "converged");
    assert!(result.checks[0].passed);
    assert_eq!(result.checks[1].name, "max_cycles");
    assert!(result.checks[1].passed);
    assert!(result.passed);
    assert!(result.converged);
}

#[test]
fn run_eval_aggregate_fails_iff_some_check_fails() {
    let good = parse_fixture(&fixture_json(r#"{"min_facts": 1}"#, true)).unwrap();
    let good_result = run_eval(&good);
    assert!(good_result.checks.iter().all(|c| c.passed));
    assert!(good_result.passed);

    let bad = parse_fixture(&fixture_json(r#"{"min_facts": 100, "converged": true}"#, true))
        .unwrap();
    let bad_result = run_eval(&bad);
    assert!(bad_result.checks.iter().any(|c| !c.passed));
    assert!(!bad_result.passed);
    // A fixture with no checks at all trivially passes.
    let empty = parse_fixture(&fixture_json("{}", true)).unwrap();
    assert!(run_eval(&empty).passed);
}

#[test]
fn run_eval_is_deterministic_under_mock_provider() {
    let json = fixture_json(r#"{"converged": true}"#, true);
    let fixture = parse_fixture(&json).unwrap();
    let first = run_eval(&fixture);
    let second = run_eval(&fixture);
    assert_eq!(first.fact_count, second.fact_count);
    assert_eq!(first.cycles, second.cycles);
    assert_eq!(first.converged, second.converged);
}

#[test]
fn run_eval_reports_unknown_pack_as_error() {
    let json = r#"{
        "eval_id": "bad_pack", "description": "d", "pack": "no-such-pack",
        "seeds": [], "expected": {}, "use_mock_llm": true
    }"#;
    let fixture = parse_fixture(json).unwrap();
    let result = run_eval(&fixture);
    assert!(!result.passed);
    assert!(result.checks.is_empty());
    assert_eq!(result.cycles, 0);
    assert_eq!(result.fact_count, 0);
    assert!(!result.converged);
    assert_eq!(
        result.error.as_deref(),
        Some("Failed to register agents: Unknown pack: no-such-pack")
    );
}

#[test]
fn run_eval_reports_malformed_seed_as_error() {
    let fixture = EvalFixture {
        eval_id: "bad_seed".to_string(),
        description: String::new(),
        pack: "growth-strategy".to_string(),
        seeds: vec![SeedFact { id: String::new(), content: "orphan".to_string() }],
        expected: empty_expectation(),
        use_mock_llm: true,
    };
    let result = run_eval(&fixture);
    assert!(!result.passed);
    assert!(result.checks.is_empty());
    assert_eq!(
        result.error.as_deref(),
        Some("Failed to add seed: fact id must not be empty")
    );
}

#[test]
fn run_eval_prefix_and_key_checks() {
    let expected = r#"{
        "must_contain_facts": ["seed"],
        "must_not_contain_facts": ["risk:"],
        "required_context_keys": ["Seeds", "Hypotheses", "NotAKey"]
    }"#;
    let fixture = parse_fixture(&fixture_json(expected, true)).unwrap();
    let result = run_eval(&fixture);

    let names: Vec<&str> = result.checks.iter().map(|c| c.name.as_str()).collect();
    // The unknown key name is skipped, not checked.
    assert_eq!(
        names,
        vec!["contains:seed", "excludes:risk:", "has_key:Seeds", "has_key:Hypotheses"]
    );
    assert!(result.checks[0].passed);
    assert_eq!(result.checks[0].actual, "found");
    assert!(result.checks[1].passed);
    assert_eq!(result.checks[1].actual, "not found (good)");
    assert!(result.checks[2].passed);
    // With only seed facts, the insight agent never fires.
    assert!(!result.checks[3].passed);
    assert_eq!(result.checks[3].actual, "empty");
    assert!(!result.passed);
}

#[test]
fn run_evals_mirrors_input_order() {
    let a = parse_fixture(&fixture_json("{}", true)).unwrap();
    let b = parse_fixture(
        r#"{
        "eval_id": "other", "description": "d", "pack": "no-such-pack",
        "seeds": [], "expected": {}, "use_mock_llm": true
    }"#,
    )
    .unwrap();
    let results = run_evals(&vec![a, b]);
    assert_eq!(results.len(), 2);
    assert_eq!(results[0].eval_id, "test_001");
    assert!(results[0].passed);
    assert_eq!(results[1].eval_id, "other");
    assert!(!results[1].passed);

    let (total, passed, failed) = summary_counts(&results);
    assert_eq!(total, 2);
    assert_eq!(passed, 1);
    assert_eq!(failed, 1);
}
