use converge_app::agents::{AgentKind, RiskAssessmentAgent, StrategicInsightAgent};
use converge_app::engine::Engine;
use converge_app::facts::{Context, ContextKey, Fact};
use converge_app::llm::{LlmProvider, MockInsightProvider, MockRiskProvider};

fn insight_agent() -> AgentKind {
    AgentKind::Insight(StrategicInsightAgent::new(LlmProvider::MockInsight(
        MockInsightProvider::default_insights(),
    )))
}

fn risk_agent() -> AgentKind {
    AgentKind::Risk(RiskAssessmentAgent::new(LlmProvider::MockRisk(
        MockRiskProvider::default_risks(),
    )))
}

#[test]
fn engine_converges_immediately_with_no_agents() {
    let engine = Engine::new();
    let mut ctx = Context::new();
    ctx.add_fact(Fact::new(ContextKey::Seeds, "seed:1", "A seed")).unwrap();
    let result = engine.run(ctx);
    assert!(result.converged);
    assert_eq!(result.cycles, 1);
    assert_eq!(result.context.total_facts(), 1);
}

#[test]
fn engine_runs_insight_agent_to_fixed_point() {
    let mut engine = Engine::new();
    engine.register(insight_agent());

    let mut ctx = Context::new();
    ctx.add_fact(Fact::new(ContextKey::Evaluations, "eval:1", "Score: 80/100"))
        .unwrap();

    let result = engine.run(ctx);
    assert!(result.converged);
    // One productive cycle, then one empty cycle that detects the fixed point.
    assert_eq!(result.cycles, 2);
    let hypotheses = result.context.get(ContextKey::Hypotheses);
    assert_eq!(hypotheses.len(), 3);
    assert!(hypotheses.iter().all(|f| f.id.starts_with("insight:")));
    // The agent ran exactly once: its three parsed insights, nothing more.
    assert_eq!(result.context.total_facts(), 4);
}

#[test]
fn engine_runs_both_agents_in_one_cycle() {
    let mut engine = Engine::new();
    engine.register(insight_agent());
    engine.register(risk_agent());

    let mut ctx = Context::new();
    ctx.add_fact(Fact::new(ContextKey::Strategies, "strategy:1", "Test strategy"))
        .unwrap();
    ctx.add_fact(Fact::new(ContextKey::Evaluations, "eval:1", "Score: 75/100"))
        .unwrap();

    let result = engine.run(ctx);
    assert!(result.converged);
    assert_eq!(result.cycles, 2);
    assert_eq!(result.context.get(ContextKey::Hypotheses).len(), 3);
    assert_eq!(result.context.get(ContextKey::Constraints).len(), 3);
}

#[test]
fn engine_budget_zero_never_converges() {
    let engine = Engine::with_max_cycles(0);
    let result = engine.run(Context::new());
    assert!(!result.converged);
    assert_eq!(result.cycles, 0);
}

#[test]
fn context_refuses_fact_with_empty_id() {
    let mut ctx = Context::new();
    let err = ctx.add_fact(Fact::new(ContextKey::Seeds, "", "content")).unwrap_err();
    assert_eq!(err.message(), "fact id must not be empty");
    assert_eq!(ctx.total_facts(), 0);
}

#[test]
fn context_keeps_insertion_order() {
    let mut ctx = Context::new();
    ctx.add_fact(Fact::new(ContextKey::Seeds, "seed:1", "first")).unwrap();
    ctx.add_fact(Fact::new(ContextKey::Seeds, "seed:2", "second")).unwrap();
    ctx.add_fact(Fact::new(ContextKey::Signals, "signal:1", "other")).unwrap();
    let seeds = ctx.get(ContextKey::Seeds);
    assert_eq!(seeds.len(), 2);
    assert_eq!(seeds[0].id, "seed:1");
    assert_eq!(seeds[1].id, "seed:2");
    assert!(ctx.has(ContextKey::Signals));
    assert!(!ctx.has(ContextKey::Strategies));
    assert_eq!(ctx.total_facts(), 3);
}
