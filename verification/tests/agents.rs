use converge_app::agents::{Agent, RiskAssessmentAgent, StrategicInsightAgent};
use converge_app::facts::{Context, ContextKey, Fact};
use converge_app::llm::{
    FailingProvider, LlmProvider, LlmRequest, MockInsightProvider, MockRiskProvider,
};

#[test]
fn strategic_insight_agent_parses_numbered_list() {
    let provider = LlmProvider::MockInsight(MockInsightProvider::default_insights());
    let agent = StrategicInsightAgent::new(provider);

    let mut ctx = Context::new();
    ctx.add_fact(Fact::new(ContextKey::Evaluations, "eval:test", "Score: 80/100"))
        .unwrap();

    assert!(agent.accepts(&ctx));

    let effect = agent.execute(&ctx);

    assert!(!effect.facts.is_empty());
    assert!(effect.facts.iter().any(|f| f.id.starts_with("insight:")));
}

#[test]
fn strategic_insight_agent_runs_once() {
    let provider = LlmProvider::MockInsight(MockInsightProvider::default_insights());
    let agent = StrategicInsightAgent::new(provider);

    let mut ctx = Context::new();
    ctx.add_fact(Fact::new(ContextKey::Evaluations, "eval:test", "Score: 80/100"))
        .unwrap();
    ctx.add_fact(Fact::new(ContextKey::Hypotheses, "insight:1", "Existing insight"))
        .unwrap();

    // Should not accept because Hypotheses already exist
    assert!(!agent.accepts(&ctx));
}

#[test]
fn risk_assessment_agent_identifies_risks() {
    let provider = LlmProvider::MockRisk(MockRiskProvider::default_risks());
    let agent = RiskAssessmentAgent::new(provider);

    let mut ctx = Context::new();
    ctx.add_fact(Fact::new(ContextKey::Strategies, "strategy:test", "Test strategy"))
        .unwrap();
    ctx.add_fact(Fact::new(ContextKey::Evaluations, "eval:test", "Score: 75/100"))
        .unwrap();

    assert!(agent.accepts(&ctx));

    let effect = agent.execute(&ctx);

    assert!(!effect.facts.is_empty());
    assert!(effect.facts.iter().any(|f| f.id.starts_with("risk:")));
    assert!(effect.facts.iter().all(|f| f.key == ContextKey::Constraints));
}

#[test]
fn risk_assessment_agent_runs_once() {
    let provider = LlmProvider::MockRisk(MockRiskProvider::default_risks());
    let agent = RiskAssessmentAgent::new(provider);

    let mut ctx = Context::new();
    ctx.add_fact(Fact::new(ContextKey::Strategies, "strategy:test", "Test strategy"))
        .unwrap();
    ctx.add_fact(Fact::new(ContextKey::Evaluations, "eval:test", "Score: 75/100"))
        .unwrap();
    ctx.add_fact(Fact::new(ContextKey::Constraints, "risk:1", "Existing risk"))
        .unwrap();

    // Should not accept because Constraints (risks) already exist
    assert!(!agent.accepts(&ctx));
}

#[test]
fn insight_agent_gate_needs_evaluations() {
    let provider = LlmProvider::MockInsight(MockInsightProvider::default_insights());
    let agent = StrategicInsightAgent::new(provider);

    let ctx = Context::new();
    assert!(!agent.accepts(&ctx));
}

#[test]
fn risk_agent_gate_needs_both_dependencies() {
    let provider = LlmProvider::MockRisk(MockRiskProvider::default_risks());
    let agent = RiskAssessmentAgent::new(provider);

    let mut ctx = Context::new();
    ctx.add_fact(Fact::new(ContextKey::Evaluations, "eval:test", "Score: 75/100"))
        .unwrap();
    // Only evaluations are populated; strategies are still missing.
    assert!(!agent.accepts(&ctx));

    ctx.add_fact(Fact::new(ContextKey::Strategies, "strategy:test", "Test strategy"))
        .unwrap();
    assert!(agent.accepts(&ctx));
}

#[test]
fn insight_agent_emits_error_fact_on_provider_failure() {
    let provider = LlmProvider::Failing(FailingProvider::new("backend unreachable"));
    let agent = StrategicInsightAgent::new(provider);

    let mut ctx = Context::new();
    ctx.add_fact(Fact::new(ContextKey::Evaluations, "eval:test", "Score: 80/100"))
        .unwrap();

    let effect = agent.execute(&ctx);
    assert_eq!(effect.facts.len(), 1);
    assert_eq!(effect.facts[0].key, ContextKey::Hypotheses);
    assert!(effect.facts[0].id.ends_with(":error"));
    assert_eq!(effect.facts[0].id, "insight:error");
    assert_eq!(
        effect.facts[0].content,
        "LLM call failed: backend unreachable. Manual review recommended."
    );
}

#[test]
fn risk_agent_emits_error_fact_on_provider_failure() {
    let provider = LlmProvider::Failing(FailingProvider::new("backend unreachable"));
    let agent = RiskAssessmentAgent::new(provider);

    let mut ctx = Context::new();
    ctx.add_fact(Fact::new(ContextKey::Strategies, "strategy:test", "Test strategy"))
        .unwrap();
    ctx.add_fact(Fact::new(ContextKey::Evaluations, "eval:test", "Score: 75/100"))
        .unwrap();

    let effect = agent.execute(&ctx);
    assert_eq!(effect.facts.len(), 1);
    assert_eq!(effect.facts[0].key, ContextKey::Constraints);
    assert!(effect.facts[0].id.ends_with(":error"));
    assert_eq!(effect.facts[0].id, "risk:error");
}

#[test]
fn insight_prompt_has_fixed_section_order() {
    let provider = LlmProvider::MockInsight(MockInsightProvider::default_insights());
    let agent = StrategicInsightAgent::new(provider);

    let mut ctx = Context::new();
    ctx.add_fact(Fact::new(ContextKey::Signals, "signal:1", "Buyers prefer self-service"))
        .unwrap();
    ctx.add_fact(Fact::new(ContextKey::Strategies, "strategy:a", "Launch campaign"))
        .unwrap();

    let prompt = agent.build_prompt(&ctx);
    assert_eq!(
        prompt,
        "## Market Signals\n- Buyers prefer self-service\n\n## Competitor Analysis\n\n## Proposed Strategies\n- strategy:a: Launch campaign\n\n## Evaluations\n\n## Task\nProvide 2-3 strategic insights based on this analysis."
    );
}

#[test]
fn mock_providers_answer_every_request() {
    let insight = MockInsightProvider::new("canned");
    let response = insight
        .complete(&LlmRequest::new("ignored".to_string()))
        .unwrap();
    assert_eq!(response.content, "canned");
    assert_eq!(response.model, "mock-insight-v1");
    assert_eq!(response.usage.total_tokens, 150);

    let risk = MockRiskProvider::new("canned risk");
    let response = risk
        .complete(&LlmRequest::new("ignored".to_string()))
        .unwrap();
    assert_eq!(response.content, "canned risk");
    assert_eq!(response.model, "mock-risk-v1");
    assert_eq!(response.usage.total_tokens, 200);
}
