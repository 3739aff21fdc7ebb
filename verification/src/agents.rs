//! The agent execution contract and the two model-backed agents.
//!
//! Every pipeline participant exposes a name, a dependency set, the
//! idempotency gate `accepts`, and `execute`. An agent accepts exactly when
//! all its dependency categories are populated and its own output category
//! is still empty, so each agent runs at most once per pipeline run.
//! On a provider failure `execute` degrades to a single diagnostic fact
//! instead of failing the pipeline.

use vstd::prelude::*;
use vstd::string::StringExecFns;

use crate::facts::{AgentEffect, Context, ContextKey, ContextModel, Fact, FactModel};
use crate::llm::{LlmProvider, LlmRequest, ProviderModel};
use crate::parser::{
    spec_parse, parse_response, lemma_parse_wf, ParseRules, ParseRulesModel,
};

verus! {

/// The idempotency gate: all dependency categories are non-empty and the
/// output category is still empty.
pub open spec fn spec_accepts(
    deps: Seq<ContextKey>,
    output: ContextKey,
    ctx: ContextModel,
) -> bool {
    (forall|i: int| 0 <= i < deps.len() ==> ctx.get(#[trigger] deps[i]).len() > 0) && ctx.get(
        output,
    ).len() == 0
}

/// Run-once law: once the output category holds any fact, the agent no
/// longer accepts, whatever the dependency categories hold.
pub proof fn lemma_accepts_run_once(deps: Seq<ContextKey>, output: ContextKey, ctx: ContextModel)
    requires
        ctx.get(output).len() > 0,
    ensures
        !spec_accepts(deps, output, ctx),
{
}

/// The capability set of a pipeline participant.
///
/// `execute` may be called only after `accepts` returned true for the same
/// context; its contract nevertheless describes the effect for every context.
/// Every proposed fact lies in the agent's output category, carries a
/// non-empty id, and the effect is never empty.
pub trait Agent: Sized {
    /// The agent's stable name.
    spec fn name_spec(&self) -> Seq<char>;

    /// The categories that must be populated before the agent runs.
    spec fn deps_spec(&self) -> Seq<ContextKey>;

    /// The one category the agent writes to.
    spec fn output_key_spec(&self) -> ContextKey;

    /// The exact facts one `execute` call proposes on the given context.
    spec fn effect_spec(&self, ctx: ContextModel) -> Seq<FactModel>;

    /// Stable identifier for logging and diagnostics.
    fn name(&self) -> (r: &str)
        ensures
            r@ == self.name_spec(),
    ;

    /// The categories the scheduler gates this agent on.
    fn dependencies(&self) -> (r: Vec<ContextKey>)
        ensures
            r@ == self.deps_spec(),
    ;

    /// The idempotency gate.
    fn accepts(&self, ctx: &Context) -> (b: bool)
        ensures
            b == spec_accepts(self.deps_spec(), self.output_key_spec(), ctx@),
    ;

    /// Performs the agent's work and proposes facts to merge.
    fn execute(&self, ctx: &Context) -> (e: AgentEffect)
        ensures
            e.facts.deep_view() == self.effect_spec(ctx@),
            e.facts@.len() >= 1,
            forall|i: int|
                0 <= i < e.facts@.len() ==> (#[trigger] e.facts.deep_view()[i]).key
                    == self.output_key_spec() && e.facts.deep_view()[i].id.len() > 0,
    ;
}

/// One `- <content>` bullet line per fact.
pub open spec fn bullets(facts: Seq<FactModel>) -> Seq<char>
    decreases facts.len(),
{
    if facts.len() == 0 {
        Seq::empty()
    } else {
        bullets(facts.drop_last()) + "- "@ + facts.last().content + "\n"@
    }
}

/// One `- <id>: <content>` bullet line per fact.
pub open spec fn id_bullets(facts: Seq<FactModel>) -> Seq<char>
    decreases facts.len(),
{
    if facts.len() == 0 {
        Seq::empty()
    } else {
        id_bullets(facts.drop_last()) + "- "@ + facts.last().id + ": "@ + facts.last().content
            + "\n"@
    }
}

fn push_bullets(out: &mut String, facts: &Vec<Fact>)
    ensures
        final (out)@ == old(out)@ + bullets(facts.deep_view()),
{
    let ghost orig = out@;
    let mut i: usize = 0;
    proof {
        assert(facts.deep_view().take(0) =~= Seq::<FactModel>::empty());
        assert(out@ =~= orig + bullets(facts.deep_view().take(0)));
    }
    while i < facts.len()
        invariant
            i <= facts.len(),
            out@ =~= orig + bullets(facts.deep_view().take(i as int)),
        decreases facts.len() - i,
    {
        out.append("- ");
        out.append(facts[i].content.as_str());
        out.append("\n");
        proof {
            let fv = facts.deep_view();
            assert(fv.take(i as int + 1).drop_last() =~= fv.take(i as int));
            assert(fv.take(i as int + 1).last() == fv[i as int]);
            assert(fv[i as int].content == facts@[i as int].content@);
            assert(out@ =~= orig + bullets(fv.take(i as int + 1)));
        }
        i = i + 1;
    }
    proof {
        assert(facts.deep_view().take(facts.len() as int) =~= facts.deep_view());
    }
}

fn push_id_bullets(out: &mut String, facts: &Vec<Fact>)
    ensures
        final (out)@ == old(out)@ + id_bullets(facts.deep_view()),
{
    let ghost orig = out@;
    let mut i: usize = 0;
    proof {
        assert(facts.deep_view().take(0) =~= Seq::<FactModel>::empty());
        assert(out@ =~= orig + id_bullets(facts.deep_view().take(0)));
    }
    while i < facts.len()
        invariant
            i <= facts.len(),
            out@ =~= orig + id_bullets(facts.deep_view().take(i as int)),
        decreases facts.len() - i,
    {
        out.append("- ");
        out.append(facts[i].id.as_str());
        out.append(": ");
        out.append(facts[i].content.as_str());
        out.append("\n");
        proof {
            let fv = facts.deep_view();
            assert(fv.take(i as int + 1).drop_last() =~= fv.take(i as int));
            assert(fv.take(i as int + 1).last() == fv[i as int]);
            assert(fv[i as int].id == facts@[i as int].id@);
            assert(fv[i as int].content == facts@[i as int].content@);
            assert(out@ =~= orig + id_bullets(fv.take(i as int + 1)));
        }
        i = i + 1;
    }
    proof {
        assert(facts.deep_view().take(facts.len() as int) =~= facts.deep_view());
    }
}

/// The parser configuration of the strategic-insight agent.
pub open spec fn spec_insight_rules() -> ParseRulesModel {
    ParseRulesModel {
        key: ContextKey::Hypotheses,
        threshold: 10,
        id_prefix: "insight:"@,
        fallback_id: "insight:fallback"@,
        fallback_content:
            "LLM analysis completed but no structured insights extracted. Review raw evaluation data."@,
    }
}

/// Exec mirror of [`spec_insight_rules`].
pub fn insight_rules() -> (r: ParseRules)
    ensures
        r@ == spec_insight_rules(),
{
    ParseRules {
        key: ContextKey::Hypotheses,
        threshold: 10,
        id_prefix: "insight:".to_owned(),
        fallback_id: "insight:fallback".to_owned(),
        fallback_content:
            "LLM analysis completed but no structured insights extracted. Review raw evaluation data.".to_owned(),
    }
}

/// The parser configuration of the risk-assessment agent.
pub open spec fn spec_risk_rules() -> ParseRulesModel {
    ParseRulesModel {
        key: ContextKey::Constraints,
        threshold: 20,
        id_prefix: "risk:"@,
        fallback_id: "risk:none-identified"@,
        fallback_content: "No significant risks identified. Recommend manual review of assumptions."@,
    }
}

/// Exec mirror of [`spec_risk_rules`].
pub fn risk_rules() -> (r: ParseRules)
    ensures
        r@ == spec_risk_rules(),
{
    ParseRules {
        key: ContextKey::Constraints,
        threshold: 20,
        id_prefix: "risk:".to_owned(),
        fallback_id: "risk:none-identified".to_owned(),
        fallback_content: "No significant risks identified. Recommend manual review of assumptions.".to_owned(),
    }
}

/// The user prompt the strategic-insight agent builds from context.
pub open spec fn spec_insight_prompt(ctx: ContextModel) -> Seq<char> {
    "## Market Signals\n"@ + bullets(ctx.signals) + "\n## Competitor Analysis\n"@ + bullets(
        ctx.competitors,
    ) + "\n## Proposed Strategies\n"@ + id_bullets(ctx.strategies) + "\n## Evaluations\n"@
        + bullets(ctx.evaluations)
        + "\n## Task\nProvide 2-3 strategic insights based on this analysis."@
}

/// The user prompt the risk-assessment agent builds from context.
pub open spec fn spec_risk_prompt(ctx: ContextModel) -> Seq<char> {
    "## Company Context\n"@ + bullets(ctx.seeds) + "\n## Market Signals\n"@ + bullets(ctx.signals)
        + "\n## Competitive Landscape\n"@ + bullets(ctx.competitors)
        + "\n## Proposed Strategies\n"@ + id_bullets(ctx.strategies)
        + "\n## Strategy Evaluations\n"@ + bullets(ctx.evaluations)
        + "\n## Task\nIdentify 2-3 key risks or challenges for these strategies and suggest mitigations."@
}

/// The facts the strategic-insight agent proposes: the parsed provider
/// response, or the single diagnostic fact on provider failure.
pub open spec fn insight_effect(outcome: Result<Seq<char>, Seq<char>>, ctx: ContextModel) -> Seq<
    FactModel,
> {
    match outcome {
        Ok(content) => spec_parse(content, spec_insight_rules()),
        Err(message) => seq![
            FactModel {
                key: ContextKey::Hypotheses,
                id: "insight:error"@,
                content: "LLM call failed: "@ + message + ". Manual review recommended."@,
            },
        ],
    }
}

/// The facts the risk-assessment agent proposes: the parsed provider
/// response, or the single diagnostic fact on provider failure.
pub open spec fn risk_effect(outcome: Result<Seq<char>, Seq<char>>, ctx: ContextModel) -> Seq<
    FactModel,
> {
    match outcome {
        Ok(content) => spec_parse(content, spec_risk_rules()),
        Err(message) => seq![
            FactModel {
                key: ContextKey::Constraints,
                id: "risk:error"@,
                content: "Risk assessment failed: "@ + message + ". Manual review recommended."@,
            },
        ],
    }
}

/// Degraded-mode law: when the provider fails, the strategic-insight agent
/// proposes exactly one fact, in its output category, with the reserved
/// `insight:error` id.
pub proof fn lemma_insight_error_fallback(outcome: Result<Seq<char>, Seq<char>>, ctx: ContextModel)
    requires
        outcome is Err,
    ensures
        insight_effect(outcome, ctx).len() == 1,
        insight_effect(outcome, ctx)[0].key == ContextKey::Hypotheses,
        insight_effect(outcome, ctx)[0].id == "insight:error"@,
{
}

/// Degraded-mode law: when the provider fails, the risk-assessment agent
/// proposes exactly one fact, in its output category, with the reserved
/// `risk:error` id.
pub proof fn lemma_risk_error_fallback(outcome: Result<Seq<char>, Seq<char>>, ctx: ContextModel)
    requires
        outcome is Err,
    ensures
        risk_effect(outcome, ctx).len() == 1,
        risk_effect(outcome, ctx)[0].key == ContextKey::Constraints,
        risk_effect(outcome, ctx)[0].id == "risk:error"@,
{
}

/// Mathematical model of a model-backed agent: its provider and its system
/// instruction.
pub struct ModelAgentModel {
    pub provider: ProviderModel,
    pub system_prompt: Seq<char>,
}

/// The model-backed agent that synthesizes strategic insights from
/// evaluations into the hypotheses category.
pub struct StrategicInsightAgent {
    provider: LlmProvider,
    system_prompt: String,
}

impl View for StrategicInsightAgent {
    type V = ModelAgentModel;

    closed spec fn view(&self) -> ModelAgentModel {
        ModelAgentModel { provider: self.provider@, system_prompt: self.system_prompt@ }
    }
}

/// The default system instruction of the strategic-insight agent.
pub open spec fn spec_insight_system_prompt() -> Seq<char> {
    "You are a strategic advisor analyzing growth strategies for a business.\n\nGiven the context of market signals, competitor analysis, proposed strategies, and their evaluations,\nsynthesize 2-3 key strategic insights that the business should consider.\n\nEach insight should:\n1. Be actionable and specific\n2. Reference the data in the context\n3. Provide a clear recommendation\n\nFormat your response as a numbered list of insights, one per line.\nKeep each insight concise (1-2 sentences)."@
}

impl StrategicInsightAgent {
    /// An agent wired to the given provider, with the default system
    /// instruction.
    pub fn new(provider: LlmProvider) -> (a: StrategicInsightAgent)
        ensures
            a@.provider == provider@,
            a@.system_prompt == spec_insight_system_prompt(),
    {
        StrategicInsightAgent {
            provider,
            system_prompt:
                "You are a strategic advisor analyzing growth strategies for a business.\n\nGiven the context of market signals, competitor analysis, proposed strategies, and their evaluations,\nsynthesize 2-3 key strategic insights that the business should consider.\n\nEach insight should:\n1. Be actionable and specific\n2. Reference the data in the context\n3. Provide a clear recommendation\n\nFormat your response as a numbered list of insights, one per line.\nKeep each insight concise (1-2 sentences).".to_owned(),
        }
    }

    /// An agent with a custom system instruction.
    pub fn with_prompt(provider: LlmProvider, system_prompt: String) -> (a: StrategicInsightAgent)
        ensures
            a@.provider == provider@,
            a@.system_prompt == system_prompt@,
    {
        StrategicInsightAgent { provider, system_prompt }
    }

    /// Builds the user prompt from context, in fixed section order.
    pub fn build_prompt(&self, ctx: &Context) -> (prompt: String)
        ensures
            prompt@ == spec_insight_prompt(ctx@),
    {
        let mut prompt = "## Market Signals\n".to_owned();
        push_bullets(&mut prompt, ctx.get(ContextKey::Signals));
        prompt.append("\n## Competitor Analysis\n");
        push_bullets(&mut prompt, ctx.get(ContextKey::Competitors));
        prompt.append("\n## Proposed Strategies\n");
        push_id_bullets(&mut prompt, ctx.get(ContextKey::Strategies));
        prompt.append("\n## Evaluations\n");
        push_bullets(&mut prompt, ctx.get(ContextKey::Evaluations));
        prompt.append("\n## Task\nProvide 2-3 strategic insights based on this analysis.");
        proof {
            assert(prompt@ =~= spec_insight_prompt(ctx@));
        }
        prompt
    }
}

impl Agent for StrategicInsightAgent {
    open spec fn name_spec(&self) -> Seq<char> {
        "StrategicInsightAgent"@
    }

    open spec fn deps_spec(&self) -> Seq<ContextKey> {
        seq![ContextKey::Evaluations]
    }

    open spec fn output_key_spec(&self) -> ContextKey {
        ContextKey::Hypotheses
    }

    open spec fn effect_spec(&self, ctx: ContextModel) -> Seq<FactModel> {
        insight_effect(self@.provider.outcome(), ctx)
    }

    fn name(&self) -> (r: &str) {
        "StrategicInsightAgent"
    }

    fn dependencies(&self) -> (r: Vec<ContextKey>) {
        let mut r: Vec<ContextKey> = Vec::new();
        r.push(ContextKey::Evaluations);
        proof {
            assert(r@ =~= self.deps_spec());
        }
        r
    }

    fn accepts(&self, ctx: &Context) -> (b: bool) {
        let b = ctx.has(ContextKey::Evaluations) && !ctx.has(ContextKey::Hypotheses);
        proof {
            let deps = self.deps_spec();
            assert(deps[0] == ContextKey::Evaluations);
            if ctx@.get(ContextKey::Evaluations).len() > 0 {
                assert(forall|i: int|
                    0 <= i < deps.len() ==> ctx@.get(#[trigger] deps[i]).len() > 0);
            }
        }
        b
    }

    fn execute(&self, ctx: &Context) -> (e: AgentEffect) {
        let prompt = self.build_prompt(ctx);
        let request = LlmRequest::new(prompt).with_system(self.system_prompt.clone());
        let result = self.provider.complete(&request);
        match result {
            Ok(response) => {
                let rules = insight_rules();
                proof {
                    reveal_strlit("insight:fallback");
                    lemma_parse_wf(response.content@, rules@);
                }
                let facts = parse_response(response.content.as_str(), &rules);
                AgentEffect::with_facts(facts)
            },
            Err(e) => {
                let mut content = "LLM call failed: ".to_owned();
                content.append(e.message.as_str());
                content.append(". Manual review recommended.");
                let fact = Fact {
                    key: ContextKey::Hypotheses,
                    id: "insight:error".to_owned(),
                    content,
                };
                proof {
                    reveal_strlit("insight:error");
                }
                let mut facts: Vec<Fact> = Vec::new();
                facts.push(fact);
                proof {
                    assert(facts.deep_view() =~= self.effect_spec(ctx@));
                }
                AgentEffect::with_facts(facts)
            },
        }
    }
}

/// The model-backed agent that identifies risks for proposed strategies into
/// the constraints category.
pub struct RiskAssessmentAgent {
    provider: LlmProvider,
    system_prompt: String,
}

impl View for RiskAssessmentAgent {
    type V = ModelAgentModel;

    closed spec fn view(&self) -> ModelAgentModel {
        ModelAgentModel { provider: self.provider@, system_prompt: self.system_prompt@ }
    }
}

/// The default system instruction of the risk-assessment agent.
pub open spec fn spec_risk_system_prompt() -> Seq<char> {
    "You are a risk analyst evaluating business strategies.\n\nGiven the proposed strategies and their evaluations, identify 2-3 key risks or challenges\nthat could impact successful execution.\n\nFor each risk:\n1. Name the risk clearly\n2. Explain what could go wrong\n3. Suggest a mitigation approach\n\nFormat your response as a numbered list, one risk per item.\nKeep each risk assessment concise (2-3 sentences)."@
}

impl RiskAssessmentAgent {
    /// An agent wired to the given provider, with the default system
    /// instruction.
    pub fn new(provider: LlmProvider) -> (a: RiskAssessmentAgent)
        ensures
            a@.provider == provider@,
            a@.system_prompt == spec_risk_system_prompt(),
    {
        RiskAssessmentAgent {
            provider,
            system_prompt:
                "You are a risk analyst evaluating business strategies.\n\nGiven the proposed strategies and their evaluations, identify 2-3 key risks or challenges\nthat could impact successful execution.\n\nFor each risk:\n1. Name the risk clearly\n2. Explain what could go wrong\n3. Suggest a mitigation approach\n\nFormat your response as a numbered list, one risk per item.\nKeep each risk assessment concise (2-3 sentences).".to_owned(),
        }
    }

    /// An agent with a custom system instruction.
    pub fn with_prompt(provider: LlmProvider, system_prompt: String) -> (a: RiskAssessmentAgent)
        ensures
            a@.provider == provider@,
            a@.system_prompt == system_prompt@,
    {
        RiskAssessmentAgent { provider, system_prompt }
    }

    /// Builds the user prompt from context, in fixed section order.
    pub fn build_prompt(&self, ctx: &Context) -> (prompt: String)
        ensures
            prompt@ == spec_risk_prompt(ctx@),
    {
        let mut prompt = "## Company Context\n".to_owned();
        push_bullets(&mut prompt, ctx.get(ContextKey::Seeds));
        prompt.append("\n## Market Signals\n");
        push_bullets(&mut prompt, ctx.get(ContextKey::Signals));
        prompt.append("\n## Competitive Landscape\n");
        push_bullets(&mut prompt, ctx.get(ContextKey::Competitors));
        prompt.append("\n## Proposed Strategies\n");
        push_id_bullets(&mut prompt, ctx.get(ContextKey::Strategies));
        prompt.append("\n## Strategy Evaluations\n");
        push_bullets(&mut prompt, ctx.get(ContextKey::Evaluations));
        prompt.append(
            "\n## Task\nIdentify 2-3 key risks or challenges for these strategies and suggest mitigations.",
        );
        proof {
            assert(prompt@ =~= spec_risk_prompt(ctx@));
        }
        prompt
    }
}

impl Agent for RiskAssessmentAgent {
    open spec fn name_spec(&self) -> Seq<char> {
        "RiskAssessmentAgent"@
    }

    open spec fn deps_spec(&self) -> Seq<ContextKey> {
        seq![ContextKey::Strategies, ContextKey::Evaluations]
    }

    open spec fn output_key_spec(&self) -> ContextKey {
        ContextKey::Constraints
    }

    open spec fn effect_spec(&self, ctx: ContextModel) -> Seq<FactModel> {
        risk_effect(self@.provider.outcome(), ctx)
    }

    fn name(&self) -> (r: &str) {
        "RiskAssessmentAgent"
    }

    fn dependencies(&self) -> (r: Vec<ContextKey>) {
        let mut r: Vec<ContextKey> = Vec::new();
        r.push(ContextKey::Strategies);
        r.push(ContextKey::Evaluations);
        proof {
            assert(r@ =~= self.deps_spec());
        }
        r
    }

    fn accepts(&self, ctx: &Context) -> (b: bool) {
        let b = ctx.has(ContextKey::Strategies) && ctx.has(ContextKey::Evaluations) && !ctx.has(
            ContextKey::Constraints,
        );
        proof {
            let deps = self.deps_spec();
            assert(deps[0] == ContextKey::Strategies);
            assert(deps[1] == ContextKey::Evaluations);
            if ctx@.get(ContextKey::Strategies).len() > 0 && ctx@.get(
                ContextKey::Evaluations,
            ).len() > 0 {
                assert(forall|i: int|
                    0 <= i < deps.len() ==> ctx@.get(#[trigger] deps[i]).len() > 0);
            }
        }
        b
    }

    fn execute(&self, ctx: &Context) -> (e: AgentEffect) {
        let prompt = self.build_prompt(ctx);
        let request = LlmRequest::new(prompt).with_system(self.system_prompt.clone());
        let result = self.provider.complete(&request);
        match result {
            Ok(response) => {
                let rules = risk_rules();
                proof {
                    reveal_strlit("risk:none-identified");
                    lemma_parse_wf(response.content@, rules@);
                }
                let facts = parse_response(response.content.as_str(), &rules);
                AgentEffect::with_facts(facts)
            },
            Err(e) => {
                let mut content = "Risk assessment failed: ".to_owned();
                content.append(e.message.as_str());
                content.append(". Manual review recommended.");
                let fact = Fact {
                    key: ContextKey::Constraints,
                    id: "risk:error".to_owned(),
                    content,
                };
                proof {
                    reveal_strlit("risk:error");
                }
                let mut facts: Vec<Fact> = Vec::new();
                facts.push(fact);
                proof {
                    assert(facts.deep_view() =~= self.effect_spec(ctx@));
                }
                AgentEffect::with_facts(facts)
            },
        }
    }
}

/// The closed set of agents the scheduler can hold, treated uniformly through
/// the [`Agent`] contract.
pub enum AgentKind {
    Insight(StrategicInsightAgent),
    Risk(RiskAssessmentAgent),
}

/// Mathematical model of a registered agent: which role it plays, with its
/// provider and system instruction.
pub enum AgentModel {
    Insight(ModelAgentModel),
    Risk(ModelAgentModel),
}

/// The name of a modeled agent.
pub open spec fn model_name(a: AgentModel) -> Seq<char> {
    match a {
        AgentModel::Insight(_) => "StrategicInsightAgent"@,
        AgentModel::Risk(_) => "RiskAssessmentAgent"@,
    }
}

/// The dependency categories of a modeled agent.
pub open spec fn model_deps(a: AgentModel) -> Seq<ContextKey> {
    match a {
        AgentModel::Insight(_) => seq![ContextKey::Evaluations],
        AgentModel::Risk(_) => seq![ContextKey::Strategies, ContextKey::Evaluations],
    }
}

/// The output category of a modeled agent.
pub open spec fn model_output(a: AgentModel) -> ContextKey {
    match a {
        AgentModel::Insight(_) => ContextKey::Hypotheses,
        AgentModel::Risk(_) => ContextKey::Constraints,
    }
}

/// The facts a modeled agent proposes on a context.
pub open spec fn model_effect(a: AgentModel, ctx: ContextModel) -> Seq<FactModel> {
    match a {
        AgentModel::Insight(m) => insight_effect(m.provider.outcome(), ctx),
        AgentModel::Risk(m) => risk_effect(m.provider.outcome(), ctx),
    }
}

impl View for AgentKind {
    type V = AgentModel;

    open spec fn view(&self) -> AgentModel {
        match self {
            AgentKind::Insight(a) => AgentModel::Insight(a@),
            AgentKind::Risk(a) => AgentModel::Risk(a@),
        }
    }
}

impl DeepView for AgentKind {
    type V = AgentModel;

    open spec fn deep_view(&self) -> AgentModel {
        self@
    }
}

impl Agent for AgentKind {
    open spec fn name_spec(&self) -> Seq<char> {
        model_name(self@)
    }

    open spec fn deps_spec(&self) -> Seq<ContextKey> {
        model_deps(self@)
    }

    open spec fn output_key_spec(&self) -> ContextKey {
        model_output(self@)
    }

    open spec fn effect_spec(&self, ctx: ContextModel) -> Seq<FactModel> {
        model_effect(self@, ctx)
    }

    fn name(&self) -> (r: &str) {
        match self {
            AgentKind::Insight(a) => a.name(),
            AgentKind::Risk(a) => a.name(),
        }
    }

    fn dependencies(&self) -> (r: Vec<ContextKey>) {
        match self {
            AgentKind::Insight(a) => a.dependencies(),
            AgentKind::Risk(a) => a.dependencies(),
        }
    }

    fn accepts(&self, ctx: &Context) -> (b: bool) {
        match self {
            AgentKind::Insight(a) => a.accepts(ctx),
            AgentKind::Risk(a) => a.accepts(ctx),
        }
    }

    fn execute(&self, ctx: &Context) -> (e: AgentEffect) {
        match self {
            AgentKind::Insight(a) => a.execute(ctx),
            AgentKind::Risk(a) => a.execute(ctx),
        }
    }
}

} // verus!
