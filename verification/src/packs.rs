//! Domain pack selection: which pre-defined bundles of agents and invariants
//! this distribution offers, and how a pack's agents are registered with the
//! engine.

use vstd::prelude::*;
use vstd::string::StringExecFns;

use crate::agents::{
    spec_insight_system_prompt, spec_risk_system_prompt, AgentKind, AgentModel, ModelAgentModel,
    RiskAssessmentAgent, StrategicInsightAgent,
};
use crate::engine::Engine;
use crate::llm::{spec_default_insights, LlmProvider, MockInsightProvider, ProviderModel};
use crate::text::str_eq;

verus! {

/// Information about a domain pack.
pub struct PackInfo {
    pub name: String,
    pub description: String,
    pub version: String,
    pub templates: Vec<String>,
    pub invariants: Vec<String>,
}

/// All domain packs compiled into this distribution.
pub fn available_packs() -> (packs: Vec<String>)
    ensures
        packs.deep_view() =~= seq!["growth-strategy"@],
{
    let mut packs: Vec<String> = Vec::new();
    packs.push("growth-strategy".to_owned());
    packs
}

/// The packs enabled by default.
pub fn default_packs() -> (packs: Vec<String>)
    ensures
        packs.deep_view() =~= seq!["growth-strategy"@],
{
    let mut packs: Vec<String> = Vec::new();
    packs.push("growth-strategy".to_owned());
    packs
}

/// Metadata of one pack; an unknown name yields a placeholder entry.
pub fn pack_info(name: &str) -> (info: PackInfo)
    ensures
        name@ == "growth-strategy"@ ==> info.name@ == "growth-strategy"@ && info.description@
            == "Multi-agent growth strategy analysis with market signals, competitor analysis, strategy synthesis, and evaluation."@
            && info.version@ == "1.0.0"@ && info.templates.deep_view() =~= seq!["growth-strategy"@]
            && info.invariants.deep_view() =~= seq![
            "BrandSafetyInvariant"@,
            "RequireMultipleStrategies"@,
            "RequireStrategyEvaluations"@,
        ],
        name@ == "sdr-pipeline"@ ==> info.name@ == "sdr-pipeline"@ && info.description@
            == "SDR/sales funnel automation with lead qualification, outreach sequencing, and meeting scheduling."@
            && info.version@ == "0.1.0"@ && info.templates.deep_view() =~= seq![
            "sdr-qualify"@,
            "sdr-outreach"@,
        ] && info.invariants.deep_view() =~= seq![
            "LeadQualificationInvariant"@,
            "OutreachComplianceInvariant"@,
        ],
        name@ != "growth-strategy"@ && name@ != "sdr-pipeline"@ ==> info.name@ == name@
            && info.description@ == "Unknown pack"@ && info.version@ == "0.0.0"@
            && info.templates.deep_view() =~= Seq::<Seq<char>>::empty()
            && info.invariants.deep_view() =~= Seq::<Seq<char>>::empty(),
{
    proof {
        reveal_strlit("growth-strategy");
        reveal_strlit("sdr-pipeline");
        assert("growth-strategy"@.len() == 15 && "sdr-pipeline"@.len() == 12);
    }
    if str_eq(name, "growth-strategy") {
        let mut templates: Vec<String> = Vec::new();
        templates.push("growth-strategy".to_owned());
        let mut invariants: Vec<String> = Vec::new();
        invariants.push("BrandSafetyInvariant".to_owned());
        invariants.push("RequireMultipleStrategies".to_owned());
        invariants.push("RequireStrategyEvaluations".to_owned());
        PackInfo {
            name: "growth-strategy".to_owned(),
            description:
                "Multi-agent growth strategy analysis with market signals, competitor analysis, strategy synthesis, and evaluation.".to_owned(),
            version: "1.0.0".to_owned(),
            templates,
            invariants,
        }
    } else if str_eq(name, "sdr-pipeline") {
        let mut templates: Vec<String> = Vec::new();
        templates.push("sdr-qualify".to_owned());
        templates.push("sdr-outreach".to_owned());
        let mut invariants: Vec<String> = Vec::new();
        invariants.push("LeadQualificationInvariant".to_owned());
        invariants.push("OutreachComplianceInvariant".to_owned());
        PackInfo {
            name: "sdr-pipeline".to_owned(),
            description:
                "SDR/sales funnel automation with lead qualification, outreach sequencing, and meeting scheduling.".to_owned(),
            version: "0.1.0".to_owned(),
            templates,
            invariants,
        }
    } else {
        PackInfo {
            name: name.to_owned(),
            description: "Unknown pack".to_owned(),
            version: "0.0.0".to_owned(),
            templates: Vec::new(),
            invariants: Vec::new(),
        }
    }
}

/// The agent names of a pack, in registration order.
pub fn get_pack_agents(pack_name: &str) -> (agents: Vec<String>)
    ensures
        pack_name@ == "growth-strategy"@ ==> agents.deep_view() =~= seq![
            "MarketSignalAgent"@,
            "CompetitorAgent"@,
            "StrategyAgent"@,
            "EvaluationAgent"@,
            "StrategicInsightAgent"@,
            "RiskAssessmentAgent"@,
        ],
        pack_name@ == "sdr-pipeline"@ ==> agents.deep_view() =~= seq![
            "LeadScoringAgent"@,
            "OutreachAgent"@,
            "FollowUpAgent"@,
        ],
        pack_name@ != "growth-strategy"@ && pack_name@ != "sdr-pipeline"@ ==> agents.deep_view()
            =~= Seq::<Seq<char>>::empty(),
{
    let mut agents: Vec<String> = Vec::new();
    proof {
        reveal_strlit("growth-strategy");
        reveal_strlit("sdr-pipeline");
        assert("growth-strategy"@.len() == 15 && "sdr-pipeline"@.len() == 12);
    }
    if str_eq(pack_name, "growth-strategy") {
        agents.push("MarketSignalAgent".to_owned());
        agents.push("CompetitorAgent".to_owned());
        agents.push("StrategyAgent".to_owned());
        agents.push("EvaluationAgent".to_owned());
        agents.push("StrategicInsightAgent".to_owned());
        agents.push("RiskAssessmentAgent".to_owned());
    } else if str_eq(pack_name, "sdr-pipeline") {
        agents.push("LeadScoringAgent".to_owned());
        agents.push("OutreachAgent".to_owned());
        agents.push("FollowUpAgent".to_owned());
    }
    agents
}

/// The modeled agents that registering the growth-strategy pack adds, in
/// order. Both model-backed agents share one provider.
pub open spec fn spec_growth_agents() -> Seq<AgentModel> {
    seq![
        AgentModel::Insight(
            ModelAgentModel {
                provider: ProviderModel::MockInsight(spec_default_insights()),
                system_prompt: spec_insight_system_prompt(),
            },
        ),
        AgentModel::Risk(
            ModelAgentModel {
                provider: ProviderModel::MockInsight(spec_default_insights()),
                system_prompt: spec_risk_system_prompt(),
            },
        ),
    ]
}

/// Picks the provider for one run. A live, network-backed provider belongs to
/// the environment around this library; with no backend configured, both
/// modes fall back to the deterministic stand-in.
pub fn create_llm_provider(use_mock: bool) -> (p: LlmProvider)
    ensures
        p@ == ProviderModel::MockInsight(spec_default_insights()),
{
    if use_mock {
        return LlmProvider::MockInsight(MockInsightProvider::default_insights());
    }
    // No live backend is wired into this build, so the non-mock mode falls
    // back to the same deterministic stand-in.
    LlmProvider::MockInsight(MockInsightProvider::default_insights())
}

/// Registers the agent set of the named pack; the deterministic agents and
/// the invariants of the domain pack live outside this library. An unknown
/// pack name is refused and leaves the engine unchanged.
pub fn register_pack_agents(engine: &mut Engine, pack_name: &str, use_mock_llm: bool) -> (r:
    Result<(), String>)
    ensures
        pack_name@ == "growth-strategy"@ ==> r is Ok && final (engine)@.agents =~= old(
            engine,
        )@.agents + spec_growth_agents() && final (engine)@.max_cycles == old(engine)@.max_cycles,
        pack_name@ != "growth-strategy"@ ==> (r matches Err(msg) && msg@ == "Unknown pack: "@
            + pack_name@) && final (engine)@ == old(engine)@,
{
    if str_eq(pack_name, "growth-strategy") {
        let ghost before = engine@.agents;
        let provider = create_llm_provider(use_mock_llm);
        engine.register(AgentKind::Insight(StrategicInsightAgent::new(provider.clone())));
        engine.register(AgentKind::Risk(RiskAssessmentAgent::new(provider)));
        proof {
            assert(engine@.agents =~= before + spec_growth_agents());
        }
        Ok(())
    } else {
        let mut msg = "Unknown pack: ".to_owned();
        msg.append(pack_name);
        Err(msg)
    }
}

} // verus!
