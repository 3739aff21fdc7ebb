use converge_app::engine::Engine;
use converge_app::packs::{
    available_packs, default_packs, get_pack_agents, pack_info, register_pack_agents,
};

#[test]
fn test_available_packs() {
    let packs = available_packs();
    assert!(packs.contains(&"growth-strategy".to_string()));
}

#[test]
fn test_pack_info() {
    let info = pack_info("growth-strategy");
    assert_eq!(info.name, "growth-strategy");
    assert!(!info.templates.is_empty());
    assert!(!info.invariants.is_empty());
}

#[test]
fn pack_info_for_unknown_pack_is_placeholder() {
    let info = pack_info("mystery");
    assert_eq!(info.name, "mystery");
    assert_eq!(info.description, "Unknown pack");
    assert_eq!(info.version, "0.0.0");
    assert!(info.templates.is_empty());
    assert!(info.invariants.is_empty());
}

#[test]
fn default_packs_enable_growth_strategy() {
    assert_eq!(default_packs(), vec!["growth-strategy".to_string()]);
}

#[test]
fn pack_agents_are_listed_in_registration_order() {
    let agents = get_pack_agents("growth-strategy");
    assert_eq!(
        agents,
        vec![
            "MarketSignalAgent".to_string(),
            "CompetitorAgent".to_string(),
            "StrategyAgent".to_string(),
            "EvaluationAgent".to_string(),
            "StrategicInsightAgent".to_string(),
            "RiskAssessmentAgent".to_string(),
        ]
    );
    assert!(get_pack_agents("unheard-of").is_empty());
}

#[test]
fn registering_unknown_pack_fails() {
    let mut engine = Engine::new();
    let err = register_pack_agents(&mut engine, "sdr-pipeline", true).unwrap_err();
    assert_eq!(err, "Unknown pack: sdr-pipeline");
    assert!(register_pack_agents(&mut engine, "growth-strategy", true).is_ok());
}
