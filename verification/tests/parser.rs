use converge_app::agents::{insight_rules, risk_rules};
use converge_app::facts::ContextKey;
use converge_app::parser::parse_response;

#[test]
fn parser_never_returns_empty() {
    let rules = insight_rules();
    for text in ["", "\n\n\n", "   \n\t\n", "1.\n2.\n3.", "short"] {
        let facts = parse_response(text, &rules);
        assert!(!facts.is_empty(), "no facts for {:?}", text);
    }
}

#[test]
fn parser_emits_fallback_for_filtered_text() {
    let rules = insight_rules();
    // Blank lines and lines at or below the ten-character threshold only.
    let facts = parse_response("\n  \n1. short\n)) .. 12\n", &rules);
    assert_eq!(facts.len(), 1);
    assert_eq!(facts[0].id, "insight:fallback");
    assert_eq!(
        facts[0].content,
        "LLM analysis completed but no structured insights extracted. Review raw evaluation data."
    );
}

#[test]
fn parser_emits_fallback_for_risks() {
    let rules = risk_rules();
    // Exactly twenty characters is not over the twenty-character threshold.
    let facts = parse_response("1. abcdefghijklmnopqrst\n", &rules);
    assert_eq!(facts.len(), 1);
    assert_eq!(facts[0].id, "risk:none-identified");
    assert_eq!(
        facts[0].content,
        "No significant risks identified. Recommend manual review of assumptions."
    );
}

#[test]
fn parser_keeps_well_formed_lines_in_order() {
    let rules = insight_rules();
    let text = "1. The first insight here\n2) The second insight here\n3. The third insight here";
    let facts = parse_response(text, &rules);
    assert_eq!(facts.len(), 3);
    assert_eq!(facts[0].id, "insight:1");
    assert_eq!(facts[0].content, "The first insight here");
    assert_eq!(facts[1].id, "insight:2");
    assert_eq!(facts[1].content, "The second insight here");
    assert_eq!(facts[2].id, "insight:3");
    assert_eq!(facts[2].content, "The third insight here");
    assert!(facts.iter().all(|f| f.key == ContextKey::Hypotheses));
}

#[test]
fn parser_strips_markers_and_whitespace() {
    let rules = insight_rules();
    let facts = parse_response("  12)   keep this insight text  \n", &rules);
    assert_eq!(facts.len(), 1);
    assert_eq!(facts[0].content, "keep this insight text");
}

#[test]
fn parser_numbers_only_emitted_facts() {
    let rules = insight_rules();
    // The blank and too-short lines in between do not consume numbers.
    let text = "1. A sufficiently long line\n\nshort\n2. Another sufficiently long line";
    let facts = parse_response(text, &rules);
    assert_eq!(facts.len(), 2);
    assert_eq!(facts[0].id, "insight:1");
    assert_eq!(facts[1].id, "insight:2");
}

#[test]
fn parser_threshold_is_strict() {
    let rules = insight_rules();
    // Exactly ten characters is filtered, eleven survive.
    let facts = parse_response("abcdefghij\nabcdefghijk", &rules);
    assert_eq!(facts.len(), 1);
    assert_eq!(facts[0].content, "abcdefghijk");
}

#[test]
fn risk_parser_tags_constraints() {
    let rules = risk_rules();
    let facts = parse_response(
        "1. **Resource Risk** - something could go wrong here.\n",
        &rules,
    );
    assert_eq!(facts.len(), 1);
    assert_eq!(facts[0].key, ContextKey::Constraints);
    assert_eq!(facts[0].id, "risk:1");
    // The leading "1. " marker is stripped; the "**" is content.
    assert!(facts[0].content.starts_with("**Resource Risk**"));
}
