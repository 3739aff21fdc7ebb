use converge_app::facts::{ContextKey, Fact};
use converge_app::streaming::{OutputFormat, StreamingHandler};

#[test]
fn streaming_handler_counts_facts() {
    let mut handler = StreamingHandler::human();
    assert_eq!(handler.fact_count(), 0);

    let fact = Fact {
        key: ContextKey::Seeds,
        id: "test".to_string(),
        content: "test content".to_string(),
    };

    let _ = handler.on_fact(1, &fact);
    assert_eq!(handler.fact_count(), 1);

    let _ = handler.on_fact(2, &fact);
    assert_eq!(handler.fact_count(), 2);
}

#[test]
fn human_fact_line_format() {
    let mut handler = StreamingHandler::new(OutputFormat::Human);
    let fact = Fact {
        key: ContextKey::Strategies,
        id: "strategy-smb".to_string(),
        content: "Target SMB segment".to_string(),
    };
    let line = handler.on_fact(2, &fact);
    assert_eq!(line, "[cycle:2] fact:Strategies:strategy-smb | Target SMB segment");
}

#[test]
fn json_fact_line_escapes_content() {
    let mut handler = StreamingHandler::json();
    let fact = Fact {
        key: ContextKey::Seeds,
        id: "seed-1".to_string(),
        content: "say \"hi\"\nback\\slash\u{0001}".to_string(),
    };
    let line = handler.on_fact(1, &fact);
    assert_eq!(
        line,
        "{\"cycle\":1,\"type\":\"fact\",\"key\":\"Seeds\",\"id\":\"seed-1\",\"content\":\"say \\\"hi\\\"\\nback\\\\slash\\u0001\"}"
    );
    // The escaped line round-trips through a JSON parser to the raw content.
    let parsed: serde_json::Value = serde_json::from_str(&line).unwrap();
    assert_eq!(
        parsed.get("content").unwrap().as_str().unwrap(),
        "say \"hi\"\nback\\slash\u{0001}"
    );
}

#[test]
fn final_status_lines() {
    let mut human = StreamingHandler::human();
    let fact = Fact {
        key: ContextKey::Seeds,
        id: "seed-1".to_string(),
        content: "data".to_string(),
    };
    let _ = human.on_fact(1, &fact);
    assert_eq!(
        human.emit_final_status(true, 3),
        "[cycle:3] converged | 3 cycles, 1 facts"
    );
    assert_eq!(
        human.emit_final_status(false, 50),
        "[cycle:50] halted | 50 cycles, 1 facts"
    );

    let json = StreamingHandler::json();
    assert_eq!(
        json.emit_final_status(true, 3),
        "{\"cycle\":3,\"type\":\"status\",\"converged\":true,\"cycles\":3,\"facts\":0}"
    );
}
