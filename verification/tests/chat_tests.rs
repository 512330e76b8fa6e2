use goal_digger::chat::{
    chat_request, check_chat_request, edge_tool_query, model_call_error, model_request, next_chat_step, system_prompt, tool_kind,
    tournament_tool_query, ChatStep, ContentBlock, ToolKind, BOARD_HEADING, MAX_TOKENS, SYSTEM_PROMPT,
};
use goal_digger::market::{edge_request, tournament_teams};
use goal_digger::query::Query;

fn block(kind: Option<&str>, text: Option<&str>) -> ContentBlock {
    ContentBlock { kind: kind.map(|s| s.to_string()), text: text.map(|s| s.to_string()) }
}

#[test]
fn system_prompt_without_board() {
    let p = system_prompt(None);
    assert_eq!(p, SYSTEM_PROMPT);
    assert!(p.starts_with("You are GoalDigger, an AI trading analyst"));
    assert!(p.contains("Only call something a value bet when edge clears 4 points."));
    assert!(p.ends_with("Senegal     \u{2192} will-senegal-win-the-2026-fifa-world-cup"));
}

#[test]
fn system_prompt_with_board() {
    let p = system_prompt(Some("{\n  \"matches\": []\n}"));
    assert_eq!(p, format!("{}{}{}", SYSTEM_PROMPT, BOARD_HEADING, "{\n  \"matches\": []\n}"));
    assert!(p.contains("\n\nLive board snapshot (from engine, loaded at session start):\n{"));
}

#[test]
fn tool_kinds() {
    assert_eq!(tool_kind("get_board"), ToolKind::Board);
    assert_eq!(tool_kind("find_best_edges"), ToolKind::BestEdges);
    assert_eq!(tool_kind("simulate_match"), ToolKind::Simulate);
    assert_eq!(tool_kind("explain_model"), ToolKind::Simulate);
    assert_eq!(tool_kind("get_edge"), ToolKind::Edge);
    assert_eq!(tool_kind("get_tournament_odds"), ToolKind::TournamentOdds);
    assert_eq!(tool_kind("place_bet"), ToolKind::Unknown);
}

#[test]
fn chat_request_checks_in_order() {
    assert_eq!(check_chat_request(Some("EOF while parsing"), false, None), Err("bad json: EOF while parsing".to_string()));
    assert_eq!(check_chat_request(None, false, Some(2)), Err("ANTHROPIC_API_KEY not set".to_string()));
    assert_eq!(check_chat_request(None, true, None), Err("messages must be an array".to_string()));
    assert_eq!(check_chat_request(None, true, Some(0)), Err("messages array is empty".to_string()));
    assert_eq!(check_chat_request(None, true, Some(1)), Ok(()));
}

#[test]
fn chat_step_runs_tool_calls() {
    let blocks = vec![
        block(Some("text"), Some("Let me check.")),
        block(Some("tool_use"), None),
        block(None, None),
        block(Some("tool_use"), None),
    ];
    match next_chat_step(Some("tool_use"), &blocks) {
        ChatStep::RunTools(ix) => assert_eq!(ix, vec![1, 3]),
        ChatStep::Reply(_) => panic!("expected tool calls"),
    }
}

#[test]
fn chat_step_replies_with_first_text() {
    let blocks = vec![block(Some("tool_use"), None), block(Some("text"), Some("Spain at 0.74")), block(Some("text"), Some("other"))];
    match next_chat_step(Some("end_turn"), &blocks) {
        ChatStep::Reply(t) => assert_eq!(t, "Spain at 0.74"),
        ChatStep::RunTools(_) => panic!("expected a reply"),
    }
}

#[test]
fn chat_step_no_response() {
    let blocks = vec![block(Some("text"), None), block(Some("text"), Some("later"))];
    match next_chat_step(None, &blocks) {
        ChatStep::Reply(t) => assert_eq!(t, "No response."),
        ChatStep::RunTools(_) => panic!("expected a reply"),
    }
    match next_chat_step(Some("max_tokens"), &vec![]) {
        ChatStep::Reply(t) => assert_eq!(t, "No response."),
        ChatStep::RunTools(_) => panic!("expected a reply"),
    }
}

#[test]
fn model_call_errors() {
    assert_eq!(model_call_error(true, "200 OK", None), None);
    assert_eq!(
        model_call_error(false, "401 Unauthorized", Some("invalid x-api-key")),
        Some("Anthropic 401 Unauthorized: invalid x-api-key".to_string())
    );
    assert_eq!(
        model_call_error(false, "500 Internal Server Error", None),
        Some("Anthropic 500 Internal Server Error: unknown error".to_string())
    );
}

#[test]
fn tournament_tool_query_text() {
    let teams = vec!["Spain".to_string(), "France".to_string(), "USA".to_string()];
    assert_eq!(tournament_tool_query(&teams), "?teams=Spain,France,USA");
    assert_eq!(tournament_tool_query(&vec![]), "?teams=");
}

#[test]
fn tournament_tool_roundtrip() {
    let teams = vec!["Spain".to_string(), "Cote d'Ivoire".to_string(), "USA".to_string()];
    let q = Query::parse(&tournament_tool_query(&teams));
    assert_eq!(tournament_teams(&q), Ok(teams));
}

#[test]
fn edge_tool_query_text() {
    assert_eq!(
        edge_tool_query("will-spain-win-the-2026-fifa-world-cup-963", "Yes", "0.313"),
        "?slug=will-spain-win-the-2026-fifa-world-cup-963&outcome=Yes&model_prob=0.313"
    );
}

#[test]
fn edge_tool_roundtrip() {
    let q = Query::parse(&edge_tool_query("will-usa-win-the-2026-fifa-world-cup-467", "Yes", "0.0451"));
    let r = edge_request(&q).unwrap();
    assert_eq!(r.slug, "will-usa-win-the-2026-fifa-world-cup-467");
    assert_eq!(r.outcome, "Yes");
    assert_eq!(r.model_prob, "0.0451");
}

#[test]
fn edge_tool_roundtrip_breaks_on_separators() {
    // Parameters go in unencoded, so a '+' comes back as a space.
    let q = Query::parse(&edge_tool_query("a+b", "Yes", "0.5"));
    assert_eq!(edge_request(&q).unwrap().slug, "a b");
}

#[test]
fn offered_tools_are_all_dispatched() {
    let defs = goal_digger::chat::tool_definitions();
    let names: Vec<&str> = defs.iter().map(|d| d.name).collect();
    assert_eq!(
        names,
        vec!["get_board", "simulate_match", "get_edge", "get_tournament_odds", "find_best_edges", "explain_model"]
    );
    for d in &defs {
        assert_ne!(tool_kind(d.name), ToolKind::Unknown);
        assert!(!d.description.is_empty());
    }
}

#[test]
fn tool_schemas_are_json_objects() {
    for d in goal_digger::chat::tool_definitions() {
        let v: serde_json::Value = serde_json::from_str(d.input_schema).unwrap();
        assert_eq!(v["type"], "object");
        assert!(v["properties"].is_object());
        assert!(v["required"].is_array());
    }
    let defs = goal_digger::chat::tool_definitions();
    let sim: serde_json::Value = serde_json::from_str(defs[1].input_schema).unwrap();
    assert_eq!(sim["required"], serde_json::Value::from(vec!["home", "away"]));
    assert_eq!(sim["properties"]["home_attack_adj"]["description"], "Home attack multiplier, 0.6\u{2013}1.4");
    let board: serde_json::Value = serde_json::from_str(defs[0].input_schema).unwrap();
    assert_eq!(board.to_string(), "{\"properties\":{},\"required\":[],\"type\":\"object\"}");
}

#[test]
fn chat_request_bad_json() {
    let r = chat_request("{not json", true).unwrap_err();
    assert_eq!(r.status, 400);
    assert!(r.message.starts_with("bad json: "), "{}", r.message);
    assert!(r.message.len() > "bad json: ".len());
    assert_eq!(chat_request("not json", false).unwrap_err().status, 400);
}

#[test]
fn chat_request_checks_key_then_messages() {
    let refused = |body: &str, key: bool| chat_request(body, key).map_err(|r| (r.status, r.message));
    assert_eq!(refused("{\"messages\":[1]}", false), Err((200, "ANTHROPIC_API_KEY not set".to_string())));
    assert_eq!(refused("{\"messages\":\"hi\"}", true), Err((200, "messages must be an array".to_string())));
    assert_eq!(refused("{}", true), Err((200, "messages must be an array".to_string())));
    assert_eq!(refused("{\"messages\":[]}", true), Err((200, "messages array is empty".to_string())));
}

#[test]
fn chat_request_builds_prompt() {
    let prompt = |body: &str| chat_request(body, true).ok();
    assert_eq!(prompt("{\"messages\":[{\"role\":\"user\"}]}"), Some(SYSTEM_PROMPT.to_string()));
    assert_eq!(prompt("{\"messages\":[1],\"context\":null}"), Some(SYSTEM_PROMPT.to_string()));
    assert_eq!(
        prompt("{\"messages\":[1],\"context\":{\"matches\":[]}}"),
        Some(format!("{}{}{}", SYSTEM_PROMPT, BOARD_HEADING, "{\n  \"matches\": []\n}"))
    );
    assert_eq!(
        prompt("{\"messages\":[1],\"context\":\"null\"}"),
        Some(format!("{}{}{}", SYSTEM_PROMPT, BOARD_HEADING, "\"null\""))
    );
}

#[test]
fn tool_descriptions_match_the_model_facing_text() {
    let defs = goal_digger::chat::tool_definitions();
    assert!(defs[1].description.starts_with("Run 50,000 Monte Carlo simulations for a specific match."));
    let edge: serde_json::Value = serde_json::from_str(defs[2].input_schema).unwrap();
    assert_eq!(edge["required"], serde_json::Value::from(vec!["slug", "outcome", "model_prob"]));
    let t: serde_json::Value = serde_json::from_str(defs[3].input_schema).unwrap();
    assert_eq!(t["required"], serde_json::Value::from(vec!["teams"]));
    for d in &defs {
        let v: serde_json::Value = serde_json::from_str(d.input_schema).unwrap();
        for k in v["required"].as_array().unwrap() {
            assert!(v["properties"].get(k.as_str().unwrap()).is_some());
        }
    }
}

#[test]
fn tournament_tool_roundtrip_empty_list() {
    let q = Query::parse(&tournament_tool_query(&vec![]));
    assert_eq!(tournament_teams(&q), Ok(vec![]));
}

#[test]
fn model_request_carries_model_prompt_and_limit() {
    let r = model_request("m-1", "sys", vec![1u32, 2]);
    assert_eq!(r.model, "m-1");
    assert_eq!(r.system, "sys");
    assert_eq!(r.max_tokens, 1024);
    assert_eq!(MAX_TOKENS, 1024);
    assert_eq!(r.messages, vec![1, 2]);
}

#[test]
fn tool_rounds_append_assistant_then_results() {
    let mut r = model_request("m-1", "sys", vec!["user"]);
    r.add_tool_round("assistant 1", "results 1");
    r.add_tool_round("assistant 2", "results 2");
    assert_eq!(r.messages, vec!["user", "assistant 1", "results 1", "assistant 2", "results 2"]);
    assert_eq!(r.model, "m-1");
    assert_eq!(r.system, "sys");
    assert_eq!(r.max_tokens, 1024);
}

#[test]
fn only_a_prompt_with_a_board_names_the_snapshot() {
    assert!(!system_prompt(None).contains("Live board snapshot"));
    let with_board = system_prompt(Some("{}"));
    assert!(with_board.starts_with(SYSTEM_PROMPT));
    assert!(with_board.contains("Live board snapshot"));
    assert_eq!(with_board.len(), SYSTEM_PROMPT.len() + BOARD_HEADING.len() + 2);
}
