//! The chat agent's decisions: its system prompt, which engine tool a
//! tool call names, whether a chat request may go ahead, and what to do
//! with each reply of the model.
use vstd::prelude::*;
use crate::text::{same_text, join_with, split_bytes, split_text, trimmed, trim_start_ws, lemma_find_byte_at, lacks_char, encode_each, lemma_split_join, lemma_join_lacks};
use crate::query::{query_text, pair_text, pair_texts, parsed_pairs, query_decodable, query_text_parses_back, plain_query_key, plain_query_value, lookup};
use crate::market::{slug_table, string_views, tournament_params, edge_params, kept_names, team_list, no_name_is_lost};
use vstd::utf8::{encode_utf8, decode_utf8, valid_utf8};

verus! {

broadcast use {vstd::utf8::encode_utf8_decode_utf8, vstd::utf8::encode_utf8_valid_utf8};

/// The system prompt of the chat agent, before any board snapshot.
pub const SYSTEM_PROMPT: &'static str = "You are GoalDigger, an AI trading analyst for the 2026 FIFA World Cup on Polymarket. Your job: find where the crowd has a price wrong, explain why in plain language, and help the user decide on a stake.\n\
     \n\
     Rules:\n\
     1. Simulate, never guess. For any match question call simulate_match first.\n\
     2. Find the edge. Call get_edge with your model probability and the Polymarket slug. Only call something a value bet when edge clears 4 points.\n\
     3. Lead with the number, then the reasoning. Crowd price \u{2192} your number \u{2192} gap \u{2192} suggested stake.\n\
     4. When a bet is fair or overpriced, say so plainly. Never force a trade.\n\
     5. Probabilities are estimates. Never promise a win.\n\
     6. Be concise. One sentence per fact. No filler.\n\
     \n\
     Polymarket outright-winner slugs (outcome: \"Yes\" for all):\n\
     Spain       \u{2192} will-spain-win-the-2026-fifa-world-cup-963\n\
     Germany     \u{2192} will-germany-win-the-2026-fifa-world-cup-467\n\
     Argentina   \u{2192} will-argentina-win-the-2026-fifa-world-cup-245\n\
     Mexico      \u{2192} will-mexico-win-the-2026-fifa-world-cup-529\n\
     France      \u{2192} will-france-win-the-2026-fifa-world-cup-924\n\
     England     \u{2192} will-england-win-the-2026-fifa-world-cup-937\n\
     Brazil      \u{2192} will-brazil-win-the-2026-fifa-world-cup-183\n\
     Netherlands \u{2192} will-netherlands-win-the-2026-fifa-world-cup-739\n\
     Portugal    \u{2192} will-portugal-win-the-2026-fifa-world-cup-912\n\
     Uruguay     \u{2192} will-uruguay-win-the-2026-fifa-world-cup-932\n\
     Croatia     \u{2192} will-croatia-win-the-2026-fifa-world-cup\n\
     Morocco     \u{2192} will-morocco-win-the-2026-fifa-world-cup-464\n\
     USA         \u{2192} will-usa-win-the-2026-fifa-world-cup-467\n\
     Colombia    \u{2192} will-colombia-win-the-2026-fifa-world-cup-734\n\
     Japan       \u{2192} will-japan-win-the-2026-fifa-world-cup-112\n\
     Senegal     \u{2192} will-senegal-win-the-2026-fifa-world-cup";

/// The heading put before a board snapshot in the system prompt.
pub const BOARD_HEADING: &'static str = "\n\nLive board snapshot (from engine, loaded at session start):\n";

/// The system prompt for a chat: the fixed prompt, then the board snapshot
/// (pretty-printed JSON) when the request carried one.
pub open spec fn prompt_text(board: Option<Seq<char>>) -> Seq<char> {
    match board {
        Some(b) => SYSTEM_PROMPT@ + BOARD_HEADING@ + b,
        None => SYSTEM_PROMPT@,
    }
}

/// Builds the system prompt, with the board snapshot when there is one.
pub fn system_prompt(board: Option<&str>) -> (r: String)
    ensures
        r@ == prompt_text(match board {
            Some(b) => Some(b@),
            None => None,
        }),
{
    let mut prompt = SYSTEM_PROMPT.to_owned();
    match board {
        Some(b) => {
            prompt.append(BOARD_HEADING);
            prompt.append(b);
        },
        None => {},
    }
    prompt
}

/// The engine work that a tool call asks for.
#[derive(Clone, Copy, Debug, PartialEq, Eq, Structural)]
pub enum ToolKind {
    /// `get_board`: the priced board.
    Board,
    /// `find_best_edges`: ranked outright edges.
    BestEdges,
    /// `simulate_match` and `explain_model`: one simulated match.
    Simulate,
    /// `get_edge`: one market's edge.
    Edge,
    /// `get_tournament_odds`: title probabilities.
    TournamentOdds,
    /// Any other name.
    Unknown,
}

/// The engine work named by a tool.
pub open spec fn tool_kind_of(name: Seq<char>) -> ToolKind {
    if name == "get_board"@ {
        ToolKind::Board
    } else if name == "find_best_edges"@ {
        ToolKind::BestEdges
    } else if name == "simulate_match"@ || name == "explain_model"@ {
        ToolKind::Simulate
    } else if name == "get_edge"@ {
        ToolKind::Edge
    } else if name == "get_tournament_odds"@ {
        ToolKind::TournamentOdds
    } else {
        ToolKind::Unknown
    }
}

/// Which engine work a tool call asks for.
pub fn tool_kind(name: &str) -> (r: ToolKind)
    ensures
        r == tool_kind_of(name@),
{
    if same_text(name, "get_board") {
        ToolKind::Board
    } else if same_text(name, "find_best_edges") {
        ToolKind::BestEdges
    } else if same_text(name, "simulate_match") || same_text(name, "explain_model") {
        ToolKind::Simulate
    } else if same_text(name, "get_edge") {
        ToolKind::Edge
    } else if same_text(name, "get_tournament_odds") {
        ToolKind::TournamentOdds
    } else {
        ToolKind::Unknown
    }
}


/// One tool offered to the model: its name, what it does, and the JSON
/// schema of its input (as JSON text).
pub struct ToolDefinition {
    pub name: &'static str,
    pub description: &'static str,
    pub input_schema: &'static str,
}

/// The names of the tools offered to the model, in the order offered.
pub open spec fn tool_names() -> Seq<Seq<char>> {
    seq!["get_board"@, "simulate_match"@, "get_edge"@, "get_tournament_odds"@, "find_best_edges"@, "explain_model"@]
}

/// What each offered tool does, in the same order.
pub open spec fn tool_descriptions() -> Seq<Seq<char>> {
    seq![
        "Get all 8 World Cup fixtures priced by the live Dixon-Coles + Monte Carlo engine. Returns win/draw/loss probabilities, advance probability, over/under 2.5, BTTS, and top scorelines for each match."@,
        "Run 50,000 Monte Carlo simulations for a specific match. Returns the full probability distribution: win/draw/loss, knockout advance probability, over/under 2.5, BTTS, expected goals, and top scorelines. Pass *_adj multipliers (clamped 0.6\u{2013}1.4) to encode injuries, suspensions, or fitness news."@,
        "Compare a model probability to the live Polymarket (Gamma) price for one market outcome. Returns the edge in probability points, a verdict (VALUE_BUY / FAIR / OVERPRICED), and a quarter-Kelly stake suggestion."@,
        "Get 2026 World Cup tournament-winner probabilities for a list of teams, simulated through all remaining bracket fixtures."@,
        "Compute ranked edges across ALL outright 2026 World Cup winner markets. Runs a full tournament simulation, fetches live Polymarket prices for every team, and returns a sorted list of value buys and overpriced markets. Use this as your first call when the user asks about value, edges, or where to bet. No need to call get_edge separately \u{2014} edges are pre-computed and ranked."@,
        "Simulate a match and explain in plain language what drove the expected-goals split \u{2014} which adjustments were applied and why the probabilities landed where they did."@,
    ]
}

/// The JSON schema (as compact JSON text) of each offered tool's input,
/// in the same order.
pub open spec fn tool_schemas() -> Seq<Seq<char>> {
    seq![
        "{\"type\":\"object\",\"properties\":{},\"required\":[]}"@,
        "{\"type\":\"object\",\"properties\":{\"home\":{\"type\":\"string\",\"description\":\"Home team name\"},\"away\":{\"type\":\"string\",\"description\":\"Away team name\"},\"neutral\":{\"type\":\"boolean\",\"description\":\"Neutral venue? (default true)\"},\"knockout\":{\"type\":\"boolean\",\"description\":\"Knockout stage \u{2014} no draw allowed\"},\"host_elo_bonus\":{\"type\":\"number\",\"description\":\"Extra Elo for a host-nation crowd (e.g. 40 for USA)\"},\"home_attack_adj\":{\"type\":\"number\",\"description\":\"Home attack multiplier, 0.6\u{2013}1.4\"},\"home_defense_adj\":{\"type\":\"number\",\"description\":\"Home defense multiplier, 0.6\u{2013}1.4\"},\"away_attack_adj\":{\"type\":\"number\",\"description\":\"Away attack multiplier, 0.6\u{2013}1.4\"},\"away_defense_adj\":{\"type\":\"number\",\"description\":\"Away defense multiplier, 0.6\u{2013}1.4\"}},\"required\":[\"home\",\"away\"]}"@,
        "{\"type\":\"object\",\"properties\":{\"slug\":{\"type\":\"string\",\"description\":\"Polymarket market slug, e.g. 'will-spain-win-the-2026-fifa-world-cup-963'\"},\"outcome\":{\"type\":\"string\",\"description\":\"Outcome to check: 'Yes' for binary markets, or a team name\"},\"model_prob\":{\"type\":\"number\",\"description\":\"Model probability (0\u{2013}1) from simulate_match or simulate_tournament\"}},\"required\":[\"slug\",\"outcome\",\"model_prob\"]}"@,
        "{\"type\":\"object\",\"properties\":{\"teams\":{\"type\":\"array\",\"items\":{\"type\":\"string\"},\"description\":\"Team names to include in the bracket simulation\"}},\"required\":[\"teams\"]}"@,
        "{\"type\":\"object\",\"properties\":{},\"required\":[]}"@,
        "{\"type\":\"object\",\"properties\":{\"home\":{\"type\":\"string\"},\"away\":{\"type\":\"string\"}},\"required\":[\"home\",\"away\"]}"@,
    ]
}

/// The engine work of each offered tool, in the same order.
pub open spec fn tool_kinds() -> Seq<ToolKind> {
    seq![ToolKind::Board, ToolKind::Simulate, ToolKind::Edge, ToolKind::TournamentOdds, ToolKind::BestEdges, ToolKind::Simulate]
}

/// The tools offered to the model.
pub fn tool_definitions() -> (r: Vec<ToolDefinition>)
    ensures
        r@.len() == tool_names().len(),
        forall|i: int| 0 <= i < r@.len() ==> (#[trigger] r@[i]).name@ == tool_names()[i]
            && r@[i].description@ == tool_descriptions()[i] && r@[i].input_schema@ == tool_schemas()[i],
{
    vec![
        ToolDefinition {
            name: "get_board",
            description: "Get all 8 World Cup fixtures priced by the live Dixon-Coles + Monte Carlo engine. Returns win/draw/loss probabilities, advance probability, over/under 2.5, BTTS, and top scorelines for each match.",
            input_schema: "{\"type\":\"object\",\"properties\":{},\"required\":[]}",
        },
        ToolDefinition {
            name: "simulate_match",
            description: "Run 50,000 Monte Carlo simulations for a specific match. Returns the full probability distribution: win/draw/loss, knockout advance probability, over/under 2.5, BTTS, expected goals, and top scorelines. Pass *_adj multipliers (clamped 0.6\u{2013}1.4) to encode injuries, suspensions, or fitness news.",
            input_schema: "{\"type\":\"object\",\"properties\":{\"home\":{\"type\":\"string\",\"description\":\"Home team name\"},\"away\":{\"type\":\"string\",\"description\":\"Away team name\"},\"neutral\":{\"type\":\"boolean\",\"description\":\"Neutral venue? (default true)\"},\"knockout\":{\"type\":\"boolean\",\"description\":\"Knockout stage \u{2014} no draw allowed\"},\"host_elo_bonus\":{\"type\":\"number\",\"description\":\"Extra Elo for a host-nation crowd (e.g. 40 for USA)\"},\"home_attack_adj\":{\"type\":\"number\",\"description\":\"Home attack multiplier, 0.6\u{2013}1.4\"},\"home_defense_adj\":{\"type\":\"number\",\"description\":\"Home defense multiplier, 0.6\u{2013}1.4\"},\"away_attack_adj\":{\"type\":\"number\",\"description\":\"Away attack multiplier, 0.6\u{2013}1.4\"},\"away_defense_adj\":{\"type\":\"number\",\"description\":\"Away defense multiplier, 0.6\u{2013}1.4\"}},\"required\":[\"home\",\"away\"]}",
        },
        ToolDefinition {
            name: "get_edge",
            description: "Compare a model probability to the live Polymarket (Gamma) price for one market outcome. Returns the edge in probability points, a verdict (VALUE_BUY / FAIR / OVERPRICED), and a quarter-Kelly stake suggestion.",
            input_schema: "{\"type\":\"object\",\"properties\":{\"slug\":{\"type\":\"string\",\"description\":\"Polymarket market slug, e.g. 'will-spain-win-the-2026-fifa-world-cup-963'\"},\"outcome\":{\"type\":\"string\",\"description\":\"Outcome to check: 'Yes' for binary markets, or a team name\"},\"model_prob\":{\"type\":\"number\",\"description\":\"Model probability (0\u{2013}1) from simulate_match or simulate_tournament\"}},\"required\":[\"slug\",\"outcome\",\"model_prob\"]}",
        },
        ToolDefinition {
            name: "get_tournament_odds",
            description: "Get 2026 World Cup tournament-winner probabilities for a list of teams, simulated through all remaining bracket fixtures.",
            input_schema: "{\"type\":\"object\",\"properties\":{\"teams\":{\"type\":\"array\",\"items\":{\"type\":\"string\"},\"description\":\"Team names to include in the bracket simulation\"}},\"required\":[\"teams\"]}",
        },
        ToolDefinition {
            name: "find_best_edges",
            description: "Compute ranked edges across ALL outright 2026 World Cup winner markets. Runs a full tournament simulation, fetches live Polymarket prices for every team, and returns a sorted list of value buys and overpriced markets. Use this as your first call when the user asks about value, edges, or where to bet. No need to call get_edge separately \u{2014} edges are pre-computed and ranked.",
            input_schema: "{\"type\":\"object\",\"properties\":{},\"required\":[]}",
        },
        ToolDefinition {
            name: "explain_model",
            description: "Simulate a match and explain in plain language what drove the expected-goals split \u{2014} which adjustments were applied and why the probabilities landed where they did.",
            input_schema: "{\"type\":\"object\",\"properties\":{\"home\":{\"type\":\"string\"},\"away\":{\"type\":\"string\"}},\"required\":[\"home\",\"away\"]}",
        },
    ]
}

/// Every tool offered to the model is one that the executor runs: its
/// name is dispatched to engine work, never to the unknown-tool error.
pub proof fn offered_tools_are_dispatched()
    ensures
        tool_names().len() == tool_kinds().len(),
        forall|i: int| 0 <= i < tool_names().len() ==> tool_kind_of(#[trigger] tool_names()[i]) == tool_kinds()[i]
            && tool_kinds()[i] != ToolKind::Unknown,
{
    reveal_strlit("get_board");
    reveal_strlit("find_best_edges");
    reveal_strlit("simulate_match");
    reveal_strlit("explain_model");
    reveal_strlit("get_edge");
    reveal_strlit("get_tournament_odds");
    assert(tool_kind_of("get_board"@) == ToolKind::Board);
    assert("simulate_match"@.len() == 14 && "get_board"@.len() == 9 && "find_best_edges"@.len() == 15);
    assert(tool_kind_of("simulate_match"@) == ToolKind::Simulate);
    assert("get_edge"@[4] == 'e' && "get_board"@[4] == 'b');
    assert("get_edge"@.len() == 8 && "simulate_match"@.len() == 14 && "explain_model"@.len() == 13);
    assert(tool_kind_of("get_edge"@) == ToolKind::Edge);
    assert(tool_kind_of("get_tournament_odds"@) == ToolKind::TournamentOdds);
    assert(tool_kind_of("find_best_edges"@) == ToolKind::BestEdges);
    assert(tool_kind_of("explain_model"@) == ToolKind::Simulate);
}

/// Whether a chat request may go ahead, checked in this order: the body
/// must be JSON, the API key must be set, `messages` must be an array,
/// and it must not be empty.
pub open spec fn chat_request_check(
    json_error: Option<Seq<char>>,
    api_key_set: bool,
    message_count: Option<nat>,
) -> Result<(), Seq<char>> {
    match json_error {
        Some(e) => Err("bad json: "@ + e),
        None => if !api_key_set {
            Err("ANTHROPIC_API_KEY not set"@)
        } else {
            match message_count {
                None => Err("messages must be an array"@),
                Some(n) => if n == 0 {
                    Err("messages array is empty"@)
                } else {
                    Ok(())
                },
            }
        },
    }
}

/// Checks a chat request before any call to the model: `json_error` is the
/// parser's message when the body is not JSON, `api_key_set` whether the
/// key is configured, `message_count` the length of `messages` when it is
/// an array.
pub fn check_chat_request(json_error: Option<&str>, api_key_set: bool, message_count: Option<usize>) -> (r: Result<(), String>)
    ensures
        match chat_request_check(
            match json_error {
                Some(e) => Some(e@),
                None => None,
            },
            api_key_set,
            match message_count {
                Some(n) => Some(n as nat),
                None => None,
            },
        ) {
            Ok(()) => r is Ok,
            Err(e) => r is Err && r->Err_0@ == e,
        },
{
    match json_error {
        Some(e) => {
            let mut msg = "bad json: ".to_owned();
            msg.append(e);
            return Err(msg);
        },
        None => {},
    }
    if !api_key_set {
        return Err("ANTHROPIC_API_KEY not set".to_owned());
    }
    match message_count {
        None => Err("messages must be an array".to_owned()),
        Some(n) => if n == 0 {
            Err("messages array is empty".to_owned())
        } else {
            Ok(())
        },
    }
}

/// Every offered tool has a description, and the tables of names,
/// descriptions and schemas are of one length.
pub proof fn offered_tools_are_described()
    ensures
        tool_descriptions().len() == tool_names().len(),
        tool_schemas().len() == tool_names().len(),
        forall|i: int| 0 <= i < tool_descriptions().len() ==> (#[trigger] tool_descriptions()[i]).len() > 0,
{
    reveal_strlit("Get all 8 World Cup fixtures priced by the live Dixon-Coles + Monte Carlo engine. Returns win/draw/loss probabilities, advance probability, over/under 2.5, BTTS, and top scorelines for each match.");
    reveal_strlit("Run 50,000 Monte Carlo simulations for a specific match. Returns the full probability distribution: win/draw/loss, knockout advance probability, over/under 2.5, BTTS, expected goals, and top scorelines. Pass *_adj multipliers (clamped 0.6\u{2013}1.4) to encode injuries, suspensions, or fitness news.");
    reveal_strlit("Compare a model probability to the live Polymarket (Gamma) price for one market outcome. Returns the edge in probability points, a verdict (VALUE_BUY / FAIR / OVERPRICED), and a quarter-Kelly stake suggestion.");
    reveal_strlit("Get 2026 World Cup tournament-winner probabilities for a list of teams, simulated through all remaining bracket fixtures.");
    reveal_strlit("Compute ranked edges across ALL outright 2026 World Cup winner markets. Runs a full tournament simulation, fetches live Polymarket prices for every team, and returns a sorted list of value buys and overpriced markets. Use this as your first call when the user asks about value, edges, or where to bet. No need to call get_edge separately \u{2014} edges are pre-computed and ranked.");
    reveal_strlit("Simulate a match and explain in plain language what drove the expected-goals split \u{2014} which adjustments were applied and why the probabilities landed where they did.");
    assert("Get all 8 World Cup fixtures priced by the live Dixon-Coles + Monte Carlo engine. Returns win/draw/loss probabilities, advance probability, over/under 2.5, BTTS, and top scorelines for each match."@.len() > 0);
    assert("Run 50,000 Monte Carlo simulations for a specific match. Returns the full probability distribution: win/draw/loss, knockout advance probability, over/under 2.5, BTTS, expected goals, and top scorelines. Pass *_adj multipliers (clamped 0.6\u{2013}1.4) to encode injuries, suspensions, or fitness news."@.len() > 0);
    assert("Compare a model probability to the live Polymarket (Gamma) price for one market outcome. Returns the edge in probability points, a verdict (VALUE_BUY / FAIR / OVERPRICED), and a quarter-Kelly stake suggestion."@.len() > 0);
    assert("Get 2026 World Cup tournament-winner probabilities for a list of teams, simulated through all remaining bracket fixtures."@.len() > 0);
    assert("Compute ranked edges across ALL outright 2026 World Cup winner markets. Runs a full tournament simulation, fetches live Polymarket prices for every team, and returns a sorted list of value buys and overpriced markets. Use this as your first call when the user asks about value, edges, or where to bet. No need to call get_edge separately \u{2014} edges are pre-computed and ranked."@.len() > 0);
    assert("Simulate a match and explain in plain language what drove the expected-goals split \u{2014} which adjustments were applied and why the probabilities landed where they did."@.len() > 0);
}

/// The error message that parsing a chat request body as JSON gives, or
/// `None` when the body is JSON.
pub uninterp spec fn body_json_error(body: Seq<char>) -> Option<Seq<char>>;

/// The length of a JSON chat request body's `messages` field, when it is
/// an array.
pub uninterp spec fn body_message_count(body: Seq<char>) -> Option<nat>;

/// The pretty-printed JSON of a chat request body's `context` field, when
/// the field is present (a `null` prints as `null`).
pub uninterp spec fn body_context_text(body: Seq<char>) -> Option<Seq<char>>;

/// What the chat handler reads of a request body: the JSON parser's error
/// message (when the body is not JSON), the number of `messages` (when it
/// is an array) and the pretty-printed `context` (when present).
pub struct ChatBody {
    pub json_error: Option<String>,
    pub message_count: Option<usize>,
    pub context: Option<String>,
}

/// The text of an optional string.
pub open spec fn opt_text(o: Option<String>) -> Option<Seq<char>> {
    match o {
        Some(s) => Some(s@),
        None => None,
    }
}

/// Calls `serde_json::from_str` on a chat request body, then reads the
/// length of its `messages` array and pretty-prints
/// (`serde_json::to_string_pretty`) its `context`. Trusted: only that the
/// three results are the names `body_json_error`, `body_message_count`
/// and `body_context_text` of the body; how serde_json parses and prints
/// is left to them.
#[verifier::external_body]
fn read_chat_body(body: &str) -> (r: ChatBody)
    ensures
        opt_text(r.json_error) == body_json_error(body@),
        (match r.message_count {
            Some(n) => Some(n as nat),
            None => None,
        }) == body_message_count(body@),
        opt_text(r.context) == body_context_text(body@),
{
    let v: serde_json::Value = match serde_json::from_str(body) {
        Ok(v) => v,
        Err(e) => return ChatBody { json_error: Some(e.to_string()), message_count: None, context: None },
    };
    let message_count = match v.get("messages") {
        Some(serde_json::Value::Array(a)) => Some(a.len()),
        _ => None,
    };
    let context = match v.get("context") {
        Some(c) => Some(serde_json::to_string_pretty(c).unwrap_or_default()),
        None => None,
    };
    ChatBody { json_error: None, message_count, context }
}

/// The board snapshot that a request's context gives the prompt: none
/// when the context is absent or `null`.
pub open spec fn board_text(context: Option<Seq<char>>) -> Option<Seq<char>> {
    match context {
        Some(t) => if t == "null"@ {
            None
        } else {
            Some(t)
        },
        None => None,
    }
}

/// The HTTP status of a refused chat request: 400 for a body that is not
/// JSON, 200 (an error object in the reply) otherwise.
pub open spec fn refusal_status(json_error: Option<Seq<char>>) -> u16 {
    if json_error is Some {
        400
    } else {
        200
    }
}

/// A chat request refused before any call to the model: the HTTP status
/// to answer with and the error message.
pub struct ChatRefusal {
    pub status: u16,
    pub message: String,
}

/// Checks a chat request body before any call to the model and builds
/// the system prompt for it: the body must be JSON, the API key set,
/// `messages` a non-empty array; the prompt carries the body's board
/// snapshot when its `context` is present and not `null`.
pub fn chat_request(body: &str, api_key_set: bool) -> (r: Result<String, ChatRefusal>)
    ensures
        match chat_request_check(body_json_error(body@), api_key_set, body_message_count(body@)) {
            Ok(()) => r is Ok && r->Ok_0@ == prompt_text(board_text(body_context_text(body@))),
            Err(e) => r is Err && r->Err_0.message@ == e && r->Err_0.status == refusal_status(body_json_error(body@)),
        },
{
    let b = read_chat_body(body);
    let json_error: Option<&str> = match &b.json_error {
        Some(e) => Some(e.as_str()),
        None => None,
    };
    match check_chat_request(json_error, api_key_set, b.message_count) {
        Ok(()) => {},
        Err(e) => {
            let status: u16 = if b.json_error.is_some() { 400 } else { 200 };
            return Err(ChatRefusal { status, message: e });
        },
    }
    let board: Option<&str> = match &b.context {
        Some(c) => if same_text(c.as_str(), "null") {
            None
        } else {
            Some(c.as_str())
        },
        None => None,
    };
    Ok(system_prompt(board))
}

/// The prompt line that gives a team's market: at `k`, after a line
/// break, the team's name padded with spaces to twelve characters, an
/// arrow and a space, then the slug up to the end of the line.
pub open spec fn prompt_slug_line(prompt: Seq<char>, team: Seq<char>, slug: Seq<char>, k: int) -> bool {
    &&& 0 < k && k + 14 + slug.len() <= prompt.len() && team.len() <= 12
    &&& prompt[k - 1] == '\n'
    &&& prompt.subrange(k, k + team.len()) == team
    &&& forall|m: int| k + team.len() <= m < k + 12 ==> #[trigger] prompt[m] == ' '
    &&& prompt.subrange(k + 12, k + 14) == "\u{2192} "@
    &&& prompt.subrange(k + 14, k + 14 + slug.len()) == slug
    &&& (k + 14 + slug.len() == prompt.len() || prompt[k + 14 + slug.len()] == '\n')
}

/// The system prompt tells the model the same markets that the outright
/// lookups use: for each team of `slug_table`, the prompt has a line
/// naming that team and exactly its slug.
#[verifier::rlimit(100)]
pub proof fn prompt_lists_each_outright_slug()
    ensures
        forall|i: int| 0 <= i < slug_table().len() ==> exists|k: int|
            prompt_slug_line(SYSTEM_PROMPT@, #[trigger] slug_table()[i].0, slug_table()[i].1, k),
{
    reveal_strlit("You are GoalDigger, an AI trading analyst for the 2026 FIFA World Cup on Polymarket. Your job: find where the crowd has a price wrong, explain why in plain language, and help the user decide on a stake.\n\
     \n\
     Rules:\n\
     1. Simulate, never guess. For any match question call simulate_match first.\n\
     2. Find the edge. Call get_edge with your model probability and the Polymarket slug. Only call something a value bet when edge clears 4 points.\n\
     3. Lead with the number, then the reasoning. Crowd price \u{2192} your number \u{2192} gap \u{2192} suggested stake.\n\
     4. When a bet is fair or overpriced, say so plainly. Never force a trade.\n\
     5. Probabilities are estimates. Never promise a win.\n\
     6. Be concise. One sentence per fact. No filler.\n\
     \n\
     Polymarket outright-winner slugs (outcome: \"Yes\" for all):\n\
     Spain       \u{2192} will-spain-win-the-2026-fifa-world-cup-963\n\
     Germany     \u{2192} will-germany-win-the-2026-fifa-world-cup-467\n\
     Argentina   \u{2192} will-argentina-win-the-2026-fifa-world-cup-245\n\
     Mexico      \u{2192} will-mexico-win-the-2026-fifa-world-cup-529\n\
     France      \u{2192} will-france-win-the-2026-fifa-world-cup-924\n\
     England     \u{2192} will-england-win-the-2026-fifa-world-cup-937\n\
     Brazil      \u{2192} will-brazil-win-the-2026-fifa-world-cup-183\n\
     Netherlands \u{2192} will-netherlands-win-the-2026-fifa-world-cup-739\n\
     Portugal    \u{2192} will-portugal-win-the-2026-fifa-world-cup-912\n\
     Uruguay     \u{2192} will-uruguay-win-the-2026-fifa-world-cup-932\n\
     Croatia     \u{2192} will-croatia-win-the-2026-fifa-world-cup\n\
     Morocco     \u{2192} will-morocco-win-the-2026-fifa-world-cup-464\n\
     USA         \u{2192} will-usa-win-the-2026-fifa-world-cup-467\n\
     Colombia    \u{2192} will-colombia-win-the-2026-fifa-world-cup-734\n\
     Japan       \u{2192} will-japan-win-the-2026-fifa-world-cup-112\n\
     Senegal     \u{2192} will-senegal-win-the-2026-fifa-world-cup");
    reveal_strlit("\u{2192} ");
    reveal_strlit("Spain");
    reveal_strlit("will-spain-win-the-2026-fifa-world-cup-963");
    reveal_strlit("Germany");
    reveal_strlit("will-germany-win-the-2026-fifa-world-cup-467");
    reveal_strlit("Argentina");
    reveal_strlit("will-argentina-win-the-2026-fifa-world-cup-245");
    reveal_strlit("Mexico");
    reveal_strlit("will-mexico-win-the-2026-fifa-world-cup-529");
    reveal_strlit("France");
    reveal_strlit("will-france-win-the-2026-fifa-world-cup-924");
    reveal_strlit("England");
    reveal_strlit("will-england-win-the-2026-fifa-world-cup-937");
    reveal_strlit("Brazil");
    reveal_strlit("will-brazil-win-the-2026-fifa-world-cup-183");
    reveal_strlit("Netherlands");
    reveal_strlit("will-netherlands-win-the-2026-fifa-world-cup-739");
    reveal_strlit("Portugal");
    reveal_strlit("will-portugal-win-the-2026-fifa-world-cup-912");
    reveal_strlit("Uruguay");
    reveal_strlit("will-uruguay-win-the-2026-fifa-world-cup-932");
    reveal_strlit("Croatia");
    reveal_strlit("will-croatia-win-the-2026-fifa-world-cup");
    reveal_strlit("Morocco");
    reveal_strlit("will-morocco-win-the-2026-fifa-world-cup-464");
    reveal_strlit("USA");
    reveal_strlit("will-usa-win-the-2026-fifa-world-cup-467");
    reveal_strlit("Colombia");
    reveal_strlit("will-colombia-win-the-2026-fifa-world-cup-734");
    reveal_strlit("Japan");
    reveal_strlit("will-japan-win-the-2026-fifa-world-cup-112");
    reveal_strlit("Senegal");
    reveal_strlit("will-senegal-win-the-2026-fifa-world-cup");
    let p = SYSTEM_PROMPT@;
    let table = slug_table();
    assert(p.subrange(763, 768) =~= "Spain"@);
    assert(p.subrange(775, 777) =~= "\u{2192} "@);
    assert(p.subrange(777, 819) =~= "will-spain-win-the-2026-fifa-world-cup-963"@);
    assert(prompt_slug_line(p, table[0].0, table[0].1, 763));
    assert(p.subrange(820, 827) =~= "Germany"@);
    assert(p.subrange(832, 834) =~= "\u{2192} "@);
    assert(p.subrange(834, 878) =~= "will-germany-win-the-2026-fifa-world-cup-467"@);
    assert(prompt_slug_line(p, table[1].0, table[1].1, 820));
    assert(p.subrange(879, 888) =~= "Argentina"@);
    assert(p.subrange(891, 893) =~= "\u{2192} "@);
    assert(p.subrange(893, 939) =~= "will-argentina-win-the-2026-fifa-world-cup-245"@);
    assert(prompt_slug_line(p, table[2].0, table[2].1, 879));
    assert(p.subrange(940, 946) =~= "Mexico"@);
    assert(p.subrange(952, 954) =~= "\u{2192} "@);
    assert(p.subrange(954, 997) =~= "will-mexico-win-the-2026-fifa-world-cup-529"@);
    assert(prompt_slug_line(p, table[3].0, table[3].1, 940));
    assert(p.subrange(998, 1004) =~= "France"@);
    assert(p.subrange(1010, 1012) =~= "\u{2192} "@);
    assert(p.subrange(1012, 1055) =~= "will-france-win-the-2026-fifa-world-cup-924"@);
    assert(prompt_slug_line(p, table[4].0, table[4].1, 998));
    assert(p.subrange(1056, 1063) =~= "England"@);
    assert(p.subrange(1068, 1070) =~= "\u{2192} "@);
    assert(p.subrange(1070, 1114) =~= "will-england-win-the-2026-fifa-world-cup-937"@);
    assert(prompt_slug_line(p, table[5].0, table[5].1, 1056));
    assert(p.subrange(1115, 1121) =~= "Brazil"@);
    assert(p.subrange(1127, 1129) =~= "\u{2192} "@);
    assert(p.subrange(1129, 1172) =~= "will-brazil-win-the-2026-fifa-world-cup-183"@);
    assert(prompt_slug_line(p, table[6].0, table[6].1, 1115));
    assert(p.subrange(1173, 1184) =~= "Netherlands"@);
    assert(p.subrange(1185, 1187) =~= "\u{2192} "@);
    assert(p.subrange(1187, 1235) =~= "will-netherlands-win-the-2026-fifa-world-cup-739"@);
    assert(prompt_slug_line(p, table[7].0, table[7].1, 1173));
    assert(p.subrange(1236, 1244) =~= "Portugal"@);
    assert(p.subrange(1248, 1250) =~= "\u{2192} "@);
    assert(p.subrange(1250, 1295) =~= "will-portugal-win-the-2026-fifa-world-cup-912"@);
    assert(prompt_slug_line(p, table[8].0, table[8].1, 1236));
    assert(p.subrange(1296, 1303) =~= "Uruguay"@);
    assert(p.subrange(1308, 1310) =~= "\u{2192} "@);
    assert(p.subrange(1310, 1354) =~= "will-uruguay-win-the-2026-fifa-world-cup-932"@);
    assert(prompt_slug_line(p, table[9].0, table[9].1, 1296));
    assert(p.subrange(1355, 1362) =~= "Croatia"@);
    assert(p.subrange(1367, 1369) =~= "\u{2192} "@);
    assert(p.subrange(1369, 1409) =~= "will-croatia-win-the-2026-fifa-world-cup"@);
    assert(prompt_slug_line(p, table[10].0, table[10].1, 1355));
    assert(p.subrange(1410, 1417) =~= "Morocco"@);
    assert(p.subrange(1422, 1424) =~= "\u{2192} "@);
    assert(p.subrange(1424, 1468) =~= "will-morocco-win-the-2026-fifa-world-cup-464"@);
    assert(prompt_slug_line(p, table[11].0, table[11].1, 1410));
    assert(p.subrange(1469, 1472) =~= "USA"@);
    assert(p.subrange(1481, 1483) =~= "\u{2192} "@);
    assert(p.subrange(1483, 1523) =~= "will-usa-win-the-2026-fifa-world-cup-467"@);
    assert(prompt_slug_line(p, table[12].0, table[12].1, 1469));
    assert(p.subrange(1524, 1532) =~= "Colombia"@);
    assert(p.subrange(1536, 1538) =~= "\u{2192} "@);
    assert(p.subrange(1538, 1583) =~= "will-colombia-win-the-2026-fifa-world-cup-734"@);
    assert(prompt_slug_line(p, table[13].0, table[13].1, 1524));
    assert(p.subrange(1584, 1589) =~= "Japan"@);
    assert(p.subrange(1596, 1598) =~= "\u{2192} "@);
    assert(p.subrange(1598, 1640) =~= "will-japan-win-the-2026-fifa-world-cup-112"@);
    assert(prompt_slug_line(p, table[14].0, table[14].1, 1584));
    assert(p.subrange(1641, 1648) =~= "Senegal"@);
    assert(p.subrange(1653, 1655) =~= "\u{2192} "@);
    assert(p.subrange(1655, 1695) =~= "will-senegal-win-the-2026-fifa-world-cup"@);
    assert(prompt_slug_line(p, table[15].0, table[15].1, 1641));
    assert forall|i: int| 0 <= i < table.len() implies exists|k: int|
        prompt_slug_line(p, #[trigger] table[i].0, table[i].1, k) by {
        if i == 0 { assert(prompt_slug_line(p, table[i].0, table[i].1, 763)); }
        if i == 1 { assert(prompt_slug_line(p, table[i].0, table[i].1, 820)); }
        if i == 2 { assert(prompt_slug_line(p, table[i].0, table[i].1, 879)); }
        if i == 3 { assert(prompt_slug_line(p, table[i].0, table[i].1, 940)); }
        if i == 4 { assert(prompt_slug_line(p, table[i].0, table[i].1, 998)); }
        if i == 5 { assert(prompt_slug_line(p, table[i].0, table[i].1, 1056)); }
        if i == 6 { assert(prompt_slug_line(p, table[i].0, table[i].1, 1115)); }
        if i == 7 { assert(prompt_slug_line(p, table[i].0, table[i].1, 1173)); }
        if i == 8 { assert(prompt_slug_line(p, table[i].0, table[i].1, 1236)); }
        if i == 9 { assert(prompt_slug_line(p, table[i].0, table[i].1, 1296)); }
        if i == 10 { assert(prompt_slug_line(p, table[i].0, table[i].1, 1355)); }
        if i == 11 { assert(prompt_slug_line(p, table[i].0, table[i].1, 1410)); }
        if i == 12 { assert(prompt_slug_line(p, table[i].0, table[i].1, 1469)); }
        if i == 13 { assert(prompt_slug_line(p, table[i].0, table[i].1, 1524)); }
        if i == 14 { assert(prompt_slug_line(p, table[i].0, table[i].1, 1584)); }
        if i == 15 { assert(prompt_slug_line(p, table[i].0, table[i].1, 1641)); }
    }
}

/// The system prompt starts with the agent's introduction; a board
/// snapshot, when there is one, comes after the whole fixed prompt and
/// its heading, so the prompt with a board is strictly longer. The
/// heading names the "Live board snapshot", words that the fixed prompt
/// never holds, so a prompt shows by them whether it carries a board.
pub proof fn prompt_shape(board: Seq<char>)
    ensures
        prompt_text(None).len() >= 18 && prompt_text(None).take(18) == "You are GoalDigger"@,
        prompt_text(Some(board)).take(prompt_text(None).len() as int) == prompt_text(None),
        prompt_text(Some(board)).len() > prompt_text(None).len(),
        prompt_text(Some(board)).skip(prompt_text(None).len() as int) == BOARD_HEADING@ + board,
        BOARD_HEADING@.subrange(2, 21) == "Live board snapshot"@,
        forall|i: int| 0 <= i && i + 19 <= prompt_text(None).len()
            ==> #[trigger] prompt_text(None).subrange(i, i + 19) != "Live board snapshot"@,
{
    reveal_strlit("You are GoalDigger");
    reveal_strlit("\n\nLive board snapshot (from engine, loaded at session start):\n");
    reveal_strlit("You are GoalDigger, an AI trading analyst for the 2026 FIFA World Cup on Polymarket. Your job: find where the crowd has a price wrong, explain why in plain language, and help the user decide on a stake.\n\
     \n\
     Rules:\n\
     1. Simulate, never guess. For any match question call simulate_match first.\n\
     2. Find the edge. Call get_edge with your model probability and the Polymarket slug. Only call something a value bet when edge clears 4 points.\n\
     3. Lead with the number, then the reasoning. Crowd price \u{2192} your number \u{2192} gap \u{2192} suggested stake.\n\
     4. When a bet is fair or overpriced, say so plainly. Never force a trade.\n\
     5. Probabilities are estimates. Never promise a win.\n\
     6. Be concise. One sentence per fact. No filler.\n\
     \n\
     Polymarket outright-winner slugs (outcome: \"Yes\" for all):\n\
     Spain       \u{2192} will-spain-win-the-2026-fifa-world-cup-963\n\
     Germany     \u{2192} will-germany-win-the-2026-fifa-world-cup-467\n\
     Argentina   \u{2192} will-argentina-win-the-2026-fifa-world-cup-245\n\
     Mexico      \u{2192} will-mexico-win-the-2026-fifa-world-cup-529\n\
     France      \u{2192} will-france-win-the-2026-fifa-world-cup-924\n\
     England     \u{2192} will-england-win-the-2026-fifa-world-cup-937\n\
     Brazil      \u{2192} will-brazil-win-the-2026-fifa-world-cup-183\n\
     Netherlands \u{2192} will-netherlands-win-the-2026-fifa-world-cup-739\n\
     Portugal    \u{2192} will-portugal-win-the-2026-fifa-world-cup-912\n\
     Uruguay     \u{2192} will-uruguay-win-the-2026-fifa-world-cup-932\n\
     Croatia     \u{2192} will-croatia-win-the-2026-fifa-world-cup\n\
     Morocco     \u{2192} will-morocco-win-the-2026-fifa-world-cup-464\n\
     USA         \u{2192} will-usa-win-the-2026-fifa-world-cup-467\n\
     Colombia    \u{2192} will-colombia-win-the-2026-fifa-world-cup-734\n\
     Japan       \u{2192} will-japan-win-the-2026-fifa-world-cup-112\n\
     Senegal     \u{2192} will-senegal-win-the-2026-fifa-world-cup");
    let base = SYSTEM_PROMPT@;
    assert(base.take(18) =~= "You are GoalDigger"@);
    assert((base + BOARD_HEADING@ + board).take(base.len() as int) =~= base);
    assert((base + BOARD_HEADING@ + board).skip(base.len() as int) =~= BOARD_HEADING@ + board);
    reveal_strlit("Live board snapshot");
    let words = "Live board snapshot"@;
    assert(BOARD_HEADING@.subrange(2, 21) =~= words);
    // "Li" never occurs in the fixed prompt, so neither do the words.
    assert(forall|j: int| 0 <= j < base.len() - 1 && #[trigger] base[j] == 'L' ==> base[j + 1] != 'i');
    assert forall|i: int| 0 <= i && i + 19 <= base.len() implies #[trigger] base.subrange(i, i + 19) != words by {
        if base.subrange(i, i + 19) == words {
            assert(base.subrange(i, i + 19)[0] == base[i]);
            assert(base.subrange(i, i + 19)[1] == base[i + 1]);
        }
    }
}

/// One content block of a model reply, as far as the chat loop reads it:
/// its `type` and its `text`, each when it is a string.
pub struct ContentBlock {
    pub kind: Option<String>,
    pub text: Option<String>,
}

/// Whether a block's type is `kind`.
pub open spec fn block_is(b: ContentBlock, kind: Seq<char>) -> bool {
    b.kind matches Some(k) && k@ == kind
}

/// The positions, below `n`, of the blocks that are tool calls.
pub open spec fn tool_use_positions(blocks: Seq<ContentBlock>, n: int) -> Seq<usize>
    decreases n,
{
    if n <= 0 {
        Seq::empty()
    } else if block_is(blocks[n - 1], "tool_use"@) {
        tool_use_positions(blocks, n - 1).push((n - 1) as usize)
    } else {
        tool_use_positions(blocks, n - 1)
    }
}

/// The answer text of a final reply: the text of its first `text` block,
/// or "No response." when that block has no text or there is none.
pub open spec fn reply_text(blocks: Seq<ContentBlock>) -> Seq<char>
    decreases blocks.len(),
{
    if blocks.len() == 0 {
        "No response."@
    } else if block_is(blocks[0], "text"@) {
        match blocks[0].text {
            Some(t) => t@,
            None => "No response."@,
        }
    } else {
        reply_text(blocks.drop_first())
    }
}

proof fn lemma_tool_positions(blocks: Seq<ContentBlock>, n: int)
    requires
        0 <= n <= blocks.len(),
        blocks.len() <= usize::MAX,
    ensures
        forall|k: int| 0 <= k < n ==> (tool_use_positions(blocks, n).contains(k as usize)
            <==> block_is(#[trigger] blocks[k], "tool_use"@)),
        forall|m: int| 0 <= m < tool_use_positions(blocks, n).len() ==> #[trigger] tool_use_positions(blocks, n)[m] < n,
        forall|m: int, l: int| 0 <= m < l < tool_use_positions(blocks, n).len()
            ==> #[trigger] tool_use_positions(blocks, n)[m] < #[trigger] tool_use_positions(blocks, n)[l],
    decreases n,
{
    if n > 0 {
        lemma_tool_positions(blocks, n - 1);
        let prev = tool_use_positions(blocks, n - 1);
        let cur = tool_use_positions(blocks, n);
        assert forall|k: int| 0 <= k < n implies (cur.contains(k as usize)
            <==> block_is(#[trigger] blocks[k], "tool_use"@)) by {
            if block_is(blocks[n - 1], "tool_use"@) {
                assert(cur == prev.push((n - 1) as usize));
                if k == n - 1 {
                    assert(cur[prev.len() as int] == k as usize);
                } else {
                    if cur.contains(k as usize) {
                        let m = choose|m: int| 0 <= m < cur.len() && cur[m] == k as usize;
                        if m < prev.len() {
                            assert(prev[m] == cur[m]);
                        }
                    }
                    if prev.contains(k as usize) {
                        let m = choose|m: int| 0 <= m < prev.len() && prev[m] == k as usize;
                        assert(cur[m] == prev[m]);
                    }
                }
            } else {
                assert(cur == prev);
                if k == n - 1 && cur.contains(k as usize) {
                    let m = choose|m: int| 0 <= m < prev.len() && prev[m] == k as usize;
                    assert(prev[m] < n - 1);
                }
            }
        }
    }
}

/// In a tool-use turn the chat loop runs exactly the reply's tool calls:
/// a block position is among `tool_use_positions` when, and only when,
/// that block's type is "tool_use"; the positions are in range and in
/// increasing order, so each call runs once, in the reply's order.
pub proof fn run_positions_are_the_tool_calls(blocks: Seq<ContentBlock>)
    requires
        blocks.len() <= usize::MAX,
    ensures
        forall|k: int| 0 <= k < blocks.len() ==> (tool_use_positions(blocks, blocks.len() as int).contains(k as usize)
            <==> block_is(#[trigger] blocks[k], "tool_use"@)),
        forall|m: int| 0 <= m < tool_use_positions(blocks, blocks.len() as int).len()
            ==> #[trigger] tool_use_positions(blocks, blocks.len() as int)[m] < blocks.len(),
        forall|m: int, l: int| 0 <= m < l < tool_use_positions(blocks, blocks.len() as int).len()
            ==> #[trigger] tool_use_positions(blocks, blocks.len() as int)[m]
                < #[trigger] tool_use_positions(blocks, blocks.len() as int)[l],
{
    lemma_tool_positions(blocks, blocks.len() as int);
}

/// What the chat loop does with a model reply.
pub enum ChatStep {
    /// Run the tool calls at these block positions, send their results
    /// back, and ask the model again.
    RunTools(Vec<usize>),
    /// The conversation turn is over; this is the answer.
    Reply(String),
}

/// What to do with a model reply: run its tool calls while the model
/// stopped to use tools, else answer with the reply's text.
pub fn next_chat_step(stop_reason: Option<&str>, blocks: &Vec<ContentBlock>) -> (r: ChatStep)
    ensures
        match r {
            ChatStep::RunTools(ix) => stop_reason matches Some(s) && s@ == "tool_use"@
                && ix@ == tool_use_positions(blocks@, blocks@.len() as int)
                && forall|k: int| 0 <= k < blocks@.len() ==> (ix@.contains(k as usize)
                    <==> block_is(#[trigger] blocks@[k], "tool_use"@)),
            ChatStep::Reply(t) => !(stop_reason matches Some(s) && s@ == "tool_use"@)
                && t@ == reply_text(blocks@),
        },
{
    let tool_turn = match stop_reason {
        Some(s) => same_text(s, "tool_use"),
        None => false,
    };
    if tool_turn {
        let mut ix: Vec<usize> = Vec::new();
        let mut i: usize = 0;
        while i < blocks.len()
            invariant
                0 <= i <= blocks@.len(),
                ix@ == tool_use_positions(blocks@, i as int),
            decreases blocks.len() - i,
        {
            let is_tool = match &blocks[i].kind {
                Some(k) => same_text(k.as_str(), "tool_use"),
                None => false,
            };
            if is_tool {
                ix.push(i);
            }
            i = i + 1;
        }
        proof {
            lemma_tool_positions(blocks@, blocks@.len() as int);
        }
        ChatStep::RunTools(ix)
    } else {
        let mut i: usize = 0;
        assert(blocks@.skip(0) =~= blocks@);
        while i < blocks.len()
            invariant
                0 <= i <= blocks@.len(),
                !(stop_reason matches Some(s) && s@ == "tool_use"@),
                reply_text(blocks@) == reply_text(blocks@.skip(i as int)),
            decreases blocks.len() - i,
        {
            let ghost rest = blocks@.skip(i as int);
            assert(rest[0] == blocks@[i as int]);
            assert(rest.drop_first() =~= blocks@.skip(i + 1));
            let is_text = match &blocks[i].kind {
                Some(k) => same_text(k.as_str(), "text"),
                None => false,
            };
            if is_text {
                return match &blocks[i].text {
                    Some(t) => ChatStep::Reply(t.clone()),
                    None => ChatStep::Reply("No response.".to_owned()),
                };
            }
            i = i + 1;
        }
        ChatStep::Reply("No response.".to_owned())
    }
}

/// The error a failed model call reports, from the HTTP status line and
/// the error message of the reply body (when it has one).
pub open spec fn model_error_text(status: Seq<char>, message: Option<Seq<char>>) -> Seq<char> {
    "Anthropic "@ + status + ": "@ + match message {
        Some(m) => m,
        None => "unknown error"@,
    }
}

/// The error of a model call: none for a success status, else
/// "Anthropic <status>: <message>".
pub fn model_call_error(success: bool, status: &str, message: Option<&str>) -> (r: Option<String>)
    ensures
        success ==> r is None,
        !success ==> r is Some && r->Some_0@ == model_error_text(status@, match message {
            Some(m) => Some(m@),
            None => None,
        }),
{
    if success {
        return None;
    }
    let mut msg = "Anthropic ".to_owned();
    msg.append(status);
    msg.append(": ");
    match message {
        Some(m) => msg.append(m),
        None => msg.append("unknown error"),
    }
    Some(msg)
}


/// The most tokens the model may answer with in one reply.
pub const MAX_TOKENS: u32 = 1024;

/// What each call of the model carries besides the tool list: the model,
/// the token limit, the system prompt and the conversation so far, one
/// `M` per message.
pub struct ModelRequest<M> {
    pub model: String,
    pub max_tokens: u32,
    pub system: String,
    pub messages: Vec<M>,
}

/// The first request of a chat: the request's own messages under the
/// given model and system prompt, with the token limit `MAX_TOKENS`.
pub fn model_request<M>(model: &str, system: &str, messages: Vec<M>) -> (r: ModelRequest<M>)
    ensures
        r.model@ == model@,
        r.max_tokens == MAX_TOKENS,
        r.system@ == system@,
        r.messages@ == messages@,
{
    ModelRequest { model: model.to_owned(), max_tokens: MAX_TOKENS, system: system.to_owned(), messages }
}

impl<M> ModelRequest<M> {
    /// The next request after a round of tool calls: the conversation
    /// grows by the model's tool-calling turn, then the user turn that
    /// carries the tools' results; all else stays.
    pub fn add_tool_round(&mut self, assistant_turn: M, results_turn: M)
        ensures
            final(self).messages@ == old(self).messages@.push(assistant_turn).push(results_turn),
            final(self).model == old(self).model,
            final(self).max_tokens == old(self).max_tokens,
            final(self).system == old(self).system,
    {
        self.messages.push(assistant_turn);
        self.messages.push(results_turn);
    }
}


/// The query string that the tournament tool hands to the tournament
/// request: `?teams=` and the team names joined by commas.
pub open spec fn tournament_tool_text(teams: Seq<Seq<char>>) -> Seq<char> {
    "?teams="@ + join_with(teams, ","@)
}

/// Builds the tournament request's query string for a list of teams.
pub fn tournament_tool_query(teams: &Vec<String>) -> (r: String)
    ensures
        r@ == tournament_tool_text(string_views(teams@)),
{
    let mut q = "?teams=".to_owned();
    let ghost names = string_views(teams@);
    let mut i: usize = 0;
    assert(names.take(0) =~= Seq::<Seq<char>>::empty());
    while i < teams.len()
        invariant
            0 <= i <= teams@.len(),
            names == string_views(teams@),
            q@ == "?teams="@ + join_with(names.take(i as int), ","@),
        decreases teams.len() - i,
    {
        let ghost before = q@;
        assert(names.take(i + 1).drop_last() =~= names.take(i as int));
        assert(names.take(i + 1).last() == teams@[i as int]@);
        if i > 0 {
            q.append(",");
        }
        q.append(teams[i].as_str());
        if i == 0 {
            assert(join_with(names.take(1), ","@) == names.take(1)[0]);
            assert(join_with(names.take(0), ","@) =~= Seq::<char>::empty());
            assert(q@ =~= "?teams="@ + join_with(names.take(i + 1), ","@));
        } else {
            assert(q@ =~= "?teams="@ + join_with(names.take(i + 1), ","@));
        }
        i = i + 1;
    }
    assert(names.take(i as int) =~= names);
    q
}

/// The query string that the edge tool hands to the edge request.
pub open spec fn edge_tool_text(slug: Seq<char>, outcome: Seq<char>, model_prob: Seq<char>) -> Seq<char> {
    "?slug="@ + slug + "&outcome="@ + outcome + "&model_prob="@ + model_prob
}

/// Builds the edge request's query string; the parameters go in as they
/// are, without encoding.
pub fn edge_tool_query(slug: &str, outcome: &str, model_prob: &str) -> (r: String)
    ensures
        r@ == edge_tool_text(slug@, outcome@, model_prob@),
{
    let mut q = "?slug=".to_owned();
    q.append(slug);
    q.append("&outcome=");
    q.append(outcome);
    q.append("&model_prob=");
    q.append(model_prob);
    q
}

/// Team names free of `,`, `&`, `%` and `+` reach the tournament request
/// through its query string as the same list, each trimmed and blank
/// ones dropped.
pub proof fn tournament_query_parses_back(teams: Seq<Seq<char>>)
    requires
        forall|i: int| 0 <= i < teams.len() ==> lacks_char(#[trigger] teams[i], ',') && lacks_char(teams[i], '&')
            && lacks_char(teams[i], '%') && lacks_char(teams[i], '+'),
    ensures
        query_decodable(encode_utf8(tournament_tool_text(teams))),
        tournament_params(parsed_pairs(encode_utf8(tournament_tool_text(teams)))) == Ok::<Seq<Seq<char>>, Seq<char>>(kept_names(teams)),
{
    reveal_strlit("?teams=");
    reveal_strlit(",");
    reveal_strlit("teams");
    let csv = join_with(teams, ","@);
    assert(","@ =~= seq![',']);
    assert forall|i: int| 0 <= i < teams.len() implies lacks_char(#[trigger] teams[i], '&') by {}
    lemma_join_lacks(teams, ","@, '&');
    lemma_join_lacks(teams, ","@, '%');
    lemma_join_lacks(teams, ","@, '+');
    let pairs = seq![("teams"@, csv)];
    assert(plain_query_key("teams"@));
    assert(plain_query_value(csv));
    query_text_parses_back(pairs);
    assert(pair_texts(pairs) =~= seq![pair_text(("teams"@, csv))]);
    assert(query_text(pairs) =~= tournament_tool_text(teams));
    assert(parsed_pairs(encode_utf8(tournament_tool_text(teams))) == pairs);
    assert(lookup(pairs, "teams"@) == Some(csv));
    assert(('\u{2c}' as u32) as u8 == 0x2cu8);
    if teams.len() == 0 {
        let e = Seq::<char>::empty();
        assert(csv =~= e);
        assert(encode_utf8(e) =~= Seq::<u8>::empty());
        lemma_find_byte_at(Seq::<u8>::empty(), 0x2c, 0);
        assert(split_bytes(encode_utf8(csv), 0x2c) =~= seq![Seq::<u8>::empty()]);
        assert(valid_utf8(Seq::<u8>::empty()));
        assert(decode_utf8(Seq::<u8>::empty()) =~= e);
        let pieces = split_text(csv, 0x2c);
        assert(pieces =~= seq![e]);
        assert(trim_start_ws(e) == e);
        assert(trimmed(e) =~= e);
        assert(pieces.drop_last() =~= Seq::<Seq<char>>::empty());
        assert(kept_names(pieces) == kept_names(pieces.drop_last()));
        assert(kept_names(pieces) =~= kept_names(teams));
    } else {
        lemma_split_join(teams, ',');
        assert(join_with(teams, ","@) == join_with(teams, seq![',']));
        let pieces = split_text(csv, 0x2c);
        assert(split_bytes(encode_utf8(csv), 0x2c) == encode_each(teams));
        assert(pieces.len() == teams.len());
        assert forall|i: int| 0 <= i < teams.len() implies #[trigger] pieces[i] == teams[i] by {
            assert(encode_each(teams)[i] == encode_utf8(teams[i]));
            assert(decode_utf8(encode_utf8(teams[i])) == teams[i]);
        }
        assert(pieces =~= teams);
    }
}

/// Every team handed to the tournament tool reaches the tournament
/// request: for names without the query's special characters and none of
/// them blank, the request's teams are exactly those names, trimmed, in
/// order, however many there are.
pub proof fn tournament_query_keeps_every_team(teams: Seq<Seq<char>>)
    requires
        forall|i: int| 0 <= i < teams.len() ==> lacks_char(#[trigger] teams[i], ',') && lacks_char(teams[i], '&')
            && lacks_char(teams[i], '%') && lacks_char(teams[i], '+') && trimmed(teams[i]).len() > 0,
    ensures
        tournament_params(parsed_pairs(encode_utf8(tournament_tool_text(teams))))
            == Ok::<Seq<Seq<char>>, Seq<char>>(teams.map_values(|p: Seq<char>| trimmed(p))),
{
    tournament_query_parses_back(teams);
    assert forall|i: int| 0 <= i < teams.len() implies #[trigger] trimmed(teams[i]).len() > 0 by {}
    no_name_is_lost(teams);
}

/// Slug, outcome and probability texts free of `&`, `%` and `+` reach
/// the edge request through its query string unchanged.
pub proof fn edge_query_parses_back(slug: Seq<char>, outcome: Seq<char>, model_prob: Seq<char>)
    requires
        plain_query_value(slug),
        plain_query_value(outcome),
        plain_query_value(model_prob),
    ensures
        query_decodable(encode_utf8(edge_tool_text(slug, outcome, model_prob))),
        edge_params(parsed_pairs(encode_utf8(edge_tool_text(slug, outcome, model_prob))))
            == Ok::<(Seq<char>, Seq<char>, Seq<char>), Seq<char>>((slug, outcome, model_prob)),
{
    reveal_strlit("?slug=");
    reveal_strlit("&outcome=");
    reveal_strlit("&model_prob=");
    reveal_strlit("slug");
    reveal_strlit("outcome");
    reveal_strlit("model_prob");
    let pairs = seq![("slug"@, slug), ("outcome"@, outcome), ("model_prob"@, model_prob)];
    assert(plain_query_key("slug"@));
    assert(plain_query_key("outcome"@));
    assert(plain_query_key("model_prob"@));
    assert forall|i: int| 0 <= i < pairs.len() implies plain_query_key(#[trigger] pairs[i].0) && plain_query_value(pairs[i].1) by {}
    query_text_parses_back(pairs);
    let texts = pair_texts(pairs);
    let t2 = texts.drop_last();
    assert(t2.drop_last() =~= seq![texts[0]]);
    assert(t2.last() == texts[1]);
    assert(join_with(t2.drop_last(), seq!['&']) == texts[0]);
    assert(join_with(t2, seq!['&']) == texts[0] + seq!['&'] + texts[1]);
    assert(join_with(texts, seq!['&']) == join_with(t2, seq!['&']) + seq!['&'] + texts[2]);
    assert(query_text(pairs) =~= edge_tool_text(slug, outcome, model_prob));
    assert(pairs.drop_first()[0].0 == "outcome"@);
    assert(pairs.drop_first().drop_first()[0].0 == "model_prob"@);
    assert("slug"@ != "outcome"@);
    assert("slug"@ != "model_prob"@);
    assert("outcome"@ != "model_prob"@);
    assert(lookup(pairs, "slug"@) == Some(slug));
    assert(lookup(pairs.drop_first(), "outcome"@) == Some(outcome));
    assert(lookup(pairs, "outcome"@) == Some(outcome));
    assert(lookup(pairs.drop_first().drop_first(), "model_prob"@) == Some(model_prob));
    assert(lookup(pairs.drop_first(), "model_prob"@) == Some(model_prob));
    assert(lookup(pairs, "model_prob"@) == Some(model_prob));
}

} // verus!
