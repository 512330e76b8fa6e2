use goal_digger::market::{
    edge_outcome, edge_request, outcome_row, outright_slugs, tournament_teams, yes_price_row, yes_row, OutcomeRow,
};
use goal_digger::query::Query;

fn row(label: Option<&str>, has_price: bool) -> OutcomeRow {
    OutcomeRow { label: label.map(|s| s.to_string()), has_price }
}

#[test]
fn slug_table_has_every_fixture_team() {
    let t = outright_slugs();
    assert_eq!(t.len(), 16);
    assert_eq!(t[0], ("Spain", "will-spain-win-the-2026-fifa-world-cup-963"));
    assert_eq!(t[10], ("Croatia", "will-croatia-win-the-2026-fifa-world-cup"));
    assert_eq!(t[15], ("Senegal", "will-senegal-win-the-2026-fifa-world-cup"));
    let mut teams: Vec<&str> = t.iter().map(|p| p.0).collect();
    teams.sort();
    teams.dedup();
    assert_eq!(teams.len(), 16);
}

#[test]
fn yes_row_is_case_insensitive() {
    let rows = vec![row(Some("No"), true), row(None, true), row(Some("YES"), true)];
    assert_eq!(yes_row(&rows), Some(2));
    assert_eq!(yes_price_row(&rows), Some(2));
}

#[test]
fn yes_row_does_not_trim() {
    let rows = vec![row(Some(" Yes"), true)];
    assert_eq!(yes_row(&rows), None);
}

#[test]
fn yes_price_row_needs_price_on_first_yes() {
    let rows = vec![row(Some("Yes"), false), row(Some("yes"), true)];
    assert_eq!(yes_row(&rows), Some(0));
    assert_eq!(yes_price_row(&rows), None);
    assert_eq!(yes_price_row(&vec![]), None);
}

#[test]
fn outcome_row_trims_and_ignores_case() {
    let rows = vec![row(Some("France"), true), row(Some("  SPAIN "), true)];
    assert_eq!(outcome_row(&rows, " spain"), Some(1));
    assert_eq!(outcome_row(&rows, "Germany"), None);
}

#[test]
fn edge_outcome_found() {
    let rows = vec![row(Some("No"), true), row(Some("Yes"), true)];
    assert_eq!(edge_outcome(&rows, "yes"), Ok(1));
}

#[test]
fn edge_outcome_not_found_error() {
    let rows = vec![row(Some("No"), true)];
    assert_eq!(edge_outcome(&rows, "Yes"), Err("outcome 'Yes' not found".to_string()));
}

#[test]
fn edge_outcome_without_price_is_not_found() {
    let rows = vec![row(Some("Yes"), false), row(Some("yes"), true)];
    assert_eq!(edge_outcome(&rows, " Yes "), Err("outcome ' Yes ' not found".to_string()));
}

#[test]
fn edge_request_reads_three_params() {
    let q = Query::parse("/api/edge?model_prob=0.2&slug=s&outcome=Yes");
    let r = edge_request(&q).unwrap();
    assert_eq!(r.slug, "s");
    assert_eq!(r.outcome, "Yes");
    assert_eq!(r.model_prob, "0.2");
}

#[test]
fn edge_request_missing_params_in_order() {
    assert_eq!(edge_request(&Query::parse("/api/edge")).err(), Some("missing slug".to_string()));
    assert_eq!(edge_request(&Query::parse("/api/edge?slug=s")).err(), Some("missing outcome".to_string()));
    assert_eq!(
        edge_request(&Query::parse("/api/edge?slug=s&outcome=Yes")).err(),
        Some("missing model_prob".to_string())
    );
    assert_eq!(edge_request(&Query::parse("/api/edge?outcome=Yes")).err(), Some("missing slug".to_string()));
}

#[test]
fn tournament_teams_trims_and_drops_blanks() {
    let q = Query::parse("/api/tournament?teams=+Spain+,+,France,,Brazil%20");
    assert_eq!(
        tournament_teams(&q),
        Ok(vec!["Spain".to_string(), "France".to_string(), "Brazil".to_string()])
    );
}

#[test]
fn tournament_teams_missing() {
    assert_eq!(tournament_teams(&Query::parse("/api/tournament")), Err("missing teams".to_string()));
    assert_eq!(tournament_teams(&Query::parse("/api/tournament?teams=")), Ok(vec![]));
}

#[test]
fn tournament_teams_trim_unicode_whitespace() {
    let q = Query::parse("/api/tournament?teams=%E3%80%80Japan%C2%A0,%09Senegal%0A");
    assert_eq!(tournament_teams(&q), Ok(vec!["Japan".to_string(), "Senegal".to_string()]));
}
