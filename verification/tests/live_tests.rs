use goal_digger::live::{is_host_code, live_adjust_teams, live_row_id, no_fixture_error, select_live_fixtures};
use goal_digger::query::Query;

#[test]
fn live_selection_skips_zero_duplicate_and_unknown() {
    let ids = vec![5, 0, 5, 7, 8, 7];
    let known = vec![true, true, true, false, true, true];
    assert_eq!(select_live_fixtures(&ids, &known), vec![0, 4]);
}

#[test]
fn live_selection_unknown_first_still_marks_seen() {
    let ids = vec![9, 9];
    let known = vec![false, true];
    assert_eq!(select_live_fixtures(&ids, &known), Vec::<usize>::new());
}

#[test]
fn live_selection_caps_at_twelve() {
    let ids: Vec<u32> = (1..=20).collect();
    let known = vec![true; 20];
    let picks = select_live_fixtures(&ids, &known);
    assert_eq!(picks, (0..12).collect::<Vec<usize>>());
}

#[test]
fn host_codes() {
    assert!(is_host_code("USA"));
    assert!(is_host_code("MEX"));
    assert!(is_host_code("CAN"));
    assert!(!is_host_code("usa"));
    assert!(!is_host_code("ESP"));
}

#[test]
fn row_ids() {
    assert_eq!(live_row_id("USA", "COL"), "usa-col");
    assert_eq!(live_row_id("ESP", "GER"), "esp-ger");
}

#[test]
fn live_adjust_params() {
    assert_eq!(
        live_adjust_teams(&Query::parse("/api/live-adjust?home=Spain&away=Germany")),
        Ok(("Spain".to_string(), "Germany".to_string()))
    );
    assert_eq!(live_adjust_teams(&Query::parse("/api/live-adjust?away=Germany")), Err("missing home".to_string()));
    assert_eq!(live_adjust_teams(&Query::parse("/api/live-adjust?home=Spain")), Err("missing away".to_string()));
}

#[test]
fn no_fixture_message() {
    assert_eq!(no_fixture_error("Spain", "Japan"), "no WC fixture found for Spain vs Japan");
}
