use goal_digger::serve::{
    climbs_out, content_type, is_api_path, request_path, route, static_file_path, static_rel_path, ui_dir, ui_dir_checked, Endpoint,
    HttpMethod,
};

#[test]
fn routes() {
    assert_eq!(route(HttpMethod::Get, "/api/board"), Endpoint::Board);
    assert_eq!(route(HttpMethod::Post, "/api/simulate"), Endpoint::Simulate);
    assert_eq!(route(HttpMethod::Get, "/api/edge"), Endpoint::Edge);
    assert_eq!(route(HttpMethod::Get, "/api/tournament"), Endpoint::Tournament);
    assert_eq!(route(HttpMethod::Get, "/api/live-adjust"), Endpoint::LiveAdjust);
    assert_eq!(route(HttpMethod::Get, "/api/live-board"), Endpoint::LiveBoard);
    assert_eq!(route(HttpMethod::Get, "/api/prices"), Endpoint::Prices);
    assert_eq!(route(HttpMethod::Post, "/api/chat"), Endpoint::Chat);
}

#[test]
fn unknown_routes() {
    assert_eq!(route(HttpMethod::Post, "/api/board"), Endpoint::Unknown);
    assert_eq!(route(HttpMethod::Get, "/api/chat"), Endpoint::Unknown);
    assert_eq!(route(HttpMethod::Other, "/api/board"), Endpoint::Unknown);
    assert_eq!(route(HttpMethod::Get, "/api/board/"), Endpoint::Unknown);
}

#[test]
fn request_paths() {
    assert_eq!(request_path("/api/edge?slug=x"), "/api/edge");
    assert_eq!(request_path("/api/board"), "/api/board");
    assert_eq!(request_path("?a=b"), "");
}

#[test]
fn api_paths() {
    assert!(is_api_path("/api/board"));
    assert!(is_api_path("/api/"));
    assert!(!is_api_path("/api"));
    assert!(!is_api_path("/styles/app.css"));
}

#[test]
fn static_rel_paths() {
    assert_eq!(static_rel_path("/"), "goal digger2.html");
    assert_eq!(static_rel_path("/?v=2"), "goal digger2.html");
    assert_eq!(static_rel_path("//styles/goal%20digger.css?x=1"), "styles/goal digger.css");
    assert_eq!(static_rel_path("/src/data.jsx"), "src/data.jsx");
    assert_eq!(static_rel_path("%2F"), "goal digger2.html");
}

#[test]
fn content_types() {
    assert_eq!(content_type("ui/goal digger2.html"), "text/html; charset=utf-8");
    assert_eq!(content_type("styles/theme-camel.css"), "text/css; charset=utf-8");
    assert_eq!(content_type("src/brand-camel.js"), "text/javascript; charset=utf-8");
    assert_eq!(content_type("src/views.jsx"), "text/babel; charset=utf-8");
    assert_eq!(content_type("assets/aomi-symbol-pink.png"), "image/png");
    assert_eq!(content_type("data/teams.json"), "application/json");
    assert_eq!(content_type("README"), "application/octet-stream");
    assert_eq!(content_type(".css"), "application/octet-stream");
}

#[test]
fn ui_dirs() {
    assert_eq!(ui_dir("/home/u/goal-digger/server"), "/home/u/goal-digger/ui");
    assert_eq!(ui_dir_checked("/home/u/goal-digger/server"), Some("/home/u/goal-digger/ui".to_string()));
    assert_eq!(ui_dir_checked("/"), None);
}

#[test]
fn static_file_paths() {
    assert_eq!(static_file_path("/styles/a.css", "/srv/ui"), Some("/srv/ui/styles/a.css".to_string()));
    assert_eq!(static_file_path("/", "/srv/ui"), Some("/srv/ui/goal digger2.html".to_string()));
}

#[test]
fn static_paths_do_not_climb_out() {
    assert_eq!(static_file_path("/../server/src/main.rs", "/srv/ui"), None);
    assert_eq!(static_file_path("/%2E%2E/server/Cargo.toml", "/srv/ui"), None);
    assert_eq!(static_file_path("/src/../../x", "/srv/ui"), None);
    assert_eq!(static_file_path("/..", "/srv/ui"), None);
    assert_eq!(static_file_path("/..x/y.css", "/srv/ui"), Some("/srv/ui/..x/y.css".to_string()));
    assert_eq!(static_file_path("/./a.css", "/srv/ui"), Some("/srv/ui/./a.css".to_string()));
    assert_eq!(static_file_path("/a/../b.html", "/srv/ui"), Some("/srv/ui/a/../b.html".to_string()));
    assert_eq!(static_file_path("/a/%2e%2e/%2e%2e/b.html", "/srv/ui"), None);
}

#[test]
fn climbing_components() {
    assert!(climbs_out(".."));
    assert!(climbs_out("./.."));
    assert!(climbs_out("a/../../b"));
    assert!(climbs_out("a//../.."));
    assert!(!climbs_out("a/../b"));
    assert!(!climbs_out("a/.."));
    assert!(!climbs_out("a/..b/c"));
    assert!(!climbs_out("a/.../b"));
    assert!(!climbs_out(""));
}
