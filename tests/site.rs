use job_board::dispatch::{dispatch, dispatch_at, dispatch_now, hardening_headers, route, year_at, Outcome, Route, RouterConfig};
use job_board::json::{parse_json, JsonValue};
use job_board::loader::{parse_job_data, parse_u32_text, LoadError};
use job_board::model::{AppState, JobEntry};
use job_board::render::render_index;
use job_board::text::{escape_text, int_to_text};

fn sample_job() -> JobEntry {
    JobEntry {
        key: 1,
        name: "Test Company".to_string(),
        details: "Test details".to_string(),
        tools: "Rust, Axum".to_string(),
        screen: "/test.png".to_string(),
        link: "https://example.com".to_string(),
    }
}

fn plain() -> RouterConfig {
    RouterConfig { health_check: false }
}

fn response_of(o: Outcome) -> job_board::dispatch::Response {
    match o {
        Outcome::Respond(r) => r,
        Outcome::ServeStatic(p) => panic!("expected a response, got static path {}", p),
    }
}

#[test]
fn test_parse_valid_json() {
    let json = r#"{
        "entries": [{
            "key": 1,
            "name": "Test Company",
            "details": "Test details",
            "tools": "Rust",
            "screen": "/test.png",
            "link": "https://example.com"
        }]
    }"#;

    let result = parse_job_data(json);
    assert!(result.is_ok());

    let job_data = result.unwrap();
    assert_eq!(job_data.entries.len(), 1);
    assert_eq!(job_data.entries[0].name, "Test Company");
}

#[test]
fn test_parse_multiple_entries() {
    let json = r#"{
        "entries": [
            {"key": 1, "name": "Company A", "details": "A", "tools": "A", "screen": "/a.png", "link": "https://a.com"},
            {"key": 2, "name": "Company B", "details": "B", "tools": "B", "screen": "/b.png", "link": "https://b.com"}
        ]
    }"#;

    let result = parse_job_data(json);
    assert!(result.is_ok());
    assert_eq!(result.unwrap().entries.len(), 2);
}

#[test]
fn test_parse_empty_entries() {
    let json = r#"{"entries": []}"#;

    let result = parse_job_data(json);
    assert!(result.is_ok());
    assert!(result.unwrap().entries.is_empty());
}

#[test]
fn test_parse_invalid_json() {
    let json = "not valid json";
    let result = parse_job_data(json);
    assert!(result.is_err());
}

#[test]
fn test_parse_missing_field() {
    let json = r#"{
        "entries": [{
            "key": 1,
            "name": "Test"
        }]
    }"#;

    let result = parse_job_data(json);
    assert!(result.is_err());
}

#[test]
fn test_template_renders() {
    let jobs = vec![sample_job()];
    let html = render_index(&jobs, 2024);
    assert!(html.contains("Test Company"));
    assert!(html.contains("2024"));
}

#[test]
fn test_template_renders_empty_jobs() {
    let jobs: Vec<JobEntry> = vec![];
    let html = render_index(&jobs, 2024);
    assert!(html.contains("2024"));
    assert!(!html.contains("<li class=\"job\">"));
}

#[test]
fn test_index_handler_returns_200() {
    let state = AppState { jobs: vec![sample_job()] };
    let response = response_of(dispatch(&state, plain(), "GET", "/", 2024));
    assert_eq!(response.status, 200);
}

#[test]
fn test_index_handler_returns_html() {
    let state = AppState { jobs: vec![sample_job()] };
    let response = response_of(dispatch(&state, plain(), "GET", "/", 2024));
    let html = response.body;
    assert!(html.contains("<!DOCTYPE html>") || html.contains("<html"));
    assert!(html.contains("Test Company"));
}

#[test]
fn test_index_handler_empty_jobs() {
    let state = AppState { jobs: vec![] };
    let response = response_of(dispatch(&state, plain(), "GET", "/", 2024));
    assert_eq!(response.status, 200);
}

#[test]
fn test_404_for_unknown_route() {
    let state = AppState { jobs: vec![] };
    let response = response_of(dispatch(&state, plain(), "GET", "/nonexistent", 2024));
    assert_eq!(response.status, 404);
}

#[test]
fn example_document_page_shows_name_and_year() {
    let json = r#"{"entries":[{"key":1,"name":"Acme","details":"Build things","tools":"Go","screen":"/acme.png","link":"https://acme.example"}]}"#;
    let data = parse_job_data(json).unwrap();
    let state = AppState { jobs: data.entries };
    let response = response_of(dispatch(&state, plain(), "GET", "/", 2031));
    assert_eq!(response.status, 200);
    assert!(response.body.contains("Acme"));
    assert!(response.body.contains("2031"));
    assert!(response.body.contains("href=\"https://acme.example\""));
    assert!(response.body.contains("src=\"/acme.png\""));
}

#[test]
fn loaded_names_appear_in_document_order() {
    let json = r#"{"entries":[
        {"key":9,"name":"Zeta","details":"z","tools":"z","screen":"/z.png","link":"https://z.example"},
        {"key":1,"name":"Alpha","details":"a","tools":"a","screen":"/a.png","link":"https://a.example"}
    ]}"#;
    let data = parse_job_data(json).unwrap();
    assert_eq!(data.entries[0].key, 9);
    assert_eq!(data.entries[1].key, 1);
    let html = render_index(&data.entries, 1999);
    let z = html.find("Zeta").unwrap();
    let a = html.find("Alpha").unwrap();
    assert!(z < a);
    assert!(html.contains("1999"));
}

#[test]
fn empty_entries_give_a_page_without_jobs() {
    let data = parse_job_data(r#"{"entries":[]}"#).unwrap();
    let html = render_index(&data.entries, 2024);
    assert!(html.starts_with("<!DOCTYPE html>"));
    assert!(html.ends_with("</html>\n"));
    assert!(!html.contains("<li class=\"job\">"));
}

#[test]
fn malformed_and_misshapen_documents_are_parse_errors() {
    assert_eq!(parse_job_data("not valid json").err(), Some(LoadError::Parse));
    assert_eq!(parse_job_data("").err(), Some(LoadError::Parse));
    assert_eq!(parse_job_data("[]").err(), Some(LoadError::Parse));
    assert_eq!(parse_job_data(r#"{"jobs":[]}"#).err(), Some(LoadError::Parse));
    assert_eq!(parse_job_data(r#"{"entries":{}}"#).err(), Some(LoadError::Parse));
}

#[test]
fn one_bad_record_spoils_the_load() {
    let json = r#"{"entries":[
        {"key":1,"name":"A","details":"a","tools":"a","screen":"/a.png","link":"https://a.example"},
        {"key":"2","name":"B","details":"b","tools":"b","screen":"/b.png","link":"https://b.example"}
    ]}"#;
    assert_eq!(parse_job_data(json).err(), Some(LoadError::Parse));
}

#[test]
fn keys_must_be_u32() {
    let doc = |k: &str| {
        format!(
            r#"{{"entries":[{{"key":{},"name":"A","details":"a","tools":"a","screen":"/a.png","link":"l"}}]}}"#,
            k
        )
    };
    assert_eq!(parse_job_data(&doc("4294967295")).unwrap().entries[0].key, 4294967295);
    assert!(parse_job_data(&doc("4294967296")).is_err());
    assert!(parse_job_data(&doc("-1")).is_err());
    assert!(parse_job_data(&doc("1.0")).is_err());
    assert!(parse_job_data(&doc("1e2")).is_err());
    assert!(parse_job_data(&doc("null")).is_err());
}

#[test]
fn extra_members_are_ignored() {
    let json = r#"{"entries":[{"key":3,"name":"A","details":"a","tools":"a","screen":"/a.png","link":"l","extra":true}],"other":1}"#;
    let data = parse_job_data(json).unwrap();
    assert_eq!(data.entries.len(), 1);
    assert_eq!(data.entries[0].key, 3);
    assert_eq!(data.entries[0].link, "l");
}

#[test]
fn numbers_keep_their_text() {
    match parse_json("[12, -3, 1.5]").unwrap() {
        JsonValue::Array(items) => {
            assert_eq!(items.len(), 3);
            assert!(matches!(&items[0], JsonValue::Number(t) if t == "12"));
            assert!(matches!(&items[1], JsonValue::Number(t) if t == "-3"));
            assert!(matches!(&items[2], JsonValue::Number(t) if t == "1.5"));
        }
        _ => panic!("expected an array"),
    }
    assert!(parse_json("{").is_none());
}

#[test]
fn u32_text() {
    assert_eq!(parse_u32_text("0"), Some(0));
    assert_eq!(parse_u32_text("4294967295"), Some(u32::MAX));
    assert_eq!(parse_u32_text("4294967296"), None);
    assert_eq!(parse_u32_text(""), None);
    assert_eq!(parse_u32_text("12a"), None);
}

#[test]
fn rendering_is_repeatable() {
    let jobs = vec![sample_job(), sample_job()];
    assert_eq!(render_index(&jobs, 2024), render_index(&jobs, 2024));
}

#[test]
fn fields_are_escaped() {
    let mut job = sample_job();
    job.name = "<b>Tom & Jerry's \"shop\"</b>".to_string();
    let html = render_index(&[job], 2024);
    assert!(html.contains("&lt;b&gt;Tom &amp; Jerry&#x27;s &quot;shop&quot;&lt;/b&gt;"));
    assert!(!html.contains("<b>"));
    assert_eq!(escape_text("a<b"), "a&lt;b");
    assert_eq!(escape_text("plain"), "plain");
}

#[test]
fn year_text() {
    assert_eq!(int_to_text(2024), "2024");
    assert_eq!(int_to_text(0), "0");
    assert_eq!(int_to_text(-45), "-45");
    assert_eq!(int_to_text(i32::MIN), "-2147483648");
    assert_eq!(int_to_text(i32::MAX), "2147483647");
}

#[test]
fn health_answers_fixed_body() {
    let config = RouterConfig { health_check: true };
    for jobs in [vec![], vec![sample_job()]] {
        let state = AppState { jobs };
        let response = response_of(dispatch(&state, config, "GET", "/health", 2024));
        assert_eq!(response.status, 200);
        assert_eq!(response.body, "{\"status\":\"healthy\"}");
        assert_eq!(response.content_type, "application/json");
    }
    let state = AppState { jobs: vec![] };
    let off = response_of(dispatch(&state, plain(), "GET", "/health", 2024));
    assert_eq!(off.status, 404);
}

#[test]
fn index_carries_hardening_headers() {
    let state = AppState { jobs: vec![sample_job()] };
    let response = response_of(dispatch(&state, plain(), "GET", "/", 2024));
    let expected = vec![
        ("X-Content-Type-Options".to_string(), "nosniff".to_string()),
        ("X-Frame-Options".to_string(), "DENY".to_string()),
        ("X-XSS-Protection".to_string(), "1; mode=block".to_string()),
        ("Referrer-Policy".to_string(), "strict-origin-when-cross-origin".to_string()),
    ];
    assert_eq!(response.headers, expected);
    assert_eq!(hardening_headers(), expected);
    assert_eq!(response.content_type, "text/html; charset=utf-8");
}

#[test]
fn routes_by_method_and_path() {
    let on = RouterConfig { health_check: true };
    assert_eq!(route(on, "GET", "/"), Route::Index);
    assert_eq!(route(on, "HEAD", "/"), Route::Index);
    assert_eq!(route(on, "POST", "/"), Route::MethodNotAllowed);
    assert_eq!(route(on, "GET", "/health"), Route::Health);
    assert_eq!(route(plain(), "GET", "/health"), Route::NotFound);
    assert_eq!(route(on, "GET", "/static/style.css"), Route::Static);
    assert_eq!(route(on, "GET", "/static"), Route::NotFound);
    assert_eq!(route(on, "GET", "/nonexistent"), Route::NotFound);
    let state = AppState { jobs: vec![] };
    match dispatch(&state, on, "GET", "/static/img/a.png", 2024) {
        Outcome::ServeStatic(p) => assert_eq!(p, "img/a.png"),
        Outcome::Respond(_) => panic!("expected a static path"),
    }
    assert_eq!(response_of(dispatch(&state, on, "DELETE", "/", 2024)).status, 405);
}

#[test]
fn load_error_descriptions() {
    assert_eq!(LoadError::Io.describe(), "could not read the job list");
    assert!(LoadError::Parse.describe().contains("JSON"));
}

#[test]
fn year_of_clock_readings() {
    assert_eq!(year_at(Some(0)), Some(1970));
    assert_eq!(year_at(Some(1_700_000_000)), Some(2023));
    assert_eq!(year_at(Some(1_704_067_199)), Some(2023));
    assert_eq!(year_at(Some(1_704_067_200)), Some(2024));
    assert_eq!(year_at(None), None);
    assert_eq!(year_at(Some(u64::MAX)), None);
    assert_eq!(year_at(Some(i64::MAX as u64)), None);
}

#[test]
fn index_without_a_year_is_a_server_error() {
    let state = AppState { jobs: vec![sample_job()] };
    let on = RouterConfig { health_check: true };
    let response = response_of(dispatch_at(&state, on, "GET", "/", None));
    assert_eq!(response.status, 500);
    assert_eq!(response.body, "Internal Server Error");
    assert_eq!(response.headers, hardening_headers());
    let health = response_of(dispatch_at(&state, on, "GET", "/health", None));
    assert_eq!(health.status, 200);
    assert_eq!(health.body, "{\"status\":\"healthy\"}");
    let missing = response_of(dispatch_at(&state, on, "GET", "/nonexistent", None));
    assert_eq!(missing.status, 404);
    let page = response_of(dispatch_at(&state, on, "GET", "/", Some(2030)));
    assert_eq!(page.status, 200);
    assert!(page.body.contains("2030"));
}

#[test]
fn index_now_shows_a_page() {
    let state = AppState { jobs: vec![sample_job()] };
    let response = response_of(dispatch_now(&state, plain(), "GET", "/"));
    assert_eq!(response.status, 200);
    assert!(response.body.contains("Test Company"));
}
