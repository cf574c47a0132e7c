use wikirag::json::parse_json;
use wikirag::json::JsonValue;
use wikirag::wiki::extract_from_body;
use wikirag::wiki::extract_from_json;
use wikirag::wiki::extract_url;
use wikirag::wiki::pages_from_search_json;
use wikirag::wiki::search_results_from_body;
use wikirag::wiki::search_url;
use wikirag::wiki::WikiError;
use wikirag::wiki::WikiPage;

fn page(id: &str, title: &str) -> WikiPage {
    WikiPage { page_id: id.to_string(), title: title.to_string() }
}

#[test]
fn search_url_encodes_keyword() {
    assert_eq!(
        search_url("Paris"),
        "https://en.wikipedia.org/w/api.php?action=query&list=search&srsearch=Paris&format=json"
    );
    assert_eq!(
        search_url("Eiffel Tower & co"),
        "https://en.wikipedia.org/w/api.php?action=query&list=search&srsearch=Eiffel+Tower+%26+co&format=json"
    );
}

#[test]
fn extract_url_names_page() {
    assert_eq!(
        extract_url("22989"),
        "https://en.wikipedia.org/w/api.php?action=query&pageids=22989&prop=extracts&explaintext=true&format=json"
    );
}

#[test]
fn parse_json_builds_values() {
    assert_eq!(parse_json("not json"), None);
    assert_eq!(parse_json("[1, \"a\", null, true]"), Some(JsonValue::Array(vec![
        JsonValue::Number("1".to_string()),
        JsonValue::Text("a".to_string()),
        JsonValue::Null,
        JsonValue::Bool(true),
    ])));
    assert_eq!(parse_json("{\"k\": {}}"), Some(JsonValue::Object(vec![
        ("k".to_string(), JsonValue::Object(vec![])),
    ])));
}

#[test]
fn search_response_round_trip() {
    let body = r#"{"batchcomplete":"","query":{"searchinfo":{"totalhits":3},"search":[
        {"ns":0,"title":"Paris","pageid":22989,"size":1},
        {"ns":0,"title":"Paris Hilton","pageid":5,"size":2},
        {"ns":0,"title":"Paris, Texas","pageid":4294967295}]}}"#;
    let pages = search_results_from_body(body).unwrap();
    assert_eq!(pages, vec![
        page("22989", "Paris"),
        page("5", "Paris Hilton"),
        page("4294967295", "Paris, Texas"),
    ]);
}

#[test]
fn search_response_with_no_entries() {
    let body = r#"{"query":{"search":[]}}"#;
    assert_eq!(search_results_from_body(body), Ok(vec![]));
}

#[test]
fn search_response_malformed() {
    assert_eq!(search_results_from_body("<html>"), Err(WikiError::Malformed));
    assert_eq!(search_results_from_body(r#"{"query":{}}"#), Err(WikiError::Malformed));
    assert_eq!(search_results_from_body(r#"{"query":{"search":{}}}"#), Err(WikiError::Malformed));
    assert_eq!(
        search_results_from_body(r#"{"query":{"search":[{"title":"A","pageid":1},{"title":"B"}]}}"#),
        Err(WikiError::Malformed)
    );
    assert_eq!(
        search_results_from_body(r#"{"query":{"search":[{"title":"A","pageid":-1}]}}"#),
        Err(WikiError::Malformed)
    );
    assert_eq!(
        search_results_from_body(r#"{"query":{"search":[{"title":"A","pageid":1.5}]}}"#),
        Err(WikiError::Malformed)
    );
    assert_eq!(
        search_results_from_body(r#"{"query":{"search":[{"title":"A","pageid":4294967296}]}}"#),
        Err(WikiError::Malformed)
    );
    assert_eq!(
        search_results_from_body(r#"{"query":{"search":[{"title":7,"pageid":1}]}}"#),
        Err(WikiError::Malformed)
    );
}

#[test]
fn search_json_built_by_hand() {
    let entry = JsonValue::Object(vec![
        ("pageid".to_string(), JsonValue::Number("42".to_string())),
        ("title".to_string(), JsonValue::Text("Answer".to_string())),
    ]);
    let doc = JsonValue::Object(vec![(
        "query".to_string(),
        JsonValue::Object(vec![("search".to_string(), JsonValue::Array(vec![entry]))]),
    )]);
    assert_eq!(pages_from_search_json(&doc), Some(vec![page("42", "Answer")]));
    assert_eq!(pages_from_search_json(&JsonValue::Null), None);
}

#[test]
fn extract_response_found() {
    let body = r#"{"batchcomplete":"","query":{"pages":{"22989":{"pageid":22989,"ns":0,"title":"Paris","extract":"Paris is the capital of France."}}}}"#;
    assert_eq!(
        extract_from_body(body, &"22989".to_string()),
        Ok("Paris is the capital of France.".to_string())
    );
}

#[test]
fn extract_response_missing_page() {
    let body = r#"{"query":{"pages":{"7":{"extract":"Other page."}}}}"#;
    assert_eq!(extract_from_body(body, &"1".to_string()), Err(WikiError::PageNotFound));
    assert_eq!(extract_from_body(r#"{"query":{"pages":{}}}"#, &"1".to_string()), Err(WikiError::PageNotFound));
}

#[test]
fn extract_response_malformed() {
    assert_eq!(extract_from_body("", &"1".to_string()), Err(WikiError::Malformed));
    assert_eq!(extract_from_body(r#"{"query":{"pages":[]}}"#, &"1".to_string()), Err(WikiError::Malformed));
    let body = r#"{"query":{"pages":{"1":{"extract":"One."},"2":{"missing":""}}}}"#;
    assert_eq!(extract_from_body(body, &"1".to_string()), Err(WikiError::Malformed));
    let doc = JsonValue::Object(vec![(
        "query".to_string(),
        JsonValue::Object(vec![("pages".to_string(), JsonValue::Object(vec![(
            "3".to_string(),
            JsonValue::Object(vec![("extract".to_string(), JsonValue::Text("Three.".to_string()))]),
        )]))]),
    )]);
    assert_eq!(extract_from_json(&doc, &"3".to_string()), Ok("Three.".to_string()));
    assert_eq!(extract_from_json(&doc, &"4".to_string()), Err(WikiError::PageNotFound));
}
