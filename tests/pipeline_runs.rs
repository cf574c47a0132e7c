use wikirag::chat::answer_request;
use wikirag::chat::first_reply;
use wikirag::chat::keyword_request;
use wikirag::chat::ChatMessage;
use wikirag::chat::ChatRequest;
use wikirag::chat::Role;
use wikirag::config::Config;
use wikirag::config::Model;
use wikirag::pipeline::exit_code;
use wikirag::pipeline::Action;
use wikirag::pipeline::Failure;
use wikirag::pipeline::Pipeline;
use wikirag::pipeline::Stage;
use wikirag::wiki::extract_url;
use wikirag::wiki::search_url;
use wikirag::wiki::WikiError;

const INSTRUCTION: &str = "Extract exactly one keyword from the user's question for a Wikipedia lookup, respond with just the single keyword.";
const LEAD: &str = "Now answer the following question, using the information in the provided text: ";

fn config(pages: u32) -> Config {
    Config { model: Model::Gpt35Turbo, verbose: false, wiki_pages: pages }
}

fn search_body(ids: &[u32]) -> String {
    let entries: Vec<String> =
        ids.iter().map(|i| format!("{{\"title\":\"Page {}\",\"pageid\":{}}}", i, i)).collect();
    format!("{{\"query\":{{\"search\":[{}]}}}}", entries.join(","))
}

fn extract_body(id: u32, text: &str) -> String {
    format!("{{\"query\":{{\"pages\":{{\"{}\":{{\"extract\":\"{}\"}}}}}}}}", id, text)
}

fn user(content: &str) -> ChatMessage {
    ChatMessage { role: Role::User, name: None, content: content.to_string() }
}

fn context(content: &str) -> ChatMessage {
    ChatMessage { role: Role::System, name: Some("Wikipedia".to_string()), content: content.to_string() }
}

#[test]
fn keyword_request_asks_for_one_keyword() {
    let r = keyword_request(Model::Gpt4o, "Who wrote Hamlet?");
    assert_eq!(r, ChatRequest {
        model: Model::Gpt4o,
        max_tokens: 32,
        messages: vec![
            ChatMessage { role: Role::System, name: None, content: INSTRUCTION.to_string() },
            user("Who wrote Hamlet?"),
        ],
    });
}

#[test]
fn answer_request_tags_each_extract() {
    let extracts = vec!["First.".to_string(), "Second.".to_string()];
    let r = answer_request(Model::Llama3, &extracts, "Why?");
    assert_eq!(r, ChatRequest {
        model: Model::Llama3,
        max_tokens: 1000,
        messages: vec![context("First."), context("Second."), user(&format!("{}Why?", LEAD))],
    });
    let r = answer_request(Model::Llama3, &vec![], "Why?");
    assert_eq!(r.messages, vec![user(&format!("{}Why?", LEAD))]);
}

#[test]
fn first_reply_takes_first_choice() {
    assert_eq!(first_reply(&vec![]), None);
    assert_eq!(first_reply(&vec![None, Some("b".to_string())]), None);
    assert_eq!(first_reply(&vec![Some("a".to_string()), Some("b".to_string())]), Some("a".to_string()));
}

#[test]
fn exit_codes_name_the_stage() {
    assert_eq!(exit_code(Stage::Keyword), 1);
    assert_eq!(exit_code(Stage::Search), 2);
    assert_eq!(exit_code(Stage::Fetch), 3);
    assert_eq!(exit_code(Stage::Answer), 4);
    assert_eq!(exit_code(Stage::Done), 0);
}

#[test]
fn question_and_keyword_are_trimmed() {
    let (mut p, a) = Pipeline::new(config(1), "  What is the capital of France?\n");
    assert_eq!(p.question, "What is the capital of France?");
    assert_eq!(a, Action::Chat(keyword_request(Model::Gpt35Turbo, "What is the capital of France?")));
    let a = p.on_keyword(Some(" Paris\n".to_string()));
    assert_eq!(p.keyword, "Paris");
    assert_eq!(a, Action::Fetch(search_url("Paris")));
}

#[test]
fn missing_keyword_searches_fixed_text() {
    let (mut p, _) = Pipeline::new(config(1), "Hello?");
    let a = p.on_keyword(None);
    assert_eq!(a, Action::Fetch(search_url("No response")));
    assert_eq!(p.stage, Stage::Search);
}

#[test]
fn end_to_end_capital_of_france() {
    let (mut p, a) = Pipeline::new(config(1), "What is the capital of France?\n");
    assert!(matches!(a, Action::Chat(_)));
    let a = p.on_keyword(Some("Paris".to_string()));
    assert_eq!(a, Action::Fetch(search_url("Paris")));
    let a = p.on_search_body(r#"{"query":{"search":[{"pageid":1,"title":"Paris"}]}}"#);
    assert_eq!(a, Action::Fetch(extract_url("1")));
    let a = p.on_extract_body(&extract_body(1, "Paris is the capital of France."));
    assert_eq!(a, Action::Chat(answer_request(
        Model::Gpt35Turbo,
        &vec!["Paris is the capital of France.".to_string()],
        "What is the capital of France?",
    )));
    let a = p.on_answer(Some("The capital of France is Paris.".to_string()));
    assert_eq!(a, Action::Finish(Some("The capital of France is Paris.".to_string())));
    assert_eq!(p.stage, Stage::Done);
    assert_eq!(exit_code(p.stage), 0);
}

#[test]
fn end_to_end_page_not_found() {
    let (mut p, _) = Pipeline::new(config(1), "What is the capital of France?\n");
    p.on_keyword(Some("Paris".to_string()));
    p.on_search_body(r#"{"query":{"search":[{"pageid":1,"title":"Paris"}]}}"#);
    let a = p.on_extract_body(&extract_body(2, "Something else."));
    assert_eq!(a, Action::Fail(Stage::Fetch, Failure::Wiki(WikiError::PageNotFound)));
    assert_eq!(exit_code(Stage::Fetch), 3);
    assert_eq!(p.stage, Stage::Done);
    assert!(p.extracts.is_empty());
}

fn run_fetches(pages: u32, ids: &[u32]) -> (Vec<String>, Action) {
    let (mut p, _) = Pipeline::new(config(pages), "q");
    p.on_keyword(Some("k".to_string()));
    let mut fetched = vec![];
    let mut a = p.on_search_body(&search_body(ids));
    while let Action::Fetch(url) = &a {
        fetched.push(url.clone());
        let id = ids[fetched.len() - 1];
        a = p.on_extract_body(&extract_body(id, &format!("Text {}", id)));
    }
    (fetched, a)
}

#[test]
fn fetches_fewer_pages_than_found() {
    let (fetched, a) = run_fetches(2, &[10, 20, 30]);
    assert_eq!(fetched, vec![extract_url("10"), extract_url("20")]);
    assert_eq!(a, Action::Chat(answer_request(
        Model::Gpt35Turbo,
        &vec!["Text 10".to_string(), "Text 20".to_string()],
        "q",
    )));
}

#[test]
fn fetches_all_pages_found_when_fewer_than_asked() {
    let (fetched, a) = run_fetches(5, &[7, 3]);
    assert_eq!(fetched, vec![extract_url("7"), extract_url("3")]);
    assert!(matches!(a, Action::Chat(_)));
}

#[test]
fn empty_search_ends_without_fetching() {
    let (fetched, a) = run_fetches(3, &[]);
    assert!(fetched.is_empty());
    assert_eq!(a, Action::NoMatches);
}

#[test]
fn failures_name_their_stage() {
    let (mut p, _) = Pipeline::new(config(1), "q");
    let a = p.on_failure("connection refused".to_string());
    assert_eq!(a, Action::Fail(Stage::Keyword, Failure::Transport("connection refused".to_string())));
    let (mut p, _) = Pipeline::new(config(1), "q");
    p.on_keyword(Some("k".to_string()));
    assert_eq!(p.on_search_body("oops"), Action::Fail(Stage::Search, Failure::Wiki(WikiError::Malformed)));
    let (mut p, _) = Pipeline::new(config(1), "q");
    p.on_keyword(Some("k".to_string()));
    p.on_search_body(&search_body(&[1]));
    p.on_extract_body(&extract_body(1, "x"));
    let a = p.on_failure("timeout".to_string());
    assert_eq!(a, Action::Fail(Stage::Answer, Failure::Transport("timeout".to_string())));
}

#[test]
fn answer_without_content() {
    let (mut p, _) = Pipeline::new(config(1), "q");
    p.on_keyword(Some("k".to_string()));
    p.on_search_body(&search_body(&[1]));
    p.on_extract_body(&extract_body(1, "x"));
    assert_eq!(p.on_answer(None), Action::Finish(None));
}
