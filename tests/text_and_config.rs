use wikirag::config::config_from_settings;
use wikirag::config::model_from;
use wikirag::config::verbose_from;
use wikirag::config::wiki_pages_from;
use wikirag::config::Config;
use wikirag::config::LlmProvider;
use wikirag::config::Model;
use wikirag::text::decimal_text;
use wikirag::text::parse_u32;
use wikirag::text::push_form_encoded;

fn encoded(s: &str) -> String {
    let mut out = String::new();
    push_form_encoded(&mut out, s);
    out
}

#[test]
fn form_encoding_keeps_unreserved_bytes() {
    assert_eq!(encoded("Paris"), "Paris");
    assert_eq!(encoded("a-b_c.d*9"), "a-b_c.d*9");
    assert_eq!(encoded(""), "");
}

#[test]
fn form_encoding_escapes_the_rest() {
    assert_eq!(encoded("New York"), "New+York");
    assert_eq!(encoded("a&b=c"), "a%26b%3Dc");
    assert_eq!(encoded("100%"), "100%25");
    assert_eq!(encoded("Zürich"), "Z%C3%BCrich");
    assert_eq!(encoded("x+y/z?#"), "x%2By%2Fz%3F%23");
}

#[test]
fn decimal_text_of_numbers() {
    assert_eq!(decimal_text(0), "0");
    assert_eq!(decimal_text(7), "7");
    assert_eq!(decimal_text(22989), "22989");
    assert_eq!(decimal_text(4294967295), "4294967295");
}

#[test]
fn parse_u32_reads_decimal() {
    assert_eq!(parse_u32("3"), Some(3));
    assert_eq!(parse_u32("+12"), Some(12));
    assert_eq!(parse_u32("007"), Some(7));
    assert_eq!(parse_u32("4294967295"), Some(4294967295));
}

#[test]
fn parse_u32_refuses_the_rest() {
    assert_eq!(parse_u32(""), None);
    assert_eq!(parse_u32("+"), None);
    assert_eq!(parse_u32("-1"), None);
    assert_eq!(parse_u32("4294967296"), None);
    assert_eq!(parse_u32("99999999999999999999"), None);
    assert_eq!(parse_u32("12a"), None);
    assert_eq!(parse_u32(" 1"), None);
}

#[test]
fn page_count_zero_becomes_one() {
    assert_eq!(wiki_pages_from(Some("0")), 1);
    assert_eq!(wiki_pages_from(Some("+0")), 1);
    assert_eq!(wiki_pages_from(Some("000")), 1);
}

#[test]
fn page_count_settings() {
    assert_eq!(wiki_pages_from(None), 1);
    assert_eq!(wiki_pages_from(Some("")), 1);
    assert_eq!(wiki_pages_from(Some("three")), 1);
    assert_eq!(wiki_pages_from(Some("3")), 3);
    assert_eq!(wiki_pages_from(Some("4294967295")), 4294967295);
    assert_eq!(wiki_pages_from(Some("4294967296")), 1);
}

#[test]
fn unknown_model_falls_back_to_default() {
    assert_eq!(model_from(Some("gpt-5")), (Model::Gpt35Turbo, true));
    assert_eq!(model_from(Some("")), (Model::Gpt35Turbo, true));
    assert_eq!(model_from(Some("GPT-4O")), (Model::Gpt35Turbo, true));
    assert_eq!(model_from(None), (Model::Gpt35Turbo, false));
}

#[test]
fn allowed_models_are_chosen() {
    assert_eq!(model_from(Some("gpt-4-turbo")), (Model::Gpt4Turbo, false));
    assert_eq!(model_from(Some("gpt-3.5-turbo")), (Model::Gpt35Turbo, false));
    assert_eq!(model_from(Some("gpt-4o")), (Model::Gpt4o, false));
    assert_eq!(model_from(Some("llama3")), (Model::Llama3, false));
    assert_eq!(Model::Llama3.provider(), LlmProvider::Ollama);
    assert_eq!(Model::Gpt4o.provider(), LlmProvider::OpenAI);
    assert_eq!(Model::Gpt4o.name(), "gpt-4o");
    assert_eq!(Model::Gpt35Turbo.name(), "gpt-3.5-turbo");
    assert_eq!(Model::from_name("llama3"), Some(Model::Llama3));
    assert_eq!(Model::from_name("llama"), None);
}

#[test]
fn verbosity_settings() {
    assert!(!verbose_from(None));
    assert!(!verbose_from(Some("")));
    assert!(verbose_from(Some("0")));
    assert!(verbose_from(Some("yes")));
}

#[test]
fn configuration_from_settings() {
    let (c, unknown) = config_from_settings(Some("llama3"), Some("1"), Some("0"));
    assert!(!unknown);
    assert_eq!(c, Config { model: Model::Llama3, verbose: true, wiki_pages: 1 });
    assert_eq!(c.llm_server(), LlmProvider::Ollama);
    let (c, unknown) = config_from_settings(Some("mistral"), None, Some("5"));
    assert!(unknown);
    assert_eq!(c, Config { model: Model::Gpt35Turbo, verbose: false, wiki_pages: 5 });
    assert_eq!(c.llm_server(), LlmProvider::OpenAI);
    assert_eq!(Config::new(), Config { model: Model::Gpt35Turbo, verbose: false, wiki_pages: 1 });
}
