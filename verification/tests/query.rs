use gemini_search::query::{
    build_prompt, evaluate_reply, is_blank, join_query_parts, prepare_query, CliError,
    GeminiClient,
};

const ENDPOINT: &str =
    "https://generativelanguage.googleapis.com/v1beta/models/gemini-2.0-flash:generateContent";

#[test]
fn client_holds_key_and_endpoint() {
    let c = GeminiClient::new("k123".to_string());
    assert_eq!(c.api_key, "k123");
    assert_eq!(c.base_url, ENDPOINT);
}

#[test]
fn request_url_appends_key() {
    let c = GeminiClient::new("k123".to_string());
    assert_eq!(c.request_url(), format!("{}?key=k123", ENDPOINT));
}

#[test]
fn prompt_quotes_query_and_appends_rules() {
    let p = build_prompt("install docker");
    assert!(p.starts_with("User query: 'install docker'\n"));
    assert!(p.contains("\n            Rules:\n            - Be extremely concise and direct\n"));
    assert!(p.ends_with("Respond with only what's necessary to answer the query."));
}

#[test]
fn query_parts_join_with_single_spaces() {
    let parts = vec!["install".to_string(), "docker".to_string(), "now".to_string()];
    assert_eq!(join_query_parts(&parts), "install docker now");
    assert_eq!(join_query_parts(&vec!["one".to_string()]), "one");
    assert_eq!(join_query_parts(&Vec::new()), "");
}

#[test]
fn blank_queries_are_rejected() {
    assert_eq!(prepare_query(&vec![" ".to_string(), "\t".to_string()]), Err(CliError::EmptyQuery));
    assert_eq!(prepare_query(&Vec::new()), Err(CliError::EmptyQuery));
    assert_eq!(
        prepare_query(&vec!["hello".to_string(), "world".to_string()]),
        Ok("hello world".to_string())
    );
}

#[test]
fn blankness_means_nothing_but_whitespace() {
    assert!(is_blank(""));
    assert!(is_blank(" \t \u{a0}"));
    assert!(!is_blank(" a "));
}

#[test]
fn reply_with_text_is_returned() {
    let r = evaluate_reply(true, String::new(), Some("an answer".to_string()));
    assert_eq!(r, Ok("an answer".to_string()));
}

#[test]
fn failed_status_is_a_dispatch_failure() {
    let r = evaluate_reply(false, "status 400".to_string(), None);
    assert_eq!(r, Err(CliError::DispatchFailure("status 400".to_string())));
    let r = evaluate_reply(false, "status 500".to_string(), Some("ignored".to_string()));
    assert_eq!(r, Err(CliError::DispatchFailure("status 500".to_string())));
}

#[test]
fn missing_text_field_is_malformed() {
    let r = evaluate_reply(true, String::new(), None);
    assert_eq!(r, Err(CliError::MalformedUpstreamPayload));
}

#[test]
fn error_messages_match_what_the_program_prints() {
    assert_eq!(
        CliError::MissingCredential.describe(),
        "Error: GEMINI_API_KEY environment variable not set"
    );
    assert_eq!(CliError::EmptyQuery.describe(), "Error: Please provide a search query");
    assert_eq!(
        CliError::DispatchFailure("oops".to_string()).describe(),
        "API request failed: oops"
    );
    assert_eq!(
        CliError::MalformedUpstreamPayload.describe(),
        "No valid response found in API response"
    );
}
