use gauge::ai::claude::{
    build_assessment_prompt, extract_json_object, find_matching_bracket, invalid_json_message,
    missing_json_message, truncate,
};
use gauge::ai::{AssessmentResult, ClaudeClient};
use gauge::models::Assessment;

#[test]
fn test_extract_json_object_from_code_block() {
    let response = r#"```json
{
  "correct": ["point 1"],
  "diverges": [],
  "missed": ["point 2"]
}
```"#;

    let extracted = extract_json_object(response).unwrap();
    assert!(extracted.starts_with('{'));
    assert!(extracted.contains("correct"));
}

#[test]
fn test_extract_json_object_raw() {
    let response = r#"{"correct": [], "diverges": [], "missed": []}"#;
    let extracted = extract_json_object(response).unwrap();
    assert_eq!(extracted, response);
}

#[test]
fn test_find_matching_bracket_simple() {
    assert_eq!(find_matching_bracket("{}", '{', '}'), Some(1));
}

#[test]
fn test_find_matching_bracket_nested() {
    assert_eq!(find_matching_bracket(r#"{"a": {"b": 1}}"#, '{', '}'), Some(14));
}

#[test]
fn test_find_matching_bracket_with_strings() {
    assert_eq!(
        find_matching_bracket(r#"{"key": "value with } brace"}"#, '{', '}'),
        Some(28)
    );
}

#[test]
fn test_truncate() {
    assert_eq!(truncate("hello", 10), "hello");
    assert_eq!(truncate("hello world", 5), "hello...");
}

#[test]
fn test_build_assessment_prompt() {
    let prompt = build_assessment_prompt("code here", "my hypothesis");
    assert!(prompt.contains("code here"));
    assert!(prompt.contains("my hypothesis"));
    assert!(prompt.contains("correct"));
    assert!(prompt.contains("diverges"));
    assert!(prompt.contains("missed"));
}

#[test]
fn test_claude_client_is_not_busy_by_default() {
    let client = ClaudeClient::new();
    assert!(!client.is_busy());
}

#[test]
fn test_truncate_with_multibyte_utf8() {
    let s = "Hello \u{1F600} World";
    let result = truncate(s, 8);
    assert!(result.ends_with("..."));
}

#[test]
fn test_truncate_cjk_characters() {
    let s = "\u{4e2d}\u{6587}\u{6d4b}\u{8bd5}";
    let result = truncate(s, 4);
    assert!(result.ends_with("..."));
}

#[test]
fn test_extract_json_object_partial_json() {
    let response = r#"{"incomplete": true, "missing_close"#;
    assert!(extract_json_object(response).is_none());
}

#[test]
fn test_extract_json_with_escaped_backslashes() {
    let response = r#"{"correct": ["path\\to\\file"], "diverges": [], "missed": []}"#;
    let extracted = extract_json_object(response).unwrap();
    let parsed: serde_json::Value = serde_json::from_str(&extracted).unwrap();
    assert!(parsed["correct"][0].as_str().unwrap().contains("path\\to\\file"));
}

#[test]
fn test_extract_json_with_nested_quotes_in_code() {
    let response = r#"{"correct": ["User said \"hello\""], "diverges": [], "missed": []}"#;
    let extracted = extract_json_object(response).unwrap();
    let parsed: serde_json::Value = serde_json::from_str(&extracted).unwrap();
    assert!(parsed["correct"][0].as_str().unwrap().contains("\"hello\""));
}

#[test]
fn test_find_matching_bracket_with_escaped_backslash_before_quote() {
    let json = r#"{"key": "value\\"}"#;
    let result = find_matching_bracket(json, '{', '}');
    assert_eq!(result, Some(17));
}

#[test]
fn test_find_matching_bracket_malformed_extra_closing() {
    assert_eq!(find_matching_bracket("}", '{', '}'), None);
}

#[test]
fn extract_json_prefers_fenced_json_block() {
    let response = "Here it is:\n```json\n  {\"a\": 1}  \n```\ntrailing {\"b\": 2}";
    assert_eq!(extract_json_object(response).unwrap(), "{\"a\": 1}");
}

#[test]
fn extract_json_from_plain_fence_only_when_it_starts_with_brace() {
    let fenced = "```\n{\"x\": [1]}\n```";
    assert_eq!(extract_json_object(fenced).unwrap(), "{\"x\": [1]}");
    let not_json = "```\nhello\n``` then {\"y\": 0}";
    assert_eq!(extract_json_object(not_json).unwrap(), "{\"y\": 0}");
}

#[test]
fn extract_json_embedded_in_prose() {
    let response = "The answer is {\"k\": \"}\"} and more";
    assert_eq!(extract_json_object(response).unwrap(), "{\"k\": \"}\"}");
}

#[test]
fn extract_json_none_without_brace() {
    assert!(extract_json_object("no json here").is_none());
}

#[test]
fn find_matching_bracket_counts_bytes() {
    // The closing brace comes after a two-byte character.
    assert_eq!(find_matching_bracket("{\u{e9}}", '{', '}'), Some(3));
    assert_eq!(find_matching_bracket("[[1],[2]]", '[', ']'), Some(8));
    assert_eq!(find_matching_bracket("{", '{', '}'), None);
}

#[test]
fn truncate_keeps_short_text_and_cuts_at_char_boundary() {
    assert_eq!(truncate("", 0), "");
    assert_eq!(truncate("abc", 3), "abc");
    assert_eq!(truncate("abcd", 3), "abc...");
    // "é" is two bytes: a cut inside it backs off to before it.
    assert_eq!(truncate("a\u{e9}b", 2), "a...");
}

#[test]
fn assessment_prompt_ends_with_code_then_hypothesis() {
    let prompt = build_assessment_prompt("fn f() {}", "it does nothing");
    assert!(prompt.ends_with("fn f() {}\n\nDEVELOPER'S HYPOTHESIS:\nit does nothing"));
    assert!(prompt.starts_with("You are evaluating a developer's understanding"));
}

#[test]
fn client_busy_rules() {
    let mut client = ClaudeClient::new();
    let prompt = client.begin_assessment("code", "hyp");
    assert!(prompt.is_ok());
    assert!(client.is_busy());
    match client.begin_assessment("code", "hyp") {
        Err(AssessmentResult::Error(e)) => {
            assert_eq!(e.message, "AI client is busy with another operation")
        }
        _ => panic!("a second assessment must be refused"),
    }
    client.end_assessment();
    assert!(!client.is_busy());
}

#[test]
fn assessment_outcomes() {
    let client = ClaudeClient::new();
    let ok = client.assess_hypothesis_impl(
        Ok("reply".to_string()),
        Ok(Assessment { correct: vec!["c".to_string()], diverges: vec![], missed: vec![] }),
    );
    assert!(ok.is_success());
    let bad = client.assess_hypothesis_impl(Ok("reply".to_string()), Err("bad".to_string()));
    match bad {
        AssessmentResult::Error(e) => {
            assert_eq!(e.message, "bad");
            assert_eq!(e.raw_output, Some("reply".to_string()));
        }
        _ => panic!("expected an error"),
    }
    let failed = client.assess_hypothesis_impl(Err("cli failed".to_string()), Err("x".to_string()));
    match failed {
        AssessmentResult::Error(e) => {
            assert_eq!(e.message, "cli failed");
            assert_eq!(e.raw_output, None);
        }
        _ => panic!("expected an error"),
    }
}

#[test]
fn json_error_messages() {
    assert_eq!(
        missing_json_message("plain text"),
        "No valid JSON object found in response: plain text"
    );
    assert_eq!(
        invalid_json_message("missing field", "{}"),
        "Failed to parse assessment JSON: missing field. Raw: {}"
    );
}

#[test]
fn chunking_is_refused() {
    let mut client = ClaudeClient::new();
    let result = client.chunk_diff("diff");
    assert!(!result.is_success());
}

#[test]
fn unfenced_reply_takes_first_balanced_group() {
    assert_eq!(
        extract_json_object("  {\"a\": [1, {\"b\": 2}]}  trailing").unwrap(),
        "{\"a\": [1, {\"b\": 2}]}"
    );
    assert_eq!(
        extract_json_object("note {\"a\": \"}\"} more {\"c\": 3}").unwrap(),
        "{\"a\": \"}\"}"
    );
    assert!(extract_json_object("no json { here").is_none());
}

#[test]
fn finishing_an_assessment_frees_the_client() {
    let mut client = ClaudeClient::new();
    assert!(client.begin_assessment("code", "hyp").is_ok());
    let result = client.finish_assessment(
        Ok("reply".to_string()),
        Ok(Assessment { correct: vec![], diverges: vec!["d".to_string()], missed: vec![] }),
    );
    assert!(result.is_success());
    assert!(!client.is_busy());
    assert!(client.begin_assessment("code", "hyp").is_ok());
    let failed = client.finish_assessment(Err("cli failed".to_string()), Err("x".to_string()));
    match failed {
        AssessmentResult::Error(e) => assert_eq!(e.message, "cli failed"),
        _ => panic!("expected an error"),
    }
    assert!(!client.is_busy());
}
