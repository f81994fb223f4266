use gauge::ai::{AiClient, AssessmentResult, ChunkingError, ChunkingResult, MockAiClient};
use gauge::models::Assessment;

#[test]
fn test_mock_client_chunk_diff() {
    let mut client = MockAiClient::new();
    let result = client.chunk_diff("some diff");
    assert!(result.is_success());

    let sections = result.sections().unwrap();
    assert_eq!(sections.len(), 3);
    assert_eq!(sections[0].title, "Core Data Models");
}

#[test]
fn test_mock_client_assess_hypothesis() {
    let mut client = MockAiClient::new();
    let result = client.assess_hypothesis("code", "hypothesis");
    assert!(result.is_success());

    let assessment = result.assessment().unwrap();
    assert!(!assessment.correct.is_empty());
}

#[test]
fn test_mock_client_is_busy() {
    let client = MockAiClient::new();
    assert!(!client.is_busy());
}

#[test]
fn test_mock_client_rejects_concurrent_chunk_diff() {
    let mut client = MockAiClient::new();
    client.set_busy(true);

    let result = client.chunk_diff("some diff");
    assert!(!result.is_success());
}

#[test]
fn test_mock_client_rejects_concurrent_assess_hypothesis() {
    let mut client = MockAiClient::new();
    client.set_busy(true);

    let result = client.assess_hypothesis("code", "hypothesis");
    assert!(!result.is_success());
}

#[test]
fn test_chunking_result_success() {
    let result = ChunkingResult::Success(vec![]);
    assert!(result.is_success());
}

#[test]
fn test_chunking_result_error() {
    let result = ChunkingResult::Error(ChunkingError::new("test error"));
    assert!(!result.is_success());
}

#[test]
fn test_assessment_result_success() {
    let assessment = Assessment { correct: vec![], diverges: vec![], missed: vec![] };
    let result = AssessmentResult::Success(assessment);
    assert!(result.is_success());
}

#[test]
fn mock_sections_in_order() {
    let mut client = MockAiClient::new();
    let sections = client.chunk_diff("d").sections().unwrap();
    assert_eq!(sections[0].id, "sec_1");
    assert_eq!(sections[1].title, "API Handlers");
    assert_eq!(sections[2].code, "// stub code for section 3");
}

#[test]
fn busy_error_message_and_output() {
    let mut client = MockAiClient::new();
    client.set_busy(true);
    match client.assess_hypothesis("c", "h") {
        AssessmentResult::Error(e) => {
            assert_eq!(e.message, "AI client is busy with another operation");
            assert!(e.raw_output.is_none());
        }
        AssessmentResult::Success(_) => panic!("busy client must refuse"),
    }
    let e = ChunkingError::new("boom").with_output("raw");
    assert_eq!(e.message, "boom");
    assert_eq!(e.raw_output, Some("raw".to_string()));
}
