use gauge::models::{Assessment, CodeBlock, CodeSource, ReviewStage, Section, Session, Tag};

fn create_test_session(name: &str) -> Session {
    let mut session = Session::new(name.to_string(), "abc123def456".to_string());
    let mut sec1 = Section::new(
        "sec_1".to_string(),
        "Core Models".to_string(),
        "Data model definitions".to_string(),
        String::new(),
    );
    sec1.code_blocks = vec![CodeBlock {
        id: "code_1".to_string(),
        source: CodeSource::Diff {
            paths: vec!["src/models.rs".to_string()],
            hunks: None,
            lines: None,
        },
        content: "+fn new() -> Self".to_string(),
    }];
    let mut sec2 = Section::new(
        "sec_2".to_string(),
        "API Handlers".to_string(),
        "HTTP endpoint handlers".to_string(),
        String::new(),
    );
    sec2.code_blocks = vec![CodeBlock {
        id: "code_1".to_string(),
        source: CodeSource::Diff {
            paths: vec!["src/handlers.rs".to_string()],
            hunks: None,
            lines: None,
        },
        content: "+async fn handle()".to_string(),
    }];
    session.sections = vec![sec1, sec2];
    session
}

#[test]
fn test_complete_review_flow() {
    let session = create_test_session("e2e-flow-test");
    assert_eq!(session.stage, ReviewStage::Loading);

    let mut session = session;
    session.sections[0].tag = Tag::GotIt;
    session.sections[1].tag = Tag::Shaky;
    session.stage = ReviewStage::Triage;

    assert!(session.all_tagged());
    assert!(session.can_proceed_from_triage());

    let needs_review = session.sections_needing_review();
    assert_eq!(needs_review.len(), 1);
    assert_eq!(needs_review[0].title, "API Handlers");

    session.sections[1].hypothesis = Some("Handles HTTP requests".to_string());
    session.sections[1].assessment = Some(Assessment {
        correct: vec!["Correctly identified HTTP handling".to_string()],
        diverges: vec![],
        missed: vec!["Also handles WebSocket".to_string()],
    });
    session.stage = ReviewStage::DeepReview;
    assert!(session.sections[1].is_reviewed());

    session.stage = ReviewStage::Summary;
    let counts = session.hypothesis_counts();
    assert_eq!(counts.corrected, 1);
}

#[test]
fn test_all_got_it_skips_deep_review() {
    let mut session = create_test_session("e2e-all-got-it");
    session.sections[0].tag = Tag::GotIt;
    session.sections[1].tag = Tag::GotIt;
    assert!(session.sections_needing_review().is_empty());
    assert!(session.can_proceed_from_triage());
    session.stage = ReviewStage::Summary;
    assert_eq!(session.stage, ReviewStage::Summary);
}

#[test]
fn test_statistics_calculation() {
    let mut session = create_test_session("e2e-stats");
    session.sections[0].tag = Tag::GotIt;
    session.sections[1].tag = Tag::Lost;

    let tag_counts = session.tag_counts();
    assert_eq!(tag_counts.got_it, 1);
    assert_eq!(tag_counts.lost, 1);
    assert_eq!(tag_counts.total(), 2);

    session.sections[1].hypothesis = Some("hypothesis".to_string());
    session.sections[1].assessment = Some(Assessment {
        correct: vec!["correct".to_string()],
        diverges: vec![],
        missed: vec![],
    });
    let hyp_counts = session.hypothesis_counts();
    assert_eq!(hyp_counts.confirmed, 1);
    assert_eq!(hyp_counts.corrected, 0);

    session.sections[0].hypothesis = Some("hypothesis 2".to_string());
    session.sections[0].assessment = Some(Assessment {
        correct: vec![],
        diverges: vec!["wrong".to_string()],
        missed: vec![],
    });
    let hyp_counts = session.hypothesis_counts();
    assert_eq!(hyp_counts.confirmed, 1);
    assert_eq!(hyp_counts.corrected, 1);
}

/// Test code block concatenation
#[test]
fn test_code_block_concatenation() {
    let mut section = Section::new(
        "sec_1".to_string(),
        "Test".to_string(),
        "Desc".to_string(),
        String::new(),
    );
    section.code_blocks = vec![
        CodeBlock {
            id: "code_1".to_string(),
            source: CodeSource::Diff {
                paths: vec!["a.rs".to_string()],
                hunks: None,
                lines: None,
            },
            content: "+line 1\n+line 2".to_string(),
        },
        CodeBlock {
            id: "code_2".to_string(),
            source: CodeSource::File {
                path: "b.rs".to_string(),
                lines: Some((1, 10)),
            },
            content: "fn main() {}".to_string(),
        },
    ];

    let code = section.code();
    assert!(code.contains("+line 1"));
    assert!(code.contains("fn main()"));
    assert_eq!(code, "+line 1\n+line 2\nfn main() {}");
}
