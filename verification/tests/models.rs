use gauge::models::{AppState, Assessment, ReviewStage, Screen, Section, Session, Tag, UiState};

fn section(id: &str, title: &str) -> Section {
    Section::new(id.to_string(), title.to_string(), String::new(), String::new())
}

#[test]
fn test_tag_badges() {
    assert_eq!(Tag::Untagged.badge(), "-");
    assert_eq!(Tag::GotIt.badge(), "1");
    assert_eq!(Tag::Shaky.badge(), "2");
    assert_eq!(Tag::Lost.badge(), "3");
}

#[test]
fn test_section_needs_review() {
    let mut section = Section::new(
        "s1".to_string(),
        "Test".to_string(),
        "Desc".to_string(),
        "code".to_string(),
    );

    section.tag = Tag::Untagged;
    assert!(!section.needs_review());

    section.tag = Tag::GotIt;
    assert!(!section.needs_review());

    section.tag = Tag::Shaky;
    assert!(section.needs_review());

    section.tag = Tag::Lost;
    assert!(section.needs_review());
}

#[test]
fn test_session_new() {
    let session = Session::new("commits:5".to_string(), "diff text".to_string());
    assert_eq!(session.identifier, "commits:5");
    assert_eq!(session.version, Session::CURRENT_VERSION);
    assert!(session.sections.is_empty());
}

#[test]
fn test_tag_counts() {
    let mut session = Session::new("test".to_string(), "".to_string());
    session.sections = vec![section("s1", "T1"), section("s2", "T2"), section("s3", "T3")];
    session.sections[0].tag = Tag::GotIt;
    session.sections[1].tag = Tag::Shaky;
    session.sections[2].tag = Tag::Lost;

    let counts = session.tag_counts();
    assert_eq!(counts.got_it, 1);
    assert_eq!(counts.shaky, 1);
    assert_eq!(counts.lost, 1);
    assert_eq!(counts.untagged, 0);
}

#[test]
fn test_all_tagged() {
    let mut session = Session::new("test".to_string(), "".to_string());
    session.sections = vec![section("s1", "T1")];

    assert!(!session.all_tagged());

    session.sections[0].tag = Tag::GotIt;
    assert!(session.all_tagged());
}

#[test]
fn test_review_stage_to_screen() {
    assert_eq!(Screen::from(ReviewStage::Loading), Screen::Loading);
    assert_eq!(Screen::from(ReviewStage::Triage), Screen::Triage);
    assert_eq!(Screen::from(ReviewStage::DeepReview), Screen::DeepReview);
    assert_eq!(Screen::from(ReviewStage::Summary), Screen::Summary);
}

#[test]
fn test_app_state_goto() {
    let session = Session::new("test".to_string(), "".to_string());
    let mut app = AppState::new(session);

    app.goto(Screen::Triage);
    assert_eq!(app.screen, Screen::Triage);
    assert_eq!(app.session.stage, ReviewStage::Triage);
}

#[test]
fn test_ui_state_error() {
    let mut ui = UiState::default();
    assert!(ui.error.is_none());

    ui.set_error("Test error");
    assert_eq!(ui.error, Some("Test error".to_string()));

    ui.clear_error();
    assert!(ui.error.is_none());
}

#[test]
fn counts_and_totals() {
    let mut session = Session::new("s".to_string(), String::new());
    session.sections = vec![section("a", "A"), section("b", "B"), section("c", "C")];
    session.sections[0].tag = Tag::Shaky;
    session.sections[1].tag = Tag::Lost;
    session.sections[0].assessment =
        Some(Assessment { correct: vec!["x".to_string()], diverges: vec![], missed: vec![] });
    session.sections[1].assessment =
        Some(Assessment { correct: vec![], diverges: vec![], missed: vec!["m".to_string()] });
    let tags = session.tag_counts();
    assert_eq!(tags.total(), 3);
    assert_eq!(tags.tagged(), 2);
    assert_eq!(tags.untagged, 1);
    let hyps = session.hypothesis_counts();
    assert_eq!(hyps.confirmed, 1);
    assert_eq!(hyps.corrected, 1);
    assert_eq!(hyps.total(), 2);
}

#[test]
fn review_lists_and_completion() {
    let mut session = Session::new("s".to_string(), String::new());
    session.sections = vec![section("a", "A"), section("b", "B"), section("c", "C")];
    assert!(!session.can_proceed_from_triage());
    session.sections[0].tag = Tag::GotIt;
    session.sections[1].tag = Tag::Shaky;
    session.sections[2].tag = Tag::Lost;
    assert!(session.can_proceed_from_triage());
    let needing = session.sections_needing_review();
    assert_eq!(needing.len(), 2);
    assert_eq!(needing[0].id, "b");
    assert!(!session.deep_review_complete());
    session.sections[1].assessment =
        Some(Assessment { correct: vec![], diverges: vec![], missed: vec![] });
    let left = session.sections_needing_deep_review();
    assert_eq!(left.len(), 1);
    assert_eq!(left[0].id, "c");
    session.sections[2].assessment =
        Some(Assessment { correct: vec![], diverges: vec![], missed: vec![] });
    assert!(session.deep_review_complete());
}

#[test]
fn goto_resets_ui_and_follows_stage() {
    let mut state = AppState::new(Session::new("s".to_string(), String::new()));
    assert_eq!(state.screen, Screen::Loading);
    state.ui.scroll_offset = 7;
    state.ui.set_error("e");
    state.goto(Screen::PseudocodeReview);
    assert_eq!(state.session.stage, ReviewStage::DeepReview);
    assert_eq!(state.ui.scroll_offset, 0);
    assert!(state.ui.error.is_none());
    state.quit();
    assert!(state.should_quit);
}

#[test]
fn current_section_follows_selection() {
    let mut session = Session::new("s".to_string(), String::new());
    session.sections = vec![section("a", "A"), section("b", "B")];
    let mut state = AppState::new(session);
    state.ui.selected_index = 1;
    assert_eq!(state.current_section().unwrap().id, "b");
    state.current_section_mut().unwrap().tag = Tag::Lost;
    assert_eq!(state.session.sections[1].tag, Tag::Lost);
    state.ui.selected_index = 2;
    assert!(state.current_section().is_none());
}

#[test]
fn retry_requests_clear_the_error() {
    let mut ui = UiState::default();
    ui.set_error("x");
    ui.request_chunking_retry();
    assert!(ui.error.is_none());
    assert!(ui.needs_chunking_retry);
    ui.set_error("y");
    ui.request_assessment_retry();
    assert!(ui.error.is_none());
    assert!(ui.needs_assessment_retry);
}

#[test]
fn duplicate_keeps_data() {
    let mut s = section("a", "A");
    s.files = vec!["f.rs".to_string()];
    s.hypothesis = Some("h".to_string());
    s.assessment = Some(Assessment { correct: vec!["c".to_string()], diverges: vec![], missed: vec![] });
    let d = s.duplicate();
    assert_eq!(d.id, "a");
    assert_eq!(d.files, vec!["f.rs".to_string()]);
    assert_eq!(d.hypothesis, Some("h".to_string()));
    assert_eq!(d.assessment.unwrap().correct, vec!["c".to_string()]);
}

#[test]
fn labels() {
    assert_eq!(Tag::Untagged.label(), "untagged");
    assert_eq!(Tag::GotIt.label(), "got it");
    assert_eq!(Tag::Shaky.label(), "shaky");
    assert_eq!(Tag::Lost.label(), "lost");
    assert_eq!(Tag::default(), Tag::Untagged);
    assert_eq!(ReviewStage::default(), ReviewStage::Loading);
}
