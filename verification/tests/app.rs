use gauge::ai::{AssessmentError, AssessmentResult, ChunkingError, ChunkingResult};
use gauge::app::App;
use gauge::models::{Assessment, ReviewStage, Screen, Section, Session, Tag};
use gauge::screens::layout::{classify_line, extension_of, wrapped_height, LineKind};
use gauge::screens::{handle_error_state_input, handle_scroll_input, ErrorInputResult, Key, KeyCode};

fn session_with_sections() -> Session {
    let mut s = Session::new("test".to_string(), "diff".to_string());
    s.sections = vec![
        Section::new("s1".to_string(), "One".to_string(), "D1".to_string(), "c1".to_string()),
        Section::new("s2".to_string(), "Two".to_string(), "D2".to_string(), "c2".to_string()),
    ];
    s
}

#[test]
fn app_starts_on_the_stage_screen() {
    let mut session = session_with_sections();
    session.stage = ReviewStage::Triage;
    let app = App::new(session);
    assert_eq!(app.state().screen, Screen::Triage);
    assert_eq!(app.session().sections.len(), 2);
    assert!(!app.state().should_quit);
}

#[test]
fn keys_go_to_the_screen_shown() {
    let mut session = session_with_sections();
    session.stage = ReviewStage::Triage;
    let mut app = App::new(session);
    let one = Key::plain(KeyCode::Char('1'));
    assert!(app.accepts_key(one));
    app.handle_key(one).unwrap();
    assert_eq!(app.state.session.sections[0].tag, Tag::GotIt);
    app.handle_key(Key::plain(KeyCode::Char('3'))).unwrap();
    assert_eq!(app.state.screen, Screen::DeepReview);
    app.handle_key(Key::with_ctrl(KeyCode::Char('c'))).unwrap();
    assert!(app.state.should_quit);
}

#[test]
fn chunking_outcomes() {
    let mut app = App::new(Session::new("t".to_string(), "d".to_string()));
    app.apply_chunking(ChunkingResult::Success(vec![]));
    assert_eq!(
        app.state.ui.error,
        Some("AI returned no sections. The diff may be too small.".to_string())
    );
    app.apply_chunking(ChunkingResult::Error(ChunkingError::new("nope")));
    assert_eq!(app.state.ui.error, Some("nope".to_string()));
    app.apply_chunking(ChunkingResult::Success(session_with_sections().sections));
    assert_eq!(app.state.screen, Screen::Triage);
    assert_eq!(app.state.session.stage, ReviewStage::Triage);
    assert!(app.state.ui.error.is_none());
}

#[test]
fn chunking_retry_reports_refusal() {
    let mut app = App::new(Session::new("t".to_string(), "d".to_string()));
    app.state.ui.set_error("old");
    app.state.ui.request_chunking_retry();
    app.handle_chunking_retry();
    assert!(!app.state.ui.needs_chunking_retry);
    assert_eq!(
        app.state.ui.error,
        Some("AI chunking is no longer supported. Use 'sherpa section add' instead.".to_string())
    );
}

#[test]
fn assessment_round_trip() {
    let mut session = session_with_sections();
    session.stage = ReviewStage::DeepReview;
    let mut app = App::new(session);
    app.state.ui.selected_index = 1;
    app.state.ui.input_text = "it adds".to_string();
    app.state.ui.cursor_position = 7;
    app.state.session.draft_hypothesis = Some("it adds".to_string());
    app.state.ui.needs_assessment_retry = true;
    let (row, code, hypothesis) = app.take_assessment_request().unwrap();
    assert!(!app.state.ui.needs_assessment_retry);
    assert_eq!(row, 1);
    assert_eq!(code, "c2");
    assert_eq!(hypothesis, "it adds");
    let assessment = Assessment { correct: vec!["yes".to_string()], diverges: vec![], missed: vec![] };
    app.apply_assessment(row, hypothesis, AssessmentResult::Success(assessment));
    assert_eq!(app.state.session.sections[1].hypothesis, Some("it adds".to_string()));
    assert!(app.state.session.sections[1].is_reviewed());
    assert!(app.state.session.draft_hypothesis.is_none());
    assert_eq!(app.state.ui.input_text, "");
    assert_eq!(app.state.ui.cursor_position, 0);
    assert!(app.take_assessment_request().is_none());
}

#[test]
fn assessment_error_and_empty_request() {
    let mut app = App::new(session_with_sections());
    app.state.ui.needs_assessment_retry = true;
    assert!(app.take_assessment_request().is_none());
    app.apply_assessment(0, "h".to_string(), AssessmentResult::Error(AssessmentError::new("failed")));
    assert_eq!(app.state.ui.error, Some("failed".to_string()));
    assert!(app.state.session.sections[0].hypothesis.is_none());
}

#[test]
fn unsafe_backspace_is_refused() {
    let mut session = session_with_sections();
    session.stage = ReviewStage::DeepReview;
    let mut app = App::new(session);
    app.state.screen = Screen::PseudocodeReview;
    app.state.ui.input_text = "\u{e9}".to_string();
    app.state.ui.cursor_position = 2;
    assert!(!app.accepts_key(Key::plain(KeyCode::Backspace)));
    app.state.ui.input_text = "ab".to_string();
    assert!(app.accepts_key(Key::plain(KeyCode::Backspace)));
}

#[test]
fn shared_key_helpers() {
    let mut offset = 5usize;
    assert_eq!(handle_scroll_input(&Key::with_ctrl(KeyCode::Char('d')), &mut offset), Some(true));
    assert_eq!(offset, 15);
    assert_eq!(handle_scroll_input(&Key::plain(KeyCode::PageUp), &mut offset), Some(true));
    assert_eq!(offset, 0);
    assert_eq!(handle_scroll_input(&Key::plain(KeyCode::Char('d')), &mut offset), None);
    let mut big = usize::MAX - 3;
    handle_scroll_input(&Key::plain(KeyCode::PageDown), &mut big);
    assert_eq!(big, usize::MAX);
    assert_eq!(handle_error_state_input(&Key::plain(KeyCode::Char('q'))), ErrorInputResult::Quit);
    assert_eq!(handle_error_state_input(&Key::plain(KeyCode::Char('r'))), ErrorInputResult::Retry);
    assert_eq!(handle_error_state_input(&Key::plain(KeyCode::Esc)), ErrorInputResult::NotHandled);
}

#[test]
fn diff_line_kinds_and_extensions() {
    assert_eq!(classify_line("diff --git a/x b/x"), LineKind::Meta);
    assert_eq!(classify_line("--- a/x"), LineKind::Meta);
    assert_eq!(classify_line("+++ b/x"), LineKind::Meta);
    assert_eq!(classify_line("@@ -1 +1 @@"), LineKind::HunkHeader);
    assert_eq!(classify_line("+x"), LineKind::Added);
    assert_eq!(classify_line("-x"), LineKind::Removed);
    assert_eq!(classify_line(" x"), LineKind::Context);
    assert_eq!(classify_line("x"), LineKind::Plain);
    assert_eq!(classify_line("---x"), LineKind::Removed);
    assert_eq!(extension_of("src/main.rs"), "rs");
    assert_eq!(extension_of("a.tar.gz"), "gz");
    assert_eq!(extension_of("Makefile"), "Makefile");
}

#[test]
fn wrapped_heights() {
    assert_eq!(wrapped_height("", 10), 0);
    assert_eq!(wrapped_height("abc", 0), 0);
    assert_eq!(wrapped_height("hello world", 5), 2);
    assert_eq!(wrapped_height("hello world", 11), 1);
    assert_eq!(wrapped_height("aaa bbb ccc", 7), 2);
    assert_eq!(wrapped_height("a\n\nb", 10), 3);
    assert_eq!(wrapped_height("   ", 5), 1);
    assert_eq!(wrapped_height("\u{e9} \u{e9}", 3), 2);
    assert_eq!(wrapped_height("averyveryverylongword x", 4), 2);
    assert_eq!(wrapped_height("x\n", 4), 2);
}
