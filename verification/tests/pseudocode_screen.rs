use gauge::models::{AppState, Assessment, Screen, Section, Session, Tag};
use gauge::screens::pseudocode::{PseudocodeReviewScreen, PseudocodeState};
use gauge::screens::{Key, KeyCode};

fn key(c: char) -> Key {
    Key::plain(KeyCode::Char(c))
}

fn create_test_state() -> AppState {
    let mut session = Session::new("test".to_string(), "".to_string());
    session.sections = vec![Section::new(
        "s1".to_string(),
        "Test Section".to_string(),
        "Description".to_string(),
        "+added line".to_string(),
    )];
    session.sections[0].tag = Tag::Shaky;
    let mut state = AppState::new(session);
    state.ui.selected_index = 0;
    state
}

#[test]
fn test_pseudocode_screen_new() {
    let screen = PseudocodeReviewScreen::new();
    assert_eq!(screen.state, PseudocodeState::Input);
}

#[test]
fn test_pseudocode_screen_typing() {
    let mut screen = PseudocodeReviewScreen::new();
    let mut state = create_test_state();
    screen.handle_input(key('h'), &mut state).unwrap();
    assert_eq!(state.ui.input_text, "h");
    screen.handle_input(key('i'), &mut state).unwrap();
    assert_eq!(state.ui.input_text, "hi");
    assert_eq!(state.session.draft_hypothesis, Some("hi".to_string()));
}

#[test]
fn test_pseudocode_screen_backspace() {
    let mut screen = PseudocodeReviewScreen::new();
    let mut state = create_test_state();
    state.ui.input_text = "test".to_string();
    state.ui.cursor_position = 4;
    screen.handle_input(Key::plain(KeyCode::Backspace), &mut state).unwrap();
    assert_eq!(state.ui.input_text, "tes");
    assert_eq!(state.ui.cursor_position, 3);
}

#[test]
fn test_pseudocode_screen_submit() {
    let mut screen = PseudocodeReviewScreen::new();
    let mut state = create_test_state();
    state.ui.input_text = "My hypothesis".to_string();
    screen.handle_input(Key::plain(KeyCode::Enter), &mut state).unwrap();
    assert_eq!(screen.state, PseudocodeState::Submitted);
    assert!(state.ui.needs_assessment_retry);
    assert_eq!(state.ui.input_text, "My hypothesis");
}

#[test]
fn test_pseudocode_screen_esc_saves_draft() {
    let mut screen = PseudocodeReviewScreen::new();
    let mut state = create_test_state();
    state.ui.input_text = "partial hypothesis".to_string();
    screen.handle_input(Key::plain(KeyCode::Esc), &mut state).unwrap();
    assert_eq!(state.session.draft_hypothesis, Some("partial hypothesis".to_string()));
    assert_eq!(state.screen, Screen::DeepReview);
}

#[test]
fn test_pseudocode_screen_error_preserves_hypothesis() {
    let mut screen = PseudocodeReviewScreen::new();
    let mut state = create_test_state();
    state.ui.input_text = "my hypothesis".to_string();
    state.ui.set_error("AI error");

    let result = screen.handle_input(key('a'), &mut state).unwrap();
    assert!(!result);

    screen.handle_input(key('r'), &mut state).unwrap();
    assert!(state.ui.error.is_none());
    assert_eq!(state.ui.input_text, "my hypothesis");
    assert!(state.ui.needs_assessment_retry);
    assert_eq!(screen.state, PseudocodeState::Submitted);
}

#[test]
fn test_pseudocode_screen_empty_enter_ignored() {
    let mut screen = PseudocodeReviewScreen::new();
    let mut state = create_test_state();
    let result = screen.handle_input(Key::plain(KeyCode::Enter), &mut state).unwrap();
    assert!(!result);
    assert!(state.session.sections[0].assessment.is_none());
}

#[test]
fn test_pseudocode_screen_quit_only_when_empty() {
    let mut screen = PseudocodeReviewScreen::new();
    let mut state = create_test_state();
    screen.handle_input(key('q'), &mut state).unwrap();
    assert!(state.should_quit);

    state.should_quit = false;
    state.ui.input_text = "typing".to_string();
    screen.handle_input(key('q'), &mut state).unwrap();
    assert!(!state.should_quit);
    assert_eq!(state.ui.input_text, "typingq");
}

#[test]
fn test_pseudocode_response_navigation() {
    let mut screen = PseudocodeReviewScreen::new();
    let mut state = create_test_state();
    state.session.sections[0].hypothesis = Some("hypothesis".to_string());
    state.session.sections[0].assessment = Some(Assessment {
        correct: vec!["Good point".to_string()],
        diverges: vec![],
        missed: vec![],
    });
    screen.handle_input(Key::plain(KeyCode::Enter), &mut state).unwrap();
    assert_eq!(state.screen, Screen::DeepReview);
}

#[test]
fn cursor_counts_bytes_and_backspace_erases_a_character() {
    let mut screen = PseudocodeReviewScreen::new();
    let mut state = create_test_state();
    screen.handle_input(key('a'), &mut state).unwrap();
    screen.handle_input(key('\u{e9}'), &mut state).unwrap();
    assert_eq!(state.ui.cursor_position, 3);
    screen.handle_input(key('b'), &mut state).unwrap();
    assert_eq!(state.ui.cursor_position, 4);
    screen.handle_input(Key::plain(KeyCode::Backspace), &mut state).unwrap();
    assert_eq!(state.ui.input_text, "a\u{e9}");
    assert_eq!(state.ui.cursor_position, 3);
    assert_eq!(state.session.draft_hypothesis, Some("a\u{e9}".to_string()));
}

#[test]
fn backspace_at_start_does_nothing() {
    let mut screen = PseudocodeReviewScreen::new();
    let mut state = create_test_state();
    state.ui.input_text = "abc".to_string();
    assert!(screen.handle_input(Key::plain(KeyCode::Backspace), &mut state).unwrap());
    assert_eq!(state.ui.input_text, "abc");
    assert!(state.session.draft_hypothesis.is_none());
}

#[test]
fn submitted_waits_for_the_assessment() {
    let mut screen = PseudocodeReviewScreen::new();
    let mut state = create_test_state();
    screen.state = PseudocodeState::Submitted;
    assert!(!screen.handle_input(key('a'), &mut state).unwrap());
    assert_eq!(state.ui.input_text, "");
    screen.handle_input(key('q'), &mut state).unwrap();
    assert!(state.should_quit);
}

#[test]
fn error_escape_goes_back() {
    let mut screen = PseudocodeReviewScreen::new();
    let mut state = create_test_state();
    state.ui.set_error("x");
    screen.handle_input(Key::plain(KeyCode::Esc), &mut state).unwrap();
    assert_eq!(state.screen, Screen::DeepReview);
    assert!(state.ui.error.is_none());
}
