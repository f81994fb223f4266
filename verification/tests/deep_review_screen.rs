use gauge::models::{AppState, Assessment, Screen, Section, Session, Tag};
use gauge::screens::deep_review::DeepReviewScreen;
use gauge::screens::{Key, KeyCode};

fn key(c: char) -> Key {
    Key::plain(KeyCode::Char(c))
}

fn create_test_state() -> AppState {
    let mut session = Session::new("test".to_string(), "abc123".to_string());
    session.sections = vec![
        Section::new("s1".to_string(), "Section 1".to_string(), "Description 1".to_string(), "code".to_string()),
        Section::new("s2".to_string(), "Section 2".to_string(), "Description 2".to_string(), "code".to_string()),
        Section::new("s3".to_string(), "Section 3".to_string(), "Description 3".to_string(), "code".to_string()),
    ];
    session.sections[0].tag = Tag::GotIt;
    session.sections[1].tag = Tag::Shaky;
    session.sections[2].tag = Tag::Lost;
    AppState::new(session)
}

fn reviewed() -> Option<Assessment> {
    Some(Assessment { correct: vec!["Good".to_string()], diverges: vec![], missed: vec![] })
}

#[test]
fn test_deep_review_screen_new() {
    let screen = DeepReviewScreen::new();
    assert_eq!(screen.current_review_index, 0);
}

#[test]
fn test_deep_review_sections_needing_review() {
    let screen = DeepReviewScreen::new();
    let state = create_test_state();
    let needs_review = screen.get_reviewable_sections(&state);
    assert_eq!(needs_review.len(), 2);
    assert_eq!(needs_review[0].1.title, "Section 2");
    assert_eq!(needs_review[1].1.title, "Section 3");
}

#[test]
fn test_deep_review_navigation() {
    let mut screen = DeepReviewScreen::new();
    let state = create_test_state();
    screen.advance_to_next(&state);
    assert_eq!(screen.current_review_index, 1);
    screen.advance_to_next(&state);
    assert_eq!(screen.current_review_index, 0);
    screen.go_to_previous(&state);
    assert_eq!(screen.current_review_index, 1);
}

#[test]
fn test_deep_review_handle_quit() {
    let mut screen = DeepReviewScreen::new();
    let mut state = create_test_state();
    screen.handle_input(key('q'), &mut state).unwrap();
    assert!(state.should_quit);
}

#[test]
fn test_deep_review_enter_goes_to_pseudocode() {
    let mut screen = DeepReviewScreen::new();
    let mut state = create_test_state();
    screen.handle_input(Key::plain(KeyCode::Enter), &mut state).unwrap();
    assert_eq!(state.screen, Screen::PseudocodeReview);
}

#[test]
fn test_deep_review_esc_goes_back() {
    let mut screen = DeepReviewScreen::new();
    let mut state = create_test_state();
    screen.handle_input(Key::plain(KeyCode::Esc), &mut state).unwrap();
    assert_eq!(state.screen, Screen::Triage);
}

#[test]
fn test_deep_review_completed_state() {
    let mut screen = DeepReviewScreen::new();
    let mut state = create_test_state();
    state.session.sections[1].assessment = reviewed();
    state.session.sections[2].assessment = reviewed();

    let reviewable = screen.get_reviewable_sections(&state);
    assert_eq!(reviewable.len(), 2);
    assert!(reviewable.iter().all(|(_, s)| s.is_reviewed()));
    assert_eq!(screen.reviewed_count(&state), 2);

    screen.handle_input(Key::plain(KeyCode::Enter), &mut state).unwrap();
    assert_eq!(state.screen, Screen::Summary);
}

#[test]
fn test_deep_review_error_skip() {
    let mut screen = DeepReviewScreen::new();
    let mut state = create_test_state();
    state.ui.set_error("Test error");
    screen.handle_input(key('s'), &mut state).unwrap();
    assert!(state.ui.error.is_none());
    assert_eq!(screen.current_review_index, 1);
}

#[test]
fn test_deep_review_waiting_ai_state() {
    let mut screen = DeepReviewScreen::new();
    let mut state = create_test_state();
    state.ui.ai_loading = true;
    screen.handle_input(key('n'), &mut state).unwrap();
    assert_eq!(screen.current_review_index, 1);
    screen.handle_input(key('p'), &mut state).unwrap();
    assert_eq!(screen.current_review_index, 0);
}

#[test]
fn test_deep_review_error_retry() {
    let mut screen = DeepReviewScreen::new();
    let mut state = create_test_state();
    state.ui.set_error("Test error");
    screen.handle_input(key('r'), &mut state).unwrap();
    assert!(state.ui.error.is_none());
    assert_eq!(screen.current_review_index, 0);
}

#[test]
fn test_deep_review_out_of_bounds_index_clamps_correctly() {
    let mut screen = DeepReviewScreen::new();
    let mut state = create_test_state();
    let needs_review = screen.get_reviewable_sections(&state);
    assert_eq!(needs_review.len(), 2);

    screen.current_review_index = 10;
    screen.advance_to_next(&state);
    assert_eq!(screen.current_review_index, 1);

    screen.current_review_index = 10;
    screen.go_to_previous(&state);
    assert_eq!(screen.current_review_index, 9);

    screen.current_review_index = 100;
    screen.handle_input(Key::plain(KeyCode::Enter), &mut state).unwrap();
    assert_eq!(state.screen, Screen::PseudocodeReview);
    assert_eq!(state.ui.selected_index, 2);
}

#[test]
fn enter_selects_current_section() {
    let mut screen = DeepReviewScreen::new();
    let mut state = create_test_state();
    screen.handle_input(Key::plain(KeyCode::Enter), &mut state).unwrap();
    assert_eq!(state.ui.selected_index, 1);
}

#[test]
fn counts_and_completion() {
    let screen = DeepReviewScreen::new();
    let mut state = create_test_state();
    assert_eq!(screen.total_needing_review(&state), 2);
    assert_eq!(screen.reviewed_count(&state), 0);
    assert!(!screen.all_reviewed(&state));
    state.session.sections[1].assessment = reviewed();
    assert_eq!(screen.reviewed_count(&state), 1);
    state.session.sections[0].assessment = reviewed();
    assert_eq!(screen.reviewed_count(&state), 1);
    state.session.sections[2].assessment = reviewed();
    assert!(screen.all_reviewed(&state));
}

#[test]
fn nothing_to_review_is_not_complete() {
    let mut screen = DeepReviewScreen::new();
    let mut state = AppState::new(Session::new("t".to_string(), String::new()));
    assert!(!screen.all_reviewed(&state));
    screen.handle_input(key('n'), &mut state).unwrap();
    assert_eq!(screen.current_review_index, 0);
    screen.handle_input(Key::plain(KeyCode::Enter), &mut state).unwrap();
    assert_eq!(state.screen, Screen::Loading);
}

#[test]
fn scroll_keys_move_the_code() {
    let mut screen = DeepReviewScreen::new();
    let mut state = create_test_state();
    assert!(screen.handle_input(Key::plain(KeyCode::PageDown), &mut state).unwrap());
    assert_eq!(state.ui.scroll_offset, 20);
    assert!(screen.handle_input(Key::with_ctrl(KeyCode::Char('u')), &mut state).unwrap());
    assert_eq!(state.ui.scroll_offset, 10);
    assert!(!screen.handle_input(key('z'), &mut state).unwrap());
}
