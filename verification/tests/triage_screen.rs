use gauge::models::{AppState, Screen, Section, Session, Tag};
use gauge::screens::triage::TriageScreen;
use gauge::screens::{Key, KeyCode};

fn key(c: char) -> Key {
    Key::plain(KeyCode::Char(c))
}

fn create_test_state() -> AppState {
    let mut session = Session::new("test".to_string(), "abc123".to_string());
    session.sections = vec![
        Section::new(
            "s1".to_string(),
            "Section 1".to_string(),
            "Description 1".to_string(),
            "+added line\n-removed line".to_string(),
        ),
        Section::new(
            "s2".to_string(),
            "Section 2".to_string(),
            "Description 2".to_string(),
            "code".to_string(),
        ),
    ];
    let mut state = AppState::new(session);
    state.goto(Screen::Triage);
    state
}

#[test]
fn test_triage_screen_new() {
    let screen = TriageScreen::new();
    assert_eq!(screen.selected(), Some(0));
}

#[test]
fn test_triage_screen_navigation() {
    let mut screen = TriageScreen::new();
    let state = create_test_state();
    screen.select_next(&state);
    assert_eq!(screen.selected(), Some(1));
    screen.select_next(&state);
    assert_eq!(screen.selected(), Some(0));
    screen.select_previous(&state);
    assert_eq!(screen.selected(), Some(1));
}

#[test]
fn test_triage_screen_tagging() {
    let mut screen = TriageScreen::new();
    let mut state = create_test_state();
    screen.tag_current(&mut state, Tag::GotIt);
    assert_eq!(state.session.sections[0].tag, Tag::GotIt);
    screen.select_next(&state);
    screen.tag_current(&mut state, Tag::Shaky);
    assert_eq!(state.session.sections[1].tag, Tag::Shaky);
}

#[test]
fn test_triage_screen_handle_quit() {
    let mut screen = TriageScreen::new();
    let mut state = create_test_state();
    let result = screen.handle_input(key('q'), &mut state);
    assert!(result.is_ok());
    assert!(state.should_quit);
}

#[test]
fn test_triage_screen_handle_navigation_keys() {
    let mut screen = TriageScreen::new();
    let mut state = create_test_state();
    screen.handle_input(key('j'), &mut state).unwrap();
    assert_eq!(screen.selected(), Some(1));
    screen.handle_input(key('k'), &mut state).unwrap();
    assert_eq!(screen.selected(), Some(0));
}

#[test]
fn test_triage_screen_handle_tagging_keys() {
    let mut screen = TriageScreen::new();
    let mut state = create_test_state();
    screen.handle_input(key('1'), &mut state).unwrap();
    assert_eq!(state.session.sections[0].tag, Tag::GotIt);
    assert_eq!(screen.selected(), Some(1));
    assert_eq!(state.screen, Screen::Triage);
    screen.handle_input(key('2'), &mut state).unwrap();
    assert_eq!(state.session.sections[1].tag, Tag::Shaky);
    assert_eq!(state.screen, Screen::DeepReview);
}

#[test]
fn test_triage_retag_does_not_transition() {
    let mut screen = TriageScreen::new();
    let mut state = create_test_state();
    screen.handle_input(key('1'), &mut state).unwrap();
    assert_eq!(screen.selected(), Some(1));
    screen.handle_input(key('k'), &mut state).unwrap();
    screen.handle_input(key('3'), &mut state).unwrap();
    assert_eq!(state.session.sections[0].tag, Tag::Lost);
    assert_eq!(state.screen, Screen::Triage);
    assert_eq!(screen.selected(), Some(1));
}

#[test]
fn test_enter_enters_code_focus() {
    let mut screen = TriageScreen::new();
    let mut state = create_test_state();
    screen.handle_input(Key::plain(KeyCode::Enter), &mut state).unwrap();
    assert!(screen.code_focused);
    assert_eq!(state.ui.scroll_offset, 0);
}

#[test]
fn test_l_enters_code_focus() {
    let mut screen = TriageScreen::new();
    let mut state = create_test_state();
    screen.handle_input(key('l'), &mut state).unwrap();
    assert!(screen.code_focused);
}

#[test]
fn test_h_returns_to_list_focus() {
    let mut screen = TriageScreen::new();
    let mut state = create_test_state();
    screen.code_focused = true;
    screen.handle_input(key('h'), &mut state).unwrap();
    assert!(!screen.code_focused);
}

#[test]
fn test_code_focus_jk_scrolls_by_one() {
    let mut screen = TriageScreen::new();
    let mut state = create_test_state();
    screen.code_focused = true;
    screen.handle_input(key('j'), &mut state).unwrap();
    assert_eq!(state.ui.scroll_offset, 1);
    screen.handle_input(key('j'), &mut state).unwrap();
    assert_eq!(state.ui.scroll_offset, 2);
    screen.handle_input(key('k'), &mut state).unwrap();
    assert_eq!(state.ui.scroll_offset, 1);
}

#[test]
fn test_code_focus_ud_scrolls_by_ten() {
    let mut screen = TriageScreen::new();
    let mut state = create_test_state();
    screen.code_focused = true;
    screen.handle_input(key('d'), &mut state).unwrap();
    assert_eq!(state.ui.scroll_offset, 10);
    screen.handle_input(key('d'), &mut state).unwrap();
    assert_eq!(state.ui.scroll_offset, 20);
    screen.handle_input(key('u'), &mut state).unwrap();
    assert_eq!(state.ui.scroll_offset, 10);
    screen.handle_input(key('u'), &mut state).unwrap();
    screen.handle_input(key('u'), &mut state).unwrap();
    assert_eq!(state.ui.scroll_offset, 0);
}

#[test]
fn test_enter_resets_scroll_offset() {
    let mut screen = TriageScreen::new();
    let mut state = create_test_state();
    state.ui.scroll_offset = 15;
    screen.handle_input(Key::plain(KeyCode::Enter), &mut state).unwrap();
    assert!(screen.code_focused);
    assert_eq!(state.ui.scroll_offset, 0);
}

#[test]
fn test_triage_screen_progress_counts() {
    let mut state = create_test_state();
    let counts = state.session.tag_counts();
    assert_eq!(counts.tagged(), 0);
    assert_eq!(counts.total(), 2);
    state.session.sections[0].tag = Tag::GotIt;
    let counts = state.session.tag_counts();
    assert_eq!(counts.tagged(), 1);
}

#[test]
fn test_triage_screen_empty_sections() {
    let mut screen = TriageScreen::new();
    let session = Session::new("test".to_string(), "abc123".to_string());
    let mut state = AppState::new(session);
    screen.select_next(&state);
    screen.select_previous(&state);
    screen.handle_input(key('q'), &mut state).unwrap();
    assert!(state.should_quit);
}

#[test]
fn test_triage_screen_error_state() {
    let mut screen = TriageScreen::new();
    let mut state = create_test_state();
    state.ui.set_error("Test error");
    let result = screen.handle_input(key('j'), &mut state).unwrap();
    assert!(!result);
    screen.handle_input(key('r'), &mut state).unwrap();
    assert!(state.ui.error.is_none());
}

#[test]
fn test_triage_screen_single_section_navigation() {
    let mut screen = TriageScreen::new();
    let mut session = Session::new("test".to_string(), "abc123".to_string());
    session.sections = vec![Section::new(
        "s1".to_string(),
        "Single Section".to_string(),
        "Description".to_string(),
        "code".to_string(),
    )];
    let state = AppState::new(session);
    assert_eq!(screen.selected(), Some(0));
    screen.select_next(&state);
    assert_eq!(screen.selected(), Some(0));
    screen.select_previous(&state);
    assert_eq!(screen.selected(), Some(0));
}

#[test]
fn arrows_and_unknown_keys() {
    let mut screen = TriageScreen::new();
    let mut state = create_test_state();
    screen.handle_input(Key::plain(KeyCode::Down), &mut state).unwrap();
    assert_eq!(screen.selected(), Some(1));
    screen.handle_input(Key::plain(KeyCode::Up), &mut state).unwrap();
    assert_eq!(screen.selected(), Some(0));
    assert!(!screen.handle_input(key('x'), &mut state).unwrap());
    screen.handle_input(key('k'), &mut state).unwrap();
    assert_eq!(screen.selected(), Some(1));
}

#[test]
fn empty_list_ignores_other_keys() {
    let mut screen = TriageScreen::new();
    let mut state = AppState::new(Session::new("t".to_string(), String::new()));
    assert!(!screen.handle_input(key('j'), &mut state).unwrap());
    assert!(!state.should_quit);
}

#[test]
fn error_state_quit() {
    let mut screen = TriageScreen::new();
    let mut state = create_test_state();
    state.ui.set_error("boom");
    screen.handle_input(key('q'), &mut state).unwrap();
    assert!(state.should_quit);
    assert_eq!(state.ui.error, Some("boom".to_string()));
}
