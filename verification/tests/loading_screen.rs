use gauge::models::{AppState, Session};
use gauge::screens::loading::LoadingScreen;
use gauge::screens::{Key, KeyCode};

#[test]
fn test_loading_screen_new() {
    let screen = LoadingScreen::new();
    assert_eq!(screen.throbber_index, 0);
}

#[test]
fn test_loading_screen_handle_quit() {
    let mut screen = LoadingScreen::new();
    let session = Session::new("test".to_string(), "abc123".to_string());
    let mut state = AppState::new(session);
    let result = screen.handle_input(Key::plain(KeyCode::Char('q')), &mut state);
    assert!(result.is_ok());
    assert!(state.should_quit);
}

#[test]
fn test_loading_screen_handle_retry() {
    let mut screen = LoadingScreen::new();
    let session = Session::new("test".to_string(), "abc123".to_string());
    let mut state = AppState::new(session);
    state.ui.set_error("Test error");
    let result = screen.handle_input(Key::plain(KeyCode::Char('r')), &mut state);
    assert!(result.is_ok());
    assert!(state.ui.error.is_none());
    assert!(state.ui.needs_chunking_retry);
}

#[test]
fn test_loading_screen_retry_ignored_without_error() {
    let mut screen = LoadingScreen::new();
    let session = Session::new("test".to_string(), "abc123".to_string());
    let mut state = AppState::new(session);
    let result = screen.handle_input(Key::plain(KeyCode::Char('r')), &mut state);
    assert!(result.is_ok());
    assert!(!result.unwrap());
}

#[test]
fn tick_advances_and_wraps() {
    let mut screen = LoadingScreen::new();
    screen.tick();
    assert_eq!(screen.throbber_index, 1);
    screen.throbber_index = i8::MAX;
    screen.tick();
    assert_eq!(screen.throbber_index, 0);
}
