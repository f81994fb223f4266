use gauge::models::{AppState, Assessment, Screen, Section, Session, Tag};
use gauge::screens::summary::{markdown_report, report_file_name, SummaryScreen};
use gauge::screens::{Key, KeyCode};

fn create_test_state() -> AppState {
    let mut session = Session::new("test-review".to_string(), "diff".to_string());
    session.sections = vec![
        Section::new("s1".to_string(), "Section 1".to_string(), "Description 1".to_string(), "code".to_string()),
        Section::new("s2".to_string(), "Section 2".to_string(), "Description 2".to_string(), "code".to_string()),
    ];
    session.sections[0].tag = Tag::GotIt;
    session.sections[1].tag = Tag::Shaky;
    session.sections[1].hypothesis = Some("My hypothesis".to_string());
    session.sections[1].assessment = Some(Assessment {
        correct: vec!["Good point".to_string()],
        diverges: vec!["Incorrect assumption".to_string()],
        missed: vec!["Missed feature".to_string()],
    });
    AppState::new(session)
}

#[test]
fn test_summary_screen_new() {
    let screen = SummaryScreen::new();
    assert!(screen.exported_path.is_none());
}

#[test]
fn test_summary_screen_quit() {
    let mut screen = SummaryScreen::new();
    let mut state = create_test_state();
    screen.handle_input(Key::plain(KeyCode::Char('q')), &mut state).unwrap();
    assert!(state.should_quit);
}

#[test]
fn test_summary_screen_back() {
    let mut screen = SummaryScreen::new();
    let mut state = create_test_state();
    screen.handle_input(Key::plain(KeyCode::Esc), &mut state).unwrap();
    assert_eq!(state.screen, Screen::DeepReview);
}

#[test]
fn test_summary_export_markdown() {
    let state = create_test_state();
    let name = report_file_name("2026-01-02-030405");
    assert!(name.contains("gauge-review"));
    assert!(name.ends_with(".md"));
    let content = markdown_report(&state.session, "2026-01-02 03:04:05");
    assert!(content.contains("# Code Review: test-review"));
    assert!(content.contains("Section 1"));
    assert!(content.contains("Section 2"));
    assert!(content.contains("My hypothesis"));
    assert!(content.contains("Good point"));
    assert!(content.contains("Incorrect assumption"));
}

#[test]
fn test_summary_tag_counts() {
    let state = create_test_state();
    let counts = state.session.tag_counts();
    assert_eq!(counts.got_it, 1);
    assert_eq!(counts.shaky, 1);
    assert_eq!(counts.lost, 0);
}

#[test]
fn test_summary_hypothesis_counts() {
    let state = create_test_state();
    let counts = state.session.hypothesis_counts();
    assert_eq!(counts.confirmed, 0);
    assert_eq!(counts.corrected, 1);
}

#[test]
fn markdown_report_exact() {
    let state = create_test_state();
    let content = markdown_report(&state.session, "NOW");
    let expected = "# Code Review: test-review\n\n\
Generated: NOW\n\n\
## Summary\n\n\
- **Sections**: 1 got it, 1 shaky, 0 lost\n\
- **Hypotheses**: 0 confirmed, 1 corrected\n\n\
## Sections\n\n\
### Section 1 [got it]\n\n\
Description 1\n\n\
---\n\n\
### Section 2 [shaky]\n\n\
Description 2\n\n\
**My Understanding:**\n\n\
> My hypothesis\n\n\
**Correct:**\n\
- Good point\n\n\
**Diverges:**\n\
- Incorrect assumption\n\n\
**Missed:**\n\
- Missed feature\n\n\
---\n\n";
    assert_eq!(content, expected);
    assert_eq!(report_file_name("X"), "gauge-review-X.md");
}

#[test]
fn export_is_requested_then_finished() {
    let mut screen = SummaryScreen::new();
    let mut state = create_test_state();
    assert!(screen.handle_input(Key::plain(KeyCode::Char('e')), &mut state).unwrap());
    assert!(screen.export_requested);
    screen.finish_export(&mut state, Ok("/tmp/r.md".to_string()));
    assert!(!screen.export_requested);
    assert_eq!(screen.exported_path, Some("/tmp/r.md".to_string()));
    screen.finish_export(&mut state, Err("disk full".to_string()));
    assert_eq!(state.ui.error, Some("Export failed: disk full".to_string()));
    assert_eq!(screen.exported_path, Some("/tmp/r.md".to_string()));
}

#[test]
fn proportional_widths() {
    assert_eq!(SummaryScreen::proportional_width(1, 3, 30), 10);
    assert_eq!(SummaryScreen::proportional_width(2, 3, 10), 6);
    assert_eq!(SummaryScreen::proportional_width(5, 0, 10), 0);
}

#[test]
fn other_keys_are_ignored() {
    let mut screen = SummaryScreen::new();
    let mut state = create_test_state();
    assert!(!screen.handle_input(Key::plain(KeyCode::Enter), &mut state).unwrap());
    assert!(!state.should_quit);
}
