use gauge::cli::{parse_line_range, SectionAction};
use gauge::commands::section;
use gauge::diff_parser::{filter_by_hunks, Hunk};
use gauge::models::{AppState, Assessment, ReviewStage, Screen, Section, Session, Tag};
use gauge::screens::deep_review::DeepReviewScreen;
use gauge::screens::pseudocode::PseudocodeReviewScreen;
use gauge::screens::triage::TriageScreen;
use gauge::screens::{Key, KeyCode};

fn three_sections() -> Session {
    let mut s = Session::new("laws".to_string(), String::new());
    for id in ["a", "b", "c"] {
        s.sections.push(Section::new(id.to_string(), id.to_uppercase(), String::new(), String::new()));
    }
    s
}

#[test]
fn line_range_round_trip() {
    for (a, b) in [(1usize, 1usize), (3, 17), (42, 4200), (usize::MAX, usize::MAX)] {
        assert_eq!(parse_line_range(&format!("{}-{}", a, b)), Ok((a, b)));
    }
}

#[test]
fn type_then_erase_restores_text() {
    let mut session = three_sections();
    session.sections[0].tag = Tag::Shaky;
    let mut state = AppState::new(session);
    state.ui.input_text = "abc".to_string();
    state.ui.cursor_position = 3;
    let mut screen = PseudocodeReviewScreen::new();
    screen.handle_input(Key::plain(KeyCode::Char('x')), &mut state).unwrap();
    screen.handle_input(Key::plain(KeyCode::Backspace), &mut state).unwrap();
    assert_eq!(state.ui.input_text, "abc");
    assert_eq!(state.ui.cursor_position, 3);
}

#[test]
fn reorder_in_place_changes_nothing() {
    let mut s = three_sections();
    let ids = vec!["a".to_string(), "b".to_string(), "c".to_string()];
    section(&mut s, SectionAction::Reorder { ids }).unwrap();
    let order: Vec<&str> = s.sections.iter().map(|x| x.id.as_str()).collect();
    assert_eq!(order, vec!["a", "b", "c"]);
}

#[test]
fn selecting_hunks_in_parts_concatenates() {
    let h = |i: usize, c: &str| Hunk {
        index: i,
        header: String::new(),
        content: c.to_string(),
        old_start: 1,
        new_start: i,
        new_count: 1,
    };
    let hunks = vec![h(1, "one\n"), h(2, "two\n"), h(3, "three\n")];
    let whole = filter_by_hunks(&hunks, &[3, 1, 2]).unwrap();
    let parts = filter_by_hunks(&hunks, &[3]).unwrap() + &filter_by_hunks(&hunks, &[1, 2]).unwrap();
    assert_eq!(whole, parts);
}

#[test]
fn navigation_undoes_itself() {
    let mut session = three_sections();
    session.sections[0].tag = Tag::Lost;
    session.sections[2].tag = Tag::Shaky;
    let state = AppState::new(session);
    let mut triage = TriageScreen::new();
    for _ in 0..3 {
        let before = triage.selected();
        triage.select_next(&state);
        triage.select_previous(&state);
        assert_eq!(triage.selected(), before);
        triage.select_next(&state);
    }
    let mut deep = DeepReviewScreen::new();
    for start in 0..2 {
        deep.current_review_index = start;
        deep.advance_to_next(&state);
        deep.go_to_previous(&state);
        assert_eq!(deep.current_review_index, start);
    }
}

#[test]
fn deep_review_walks_shaky_and_lost() {
    let mut session = three_sections();
    session.sections[0].tag = Tag::Lost;
    session.sections[1].tag = Tag::GotIt;
    session.sections[2].tag = Tag::Shaky;
    let mut state = AppState::new(session);
    let screen = DeepReviewScreen::new();
    let rows: Vec<usize> = screen.get_reviewable_sections(&state).iter().map(|(i, _)| *i).collect();
    assert_eq!(rows, vec![0, 2]);
    let done = || Some(Assessment { correct: vec![], diverges: vec![], missed: vec![] });
    state.session.sections[0].assessment = done();
    assert!(!screen.all_reviewed(&state));
    state.session.sections[2].assessment = done();
    assert!(screen.all_reviewed(&state));
    assert!(state.session.deep_review_complete());
}

#[test]
fn stage_and_screen_round_trip() {
    for stage in [ReviewStage::Loading, ReviewStage::Triage, ReviewStage::DeepReview, ReviewStage::Summary] {
        let mut state = AppState::new(Session::new("s".to_string(), String::new()));
        state.goto(Screen::from(stage));
        assert_eq!(state.session.stage, stage);
    }
}

#[test]
fn tag_counts_partition_sections() {
    let mut session = three_sections();
    session.sections[1].tag = Tag::GotIt;
    let c = session.tag_counts();
    assert_eq!(c.untagged + c.got_it + c.shaky + c.lost, session.sections.len());
}
