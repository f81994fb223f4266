use vstd::prelude::*;

use super::{handle_error_state_input, is_char, ErrorInputResult, Key, KeyCode};
use crate::error::AppError;
use crate::models::{
    all_tagged, moved_to, same_but_sections, AppState, Screen, Section, Tag, UiState,
};

verus! {

/// Screen for triaging all sections before deep review: a list of sections (or, with
/// the code panel focused, the code of the selected one).
#[derive(Debug)]
pub struct TriageScreen {
    /// The selected row of the section list.
    pub selected: Option<usize>,
    /// Whether keys go to the code panel rather than the list.
    pub code_focused: bool,
}

/// The row a selection stands for (`None` counts as the first row).
pub open spec fn row_of(selected: Option<usize>) -> usize {
    match selected {
        Some(i) => i,
        None => 0,
    }
}

/// The row after `current` in a list of `len` rows, wrapping to the top.
pub open spec fn next_row(current: usize, len: nat) -> usize {
    if current >= len - 1 {
        0
    } else {
        (current + 1) as usize
    }
}

/// The row before `current` in a list of `len` rows, wrapping to the bottom.
pub open spec fn previous_row(current: usize, len: nat) -> usize {
    if current == 0 {
        (len - 1) as usize
    } else {
        (current - 1) as usize
    }
}

/// The sections with the one at `row` (if there is one) tagged `tag`.
pub open spec fn tagged_at(s: Seq<Section>, row: usize, tag: Tag) -> Seq<Section> {
    if row < s.len() {
        s.update(row as int, Section { tag: tag, ..s[row as int] })
    } else {
        s
    }
}

/// Moving down then up (or up then down) in a list of `len` rows comes back to the
/// row one started from.
pub proof fn lemma_next_then_previous(row: usize, len: nat)
    requires
        row < len,
        len <= usize::MAX,
    ensures
        previous_row(next_row(row, len), len) == row,
        next_row(previous_row(row, len), len) == row,
{
}

/// `after` is `before` with the quit flag raised.
pub open spec fn quitting(before: AppState, after: AppState) -> bool {
    &&& after.should_quit
    &&& after.session == before.session
    &&& after.screen == before.screen
    &&& after.ui == before.ui
}

/// `after` is `before` with the UI state replaced by `ui`.
pub open spec fn with_ui(before: AppState, after: AppState, ui: UiState) -> bool {
    &&& after.ui == ui
    &&& after.session == before.session
    &&& after.screen == before.screen
    &&& after.should_quit == before.should_quit
}

/// `ui` with its error cleared.
pub open spec fn error_cleared(ui: UiState) -> UiState {
    UiState { error: None, ..ui }
}

/// `ui` scrolled to `offset`.
pub open spec fn scrolled_to(ui: UiState, offset: usize) -> UiState {
    UiState { scroll_offset: offset, ..ui }
}

/// `after` is `before` with the section at `row` tagged `tag`.
pub open spec fn tagged_state(before: AppState, after: AppState, row: usize, tag: Tag) -> bool {
    &&& after.session.sections@ == tagged_at(before.session.sections@, row, tag)
    &&& same_but_sections(after.session, before.session)
    &&& after.ui == before.ui
    &&& after.screen == before.screen
    &&& after.should_quit == before.should_quit
}

/// The tag a key gives in the section list, if any.
pub open spec fn tag_key(key: Key) -> Option<Tag> {
    if is_char(key, '1') {
        Some(Tag::GotIt)
    } else if is_char(key, '2') {
        Some(Tag::Shaky)
    } else if is_char(key, '3') {
        Some(Tag::Lost)
    } else {
        None
    }
}

/// Down in a list or panel: 'j' or the down arrow.
pub open spec fn is_down(key: Key) -> bool {
    is_char(key, 'j') || key.code == KeyCode::Down
}

/// Up in a list or panel: 'k' or the up arrow.
pub open spec fn is_up(key: Key) -> bool {
    is_char(key, 'k') || key.code == KeyCode::Up
}

/// The outcome of tagging the selected row with `tag` and moving on: when every
/// section is then tagged the state moves to deep review, else the selection advances
/// and the code panel scrolls back to the top.
pub open spec fn tag_and_advance_spec(
    s0: TriageScreen,
    a0: AppState,
    tag: Tag,
    s1: TriageScreen,
    a1: AppState,
) -> bool {
    let row = row_of(s0.selected);
    let sections = tagged_at(a0.session.sections@, row, tag);
    let tagged = AppState {
        session: crate::models::Session { sections: a1.session.sections, ..a0.session },
        ..a0
    };
    &&& a1.session.sections@ == sections
    &&& s1.code_focused == s0.code_focused
    &&& if all_tagged(sections) {
        &&& moved_to(tagged, a1, Screen::DeepReview)
        &&& s1.selected == s0.selected
    } else {
        &&& s1.selected == Some(next_row(row, sections.len()))
        &&& same_but_sections(a1.session, a0.session)
        &&& a1.ui == scrolled_to(a0.ui, 0)
        &&& a1.screen == a0.screen
        &&& a1.should_quit == a0.should_quit
    }
}

/// What one key does on the triage screen: `(s0, a0)` before, `(s1, a1)` after, `r`
/// whether the key was consumed.
pub open spec fn triage_step(
    s0: TriageScreen,
    a0: AppState,
    key: Key,
    s1: TriageScreen,
    a1: AppState,
    r: bool,
) -> bool {
    let len = a0.session.sections@.len();
    let row = row_of(s0.selected);
    if a0.ui.error is Some {
        &&& s1 == s0
        &&& match error_input_of_key(key) {
            ErrorInputResult::Quit => r && quitting(a0, a1),
            ErrorInputResult::Retry => r && with_ui(a0, a1, error_cleared(a0.ui)),
            ErrorInputResult::NotHandled => !r && a1 == a0,
        }
    } else if len == 0 {
        &&& s1 == s0
        &&& if is_char(key, 'q') {
            r && quitting(a0, a1)
        } else {
            !r && a1 == a0
        }
    } else if is_char(key, 'q') {
        r && s1 == s0 && quitting(a0, a1)
    } else if s0.code_focused {
        if is_char(key, 'h') {
            r && s1 == (TriageScreen { code_focused: false, ..s0 }) && a1 == a0
        } else if is_down(key) {
            r && s1 == s0 && with_ui(a0, a1, scrolled_to(a0.ui, a0.ui.scroll_offset.saturating_add(1)))
        } else if is_up(key) {
            r && s1 == s0 && with_ui(a0, a1, scrolled_to(a0.ui, a0.ui.scroll_offset.saturating_sub(1)))
        } else if is_char(key, 'd') {
            r && s1 == s0 && with_ui(a0, a1, scrolled_to(a0.ui, a0.ui.scroll_offset.saturating_add(10)))
        } else if is_char(key, 'u') {
            r && s1 == s0 && with_ui(a0, a1, scrolled_to(a0.ui, a0.ui.scroll_offset.saturating_sub(10)))
        } else {
            !r && s1 == s0 && a1 == a0
        }
    } else if is_down(key) {
        r && a1 == a0 && s1 == (TriageScreen { selected: Some(next_row(row, len)), ..s0 })
    } else if is_up(key) {
        r && a1 == a0 && s1 == (TriageScreen { selected: Some(previous_row(row, len)), ..s0 })
    } else if key.code == KeyCode::Enter || is_char(key, 'l') {
        r && s1 == (TriageScreen { code_focused: true, ..s0 }) && with_ui(
            a0,
            a1,
            scrolled_to(a0.ui, 0),
        )
    } else {
        match tag_key(key) {
            Some(tag) => r && tag_and_advance_spec(s0, a0, tag, s1, a1),
            None => !r && s1 == s0 && a1 == a0,
        }
    }
}

/// `error_input_of`, named here for the step relation.
pub open spec fn error_input_of_key(key: Key) -> ErrorInputResult {
    super::error_input_of(key)
}

impl TriageScreen {
    pub fn new() -> (s: Self)
        ensures
            s.selected == Some(0usize),
            !s.code_focused,
    {
        TriageScreen { selected: Some(0), code_focused: false }
    }

    /// The selected row of the section list.
    pub fn selected(&self) -> (r: Option<usize>)
        ensures
            r == self.selected,
    {
        self.selected
    }

    /// Move the selection one row down, wrapping to the top; nothing happens on an
    /// empty list.
    pub fn select_next(&mut self, state: &AppState)
        ensures
            state.session.sections@.len() == 0 ==> *final(self) == *old(self),
            state.session.sections@.len() > 0 ==> final(self).selected == Some(
                next_row(row_of(old(self).selected), state.session.sections@.len()),
            ),
            final(self).code_focused == old(self).code_focused,
    {
        let len = state.session.sections.len();
        if len == 0 {
            return ;
        }
        let current = match self.selected {
            Some(i) => i,
            None => 0,
        };
        let next = if current >= len - 1 {
            0
        } else {
            current + 1
        };
        self.selected = Some(next);
    }

    /// Move the selection one row up, wrapping to the bottom; nothing happens on an
    /// empty list.
    pub fn select_previous(&mut self, state: &AppState)
        ensures
            state.session.sections@.len() == 0 ==> *final(self) == *old(self),
            state.session.sections@.len() > 0 ==> final(self).selected == Some(
                previous_row(row_of(old(self).selected), state.session.sections@.len()),
            ),
            final(self).code_focused == old(self).code_focused,
    {
        let len = state.session.sections.len();
        if len == 0 {
            return ;
        }
        let current = match self.selected {
            Some(i) => i,
            None => 0,
        };
        let prev = if current == 0 {
            len - 1
        } else {
            current - 1
        };
        self.selected = Some(prev);
    }

    /// Tag the selected section (if the selection is on a section).
    pub fn tag_current(&self, state: &mut AppState, tag: Tag)
        ensures
            tagged_state(*old(state), *final(state), row_of(self.selected), tag),
    {
        let selected = match self.selected {
            Some(i) => i,
            None => 0,
        };
        if selected < state.session.sections.len() {
            let sections = &mut state.session.sections;
            let section = &mut sections[selected];
            section.tag = tag;
        }
        assert(state.session.sections@ =~= tagged_at(old(state).session.sections@, selected, tag));
    }

    /// Tag the selected section and move on; once every section is tagged the review
    /// moves to deep review.
    pub fn tag_and_advance(&mut self, state: &mut AppState, tag: Tag)
        ensures
            tag_and_advance_spec(*old(self), *old(state), tag, *final(self), *final(state)),
    {
        self.tag_current(state, tag);
        if state.session.all_tagged() {
            state.goto(Screen::DeepReview);
        } else {
            self.select_next(state);
            state.ui.scroll_offset = 0;
        }
    }

    fn handle_list_input(&mut self, key: Key, state: &mut AppState) -> (r: bool)
        requires
            old(state).ui.error is None,
            old(state).session.sections@.len() > 0,
            !is_char(key, 'q'),
            !old(self).code_focused,
        ensures
            triage_step(*old(self), *old(state), key, *final(self), *final(state), r),
    {
        match key.code {
            KeyCode::Char('j') | KeyCode::Down => {
                self.select_next(state);
                true
            },
            KeyCode::Char('k') | KeyCode::Up => {
                self.select_previous(state);
                true
            },
            KeyCode::Enter | KeyCode::Char('l') => {
                self.code_focused = true;
                state.ui.scroll_offset = 0;
                true
            },
            KeyCode::Char('1') => {
                self.tag_and_advance(state, Tag::GotIt);
                true
            },
            KeyCode::Char('2') => {
                self.tag_and_advance(state, Tag::Shaky);
                true
            },
            KeyCode::Char('3') => {
                self.tag_and_advance(state, Tag::Lost);
                true
            },
            _ => false,
        }
    }

    fn handle_code_input(&mut self, key: Key, state: &mut AppState) -> (r: bool)
        requires
            old(state).ui.error is None,
            old(state).session.sections@.len() > 0,
            !is_char(key, 'q'),
            old(self).code_focused,
        ensures
            triage_step(*old(self), *old(state), key, *final(self), *final(state), r),
    {
        match key.code {
            KeyCode::Char('h') => {
                self.code_focused = false;
                true
            },
            KeyCode::Char('j') | KeyCode::Down => {
                state.ui.scroll_offset = state.ui.scroll_offset.saturating_add(1);
                true
            },
            KeyCode::Char('k') | KeyCode::Up => {
                state.ui.scroll_offset = state.ui.scroll_offset.saturating_sub(1);
                true
            },
            KeyCode::Char('d') => {
                state.ui.scroll_offset = state.ui.scroll_offset.saturating_add(10);
                true
            },
            KeyCode::Char('u') => {
                state.ui.scroll_offset = state.ui.scroll_offset.saturating_sub(10);
                true
            },
            _ => false,
        }
    }

    /// Handle a key on the triage screen. While an error is shown only 'q' (quit) and
    /// 'r' (clear the error) work; on an empty list only 'q'. Otherwise 'q' quits, and
    /// the remaining keys go to the code panel or the list, whichever has the focus.
    pub fn handle_input(&mut self, key: Key, state: &mut AppState) -> (r: Result<bool, AppError>)
        ensures
            r matches Ok(consumed) && triage_step(
                *old(self),
                *old(state),
                key,
                *final(self),
                *final(state),
                consumed,
            ),
    {
        if state.ui.error.is_some() {
            return match handle_error_state_input(&key) {
                ErrorInputResult::Quit => {
                    state.quit();
                    Ok(true)
                },
                ErrorInputResult::Retry => {
                    state.ui.clear_error();
                    Ok(true)
                },
                ErrorInputResult::NotHandled => Ok(false),
            };
        }
        if state.session.sections.len() == 0 {
            if key.code == KeyCode::Char('q') {
                state.quit();
                return Ok(true);
            }
            return Ok(false);
        }
        if key.code == KeyCode::Char('q') {
            state.quit();
            Ok(true)
        } else if self.code_focused {
            Ok(self.handle_code_input(key, state))
        } else {
            Ok(self.handle_list_input(key, state))
        }
    }
}

impl Default for TriageScreen {
    fn default() -> (s: Self)
        ensures
            s.selected == Some(0usize),
            !s.code_focused,
    {
        TriageScreen::new()
    }
}

} // verus!
