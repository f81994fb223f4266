use vstd::prelude::*;

use super::triage::quitting;
use super::{is_char, Key, KeyCode};
use crate::error::AppError;
use crate::models::{moved_to, AppState, Screen, Session, UiState};
use crate::text::{
    char_index_at_byte, chars_of, lemma_starts_char_unique, lemma_utf8_bytes_push, push_char,
    starts_char, str_utf8_len, string_from_chars, utf8_bytes,
};

verus! {

/// Where the hypothesis screen stands.
#[derive(Clone, Copy, Debug, PartialEq, Eq, Structural)]
pub enum PseudocodeState {
    /// The user is typing a hypothesis.
    Input,
    /// The hypothesis was submitted; the assessment is awaited.
    Submitted,
    /// The assessment is shown.
    Response,
    /// The assessment failed.
    Error,
}

/// Screen for writing a hypothesis about a section's code and submitting it.
#[derive(Debug)]
pub struct PseudocodeReviewScreen {
    pub state: PseudocodeState,
}

/// The selected section carries an assessment, which the screen then shows.
pub open spec fn shows_assessment(a: AppState) -> bool {
    &&& a.ui.selected_index < a.session.sections@.len()
    &&& a.session.sections@[a.ui.selected_index as int].assessment is Some
}

/// Keys go to the hypothesis text.
pub open spec fn typing_mode(s: PseudocodeReviewScreen, a: AppState) -> bool {
    a.ui.error is None && s.state != PseudocodeState::Submitted && !shows_assessment(a)
}

/// What a key may meet: the text has room for one more character, and a Backspace
/// finds a character ending at the cursor.
pub open spec fn pseudocode_key_ok(s: PseudocodeReviewScreen, a: AppState, key: Key) -> bool {
    let text = a.ui.input_text@;
    let cursor = a.ui.cursor_position;
    &&& (typing_mode(s, a) && key.code is Char) ==> utf8_bytes(text) + 4 <= usize::MAX
    &&& (typing_mode(s, a) && key.code == KeyCode::Backspace && cursor > 0) ==> exists|k: int|
        #[trigger] starts_char(text, k, cursor - 1)
}

/// `after` is `before` with the hypothesis text replaced by `text`, the cursor at
/// `cursor` and the draft saved as the new text.
pub open spec fn edited(before: AppState, after: AppState, text: Seq<char>, cursor: usize) -> bool {
    &&& after.ui.input_text@ == text
    &&& after.ui == (UiState { input_text: after.ui.input_text, cursor_position: cursor, ..before.ui })
    &&& after.session == (Session {
        draft_hypothesis: Some(after.ui.input_text),
        ..before.session
    })
    &&& after.screen == before.screen
    &&& after.should_quit == before.should_quit
}

/// What one key does on the hypothesis screen.
pub open spec fn pseudocode_step(
    s0: PseudocodeReviewScreen,
    a0: AppState,
    key: Key,
    s1: PseudocodeReviewScreen,
    a1: AppState,
    r: bool,
) -> bool {
    let text = a0.ui.input_text@;
    let cursor = a0.ui.cursor_position;
    if a0.ui.error is Some {
        if is_char(key, 'q') {
            r && s1 == s0 && quitting(a0, a1)
        } else if is_char(key, 'r') {
            &&& r
            &&& s1.state == PseudocodeState::Submitted
            &&& a1.ui == (UiState { error: None, needs_assessment_retry: true, ..a0.ui })
            &&& a1.session == a0.session
            &&& a1.screen == a0.screen
            &&& a1.should_quit == a0.should_quit
        } else if key.code == KeyCode::Esc {
            r && s1 == s0 && moved_to(a0, a1, Screen::DeepReview)
        } else {
            !r && s1 == s0 && a1 == a0
        }
    } else if s0.state == PseudocodeState::Submitted {
        if is_char(key, 'q') {
            r && s1 == s0 && quitting(a0, a1)
        } else {
            !r && s1 == s0 && a1 == a0
        }
    } else if shows_assessment(a0) {
        if is_char(key, 'q') {
            r && s1 == s0 && quitting(a0, a1)
        } else if key.code == KeyCode::Enter || key.code == KeyCode::Esc {
            r && s1 == s0 && moved_to(a0, a1, Screen::DeepReview)
        } else {
            !r && s1 == s0 && a1 == a0
        }
    } else {
        match key.code {
            KeyCode::Char(c) => if c == 'q' && text.len() == 0 {
                r && s1 == s0 && quitting(a0, a1)
            } else {
                r && s1 == s0 && edited(a0, a1, text.push(c), utf8_bytes(text.push(c)) as usize)
            },
            KeyCode::Backspace => r && s1 == s0 && if cursor > 0 {
                forall|k: int|
                    #[trigger] starts_char(text, k, cursor - 1) ==> edited(
                        a0,
                        a1,
                        text.remove(k),
                        (cursor - 1) as usize,
                    )
            } else {
                a1 == a0
            },
            KeyCode::Enter => if text.len() > 0 {
                &&& r
                &&& s1.state == PseudocodeState::Submitted
                &&& a1.ui == (UiState { needs_assessment_retry: true, ..a0.ui })
                &&& a1.session == a0.session
                &&& a1.screen == a0.screen
                &&& a1.should_quit == a0.should_quit
            } else {
                !r && s1 == s0 && a1 == a0
            },
            KeyCode::Esc => r && s1 == s0 && if text.len() == 0 {
                moved_to(a0, a1, Screen::DeepReview)
            } else {
                moved_to(
                    AppState {
                        session: Session { draft_hypothesis: Some(a0.ui.input_text), ..a0.session },
                        ..a0
                    },
                    a1,
                    Screen::DeepReview,
                )
            },
            _ => !r && s1 == s0 && a1 == a0,
        }
    }
}

/// Typing a one-byte character into the hypothesis and then pressing Backspace gives
/// the text back as it was.
pub proof fn lemma_type_then_erase(
    s0: PseudocodeReviewScreen,
    a0: AppState,
    c: char,
    s1: PseudocodeReviewScreen,
    a1: AppState,
    r1: bool,
    s2: PseudocodeReviewScreen,
    a2: AppState,
    r2: bool,
)
    requires
        typing_mode(s0, a0),
        !(c == 'q' && a0.ui.input_text@.len() == 0),
        crate::text::utf8_len(c) == 1,
        utf8_bytes(a0.ui.input_text@) + 4 <= usize::MAX,
        pseudocode_step(s0, a0, Key { code: KeyCode::Char(c), ctrl: false }, s1, a1, r1),
        pseudocode_step(s1, a1, Key { code: KeyCode::Backspace, ctrl: false }, s2, a2, r2),
    ensures
        a2.ui.input_text@ == a0.ui.input_text@,
        a2.ui.cursor_position == utf8_bytes(a0.ui.input_text@),
        a2.session.draft_hypothesis == Some(a2.ui.input_text),
{
    let t = a0.ui.input_text@;
    let typed = t.push(c);
    crate::text::lemma_utf8_bytes_push(t, c);
    assert(typing_mode(s1, a1));
    assert(typed.take(t.len() as int) =~= t);
    assert(starts_char(typed, t.len() as int, a1.ui.cursor_position - 1));
    assert(typed.remove(t.len() as int) =~= t);
}

impl PseudocodeReviewScreen {
    pub fn new() -> (s: Self)
        ensures
            s.state == PseudocodeState::Input,
    {
        PseudocodeReviewScreen { state: PseudocodeState::Input }
    }

    /// Submit the hypothesis: ask for an assessment, which the application performs.
    fn submit_hypothesis(&mut self, state: &mut AppState)
        ensures
            final(self).state == PseudocodeState::Submitted,
            final(state).ui == (UiState { needs_assessment_retry: true, ..old(state).ui }),
            final(state).session == old(state).session,
            final(state).screen == old(state).screen,
            final(state).should_quit == old(state).should_quit,
    {
        state.ui.needs_assessment_retry = true;
        self.state = PseudocodeState::Submitted;
    }

    /// Append a typed character to the hypothesis and save it as the draft.
    fn type_char(state: &mut AppState, c: char)
        requires
            utf8_bytes(old(state).ui.input_text@) + 4 <= usize::MAX,
        ensures
            edited(
                *old(state),
                *final(state),
                old(state).ui.input_text@.push(c),
                utf8_bytes(old(state).ui.input_text@.push(c)) as usize,
            ),
    {
        proof {
            lemma_utf8_bytes_push(state.ui.input_text@, c);
        }
        push_char(&mut state.ui.input_text, c);
        state.ui.cursor_position = str_utf8_len(state.ui.input_text.as_str());
        state.session.draft_hypothesis = Some(state.ui.input_text.clone());
    }

    /// Erase the character that ends at the cursor and save the draft.
    fn erase_char(state: &mut AppState)
        requires
            old(state).ui.cursor_position > 0,
            exists|k: int| #[trigger] starts_char(old(state).ui.input_text@, k, old(state).ui.cursor_position - 1),
        ensures
            forall|k: int|
                #[trigger] starts_char(old(state).ui.input_text@, k, old(state).ui.cursor_position - 1)
                    ==> edited(
                    *old(state),
                    *final(state),
                    old(state).ui.input_text@.remove(k),
                    (old(state).ui.cursor_position - 1) as usize,
                ),
    {
        let cursor = state.ui.cursor_position - 1;
        let mut v = chars_of(state.ui.input_text.as_str());
        match char_index_at_byte(&v, cursor) {
            Some(k) => {
                v.remove(k);
                proof {
                    assert forall|j: int|
                        #[trigger] starts_char(old(state).ui.input_text@, j, cursor as int) implies j == k by {
                        lemma_starts_char_unique(old(state).ui.input_text@, j, k as int, cursor as int);
                    }
                }
                state.ui.input_text = string_from_chars(&v);
                state.ui.cursor_position = cursor;
                state.session.draft_hypothesis = Some(state.ui.input_text.clone());
            },
            None => {},
        }
    }

    /// Handle a key on the hypothesis screen. While an error is shown, 'q' quits, 'r'
    /// asks for the assessment again with the text kept, and Esc goes back to deep
    /// review. While the assessment is awaited only 'q' works; while it is shown, Enter
    /// or Esc go back. Otherwise keys edit the hypothesis: characters are typed ('q'
    /// quits when the text is empty), Backspace erases, Enter submits a non-empty text
    /// and Esc goes back keeping the text as the draft.
    pub fn handle_input(&mut self, key: Key, state: &mut AppState) -> (r: Result<bool, AppError>)
        requires
            pseudocode_key_ok(*old(self), *old(state), key),
        ensures
            r matches Ok(consumed) && pseudocode_step(
                *old(self),
                *old(state),
                key,
                *final(self),
                *final(state),
                consumed,
            ),
    {
        if state.ui.error.is_some() {
            return match key.code {
                KeyCode::Char('q') => {
                    state.quit();
                    Ok(true)
                },
                KeyCode::Char('r') => {
                    state.ui.request_assessment_retry();
                    self.state = PseudocodeState::Submitted;
                    Ok(true)
                },
                KeyCode::Esc => {
                    state.goto(Screen::DeepReview);
                    Ok(true)
                },
                _ => Ok(false),
            };
        }
        if self.state == PseudocodeState::Submitted {
            return match key.code {
                KeyCode::Char('q') => {
                    state.quit();
                    Ok(true)
                },
                _ => Ok(false),
            };
        }
        let showing = match state.current_section() {
            Some(section) => section.assessment.is_some(),
            None => false,
        };
        if showing {
            return match key.code {
                KeyCode::Char('q') => {
                    state.quit();
                    Ok(true)
                },
                KeyCode::Enter | KeyCode::Esc => {
                    state.goto(Screen::DeepReview);
                    Ok(true)
                },
                _ => Ok(false),
            };
        }
        let empty = state.ui.input_text.as_str().is_empty();
        match key.code {
            KeyCode::Char(c) => {
                if c == 'q' && empty {
                    state.quit();
                } else {
                    PseudocodeReviewScreen::type_char(state, c);
                }
                Ok(true)
            },
            KeyCode::Backspace => {
                if state.ui.cursor_position > 0 {
                    PseudocodeReviewScreen::erase_char(state);
                }
                Ok(true)
            },
            KeyCode::Enter => {
                if empty {
                    Ok(false)
                } else {
                    self.submit_hypothesis(state);
                    Ok(true)
                }
            },
            KeyCode::Esc => {
                if !empty {
                    state.session.draft_hypothesis = Some(state.ui.input_text.clone());
                }
                state.goto(Screen::DeepReview);
                Ok(true)
            },
            _ => Ok(false),
        }
    }
}

impl Default for PseudocodeReviewScreen {
    fn default() -> (s: Self)
        ensures
            s.state == PseudocodeState::Input,
    {
        PseudocodeReviewScreen::new()
    }
}

} // verus!
