use vstd::prelude::*;

use crate::ai::claude::CHUNKING_UNSUPPORTED;
use crate::ai::{AssessmentResult, ChunkingResult, ClaudeClient};
use crate::error::AppError;
use crate::models::{moved_to, AppState, Screen, Section, Session, UiState};
use crate::screens::deep_review::{deep_review_step, DeepReviewScreen};
use crate::screens::loading::{loading_step, LoadingScreen};
use crate::screens::pseudocode::{pseudocode_key_ok, pseudocode_step, PseudocodeReviewScreen};
use crate::screens::summary::{summary_step, SummaryScreen};
use crate::screens::triage::{quitting, triage_step, TriageScreen};
use crate::screens::{is_char, Key, KeyCode};
use crate::text::{
    char_index_at_byte, chars_of, starts_char, utf8_bytes, lemma_utf8_bytes_take_step,
    char_utf8_len,
};

verus! {

/// The application: the review state, the AI client and one value per screen.
#[derive(Debug)]
pub struct App {
    pub state: AppState,
    pub ai_client: ClaudeClient,
    pub loading_screen: LoadingScreen,
    pub triage_screen: TriageScreen,
    pub deep_review_screen: DeepReviewScreen,
    pub pseudocode_screen: PseudocodeReviewScreen,
    pub summary_screen: SummaryScreen,
}

/// The message shown when splitting the diff gave no section.
pub const NO_SECTIONS_MESSAGE: &'static str = "AI returned no sections. The diff may be too small.";

/// The screens are those of `before`, but for the one of `screen`.
pub open spec fn other_screens_kept(before: App, after: App, screen: Screen) -> bool {
    &&& screen != Screen::Loading ==> after.loading_screen == before.loading_screen
    &&& screen != Screen::Triage ==> after.triage_screen == before.triage_screen
    &&& screen != Screen::DeepReview ==> after.deep_review_screen == before.deep_review_screen
    &&& screen != Screen::PseudocodeReview ==> after.pseudocode_screen == before.pseudocode_screen
    &&& screen != Screen::Summary ==> after.summary_screen == before.summary_screen
    &&& after.ai_client == before.ai_client
}

/// The key can be handled without a fault: on the deep review screen the position can
/// still advance, on the hypothesis screen the text has room and Backspace finds a
/// character ending at the cursor.
pub open spec fn app_accepts(app: App, key: Key) -> bool {
    match app.state.screen {
        Screen::DeepReview => (is_char(key, 'n') || is_char(key, 's'))
            ==> app.deep_review_screen.current_review_index < usize::MAX,
        Screen::PseudocodeReview => pseudocode_key_ok(app.pseudocode_screen, app.state, key),
        _ => true,
    }
}

/// What a key does to the application: the screen shown handles it.
pub open spec fn app_step(a0: App, key: Key, a1: App, r: bool) -> bool {
    &&& other_screens_kept(a0, a1, a0.state.screen)
    &&& match a0.state.screen {
        Screen::Loading => loading_step(
            a0.loading_screen,
            a0.state,
            key,
            a1.loading_screen,
            a1.state,
            r,
        ),
        Screen::Triage => triage_step(a0.triage_screen, a0.state, key, a1.triage_screen, a1.state, r),
        Screen::DeepReview => deep_review_step(
            a0.deep_review_screen,
            a0.state,
            key,
            a1.deep_review_screen,
            a1.state,
            r,
        ),
        Screen::PseudocodeReview => pseudocode_step(
            a0.pseudocode_screen,
            a0.state,
            key,
            a1.pseudocode_screen,
            a1.state,
            r,
        ),
        Screen::Summary => summary_step(
            a0.summary_screen,
            a0.state,
            key,
            a1.summary_screen,
            a1.state,
            r,
        ),
    }
}

/// Ctrl+C quits from any screen; other keys go to the screen shown.
pub open spec fn is_interrupt(key: Key) -> bool {
    is_char(key, 'c') && key.ctrl
}

/// `after` took in the outcome of splitting the diff: the sections and triage, or the
/// error.
pub open spec fn chunking_applied(before: AppState, after: AppState, result: ChunkingResult) -> bool {
    match result {
        ChunkingResult::Success(v) => if v@.len() == 0 {
            &&& after.ui.error matches Some(m) && m@ == NO_SECTIONS_MESSAGE@
            &&& after.ui == (UiState { error: after.ui.error, ..before.ui })
            &&& after.session == before.session
            &&& after.screen == before.screen
            &&& after.should_quit == before.should_quit
        } else {
            moved_to(
                AppState { session: Session { sections: v, ..before.session }, ..before },
                after,
                Screen::Triage,
            )
        },
        ChunkingResult::Error(e) => {
            &&& after.ui.error matches Some(m) && m@ == e.message@
            &&& after.ui == (UiState { error: after.ui.error, ..before.ui })
            &&& after.session == before.session
            &&& after.screen == before.screen
            &&& after.should_quit == before.should_quit
        },
    }
}

/// `after` took in the outcome of assessing `hypothesis` for the section at `row`: the
/// section keeps the hypothesis and its assessment and the input is cleared, or the
/// error is shown.
pub open spec fn assessment_applied(
    before: AppState,
    after: AppState,
    row: usize,
    hypothesis: String,
    result: AssessmentResult,
) -> bool {
    match result {
        AssessmentResult::Success(a) => {
            &&& after.session.sections@ == if row < before.session.sections@.len() {
                before.session.sections@.update(
                    row as int,
                    Section {
                        hypothesis: Some(hypothesis),
                        assessment: Some(a),
                        ..before.session.sections@[row as int]
                    },
                )
            } else {
                before.session.sections@
            }
            &&& after.session == (Session {
                sections: after.session.sections,
                draft_hypothesis: None,
                ..before.session
            })
            &&& after.ui.input_text@.len() == 0
            &&& after.ui == (UiState {
                input_text: after.ui.input_text,
                cursor_position: 0,
                ..before.ui
            })
            &&& after.screen == before.screen
            &&& after.should_quit == before.should_quit
        },
        AssessmentResult::Error(e) => {
            &&& after.ui.error matches Some(m) && m@ == e.message@
            &&& after.ui == (UiState { error: after.ui.error, ..before.ui })
            &&& after.session == before.session
            &&& after.screen == before.screen
            &&& after.should_quit == before.should_quit
        },
    }
}

/// The assessment to ask for: the selected section's code and the typed hypothesis,
/// when there is such a section and the hypothesis is not empty.
pub open spec fn assessment_request_spec(s: AppState) -> Option<(usize, Seq<char>, Seq<char>)> {
    let row = s.ui.selected_index;
    if row < s.session.sections@.len() && s.ui.input_text@.len() > 0 {
        Some((row, s.session.sections@[row as int].code@, s.ui.input_text@))
    } else {
        None
    }
}

/// The UTF-8 length of a text, when it leaves room for one more character.
fn fits_one_more(s: &str) -> (b: bool)
    ensures
        b == (utf8_bytes(s@) + 4 <= usize::MAX),
{
    let v = chars_of(s);
    let mut n: usize = 0;
    let mut i: usize = 0;
    while i < v.len()
        invariant
            v@ == s@,
            i <= v@.len(),
            n == utf8_bytes(v@.take(i as int)),
            n + 4 <= usize::MAX,
        decreases v@.len() - i,
    {
        proof {
            lemma_utf8_bytes_take_step(v@, i as int);
        }
        let c = char_utf8_len(v[i]);
        if c > usize::MAX - 4 - n {
            proof {
                crate::text::lemma_utf8_bytes_monotone(v@, i + 1, v@.len() as int);
                assert(v@.take(v@.len() as int) =~= v@);
            }
            return false;
        }
        n = n + c;
        i = i + 1;
    }
    assert(v@.take(i as int) =~= v@);
    true
}

impl App {
    pub fn new(session: Session) -> (app: Self)
        ensures
            app.state.screen == crate::models::screen_of_stage(session.stage),
            app.state.session == session,
            crate::models::ui_is_default(app.state.ui),
            !app.state.should_quit,
            !app.ai_client.busy_flag(),
            app.loading_screen.throbber_index == 0,
            app.triage_screen == (TriageScreen { selected: Some(0usize), code_focused: false }),
            app.deep_review_screen.current_review_index == 0,
            app.pseudocode_screen.state == crate::screens::pseudocode::PseudocodeState::Input,
            app.summary_screen.exported_path is None,
            !app.summary_screen.export_requested,
    {
        App {
            state: AppState::new(session),
            ai_client: ClaudeClient::new(),
            loading_screen: LoadingScreen::new(),
            triage_screen: TriageScreen::new(),
            deep_review_screen: DeepReviewScreen::new(),
            pseudocode_screen: PseudocodeReviewScreen::new(),
            summary_screen: SummaryScreen::new(),
        }
    }

    /// The review session.
    pub fn session(&self) -> (s: &Session)
        ensures
            *s == self.state.session,
    {
        &self.state.session
    }

    /// The review session, to change it.
    pub fn session_mut(&mut self) -> (s: &mut Session)
        ensures
            *s == old(self).state.session,
            *final(self) == (App {
                state: AppState { session: *final(s), ..old(self).state },
                ..*old(self)
            }),
    {
        &mut self.state.session
    }

    /// The application state, to change it.
    pub fn state_mut(&mut self) -> (s: &mut AppState)
        ensures
            *s == old(self).state,
            *final(self) == (App { state: *final(s), ..*old(self) }),
    {
        &mut self.state
    }

    /// The application state.
    pub fn state(&self) -> (s: &AppState)
        ensures
            *s == self.state,
    {
        &self.state
    }

    /// Whether a key can be handled (see `app_accepts`).
    pub fn accepts_key(&self, key: Key) -> (b: bool)
        ensures
            b == app_accepts(*self, key),
    {
        match self.state.screen {
            Screen::DeepReview => {
                if key.code == KeyCode::Char('n') || key.code == KeyCode::Char('s') {
                    self.deep_review_screen.current_review_index < usize::MAX
                } else {
                    true
                }
            },
            Screen::PseudocodeReview => self.pseudocode_accepts(key),
            _ => true,
        }
    }

    fn pseudocode_accepts(&self, key: Key) -> (b: bool)
        ensures
            b == pseudocode_key_ok(self.pseudocode_screen, self.state, key),
    {
        let typing = self.state.ui.error.is_none() && self.pseudocode_screen.state
            != crate::screens::pseudocode::PseudocodeState::Submitted && !self.shows_assessment();
        if !typing {
            return true;
        }
        match key.code {
            KeyCode::Char(_) => fits_one_more(self.state.ui.input_text.as_str()),
            KeyCode::Backspace => {
                let cursor = self.state.ui.cursor_position;
                if cursor == 0 {
                    true
                } else {
                    let v = chars_of(self.state.ui.input_text.as_str());
                    match char_index_at_byte(&v, cursor - 1) {
                        Some(k) => {
                            assert(starts_char(self.state.ui.input_text@, k as int, cursor - 1));
                            true
                        },
                        None => false,
                    }
                }
            },
            _ => true,
        }
    }

    fn shows_assessment(&self) -> (b: bool)
        ensures
            b == crate::screens::pseudocode::shows_assessment(self.state),
    {
        match self.state.current_section() {
            Some(s) => s.assessment.is_some(),
            None => false,
        }
    }

    /// Hand a key to the screen shown.
    pub fn handle_input(&mut self, key: Key) -> (r: Result<bool, AppError>)
        requires
            app_accepts(*old(self), key),
        ensures
            r matches Ok(consumed) && app_step(*old(self), key, *final(self), consumed),
    {
        match self.state.screen {
            Screen::Loading => self.loading_screen.handle_input(key, &mut self.state),
            Screen::Triage => self.triage_screen.handle_input(key, &mut self.state),
            Screen::DeepReview => self.deep_review_screen.handle_input(key, &mut self.state),
            Screen::PseudocodeReview => self.pseudocode_screen.handle_input(key, &mut self.state),
            Screen::Summary => self.summary_screen.handle_input(key, &mut self.state),
        }
    }

    /// A key from the terminal: Ctrl+C quits from anywhere, other keys go to the screen.
    pub fn handle_key(&mut self, key: Key) -> (r: Result<bool, AppError>)
        requires
            !is_interrupt(key) ==> app_accepts(*old(self), key),
        ensures
            is_interrupt(key) ==> (r matches Ok(consumed) && consumed && quitting(
                old(self).state,
                final(self).state,
            ) && other_screens_kept(*old(self), *final(self), Screen::Loading)
                && final(self).loading_screen == old(self).loading_screen),
            !is_interrupt(key) ==> (r matches Ok(consumed) && app_step(
                *old(self),
                key,
                *final(self),
                consumed,
            )),
    {
        if key.code == KeyCode::Char('c') && key.ctrl {
            self.state.quit();
            Ok(true)
        } else {
            self.handle_input(key)
        }
    }

    /// Take in the outcome of splitting the diff into sections.
    pub fn apply_chunking(&mut self, result: ChunkingResult)
        ensures
            chunking_applied(old(self).state, final(self).state, result),
            other_screens_kept(*old(self), *final(self), Screen::Loading),
            final(self).loading_screen == old(self).loading_screen,
    {
        match result {
            ChunkingResult::Success(sections) => {
                if sections.len() == 0 {
                    self.state.ui.set_error(NO_SECTIONS_MESSAGE);
                } else {
                    self.state.session.sections = sections;
                    self.state.goto(Screen::Triage);
                }
            },
            ChunkingResult::Error(e) => {
                self.state.ui.set_error(e.message.as_str());
            },
        }
    }

    /// Split the diff again (asked for from the loading screen's error). The client no
    /// longer splits diffs, so this shows its refusal as the error.
    pub fn retry_chunking(&mut self)
        ensures
            final(self).state.ui.error matches Some(m) && m@ == CHUNKING_UNSUPPORTED@,
            final(self).state.ui == (UiState { error: final(self).state.ui.error, ..old(self).state.ui }),
            final(self).state.session == old(self).state.session,
            final(self).state.screen == old(self).state.screen,
            final(self).state.should_quit == old(self).state.should_quit,
            other_screens_kept(*old(self), *final(self), Screen::Loading),
            final(self).loading_screen == old(self).loading_screen,
    {
        let diff = self.state.session.diff_text.clone();
        let result = self.ai_client.chunk_diff(diff.as_str());
        self.apply_chunking(result);
    }

    /// Run a pending request to split the diff again: the flag is taken down, then the
    /// diff is split again.
    pub fn handle_chunking_retry(&mut self)
        ensures
            !old(self).state.ui.needs_chunking_retry ==> *final(self) == *old(self),
            old(self).state.ui.needs_chunking_retry ==> {
                &&& final(self).state.ui.error matches Some(m) && m@ == CHUNKING_UNSUPPORTED@
                &&& final(self).state.ui == (UiState {
                    error: final(self).state.ui.error,
                    needs_chunking_retry: false,
                    ..old(self).state.ui
                })
                &&& final(self).state.session == old(self).state.session
                &&& final(self).state.screen == old(self).state.screen
                &&& final(self).state.should_quit == old(self).state.should_quit
            },
            other_screens_kept(*old(self), *final(self), Screen::Loading),
            final(self).loading_screen == old(self).loading_screen,
    {
        if self.state.ui.needs_chunking_retry {
            self.state.ui.needs_chunking_retry = false;
            self.retry_chunking();
        }
    }

    /// Take a pending request for an assessment: the flag is taken down and what to
    /// assess (see `assessment_request`) is handed back, for the caller to run and to
    /// bring back to `apply_assessment`.
    pub fn take_assessment_request(&mut self) -> (r: Option<(usize, String, String)>)
        ensures
            final(self).state == (AppState {
                ui: UiState { needs_assessment_retry: false, ..old(self).state.ui },
                ..old(self).state
            }),
            other_screens_kept(*old(self), *final(self), Screen::Loading),
            final(self).loading_screen == old(self).loading_screen,
            !old(self).state.ui.needs_assessment_retry ==> r is None,
            old(self).state.ui.needs_assessment_retry ==> match assessment_request_spec(old(self).state) {
                Some((row, code, hypothesis)) => (r matches Some((i, c, h)) && i == row && c@
                    == code && h@ == hypothesis),
                None => r is None,
            },
    {
        if self.state.ui.needs_assessment_retry {
            self.state.ui.needs_assessment_retry = false;
            self.assessment_request()
        } else {
            None
        }
    }

    /// The assessment to ask for, if any: the selected section's position and code, and
    /// the typed hypothesis.
    pub fn assessment_request(&self) -> (r: Option<(usize, String, String)>)
        ensures
            match assessment_request_spec(self.state) {
                Some((row, code, hypothesis)) => (r matches Some((i, c, h)) && i == row && c@
                    == code && h@ == hypothesis),
                None => r is None,
            },
    {
        let row = self.state.ui.selected_index;
        if row < self.state.session.sections.len() && !self.state.ui.input_text.as_str().is_empty() {
            Some((row, self.state.session.sections[row].code.clone(), self.state.ui.input_text.clone()))
        } else {
            None
        }
    }

    /// Take in the outcome of assessing `hypothesis` for the section at `row`.
    pub fn apply_assessment(&mut self, row: usize, hypothesis: String, result: AssessmentResult)
        ensures
            assessment_applied(old(self).state, final(self).state, row, hypothesis, result),
    {
        match result {
            AssessmentResult::Success(a) => {
                if row < self.state.session.sections.len() {
                    let sections = &mut self.state.session.sections;
                    let section = &mut sections[row];
                    section.hypothesis = Some(hypothesis);
                    section.assessment = Some(a);
                }
                self.state.session.draft_hypothesis = None;
                self.state.ui.input_text = String::new();
                self.state.ui.cursor_position = 0;
            },
            AssessmentResult::Error(e) => {
                self.state.ui.set_error(e.message.as_str());
            },
        }
    }

}

} // verus!
