use vstd::prelude::*;

use super::triage::{quitting, with_ui};
use super::{error_input_of, handle_error_state_input, is_char, ErrorInputResult, Key, KeyCode};
use crate::error::AppError;
use crate::models::{AppState, UiState};

verus! {

/// Loading screen, shown while the diff is being split into sections.
#[derive(Debug)]
pub struct LoadingScreen {
    /// Frame of the spinner animation.
    pub throbber_index: i8,
}

/// The spinner frame after `index`: one further, back to the first past the last.
pub open spec fn next_frame(index: i8) -> i8 {
    if index < i8::MAX {
        (index + 1) as i8
    } else {
        0
    }
}

/// What one key does on the loading screen.
pub open spec fn loading_step(s0: LoadingScreen, a0: AppState, key: Key, s1: LoadingScreen, a1: AppState, r: bool) -> bool {
    &&& s1 == s0
    &&& if a0.ui.error is Some {
        match error_input_of(key) {
            ErrorInputResult::Quit => r && quitting(a0, a1),
            ErrorInputResult::Retry => r && with_ui(
                a0,
                a1,
                UiState { error: None, needs_chunking_retry: true, ..a0.ui },
            ),
            ErrorInputResult::NotHandled => !r && a1 == a0,
        }
    } else if is_char(key, 'q') {
        r && quitting(a0, a1)
    } else {
        !r && a1 == a0
    }
}

impl LoadingScreen {
    pub fn new() -> (s: Self)
        ensures
            s.throbber_index == 0,
    {
        LoadingScreen { throbber_index: 0 }
    }

    /// Advance the spinner animation by one frame.
    pub fn tick(&mut self)
        ensures
            final(self).throbber_index == next_frame(old(self).throbber_index),
    {
        self.throbber_index = match self.throbber_index.checked_add(1) {
            Some(i) => i,
            None => 0,
        };
    }

    /// Handle a key on the loading screen: while an error is shown 'q' quits and 'r'
    /// asks for the diff to be split again; otherwise only 'q' works.
    pub fn handle_input(&mut self, key: Key, state: &mut AppState) -> (r: Result<bool, AppError>)
        ensures
            r matches Ok(consumed) && loading_step(
                *old(self),
                *old(state),
                key,
                *final(self),
                *final(state),
                consumed,
            ),
    {
        if state.ui.error.is_some() {
            return match handle_error_state_input(&key) {
                ErrorInputResult::Quit => {
                    state.quit();
                    Ok(true)
                },
                ErrorInputResult::Retry => {
                    state.ui.request_chunking_retry();
                    Ok(true)
                },
                ErrorInputResult::NotHandled => Ok(false),
            };
        }
        match key.code {
            KeyCode::Char('q') => {
                state.quit();
                Ok(true)
            },
            _ => Ok(false),
        }
    }
}

impl Default for LoadingScreen {
    fn default() -> (s: Self)
        ensures
            s.throbber_index == 0,
    {
        LoadingScreen::new()
    }
}

} // verus!
