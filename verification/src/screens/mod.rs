use vstd::prelude::*;

pub mod deep_review;
pub mod highlight;
pub mod layout;
pub mod loading;
pub mod pseudocode;
pub mod summary;
pub mod triage;

verus! {

/// A key as the screens see it: which key, and whether Control was held.
#[derive(Clone, Copy, Debug, PartialEq, Eq, Structural)]
pub enum KeyCode {
    Char(char),
    Enter,
    Esc,
    Backspace,
    Up,
    Down,
    PageUp,
    PageDown,
    /// Any key the screens do not react to.
    Other,
}

/// A key press.
#[derive(Clone, Copy, Debug, PartialEq, Eq, Structural)]
pub struct Key {
    pub code: KeyCode,
    pub ctrl: bool,
}

impl Key {
    /// A key pressed without modifiers.
    pub fn plain(code: KeyCode) -> (k: Key)
        ensures
            k.code == code,
            !k.ctrl,
    {
        Key { code, ctrl: false }
    }

    /// A key pressed with Control held.
    pub fn with_ctrl(code: KeyCode) -> (k: Key)
        ensures
            k.code == code,
            k.ctrl,
    {
        Key { code, ctrl: true }
    }
}

/// `key` is the character `c`.
pub open spec fn is_char(key: Key, c: char) -> bool {
    key.code == KeyCode::Char(c)
}

/// Scroll step of Ctrl+D / Ctrl+U (half a page).
pub const SCROLL_INCREMENT_HALF: usize = 10;

/// Scroll step of PageDown / PageUp (a full page).
pub const SCROLL_INCREMENT_FULL: usize = 20;

/// Where a scroll key moves the offset, or `None` for a key that does not scroll.
pub open spec fn scroll_target(key: Key, offset: usize) -> Option<usize> {
    match key.code {
        KeyCode::Char(c) => if c == 'd' && key.ctrl {
            Some(offset.saturating_add(SCROLL_INCREMENT_HALF))
        } else if c == 'u' && key.ctrl {
            Some(offset.saturating_sub(SCROLL_INCREMENT_HALF))
        } else {
            None
        },
        KeyCode::PageDown => Some(offset.saturating_add(SCROLL_INCREMENT_FULL)),
        KeyCode::PageUp => Some(offset.saturating_sub(SCROLL_INCREMENT_FULL)),
        _ => None,
    }
}

/// Handle scroll keys of the code panels: Ctrl+D / Ctrl+U move half a page, PageDown /
/// PageUp a full page. Returns `Some(true)` when the key scrolled, `None` when it is no
/// scroll key (the offset then stays).
pub fn handle_scroll_input(key: &Key, scroll_offset: &mut usize) -> (r: Option<bool>)
    ensures
        scroll_target(*key, *old(scroll_offset)) matches Some(t) ==> r == Some(true)
            && *final(scroll_offset) == t,
        scroll_target(*key, *old(scroll_offset)) is None ==> r is None && *final(scroll_offset)
            == *old(scroll_offset),
{
    match key.code {
        KeyCode::Char(c) => {
            if c == 'd' && key.ctrl {
                *scroll_offset = scroll_offset.saturating_add(SCROLL_INCREMENT_HALF);
                Some(true)
            } else if c == 'u' && key.ctrl {
                *scroll_offset = scroll_offset.saturating_sub(SCROLL_INCREMENT_HALF);
                Some(true)
            } else {
                None
            }
        },
        KeyCode::PageDown => {
            *scroll_offset = scroll_offset.saturating_add(SCROLL_INCREMENT_FULL);
            Some(true)
        },
        KeyCode::PageUp => {
            *scroll_offset = scroll_offset.saturating_sub(SCROLL_INCREMENT_FULL);
            Some(true)
        },
        _ => None,
    }
}

/// What the common error-state keys ask for.
#[derive(Clone, Copy, Debug, PartialEq, Eq)]
pub enum ErrorInputResult {
    /// 'q': quit the application.
    Quit,
    /// 'r': clear the error and retry.
    Retry,
    /// Any other key: left to the screen.
    NotHandled,
}

/// The meaning of `key` while an error is shown.
pub open spec fn error_input_of(key: Key) -> ErrorInputResult {
    if is_char(key, 'q') {
        ErrorInputResult::Quit
    } else if is_char(key, 'r') {
        ErrorInputResult::Retry
    } else {
        ErrorInputResult::NotHandled
    }
}

/// Handle the keys every screen shares while an error is shown: 'q' quits, 'r' retries.
pub fn handle_error_state_input(key: &Key) -> (r: ErrorInputResult)
    ensures
        r == error_input_of(*key),
{
    match key.code {
        KeyCode::Char(c) => {
            if c == 'q' {
                ErrorInputResult::Quit
            } else if c == 'r' {
                ErrorInputResult::Retry
            } else {
                ErrorInputResult::NotHandled
            }
        },
        _ => ErrorInputResult::NotHandled,
    }
}

} // verus!
