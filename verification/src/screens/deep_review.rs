use vstd::prelude::*;

use super::triage::{error_cleared, quitting, scrolled_to, with_ui};
use super::{
    error_input_of, handle_error_state_input, handle_scroll_input, is_char, scroll_target,
    ErrorInputResult, Key, KeyCode,
};
use crate::error::AppError;
use crate::models::{
    deep_review_complete, is_reviewed, moved_to, needs_review, AppState, Screen, Section, UiState,
};

verus! {

/// Deep review screen: walks through the sections tagged shaky or lost.
#[derive(Debug)]
pub struct DeepReviewScreen {
    /// Position in the list of sections that need review.
    pub current_review_index: usize,
}

/// Positions (in the session) of the sections that need review, in order.
pub open spec fn review_rows(s: Seq<Section>) -> Seq<usize>
    decreases s.len(),
{
    if s.len() == 0 {
        Seq::empty()
    } else if needs_review(s.last()) {
        review_rows(s.drop_last()).push((s.len() - 1) as usize)
    } else {
        review_rows(s.drop_last())
    }
}

/// Number of sections that need review and have been reviewed.
pub open spec fn reviewed_needing(s: Seq<Section>) -> nat
    decreases s.len(),
{
    if s.len() == 0 {
        0
    } else {
        reviewed_needing(s.drop_last()) + if needs_review(s.last()) && is_reviewed(s.last()) {
            1nat
        } else {
            0nat
        }
    }
}

/// Some section needs review, and every one that does has been reviewed.
pub open spec fn all_reviewed(s: Seq<Section>) -> bool {
    let rows = review_rows(s);
    rows.len() > 0 && forall|j: int| 0 <= j < rows.len() ==> is_reviewed(#[trigger] s[rows[j] as int])
}

/// The position after `current` among `n` positions, wrapping around.
pub open spec fn advanced(current: usize, n: nat) -> usize {
    if n > 0 {
        ((current + 1) % (n as int)) as usize
    } else {
        current
    }
}

/// The position before `current` among `n` positions, wrapping around.
pub open spec fn went_back(current: usize, n: nat) -> usize {
    if n > 0 {
        if current == 0 {
            (n - 1) as usize
        } else {
            (current - 1) as usize
        }
    } else {
        current
    }
}

/// Going to the next section needing review then back (or back then next) returns
/// to the section one started from.
pub proof fn lemma_advance_then_back(current: usize, n: nat)
    requires
        current < n,
        n <= usize::MAX,
    ensures
        went_back(advanced(current, n), n) == current,
        advanced(went_back(current, n), n) == current,
{
    if current + 1 < n {
        assert((current + 1) % (n as int) == current + 1) by (nonlinear_arith)
            requires
                0 <= current + 1 < n,
        ;
    } else {
        assert((current + 1) % (n as int) == 0) by (nonlinear_arith)
            requires
                current + 1 == n,
                n > 0,
        ;
    }
    if current == 0 {
        assert(((n - 1) + 1) % (n as int) == 0) by (nonlinear_arith)
            requires
                n > 0,
        ;
    } else {
        assert(((current - 1) + 1) % (n as int) == current) by (nonlinear_arith)
            requires
                0 < current < n,
        ;
    }
}

/// `after` is `before` moved to `screen`, then with `row` selected.
pub open spec fn moved_and_selected(
    before: AppState,
    after: AppState,
    screen: Screen,
    row: usize,
) -> bool {
    &&& moved_to(before, AppState { ui: UiState { selected_index: 0, ..after.ui }, ..after }, screen)
    &&& after.ui.selected_index == row
}

/// The deep review walks exactly the sections tagged shaky or lost: each position in
/// the walk holds such a section, and each such section has its position there.
pub proof fn lemma_review_rows_exact(s: Seq<Section>)
    requires
        s.len() <= usize::MAX,
    ensures
        forall|j: int|
            0 <= j < review_rows(s).len() ==> #[trigger] review_rows(s)[j] < s.len()
                && needs_review(s[review_rows(s)[j] as int]),
        forall|i: int| 0 <= i < s.len() && needs_review(#[trigger] s[i]) ==> review_rows(s).contains(
            i as usize,
        ),
    decreases s.len(),
{
    lemma_review_rows_bounds(s);
    if s.len() > 0 {
        let t = s.drop_last();
        lemma_review_rows_exact(t);
        assert forall|i: int| 0 <= i < s.len() && needs_review(#[trigger] s[i]) implies review_rows(
            s,
        ).contains(i as usize) by {
            if i < s.len() - 1 {
                assert(t[i] == s[i]);
                assert(review_rows(t).contains(i as usize));
                let k = choose|k: int| 0 <= k < review_rows(t).len() && review_rows(t)[k] == i as usize;
                if needs_review(s.last()) {
                    assert(review_rows(s) == review_rows(t).push((s.len() - 1) as usize));
                    assert(review_rows(s)[k] == i as usize);
                } else {
                    assert(review_rows(s) == review_rows(t));
                }
            } else {
                assert(review_rows(s) == review_rows(t).push((s.len() - 1) as usize));
                assert(review_rows(s)[review_rows(t).len() as int] == i as usize);
            }
        }
    }
}

/// The deep review screen counts as done exactly when some section needs review and
/// the session's deep review is complete.
pub proof fn lemma_all_reviewed_iff_complete(s: Seq<Section>)
    requires
        s.len() <= usize::MAX,
    ensures
        all_reviewed(s) <==> (review_rows(s).len() > 0 && deep_review_complete(s)),
{
    lemma_review_rows_exact(s);
    let rows = review_rows(s);
    if all_reviewed(s) {
        assert forall|i: int| 0 <= i < s.len() && needs_review(s[i]) implies is_reviewed(s[i]) by {
            assert(needs_review(s[i]));
            assert(rows.contains(i as usize));
            let k = choose|k: int| 0 <= k < rows.len() && rows[k] == i as usize;
            assert(is_reviewed(s[rows[k] as int]));
        }
    }
}

pub proof fn lemma_review_rows_bounds(s: Seq<Section>)
    requires
        s.len() <= usize::MAX,
    ensures
        forall|j: int|
            0 <= j < review_rows(s).len() ==> #[trigger] review_rows(s)[j] < s.len()
                && needs_review(s[review_rows(s)[j] as int]),
        review_rows(s).len() <= s.len(),
    decreases s.len(),
{
    if s.len() > 0 {
        lemma_review_rows_bounds(s.drop_last());
        let r = review_rows(s.drop_last());
        let rs = review_rows(s);
        assert forall|j: int| 0 <= j < rs.len() implies #[trigger] rs[j] < s.len() && needs_review(
            s[rs[j] as int],
        ) by {
            if j < r.len() {
                assert(rs[j] == r[j]);
                assert(s[r[j] as int] == s.drop_last()[r[j] as int]);
            } else {
                assert(needs_review(s.last()));
                assert(rs == r.push((s.len() - 1) as usize));
                assert(s[rs[j] as int] == s.last());
            }
        }
    }
}

/// What one key does on the deep review screen.
pub open spec fn deep_review_step(
    s0: DeepReviewScreen,
    a0: AppState,
    key: Key,
    s1: DeepReviewScreen,
    a1: AppState,
    r: bool,
) -> bool {
    let rows = review_rows(a0.session.sections@);
    let n = rows.len();
    let cur = s0.current_review_index;
    if a0.ui.error is Some {
        match error_input_of(key) {
            ErrorInputResult::Quit => r && s1 == s0 && quitting(a0, a1),
            ErrorInputResult::Retry => r && s1 == s0 && with_ui(a0, a1, error_cleared(a0.ui)),
            ErrorInputResult::NotHandled => if is_char(key, 's') {
                r && s1.current_review_index == advanced(cur, n) && with_ui(
                    a0,
                    a1,
                    error_cleared(a0.ui),
                )
            } else {
                !r && s1 == s0 && a1 == a0
            },
        }
    } else if all_reviewed(a0.session.sections@) {
        if is_char(key, 'q') {
            r && s1 == s0 && quitting(a0, a1)
        } else if key.code == KeyCode::Enter {
            r && s1 == s0 && moved_to(a0, a1, Screen::Summary)
        } else {
            !r && s1 == s0 && a1 == a0
        }
    } else if is_char(key, 'q') {
        r && s1 == s0 && quitting(a0, a1)
    } else if is_char(key, 'n') {
        r && a1 == a0 && s1.current_review_index == advanced(cur, n)
    } else if is_char(key, 'p') {
        r && a1 == a0 && s1.current_review_index == went_back(cur, n)
    } else if key.code == KeyCode::Enter {
        r && s1 == s0 && if n > 0 {
            let at = if cur < n - 1 {
                cur as int
            } else {
                n - 1
            };
            moved_and_selected(a0, a1, Screen::PseudocodeReview, rows[at])
        } else {
            a1 == a0
        }
    } else if key.code == KeyCode::Esc {
        r && s1 == s0 && moved_to(a0, a1, Screen::Triage)
    } else {
        s1 == s0 && match scroll_target(key, a0.ui.scroll_offset) {
            Some(t) => r && with_ui(a0, a1, scrolled_to(a0.ui, t)),
            None => !r && a1 == a0,
        }
    }
}

impl DeepReviewScreen {
    pub fn new() -> (s: Self)
        ensures
            s.current_review_index == 0,
    {
        DeepReviewScreen { current_review_index: 0 }
    }

    /// Positions of the sections that need review.
    fn review_positions(state: &AppState) -> (r: Vec<usize>)
        ensures
            r@ == review_rows(state.session.sections@),
    {
        let sections = &state.session.sections;
        let mut r: Vec<usize> = Vec::new();
        let mut i: usize = 0;
        while i < sections.len()
            invariant
                i <= sections@.len(),
                r@ == review_rows(sections@.take(i as int)),
            decreases sections@.len() - i,
        {
            proof {
                assert(sections@.take(i + 1).drop_last() =~= sections@.take(i as int));
            }
            if sections[i].needs_review() {
                r.push(i);
            }
            i = i + 1;
        }
        assert(sections@.take(i as int) =~= sections@);
        r
    }

    /// All reviewable sections (shaky or lost), reviewed or not, each with its position
    /// in the session.
    pub fn get_reviewable_sections<'a>(&self, state: &'a AppState) -> (r: Vec<(usize, &'a Section)>)
        ensures
            r@.len() == review_rows(state.session.sections@).len(),
            forall|j: int|
                0 <= j < r@.len() ==> (#[trigger] r@[j]).0 == review_rows(state.session.sections@)[j]
                    && *r@[j].1 == state.session.sections@[r@[j].0 as int],
    {
        let rows = DeepReviewScreen::review_positions(state);
        let count = state.session.sections.len();
        proof {
            assert(state.session.sections@.len() == count);
            lemma_review_rows_bounds(state.session.sections@);
        }
        let mut r: Vec<(usize, &'a Section)> = Vec::new();
        let mut j: usize = 0;
        while j < rows.len()
            invariant
                j <= rows@.len(),
                rows@ == review_rows(state.session.sections@),
                forall|k: int| 0 <= k < rows@.len() ==> #[trigger] rows@[k] < state.session.sections@.len(),
                r@.len() == j,
                forall|k: int|
                    0 <= k < j ==> (#[trigger] r@[k]).0 == rows@[k] && *r@[k].1
                        == state.session.sections@[r@[k].0 as int],
            decreases rows@.len() - j,
        {
            let at = rows[j];
            r.push((at, &state.session.sections[at]));
            j = j + 1;
        }
        r
    }

    /// Number of sections that need review, reviewed or not.
    pub fn total_needing_review(&self, state: &AppState) -> (n: usize)
        ensures
            n == review_rows(state.session.sections@).len(),
    {
        DeepReviewScreen::review_positions(state).len()
    }

    /// Number of sections that need review and have been reviewed.
    pub fn reviewed_count(&self, state: &AppState) -> (n: usize)
        ensures
            n == reviewed_needing(state.session.sections@),
    {
        let sections = &state.session.sections;
        let mut n: usize = 0;
        let mut i: usize = 0;
        while i < sections.len()
            invariant
                i <= sections@.len(),
                n == reviewed_needing(sections@.take(i as int)),
                n <= i,
            decreases sections@.len() - i,
        {
            proof {
                assert(sections@.take(i + 1).drop_last() =~= sections@.take(i as int));
            }
            if sections[i].needs_review() && sections[i].is_reviewed() {
                n = n + 1;
            }
            i = i + 1;
        }
        assert(sections@.take(i as int) =~= sections@);
        n
    }

    /// Whether every section that needs review has been reviewed (and there is one).
    pub fn all_reviewed(&self, state: &AppState) -> (b: bool)
        ensures
            b == all_reviewed(state.session.sections@),
    {
        let rows = DeepReviewScreen::review_positions(state);
        let count = state.session.sections.len();
        proof {
            assert(state.session.sections@.len() == count);
            lemma_review_rows_bounds(state.session.sections@);
        }
        if rows.len() == 0 {
            return false;
        }
        let mut j: usize = 0;
        while j < rows.len()
            invariant
                j <= rows@.len(),
                rows@ == review_rows(state.session.sections@),
                forall|k: int| 0 <= k < rows@.len() ==> #[trigger] rows@[k] < state.session.sections@.len(),
                forall|k: int| 0 <= k < j ==> is_reviewed(#[trigger] state.session.sections@[rows@[k] as int]),
            decreases rows@.len() - j,
        {
            if !state.session.sections[rows[j]].is_reviewed() {
                return false;
            }
            j = j + 1;
        }
        true
    }

    /// Move to the next section needing review, wrapping around.
    pub fn advance_to_next(&mut self, state: &AppState)
        requires
            old(self).current_review_index < usize::MAX,
        ensures
            final(self).current_review_index == advanced(
                old(self).current_review_index,
                review_rows(state.session.sections@).len(),
            ),
    {
        let n = self.total_needing_review(state);
        if n > 0 {
            self.current_review_index = (self.current_review_index + 1) % n;
        }
    }

    /// Move to the previous section needing review, wrapping around.
    pub fn go_to_previous(&mut self, state: &AppState)
        ensures
            final(self).current_review_index == went_back(
                old(self).current_review_index,
                review_rows(state.session.sections@).len(),
            ),
    {
        let n = self.total_needing_review(state);
        if n > 0 {
            if self.current_review_index == 0 {
                self.current_review_index = n - 1;
            } else {
                self.current_review_index = self.current_review_index - 1;
            }
        }
    }

    /// Handle a key on the deep review screen. While an error is shown, 'q' quits, 'r'
    /// clears it and 's' skips to the next section. Once every section is reviewed,
    /// Enter opens the summary. Otherwise 'n'/'p' move between sections, Enter reviews
    /// the current one, Esc goes back to triage, and the scroll keys scroll the code.
    pub fn handle_input(&mut self, key: Key, state: &mut AppState) -> (r: Result<bool, AppError>)
        requires
            is_char(key, 'n') || is_char(key, 's') ==> old(self).current_review_index < usize::MAX,
        ensures
            r matches Ok(consumed) && deep_review_step(
                *old(self),
                *old(state),
                key,
                *final(self),
                *final(state),
                consumed,
            ),
    {
        if state.ui.error.is_some() {
            return match handle_error_state_input(&key) {
                ErrorInputResult::Quit => {
                    state.quit();
                    Ok(true)
                },
                ErrorInputResult::Retry => {
                    state.ui.clear_error();
                    Ok(true)
                },
                ErrorInputResult::NotHandled => {
                    if key.code == KeyCode::Char('s') {
                        self.advance_to_next(state);
                        state.ui.clear_error();
                        Ok(true)
                    } else {
                        Ok(false)
                    }
                },
            };
        }
        if self.all_reviewed(state) {
            return if key.code == KeyCode::Char('q') {
                state.quit();
                Ok(true)
            } else if key.code == KeyCode::Enter {
                state.goto(Screen::Summary);
                Ok(true)
            } else {
                Ok(false)
            };
        }
        match key.code {
            KeyCode::Char('q') => {
                state.quit();
                Ok(true)
            },
            KeyCode::Char('n') => {
                self.advance_to_next(state);
                Ok(true)
            },
            KeyCode::Char('p') => {
                self.go_to_previous(state);
                Ok(true)
            },
            KeyCode::Enter => {
                let rows = DeepReviewScreen::review_positions(state);
                if rows.len() > 0 {
                    let clamped = if self.current_review_index < rows.len() - 1 {
                        self.current_review_index
                    } else {
                        rows.len() - 1
                    };
                    let section_idx = rows[clamped];
                    state.goto(Screen::PseudocodeReview);
                    state.ui.selected_index = section_idx;
                }
                Ok(true)
            },
            KeyCode::Esc => {
                state.goto(Screen::Triage);
                Ok(true)
            },
            _ => {
                match handle_scroll_input(&key, &mut state.ui.scroll_offset) {
                    Some(consumed) => Ok(consumed),
                    None => Ok(false),
                }
            },
        }
    }
}

impl Default for DeepReviewScreen {
    fn default() -> (s: Self)
        ensures
            s.current_review_index == 0,
    {
        DeepReviewScreen::new()
    }
}

} // verus!
