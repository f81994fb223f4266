use vstd::prelude::*;

use super::triage::quitting;
use super::{is_char, Key, KeyCode};
use crate::error::AppError;
use crate::models::{
    count_confirmed, count_corrected, count_tag, moved_to, tag_label, AppState, Assessment,
    Screen, Section, Session, Tag, UiState,
};
use crate::text::{append_str, decimal, owned, usize_to_string};

verus! {

/// Summary screen: review statistics, and export of the review to markdown.
#[derive(Debug)]
pub struct SummaryScreen {
    /// Path of the exported file, once there is one.
    pub exported_path: Option<String>,
    /// An export was asked for and awaits the application.
    pub export_requested: bool,
}

/// Each item on a line of its own, as a markdown bullet.
pub open spec fn bullet_items(items: Seq<String>) -> Seq<char>
    decreases items.len(),
{
    if items.len() == 0 {
        Seq::empty()
    } else {
        bullet_items(items.drop_last()) + "- "@ + items.last()@ + "\n"@
    }
}

/// One item makes one bullet line.
pub proof fn lemma_bullet_items_one(x: String)
    ensures
        bullet_items(seq![x]) == "- "@ + x@ + "\n"@,
{
    assert(seq![x].drop_last() =~= Seq::<String>::empty());
    assert(bullet_items(Seq::<String>::empty()) =~= Seq::<char>::empty());
    assert(Seq::<char>::empty() + "- "@ + x@ + "\n"@ =~= "- "@ + x@ + "\n"@);
}

/// The bullets of two lists one after the other are the bullets of the first list
/// followed by those of the second: every item keeps its line, in order.
pub proof fn lemma_bullet_items_concat(a: Seq<String>, b: Seq<String>)
    ensures
        bullet_items(a + b) == bullet_items(a) + bullet_items(b),
    decreases b.len(),
{
    if b.len() == 0 {
        assert(a + b =~= a);
        assert(bullet_items(a) + bullet_items(b) =~= bullet_items(a));
    } else {
        lemma_bullet_items_concat(a, b.drop_last());
        assert((a + b).drop_last() =~= a + b.drop_last());
        assert((a + b).last() == b.last());
        assert(bullet_items(a + b) =~= bullet_items(a) + bullet_items(b));
    }
}

/// Each bullet adds its item's text and three characters (`- ` and the newline), so
/// no item is left out.
pub proof fn lemma_bullet_items_len(items: Seq<String>)
    ensures
        bullet_items(items).len() == 3 * items.len() + items_text_len(items),
    decreases items.len(),
{
    reveal_strlit("- ");
    reveal_strlit("\n");
    if items.len() > 0 {
        lemma_bullet_items_len(items.drop_last());
    }
}

/// The total length of the items' texts.
pub open spec fn items_text_len(items: Seq<String>) -> nat
    decreases items.len(),
{
    if items.len() == 0 {
        0
    } else {
        items_text_len(items.drop_last()) + items.last()@.len()
    }
}

/// A headed bullet list followed by a blank line; nothing for no items.
pub open spec fn item_block(head: Seq<char>, items: Seq<String>) -> Seq<char> {
    if items.len() == 0 {
        Seq::empty()
    } else {
        head + bullet_items(items) + "\n"@
    }
}

/// The markdown of a hypothesis, if there is one.
pub open spec fn hypothesis_md(h: Option<String>) -> Seq<char> {
    match h {
        Some(h) => "**My Understanding:**\n\n"@ + "> "@ + h@ + "\n\n"@,
        None => Seq::empty(),
    }
}

/// The markdown of an assessment, if there is one.
pub open spec fn assessment_md(a: Option<Assessment>) -> Seq<char> {
    match a {
        Some(a) => item_block("**Correct:**\n"@, a.correct@) + item_block(
            "**Diverges:**\n"@,
            a.diverges@,
        ) + item_block("**Missed:**\n"@, a.missed@),
        None => Seq::empty(),
    }
}

/// The heading and description of a section.
pub open spec fn section_head_md(s: Section) -> Seq<char> {
    "### "@ + s.title@ + " ["@ + tag_label(s.tag) + "]\n\n"@ + s.description@ + "\n\n"@
}

/// The markdown of one section.
pub open spec fn section_md(s: Section) -> Seq<char> {
    section_head_md(s) + hypothesis_md(s.hypothesis) + assessment_md(s.assessment) + "---\n\n"@
}

/// The markdown of the sections, in order.
pub open spec fn sections_md(s: Seq<Section>) -> Seq<char>
    decreases s.len(),
{
    if s.len() == 0 {
        Seq::empty()
    } else {
        sections_md(s.drop_last()) + section_md(s.last())
    }
}

/// The exported review: a header with the session and the time it was generated, the
/// tag and hypothesis counts, then every section.
pub open spec fn report_md(session: Session, generated: Seq<char>) -> Seq<char> {
    let s = session.sections@;
    "# Code Review: "@ + session.identifier@ + "\n\n"@ + "Generated: "@ + generated + "\n\n"@
        + "## Summary\n\n"@ + "- **Sections**: "@ + decimal(count_tag(s, Tag::GotIt))
        + " got it, "@ + decimal(count_tag(s, Tag::Shaky)) + " shaky, "@ + decimal(
        count_tag(s, Tag::Lost),
    ) + " lost\n"@ + "- **Hypotheses**: "@ + decimal(count_confirmed(s)) + " confirmed, "@
        + decimal(count_corrected(s)) + " corrected\n\n"@ + "## Sections\n\n"@ + sections_md(s)
}

/// The name of the exported file for a time stamp.
pub open spec fn report_file_name_spec(stamp: Seq<char>) -> Seq<char> {
    "gauge-review-"@ + stamp + ".md"@
}

/// What the summary screen does with a key.
pub open spec fn summary_step(
    s0: SummaryScreen,
    a0: AppState,
    key: Key,
    s1: SummaryScreen,
    a1: AppState,
    r: bool,
) -> bool {
    if is_char(key, 'q') {
        r && s1 == s0 && quitting(a0, a1)
    } else if is_char(key, 'e') {
        r && a1 == a0 && s1 == (SummaryScreen { export_requested: true, ..s0 })
    } else if key.code == KeyCode::Esc {
        r && s1 == s0 && moved_to(a0, a1, Screen::DeepReview)
    } else {
        !r && s1 == s0 && a1 == a0
    }
}

fn push_bullets(out: &mut String, items: &Vec<String>)
    ensures
        final(out)@ == old(out)@ + bullet_items(items@),
{
    let mut i: usize = 0;
    while i < items.len()
        invariant
            i <= items@.len(),
            out@ == old(out)@ + bullet_items(items@.take(i as int)),
        decreases items@.len() - i,
    {
        let ghost before = out@;
        append_str(out, "- ");
        append_str(out, items[i].as_str());
        append_str(out, "\n");
        proof {
            assert(items@.take(i + 1).drop_last() =~= items@.take(i as int));
            assert(out@ =~= old(out)@ + bullet_items(items@.take(i + 1)));
        }
        i = i + 1;
    }
    assert(items@.take(i as int) =~= items@);
}

fn push_item_block(out: &mut String, head: &str, items: &Vec<String>)
    ensures
        final(out)@ == old(out)@ + item_block(head@, items@),
{
    if items.len() == 0 {
        assert(old(out)@ + Seq::<char>::empty() =~= old(out)@);
        return ;
    }
    append_str(out, head);
    push_bullets(out, items);
    append_str(out, "\n");
    assert(out@ =~= old(out)@ + item_block(head@, items@));
}

fn push_section_head(out: &mut String, s: &Section)
    ensures
        final(out)@ == old(out)@ + section_head_md(*s),
{
    append_str(out, "### ");
    append_str(out, s.title.as_str());
    append_str(out, " [");
    append_str(out, s.tag.label());
    append_str(out, "]\n\n");
    append_str(out, s.description.as_str());
    append_str(out, "\n\n");
    assert(out@ =~= old(out)@ + section_head_md(*s));
}

fn push_hypothesis(out: &mut String, h: &Option<String>)
    ensures
        final(out)@ == old(out)@ + hypothesis_md(*h),
{
    match h {
        Some(h) => {
            append_str(out, "**My Understanding:**\n\n");
            append_str(out, "> ");
            append_str(out, h.as_str());
            append_str(out, "\n\n");
        },
        None => {},
    }
    assert(out@ =~= old(out)@ + hypothesis_md(*h));
}

fn push_assessment(out: &mut String, a: &Option<Assessment>)
    ensures
        final(out)@ == old(out)@ + assessment_md(*a),
{
    match a {
        Some(a) => {
            push_item_block(out, "**Correct:**\n", &a.correct);
            push_item_block(out, "**Diverges:**\n", &a.diverges);
            push_item_block(out, "**Missed:**\n", &a.missed);
        },
        None => {},
    }
    assert(out@ =~= old(out)@ + assessment_md(*a));
}

fn push_section(out: &mut String, s: &Section)
    ensures
        final(out)@ == old(out)@ + section_md(*s),
{
    push_section_head(out, s);
    push_hypothesis(out, &s.hypothesis);
    push_assessment(out, &s.assessment);
    append_str(out, "---\n\n");
    assert(out@ =~= old(out)@ + section_md(*s));
}

impl SummaryScreen {
    pub fn new() -> (s: Self)
        ensures
            s.exported_path is None,
            !s.export_requested,
    {
        SummaryScreen { exported_path: None, export_requested: false }
    }

    /// Width of a bar segment for `count` out of `total` on a bar `bar_width` wide.
    pub fn proportional_width(count: usize, total: usize, bar_width: usize) -> (w: usize)
        requires
            count * bar_width <= usize::MAX,
        ensures
            total > 0 ==> w == (count * bar_width) / (total as int),
            total == 0 ==> w == 0,
    {
        if total > 0 {
            (count * bar_width) / total
        } else {
            0
        }
    }

    /// Handle a key on the summary screen: 'q' quits, 'e' asks for an export (which
    /// the application performs), Esc goes back to deep review.
    pub fn handle_input(&mut self, key: Key, state: &mut AppState) -> (r: Result<bool, AppError>)
        ensures
            r matches Ok(consumed) && summary_step(
                *old(self),
                *old(state),
                key,
                *final(self),
                *final(state),
                consumed,
            ),
    {
        match key.code {
            KeyCode::Char('q') => {
                state.quit();
                Ok(true)
            },
            KeyCode::Char('e') => {
                self.export_requested = true;
                Ok(true)
            },
            KeyCode::Esc => {
                state.goto(Screen::DeepReview);
                Ok(true)
            },
            _ => Ok(false),
        }
    }

    /// Take in how the asked-for export went: its path, or why it failed (shown as an
    /// error).
    pub fn finish_export(&mut self, state: &mut AppState, outcome: Result<String, String>)
        ensures
            !final(self).export_requested,
            final(state).session == old(state).session,
            final(state).screen == old(state).screen,
            final(state).should_quit == old(state).should_quit,
            match outcome {
                Ok(path) => {
                    &&& final(self).exported_path == Some(path)
                    &&& final(state).ui == old(state).ui
                },
                Err(e) => {
                    &&& final(self).exported_path == old(self).exported_path
                    &&& final(state).ui.error matches Some(m) && m@ == "Export failed: "@ + e@
                    &&& final(state).ui == (UiState { error: final(state).ui.error, ..old(state).ui })
                },
            },
    {
        self.export_requested = false;
        match outcome {
            Ok(path) => {
                self.exported_path = Some(path);
            },
            Err(e) => {
                let mut msg = owned("Export failed: ");
                append_str(&mut msg, e.as_str());
                state.ui.set_error(msg.as_str());
            },
        }
    }
}

impl Default for SummaryScreen {
    fn default() -> (s: Self)
        ensures
            s.exported_path is None,
            !s.export_requested,
    {
        SummaryScreen::new()
    }
}

/// The markdown export of a review session; `generated` is the time stamp written in
/// its header.
pub fn markdown_report(session: &Session, generated: &str) -> (r: String)
    ensures
        r@ == report_md(*session, generated@),
{
    let tags = session.tag_counts();
    let hyps = session.hypothesis_counts();
    let mut out = owned("# Code Review: ");
    append_str(&mut out, session.identifier.as_str());
    append_str(&mut out, "\n\n");
    append_str(&mut out, "Generated: ");
    append_str(&mut out, generated);
    append_str(&mut out, "\n\n");
    append_str(&mut out, "## Summary\n\n");
    append_str(&mut out, "- **Sections**: ");
    append_str(&mut out, usize_to_string(tags.got_it).as_str());
    append_str(&mut out, " got it, ");
    append_str(&mut out, usize_to_string(tags.shaky).as_str());
    append_str(&mut out, " shaky, ");
    append_str(&mut out, usize_to_string(tags.lost).as_str());
    append_str(&mut out, " lost\n");
    append_str(&mut out, "- **Hypotheses**: ");
    append_str(&mut out, usize_to_string(hyps.confirmed).as_str());
    append_str(&mut out, " confirmed, ");
    append_str(&mut out, usize_to_string(hyps.corrected).as_str());
    append_str(&mut out, " corrected\n\n");
    append_str(&mut out, "## Sections\n\n");
    let ghost head = out@;
    let mut i: usize = 0;
    while i < session.sections.len()
        invariant
            i <= session.sections@.len(),
            out@ == head + sections_md(session.sections@.take(i as int)),
        decreases session.sections@.len() - i,
    {
        push_section(&mut out, &session.sections[i]);
        proof {
            assert(session.sections@.take(i + 1).drop_last() =~= session.sections@.take(i as int));
            assert(out@ =~= head + sections_md(session.sections@.take(i + 1)));
        }
        i = i + 1;
    }
    assert(session.sections@.take(i as int) =~= session.sections@);
    assert(out@ =~= report_md(*session, generated@));
    out
}

/// The name of the exported file for a time stamp: `gauge-review-<stamp>.md`.
pub fn report_file_name(stamp: &str) -> (r: String)
    ensures
        r@ == report_file_name_spec(stamp@),
{
    let mut r = owned("gauge-review-");
    append_str(&mut r, stamp);
    append_str(&mut r, ".md");
    r
}

} // verus!
