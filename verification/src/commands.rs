use vstd::prelude::*;

use crate::cli::{line_range_of, parse_line_range, DiffAction, SectionAction};
use crate::diff_parser::{
    filter_by_hunks, filter_by_lines, format_hunk_preview, hunks_preview, patch_safe,
    line_spans_fit, missing_hunk_message, parse_hunks, parsed_hunks, select_by_index,
    select_by_lines, Hunk,
};
use crate::git::{join_lines, lines_between, select_lines};
use crate::error::AppError;
use crate::models::{
    same_but_sections, same_section, tag_label, texts, CodeSource, ReviewStage,
    Section, Session,
};
use crate::session::{default_hash, hash_str, SessionLoadResult};
use crate::text::{
    append_str, chars_of, decimal, hex16, hex16_string, lemma_parse_decimal, owned,
    parse_usize, parse_usize_range, starts_with, trim, trim_str, usize_to_string,
};

verus! {

// ---------------------------------------------------------------------------
// Sessions
// ---------------------------------------------------------------------------

/// The key of the active-session pointer of a repository and branch: the hash of
/// `<root>:<branch>` in 16 hex digits, so each pair gets its own pointer.
pub fn context_key(repo_root: &str, branch: &str) -> (r: String)
    ensures
        r@ == hex16(default_hash(repo_root@ + ":"@ + branch@)),
        r@.len() == 16,
{
    let mut key = owned(repo_root);
    append_str(&mut key, ":");
    append_str(&mut key, branch);
    hex16_string(hash_str(key.as_str()))
}

/// The message when no session is active.
pub const NO_ACTIVE_SESSION: &'static str = "No active session. Run 'sherpa init <name>' first.";

/// The message for a corrupted session file.
pub open spec fn corrupted_message(path: Seq<char>, error: Seq<char>) -> Seq<char> {
    "Session file corrupted ("@ + path + "): "@ + error
}

fn corrupted_error(path: &str, error: &str) -> (e: AppError)
    ensures
        e matches AppError::Session(m) && m@ == corrupted_message(path@, error@),
{
    let mut m = owned("Session file corrupted (");
    append_str(&mut m, path);
    append_str(&mut m, "): ");
    append_str(&mut m, error);
    AppError::Session(m)
}

/// The active session as loaded: the session, or why it cannot be used.
pub fn active_session(name: &str, loaded: SessionLoadResult) -> (r: Result<Session, AppError>)
    ensures
        match loaded {
            SessionLoadResult::Loaded(s) => r == Ok::<Session, AppError>(s),
            SessionLoadResult::Corrupted { path, error } => r matches Err(AppError::Session(m))
                && m@ == corrupted_message(path@, error@),
            SessionLoadResult::NotFound => r matches Err(AppError::Session(m)) && m@
                == "Active session '"@ + name@ + "' not found. Run 'sherpa init <name>' to create one."@,
        },
{
    match loaded {
        SessionLoadResult::Loaded(s) => Ok(s),
        SessionLoadResult::Corrupted { path, error } => Err(
            corrupted_error(path.as_str(), error.as_str()),
        ),
        SessionLoadResult::NotFound => {
            let mut m = owned("Active session '");
            append_str(&mut m, name);
            append_str(&mut m, "' not found. Run 'sherpa init <name>' to create one.");
            Err(AppError::Session(m))
        },
    }
}

/// The session to open, as loaded: the session, or why it cannot be opened.
pub fn session_to_open(name: &str, loaded: SessionLoadResult) -> (r: Result<Session, AppError>)
    ensures
        match loaded {
            SessionLoadResult::Loaded(s) => r == Ok::<Session, AppError>(s),
            SessionLoadResult::Corrupted { path, error } => r matches Err(AppError::Session(m))
                && m@ == corrupted_message(path@, error@),
            SessionLoadResult::NotFound => r matches Err(AppError::Session(m)) && m@ == "Session '"@
                + name@ + "' not found. Run 'sherpa init "@ + name@ + "' first."@,
        },
{
    match loaded {
        SessionLoadResult::Loaded(s) => Ok(s),
        SessionLoadResult::Corrupted { path, error } => Err(
            corrupted_error(path.as_str(), error.as_str()),
        ),
        SessionLoadResult::NotFound => {
            let mut m = owned("Session '");
            append_str(&mut m, name);
            append_str(&mut m, "' not found. Run 'sherpa init ");
            append_str(&mut m, name);
            append_str(&mut m, "' first.");
            Err(AppError::Session(m))
        },
    }
}

/// How creating a session goes on, given what is stored under its name.
#[derive(Clone, Copy, Debug, PartialEq, Eq, Structural)]
pub enum InitPlan {
    /// Nothing is stored: create it.
    Create,
    /// A corrupted file is stored: delete it, then create.
    ReplaceCorrupted,
}

/// Whether a session may be created under `name`: not over an existing one; a
/// corrupted file is replaced.
pub fn init_plan(name: &str, loaded: &SessionLoadResult) -> (r: Result<InitPlan, AppError>)
    ensures
        match loaded {
            SessionLoadResult::Loaded(_) => r matches Err(AppError::Session(m)) && m@ == "Session '"@
                + name@ + "' already exists. Delete it first or choose a different name."@,
            SessionLoadResult::Corrupted { .. } => r == Ok::<InitPlan, AppError>(
                InitPlan::ReplaceCorrupted,
            ),
            SessionLoadResult::NotFound => r == Ok::<InitPlan, AppError>(InitPlan::Create),
        },
{
    match loaded {
        SessionLoadResult::Loaded(_) => {
            let mut m = owned("Session '");
            append_str(&mut m, name);
            append_str(&mut m, "' already exists. Delete it first or choose a different name.");
            Err(AppError::Session(m))
        },
        SessionLoadResult::Corrupted { .. } => Ok(InitPlan::ReplaceCorrupted),
        SessionLoadResult::NotFound => Ok(InitPlan::Create),
    }
}

/// The message for marking an empty session done.
pub const NO_SECTIONS_MESSAGE: &'static str = "No sections in session. Add sections before marking done.";

/// Mark a session ready for triage; a session without sections cannot be.
pub fn mark_done(session: &mut Session) -> (r: Result<(), AppError>)
    ensures
        old(session).sections@.len() == 0 ==> (r matches Err(AppError::Session(m)) && m@
            == NO_SECTIONS_MESSAGE@) && *final(session) == *old(session),
        old(session).sections@.len() > 0 ==> r is Ok && *final(session) == (Session {
            stage: ReviewStage::Triage,
            ..*old(session)
        }),
{
    if session.sections.len() == 0 {
        return Err(AppError::Session(owned(NO_SECTIONS_MESSAGE)));
    }
    session.stage = ReviewStage::Triage;
    Ok(())
}

/// The word for a stage in the session list.
pub open spec fn stage_word(stage: ReviewStage) -> Seq<char> {
    match stage {
        ReviewStage::Loading => "loading"@,
        ReviewStage::Triage => "triage"@,
        ReviewStage::DeepReview => "review"@,
        ReviewStage::Summary => "summary"@,
    }
}

pub fn stage_name(stage: ReviewStage) -> (s: &'static str)
    ensures
        s@ == stage_word(stage),
{
    match stage {
        ReviewStage::Loading => "loading",
        ReviewStage::Triage => "triage",
        ReviewStage::DeepReview => "review",
        ReviewStage::Summary => "summary",
    }
}

/// A line of the session list: the name, a star for the active session, then the
/// stage and number of sections, or `(corrupted)` for a session that did not load.
pub open spec fn list_line_spec(name: Seq<char>, active: bool, loaded: Option<Session>) -> Seq<char> {
    name + (if active {
        " *"@
    } else {
        ""@
    }) + match loaded {
        Some(s) => " ("@ + stage_word(s.stage) + ", "@ + decimal(s.sections@.len()) + " sections)"@,
        None => " (corrupted)"@,
    }
}

pub fn session_list_line(name: &str, active: bool, loaded: Option<&Session>) -> (r: String)
    ensures
        r@ == list_line_spec(
            name@,
            active,
            match loaded {
                Some(s) => Some(*s),
                None => None,
            },
        ),
{
    let mut r = owned(name);
    if active {
        append_str(&mut r, " *");
    } else {
        append_str(&mut r, "");
    }
    match loaded {
        Some(s) => {
            append_str(&mut r, " (");
            append_str(&mut r, stage_name(s.stage));
            append_str(&mut r, ", ");
            append_str(&mut r, usize_to_string(s.sections.len()).as_str());
            append_str(&mut r, " sections)");
        },
        None => {
            append_str(&mut r, " (corrupted)");
        },
    }
    assert(r@ =~= list_line_spec(
        name@,
        active,
        match loaded {
            Some(s) => Some(*s),
            None => None,
        },
    ));
    r
}

// ---------------------------------------------------------------------------
// Sections
// ---------------------------------------------------------------------------

/// Lines a command prints, to standard output and to standard error.
#[derive(Debug)]
pub struct CommandOutput {
    pub stdout: Vec<String>,
    pub stderr: Vec<String>,
}

/// Position of the first section with the given id.
pub open spec fn id_position(s: Seq<Section>, id: Seq<char>) -> Option<int>
    decreases s.len(),
{
    if s.len() == 0 {
        None
    } else {
        match id_position(s.drop_last(), id) {
            Some(k) => Some(k),
            None => if s.last().id@ == id {
                Some(s.len() - 1)
            } else {
                None
            },
        }
    }
}

proof fn lemma_id_position_prefix(s: Seq<Section>, n: int, id: Seq<char>)
    requires
        0 <= n <= s.len(),
        id_position(s.take(n), id) is Some,
    ensures
        id_position(s, id) == id_position(s.take(n), id),
    decreases s.len() - n,
{
    if n < s.len() {
        assert(s.take(n + 1).drop_last() =~= s.take(n));
        lemma_id_position_prefix(s, n + 1, id);
    } else {
        assert(s.take(n) =~= s);
    }
}

pub proof fn lemma_id_position(s: Seq<Section>, id: Seq<char>)
    ensures
        id_position(s, id) matches Some(k) ==> 0 <= k < s.len() && s[k].id@ == id,
        id_position(s, id) is None ==> forall|k: int| 0 <= k < s.len() ==> s[k].id@ != id,
    decreases s.len(),
{
    if s.len() > 0 {
        lemma_id_position(s.drop_last(), id);
        assert forall|k: int| 0 <= k < s.len() - 1 implies s[k] == s.drop_last()[k] by {}
    }
}

/// The message for a section id that is not there.
pub open spec fn section_not_found(id: Seq<char>) -> Seq<char> {
    "Section '"@ + id + "' not found"@
}

pub fn not_found_error(id: &str) -> (e: AppError)
    ensures
        e matches AppError::Session(m) && m@ == section_not_found(id@),
{
    let mut m = owned("Section '");
    append_str(&mut m, id);
    append_str(&mut m, "' not found");
    AppError::Session(m)
}

/// Position of the first section with the given id.
pub fn find_section(sections: &Vec<Section>, id: &str) -> (r: Option<usize>)
    ensures
        match r {
            Some(k) => id_position(sections@, id@) == Some(k as int) && k < sections@.len(),
            None => id_position(sections@, id@) is None,
        },
{
    let wanted = owned(id);
    let mut i: usize = 0;
    while i < sections.len()
        invariant
            wanted@ == id@,
            i <= sections@.len(),
            id_position(sections@.take(i as int), id@) is None,
        decreases sections@.len() - i,
    {
        assert(sections@.take(i + 1).drop_last() =~= sections@.take(i as int));
        if sections[i].id == wanted {
            proof {
                lemma_id_position_prefix(sections@, i + 1, id@);
            }
            return Some(i);
        }
        i = i + 1;
    }
    assert(sections@.take(i as int) =~= sections@);
    None
}

/// The first of `ids` (by position) that no section carries.
pub open spec fn first_missing(s: Seq<Section>, ids: Seq<String>) -> Option<int>
    decreases ids.len(),
{
    if ids.len() == 0 {
        None
    } else {
        match first_missing(s, ids.drop_last()) {
            Some(j) => Some(j),
            None => if id_position(s, ids.last()@) is None {
                Some(ids.len() - 1)
            } else {
                None
            },
        }
    }
}

proof fn lemma_first_missing_prefix(s: Seq<Section>, ids: Seq<String>, n: int)
    requires
        0 <= n <= ids.len(),
        first_missing(s, ids.take(n)) is Some,
    ensures
        first_missing(s, ids) == first_missing(s, ids.take(n)),
    decreases ids.len() - n,
{
    if n < ids.len() {
        assert(ids.take(n + 1).drop_last() =~= ids.take(n));
        lemma_first_missing_prefix(s, ids, n + 1);
    } else {
        assert(ids.take(n) =~= ids);
    }
}

pub(crate) proof fn lemma_first_missing_none(s: Seq<Section>, ids: Seq<String>)
    requires
        first_missing(s, ids) is None,
    ensures
        forall|j: int| 0 <= j < ids.len() ==> id_position(s, (#[trigger] ids[j])@) is Some,
    decreases ids.len(),
{
    if ids.len() > 0 {
        lemma_first_missing_none(s, ids.drop_last());
        assert forall|j: int| 0 <= j < ids.len() implies id_position(s, (#[trigger] ids[j])@) is Some by {
            if j < ids.len() - 1 {
                assert(ids[j] == ids.drop_last()[j]);
            }
        }
    }
}

/// The sections in the order the ids give, each id standing for the first section
/// that carries it.
pub open spec fn reordered(s: Seq<Section>, ids: Seq<String>) -> Seq<Section> {
    Seq::new(ids.len(), |j: int| s[id_position(s, ids[j]@)->0])
}

/// No two sections carry the same id.
pub open spec fn distinct_ids(s: Seq<Section>) -> bool {
    forall|i: int, j: int| 0 <= i < s.len() && 0 <= j < s.len() && i != j ==> s[i].id@ != s[j].id@
}

/// A reorder is taken exactly when its ids are the sections' ids, each once: each id
/// is found and none is named twice, and there are as many ids as sections.  When the
/// sections' ids are distinct, the result is then a rearrangement of the sections:
/// the position each id stands for is different for different ids.
pub proof fn lemma_reorder_positions_distinct(s: Seq<Section>, ids: Seq<String>)
    requires
        first_missing(s, ids) is None,
        distinct_texts(ids),
    ensures
        forall|a: int, b: int|
            0 <= a < ids.len() && 0 <= b < ids.len() && a != b ==> id_position(s, ids[a]@)->0
                != id_position(s, ids[b]@)->0,
{
    lemma_first_missing_none(s, ids);
    assert forall|a: int, b: int|
        0 <= a < ids.len() && 0 <= b < ids.len() && a != b implies id_position(s, ids[a]@)->0
            != id_position(s, ids[b]@)->0 by {
        lemma_id_position(s, ids[a]@);
        lemma_id_position(s, ids[b]@);
        assert(id_position(s, ids[a]@) is Some);
        assert(id_position(s, ids[b]@) is Some);
    }
}

/// Naming every section, in its current order, reorders nothing: no id is missing
/// and each place gets the section already there (ids being distinct).
pub proof fn lemma_reorder_in_place(s: Seq<Section>, ids: Seq<String>)
    requires
        distinct_ids(s),
        ids.len() == s.len(),
        forall|j: int| 0 <= j < ids.len() ==> (#[trigger] ids[j])@ == s[j].id@,
    ensures
        first_missing(s, ids) is None,
        distinct_texts(ids),
        reordered(s, ids) == s,
{
    assert forall|j: int| 0 <= j < ids.len() implies id_position(s, (#[trigger] ids[j])@) == Some(
        j,
    ) by {
        lemma_id_position(s, ids[j]@);
        if id_position(s, ids[j]@) is None {
            assert(s[j].id@ == ids[j]@);
        }
    }
    lemma_first_missing_all_found(s, ids);
    assert(reordered(s, ids) =~= s);
}

proof fn lemma_first_missing_all_found(s: Seq<Section>, ids: Seq<String>)
    requires
        forall|j: int| 0 <= j < ids.len() ==> id_position(s, (#[trigger] ids[j])@) is Some,
    ensures
        first_missing(s, ids) is None,
    decreases ids.len(),
{
    if ids.len() > 0 {
        assert forall|j: int| 0 <= j < ids.drop_last().len() implies id_position(
            s,
            (#[trigger] ids.drop_last()[j])@,
        ) is Some by {
            assert(ids.drop_last()[j] == ids[j]);
        }
        lemma_first_missing_all_found(s, ids.drop_last());
        assert(id_position(s, ids[ids.len() - 1]@) is Some);
    }
}

/// No two of the strings are equal.
pub open spec fn distinct_texts(v: Seq<String>) -> bool {
    forall|i: int, j: int| 0 <= i < v.len() && 0 <= j < v.len() && i != j ==> v[i]@ != v[j]@
}

/// Whether some string occurs twice.
pub fn has_repeat(v: &Vec<String>) -> (r: bool)
    ensures
        r == !distinct_texts(v@),
{
    let mut i: usize = 0;
    while i < v.len()
        invariant
            i <= v@.len(),
            forall|a: int, b: int| 0 <= a < i && 0 <= b < v@.len() && a != b ==> v@[a]@ != v@[b]@,
        decreases v@.len() - i,
    {
        let mut j: usize = 0;
        while j < v.len()
            invariant
                i < v@.len(),
                j <= v@.len(),
                forall|a: int, b: int| 0 <= a < i && 0 <= b < v@.len() && a != b ==> v@[a]@ != v@[b]@,
                forall|b: int| 0 <= b < j && b != i ==> v@[i as int]@ != v@[b]@,
            decreases v@.len() - j,
        {
            if j != i && v[i] == v[j] {
                return true;
            }
            j = j + 1;
        }
        i = i + 1;
    }
    false
}

/// The message for a reorder that does not name every section.
pub open spec fn count_mismatch(expected: nat, got: nat) -> Seq<char> {
    "Expected "@ + decimal(expected) + " section IDs, got "@ + decimal(got)
        + ". All sections must be included."@
}

/// Files joined by `", "`.
pub open spec fn join_comma(items: Seq<String>) -> Seq<char>
    decreases items.len(),
{
    if items.len() == 0 {
        Seq::empty()
    } else if items.len() == 1 {
        items[0]@
    } else {
        join_comma(items.drop_last()) + ", "@ + items.last()@
    }
}

pub(crate) fn join_files(items: &Vec<String>) -> (r: String)
    ensures
        r@ == join_comma(items@),
{
    let mut r = String::new();
    let mut i: usize = 0;
    while i < items.len()
        invariant
            i <= items@.len(),
            r@ == join_comma(items@.take(i as int)),
        decreases items@.len() - i,
    {
        assert(items@.take(i + 1).drop_last() =~= items@.take(i as int));
        if i > 0 {
            append_str(&mut r, ", ");
        }
        append_str(&mut r, items[i].as_str());
        assert(r@ =~= join_comma(items@.take(i + 1)));
        i = i + 1;
    }
    assert(items@.take(i as int) =~= items@);
    r
}

/// The lines `section show` prints for a section.
pub open spec fn show_lines(s: Section) -> Seq<Seq<char>> {
    seq![
        "ID: "@ + s.id@,
        "Title: "@ + s.title@,
        "Description: "@ + s.description@,
        "Tag: "@ + tag_label(s.tag),
        "Code blocks: "@ + decimal(s.code_blocks@.len()),
        "Files: "@ + join_comma(s.files@),
    ]
}

/// The line `section list` prints for a section.
pub open spec fn list_entry(s: Section) -> Seq<char> {
    s.id@ + ": "@ + s.title@ + " ("@ + decimal(s.code_blocks@.len()) + " code blocks, "@
        + tag_label(s.tag) + ")"@
}


/// The number `sec_<n>` carries, if the id has that form.
pub open spec fn section_number(id: Seq<char>) -> Option<usize> {
    if starts_with(id, "sec_"@) {
        parse_usize(id.skip(4))
    } else {
        None
    }
}

/// The largest number among the ids of the form `sec_<n>` (0 when there is none).
pub open spec fn max_section_number(s: Seq<Section>) -> usize
    decreases s.len(),
{
    if s.len() == 0 {
        0
    } else {
        let m = max_section_number(s.drop_last());
        match section_number(s.last().id@) {
            Some(n) => if n > m {
                n
            } else {
                m
            },
            None => m,
        }
    }
}

proof fn lemma_max_section_number(s: Seq<Section>)
    ensures
        forall|k: int|
            0 <= k < s.len() ==> (section_number(#[trigger] s[k].id@) matches Some(n) ==> n
                <= max_section_number(s)),
    decreases s.len(),
{
    if s.len() > 0 {
        lemma_max_section_number(s.drop_last());
        assert forall|k: int| 0 <= k < s.len() - 1 implies s[k] == s.drop_last()[k] by {}
    }
}

fn section_number_of(id: &str) -> (r: Option<usize>)
    ensures
        r == section_number(id@),
{
    let v = chars_of(id);
    let p = chars_of("sec_");
    proof {
        reveal_strlit("sec_");
    }
    if !crate::text::matches_at(&v, &p, 0) {
        return None;
    }
    assert(v@.subrange(4, v@.len() as int) =~= v@.skip(4));
    parse_usize_range(&v, 4, v.len())
}

/// The id for a new section: `sec_<n>` with `n` one above the largest number any
/// `sec_<n>` id carries, so it is new. `None` when that number is the largest there is.
pub fn next_section_id(session: &Session) -> (r: Option<String>)
    ensures
        max_section_number(session.sections@) < usize::MAX ==> (r matches Some(id) && id@
            == "sec_"@ + decimal((max_section_number(session.sections@) + 1) as nat)
            && id_position(session.sections@, id@) is None),
        max_section_number(session.sections@) == usize::MAX ==> r is None,
{
    let mut m: usize = 0;
    let mut i: usize = 0;
    while i < session.sections.len()
        invariant
            i <= session.sections@.len(),
            m == max_section_number(session.sections@.take(i as int)),
        decreases session.sections@.len() - i,
    {
        assert(session.sections@.take(i + 1).drop_last() =~= session.sections@.take(i as int));
        match section_number_of(session.sections[i].id.as_str()) {
            Some(n) => {
                if n > m {
                    m = n;
                }
            },
            None => {},
        }
        i = i + 1;
    }
    assert(session.sections@.take(i as int) =~= session.sections@);
    if m == usize::MAX {
        return None;
    }
    let n = m + 1;
    let mut id = owned("sec_");
    append_str(&mut id, usize_to_string(n).as_str());
    proof {
        reveal_strlit("sec_");
        lemma_max_section_number(session.sections@);
        lemma_parse_decimal(n);
        assert(id@.skip(4) =~= decimal(n as nat));
        assert(id@.subrange(0, 4) =~= "sec_"@);
        assert(section_number(id@) == Some(n));
        lemma_id_position(session.sections@, id@);
        if id_position(session.sections@, id@) is Some {
            let k = id_position(session.sections@, id@)->0;
            assert(section_number(session.sections@[k].id@) == Some(n));
        }
    }
    Some(id)
}

/// What a section command does to the session and prints.
pub open spec fn section_applied(
    before: Session,
    action: SectionAction,
    after: Session,
    r: Result<CommandOutput, AppError>,
) -> bool {
    let s = before.sections@;
    match action {
        SectionAction::Add { title, description } => if max_section_number(s) < usize::MAX {
            &&& r matches Ok(out) && out.stderr@.len() == 0 && out.stdout@.len() == 1 && {
                let id = out.stdout@[0]@;
                &&& id == "sec_"@ + decimal((max_section_number(s) + 1) as nat)
                &&& id_position(s, id) is None
                &&& after.sections@.len() == s.len() + 1
                &&& after.sections@.drop_last() == s
                &&& after.sections@.last().id@ == id
                &&& after.sections@.last().title == title
                &&& after.sections@.last().description == description
                &&& after.sections@.last().code@.len() == 0
                &&& after.sections@.last().code_blocks@.len() == 0
                &&& after.sections@.last().files@.len() == 0
                &&& after.sections@.last().tag == crate::models::Tag::Untagged
                &&& after.sections@.last().hypothesis is None
                &&& after.sections@.last().assessment is None
                &&& same_but_sections(after, before)
            }
        } else {
            &&& r matches Err(AppError::Session(m)) && m@ == NO_SECTION_ID@
            &&& after == before
        },
        SectionAction::Show { id } => after == before && match id_position(s, id@) {
            Some(k) => (r matches Ok(out) && texts(out.stdout@) == show_lines(s[k])
                && out.stderr@.len() == 0),
            None => (r matches Err(AppError::Session(m)) && m@ == section_not_found(id@)),
        },
        SectionAction::List => after == before && (r matches Ok(out) && if s.len() == 0 {
            out.stdout@.len() == 0 && texts(out.stderr@) == seq!["No sections."@]
        } else {
            out.stderr@.len() == 0 && texts(out.stdout@) == s.map_values(
                |x: Section| list_entry(x),
            )
        }),
        SectionAction::Delete { id } => match id_position(s, id@) {
            Some(k) => r matches Ok(out) && out.stdout@.len() == 0 && texts(out.stderr@) == seq![
                "Deleted section '"@ + id@ + "'"@,
            ] && after.sections@ == s.remove(k) && same_but_sections(after, before),
            None => r matches Err(AppError::Session(m)) && m@ == section_not_found(id@) && after
                == before,
        },
        SectionAction::Reorder { ids } => match first_missing(s, ids@) {
            Some(j) => r matches Err(AppError::Session(m)) && m@ == section_not_found(ids@[j]@)
                && after == before,
            None => if ids@.len() != s.len() || !distinct_texts(ids@) {
                r matches Err(AppError::Session(m)) && m@ == count_mismatch(s.len(), ids@.len())
                    && after == before
            } else {
                &&& r matches Ok(out) && out.stdout@.len() == 0 && texts(out.stderr@) == seq![
                    "Sections reordered."@,
                ]
                &&& after.sections@.len() == ids@.len()
                &&& forall|j: int|
                    0 <= j < ids@.len() ==> same_section(
                        #[trigger] after.sections@[j],
                        reordered(s, ids@)[j],
                    )
                &&& same_but_sections(after, before)
            },
        },
        SectionAction::Update { id, title, description } => match id_position(s, id@) {
            Some(k) => {
                &&& r matches Ok(out) && out.stdout@.len() == 0 && texts(out.stderr@) == seq![
                    "Section '"@ + id@ + "' updated."@,
                ]
                &&& after.sections@ == s.update(
                    k,
                    Section {
                        title: match title {
                            Some(t) => t,
                            None => s[k].title,
                        },
                        description: match description {
                            Some(d) => d,
                            None => s[k].description,
                        },
                        ..s[k]
                    },
                )
                &&& same_but_sections(after, before)
            },
            None => r matches Err(AppError::Session(m)) && m@ == section_not_found(id@) && after
                == before,
        },
    }
}

/// The message when no new section id is left.
pub const NO_SECTION_ID: &'static str = "No section id left";

pub(crate) fn one_line(s: String) -> (v: Vec<String>)
    ensures
        texts(v@) == seq![s@],
{
    let mut v: Vec<String> = Vec::new();
    v.push(s);
    assert(texts(v@) =~= seq![s@]);
    v
}

fn section_add(session: &mut Session, title: String, description: String) -> (r: Result<
    CommandOutput,
    AppError,
>)
    ensures
        section_applied(
            *old(session),
            SectionAction::Add { title, description },
            *final(session),
            r,
        ),
{
    match next_section_id(session) {
        None => Err(AppError::Session(owned(NO_SECTION_ID))),
        Some(id) => {
            let printed = id.clone();
            let section = Section::new(id, title, description, String::new());
            session.sections.push(section);
            let mut stdout: Vec<String> = Vec::new();
            stdout.push(printed);
            assert(session.sections@.drop_last() =~= old(session).sections@);
            Ok(CommandOutput { stdout, stderr: Vec::new() })
        },
    }
}

fn section_show(session: &Session, id: &str) -> (r: Result<CommandOutput, AppError>)
    ensures
        match id_position(session.sections@, id@) {
            Some(k) => r matches Ok(out) && texts(out.stdout@) == show_lines(session.sections@[k])
                && out.stderr@.len() == 0,
            None => r matches Err(AppError::Session(m)) && m@ == section_not_found(id@),
        },
{
    match find_section(&session.sections, id) {
        None => Err(not_found_error(id)),
        Some(k) => {
            let s = &session.sections[k];
            let mut stdout: Vec<String> = Vec::new();
            let mut l = owned("ID: ");
            append_str(&mut l, s.id.as_str());
            stdout.push(l);
            let mut l = owned("Title: ");
            append_str(&mut l, s.title.as_str());
            stdout.push(l);
            let mut l = owned("Description: ");
            append_str(&mut l, s.description.as_str());
            stdout.push(l);
            let mut l = owned("Tag: ");
            append_str(&mut l, s.tag.label());
            stdout.push(l);
            let mut l = owned("Code blocks: ");
            append_str(&mut l, usize_to_string(s.code_blocks.len()).as_str());
            stdout.push(l);
            let mut l = owned("Files: ");
            append_str(&mut l, join_files(&s.files).as_str());
            stdout.push(l);
            assert(texts(stdout@) =~= show_lines(*s));
            Ok(CommandOutput { stdout, stderr: Vec::new() })
        },
    }
}

fn section_list(session: &Session) -> (out: CommandOutput)
    ensures
        session.sections@.len() == 0 ==> out.stdout@.len() == 0 && texts(out.stderr@) == seq![
            "No sections."@,
        ],
        session.sections@.len() > 0 ==> out.stderr@.len() == 0 && texts(out.stdout@)
            == session.sections@.map_values(|x: Section| list_entry(x)),
{
    if session.sections.len() == 0 {
        return CommandOutput { stdout: Vec::new(), stderr: one_line(owned("No sections.")) };
    }
    let mut stdout: Vec<String> = Vec::new();
    let mut i: usize = 0;
    while i < session.sections.len()
        invariant
            i <= session.sections@.len(),
            stdout@.len() == i,
            texts(stdout@) == session.sections@.take(i as int).map_values(|x: Section| list_entry(x)),
        decreases session.sections@.len() - i,
    {
        let s = &session.sections[i];
        let mut l = owned(s.id.as_str());
        append_str(&mut l, ": ");
        append_str(&mut l, s.title.as_str());
        append_str(&mut l, " (");
        append_str(&mut l, usize_to_string(s.code_blocks.len()).as_str());
        append_str(&mut l, " code blocks, ");
        append_str(&mut l, s.tag.label());
        append_str(&mut l, ")");
        let ghost before = stdout@;
        stdout.push(l);
        proof {
            let want = session.sections@.take(i + 1).map_values(|x: Section| list_entry(x));
            let had = session.sections@.take(i as int).map_values(|x: Section| list_entry(x));
            assert forall|k: int| 0 <= k < i implies texts(stdout@)[k] == want[k] by {
                assert(texts(before)[k] == had[k]);
                assert(stdout@[k] == before[k]);
            }
            assert(texts(stdout@)[i as int] == want[i as int]);
            assert(texts(stdout@) =~= want);
        }
        i = i + 1;
    }
    assert(session.sections@.take(i as int) =~= session.sections@);
    CommandOutput { stdout, stderr: Vec::new() }
}

fn section_delete(session: &mut Session, id: &str) -> (r: Result<CommandOutput, AppError>)
    ensures
        match id_position(old(session).sections@, id@) {
            Some(k) => r matches Ok(out) && out.stdout@.len() == 0 && texts(out.stderr@) == seq![
                "Deleted section '"@ + id@ + "'"@,
            ] && final(session).sections@ == old(session).sections@.remove(k) && same_but_sections(
                *final(session),
                *old(session),
            ),
            None => r matches Err(AppError::Session(m)) && m@ == section_not_found(id@)
                && *final(session) == *old(session),
        },
{
    match find_section(&session.sections, id) {
        None => Err(not_found_error(id)),
        Some(k) => {
            session.sections.remove(k);
            let mut l = owned("Deleted section '");
            append_str(&mut l, id);
            append_str(&mut l, "'");
            Ok(CommandOutput { stdout: Vec::new(), stderr: one_line(l) })
        },
    }
}

fn section_reorder(session: &mut Session, ids: &Vec<String>) -> (r: Result<CommandOutput, AppError>)
    ensures
        section_applied(
            *old(session),
            SectionAction::Reorder { ids: *ids },
            *final(session),
            r,
        ),
{
    let mut j: usize = 0;
    while j < ids.len()
        invariant
            j <= ids@.len(),
            first_missing(session.sections@, ids@.take(j as int)) is None,
        decreases ids@.len() - j,
    {
        assert(ids@.take(j + 1).drop_last() =~= ids@.take(j as int));
        if find_section(&session.sections, ids[j].as_str()).is_none() {
            proof {
                lemma_first_missing_prefix(session.sections@, ids@, j + 1);
            }
            return Err(not_found_error(ids[j].as_str()));
        }
        j = j + 1;
    }
    assert(ids@.take(j as int) =~= ids@);
    if ids.len() != session.sections.len() || has_repeat(ids) {
        let mut m = owned("Expected ");
        append_str(&mut m, usize_to_string(session.sections.len()).as_str());
        append_str(&mut m, " section IDs, got ");
        append_str(&mut m, usize_to_string(ids.len()).as_str());
        append_str(&mut m, ". All sections must be included.");
        return Err(AppError::Session(m));
    }
    proof {
        lemma_first_missing_none(session.sections@, ids@);
    }
    let mut next: Vec<Section> = Vec::new();
    let mut j: usize = 0;
    while j < ids.len()
        invariant
            j <= ids@.len(),
            forall|k: int| 0 <= k < ids@.len() ==> id_position(session.sections@, (#[trigger] ids@[k])@) is Some,
            next@.len() == j,
            forall|k: int|
                0 <= k < j ==> same_section(#[trigger] next@[k], reordered(session.sections@, ids@)[k]),
        decreases ids@.len() - j,
    {
        let at = match find_section(&session.sections, ids[j].as_str()) {
            Some(k) => k,
            None => 0,
        };
        assert(id_position(session.sections@, ids@[j as int]@) is Some);
        next.push(session.sections[at].duplicate());
        j = j + 1;
    }
    session.sections = next;
    Ok(CommandOutput { stdout: Vec::new(), stderr: one_line(owned("Sections reordered.")) })
}

fn section_update(
    session: &mut Session,
    id: String,
    title: Option<String>,
    description: Option<String>,
) -> (r: Result<CommandOutput, AppError>)
    ensures
        section_applied(
            *old(session),
            SectionAction::Update { id, title, description },
            *final(session),
            r,
        ),
{
    match find_section(&session.sections, id.as_str()) {
        None => Err(not_found_error(id.as_str())),
        Some(k) => {
            let sections = &mut session.sections;
            let section = &mut sections[k];
            match title {
                Some(t) => {
                    section.title = t;
                },
                None => {},
            }
            match description {
                Some(d) => {
                    section.description = d;
                },
                None => {},
            }
            let mut l = owned("Section '");
            append_str(&mut l, id.as_str());
            append_str(&mut l, "' updated.");
            Ok(CommandOutput { stdout: Vec::new(), stderr: one_line(l) })
        },
    }
}

/// Run a section command on a session: add, show, list, delete, reorder or update
/// sections. What it prints is handed back; the caller saves the session.
pub fn section(session: &mut Session, action: SectionAction) -> (r: Result<CommandOutput, AppError>)
    ensures
        section_applied(*old(session), action, *final(session), r),
{
    match action {
        SectionAction::Add { title, description } => section_add(session, title, description),
        SectionAction::Show { id } => section_show(session, id.as_str()),
        SectionAction::List => Ok(section_list(session)),
        SectionAction::Delete { id } => section_delete(session, id.as_str()),
        SectionAction::Reorder { ids } => section_reorder(session, &ids),
        SectionAction::Update { id, title, description } => section_update(
            session,
            id,
            title,
            description,
        ),
    }
}


// ---------------------------------------------------------------------------
// Code content
// ---------------------------------------------------------------------------

/// The message when neither a diff nor a file is named.
pub const NEED_SOURCE_MESSAGE: &'static str = "Either --only or --file is required";

/// The message when both a diff and a file are named.
pub const BOTH_SOURCES_MESSAGE: &'static str = "--only and --file are mutually exclusive";

/// What the options of `code add` / `code update` ask for: the line range is read
/// first; then exactly one of `--only` (a diff) and `--file` must be given.
pub open spec fn content_plan(
    only: Option<Seq<char>>,
    file: Option<Seq<char>>,
    lines: Option<Seq<char>>,
) -> Result<(bool, Seq<char>, Option<(usize, usize)>), Seq<char>> {
    let range: Result<Option<(usize, usize)>, Seq<char>> = match lines {
        None => Ok(None),
        Some(l) => match line_range_of(l) {
            Ok(p) => Ok(Some(p)),
            Err(m) => Err(m),
        },
    };
    match range {
        Err(m) => Err(m),
        Ok(r) => match (only, file) {
            (Some(p), None) => Ok((true, p, r)),
            (None, Some(p)) => Ok((false, p, r)),
            (None, None) => Err(NEED_SOURCE_MESSAGE@),
            (Some(_), Some(_)) => Err(BOTH_SOURCES_MESSAGE@),
        },
    }
}

/// Read the options of `code add` / `code update` into a source (see `content_plan`;
/// `true` stands for a diff). The hunk numbers go with a diff.
pub fn plan_content(
    only: Option<String>,
    file: Option<String>,
    hunks: Option<Vec<usize>>,
    lines: Option<String>,
) -> (r: Result<CodeSource, AppError>)
    ensures
        match content_plan(
            match only {
                Some(p) => Some(p@),
                None => None,
            },
            match file {
                Some(p) => Some(p@),
                None => None,
            },
            match lines {
                Some(l) => Some(l@),
                None => None,
            },
        ) {
            Err(m) => r matches Err(AppError::Session(e)) && e@ == m,
            Ok((true, p, range)) => r matches Ok(CodeSource::Diff { paths, hunks: h, lines: l })
                && paths@.len() == 1 && paths@[0]@ == p && h == hunks && l == range,
            Ok((false, p, range)) => r matches Ok(CodeSource::File { path, lines: l }) && path@ == p
                && l == range,
        },
{
    let range = match lines {
        None => None,
        Some(l) => match parse_line_range(l.as_str()) {
            Ok(p) => Some(p),
            Err(m) => {
                return Err(AppError::Session(m));
            },
        },
    };
    match (only, file) {
        (Some(p), None) => {
            let mut paths: Vec<String> = Vec::new();
            paths.push(p);
            Ok(CodeSource::Diff { paths, hunks, lines: range })
        },
        (None, Some(p)) => Ok(CodeSource::File { path: p, lines: range }),
        (None, None) => Err(AppError::Session(owned(NEED_SOURCE_MESSAGE))),
        (Some(_), Some(_)) => Err(AppError::Session(owned(BOTH_SOURCES_MESSAGE))),
    }
}

/// The message for a file without changes.
pub open spec fn no_diff_message(path: Seq<char>) -> Seq<char> {
    "No diff found for '"@ + path + "'. File may not have changes."@
}

/// The code taken from parsed hunks: the hunks asked for by number, else the hunks
/// touching the line range.
pub open spec fn hunk_selection(
    hunks: Seq<Hunk>,
    ids: Option<Seq<usize>>,
    range: Option<(usize, usize)>,
    diff: Seq<char>,
) -> Result<Seq<char>, usize> {
    match ids {
        Some(ids) => select_by_index(hunks, ids),
        None => match range {
            Some((a, b)) => Ok(select_by_lines(hunks, a, b)),
            None => Ok(diff),
        },
    }
}

/// Narrow parsed hunks to those asked for (see `hunk_selection`).
pub fn select_hunks(
    hunks: &Vec<Hunk>,
    ids: &Option<Vec<usize>>,
    range: Option<(usize, usize)>,
    diff: &str,
) -> (r: Result<String, AppError>)
    requires
        line_spans_fit(hunks@),
    ensures
        match hunk_selection(
            hunks@,
            match ids {
                Some(v) => Some(v@),
                None => None,
            },
            range,
            diff@,
        ) {
            Ok(t) => r matches Ok(s) && s@ == t,
            Err(idx) => r matches Err(AppError::Git(m)) && m@ == missing_hunk_message(
                idx,
                hunks@.len(),
            ),
        },
{
    match ids {
        Some(v) => filter_by_hunks(hunks.as_slice(), v.as_slice()),
        None => match range {
            Some((a, b)) => Ok(filter_by_lines(hunks.as_slice(), a, b)),
            None => Ok(owned(diff)),
        },
    }
}

/// Hunk numbers as plain values.
pub open spec fn opt_seq(v: Option<Vec<usize>>) -> Option<Seq<usize>> {
    match v {
        Some(v) => Some(v@),
        None => None,
    }
}

/// What `diff_content` gives for a file's diff: an error for an empty diff; the whole
/// diff when neither hunks nor lines are asked for; otherwise the selection from the
/// parsed hunks (see `hunk_selection`), or the error for a hunk number not there.
pub open spec fn diff_content_result(
    path: Seq<char>,
    diff: Seq<char>,
    hunks: Option<Seq<usize>>,
    lines: Option<(usize, usize)>,
    r: Result<String, AppError>,
) -> bool {
    &&& trim(diff).len() == 0 ==> (r matches Err(AppError::Session(m)) && m@ == no_diff_message(path))
    &&& trim(diff).len() > 0 && hunks is None && lines is None ==> (r matches Ok(s) && s@ == diff)
    &&& trim(diff).len() > 0 && (hunks is Some || lines is Some) ==> exists|parsed: Seq<Hunk>|
        #[trigger] parsed_hunks(diff, parsed) && line_spans_fit(parsed) && match hunk_selection(
            parsed,
            hunks,
            lines,
            diff,
        ) {
            Ok(t) => r matches Ok(s) && s@ == t,
            Err(idx) => r matches Err(AppError::Git(m)) && m@ == missing_hunk_message(
                idx,
                parsed.len(),
            ),
        }
}

/// The code of a diff source from the diff text of its file: an error for an empty
/// diff; the whole diff when neither hunks nor lines are asked for; otherwise the
/// diff is parsed into hunks and narrowed.
pub fn diff_content(
    path: &str,
    diff: &str,
    hunks: &Option<Vec<usize>>,
    lines: Option<(usize, usize)>,
) -> (r: Result<String, AppError>)
    requires
        (hunks is Some || lines is Some) && trim(diff@).len() > 0 ==> patch_safe(diff@),
    ensures
        diff_content_result(path@, diff@, opt_seq(*hunks), lines, r),
{
    if trim_str(diff).as_str().is_empty() {
        let mut m = owned("No diff found for '");
        append_str(&mut m, path);
        append_str(&mut m, "'. File may not have changes.");
        return Err(AppError::Session(m));
    }
    if hunks.is_none() && lines.is_none() {
        return Ok(owned(diff));
    }
    let parsed = parse_hunks(diff);
    select_hunks(&parsed, hunks, lines, diff)
}

/// The code of a file source from the file's content: the line range asked for, or
/// all of it.
pub fn file_content(content: &str, lines: Option<(usize, usize)>) -> (r: String)
    ensures
        match lines {
            Some((a, b)) => r@ == join_lines(lines_between(crate::text::lines(content@), a, b)),
            None => r@ == content@,
        },
{
    match lines {
        Some((a, b)) => select_lines(content, a, b),
        None => owned(content),
    }
}

/// The content of a code block from the text read for its source: the diff of its
/// (first) file for a diff source, taken as `diff_content` takes it; the file's text
/// for a file source, narrowed as `file_content` narrows it. The source comes back
/// with the content.
pub fn resolve_content(source: CodeSource, read: &str) -> (r: Result<(CodeSource, String), AppError>)
    requires
        source matches CodeSource::Diff { paths, hunks, lines } ==> paths@.len() > 0 && ((hunks
            is Some || lines is Some) && trim(read@).len() > 0 ==> patch_safe(read@)),
    ensures
        match source {
            CodeSource::Diff { paths, hunks, lines } => {
                &&& diff_content_result(
                    paths@[0]@,
                    read@,
                    opt_seq(hunks),
                    lines,
                    match r {
                        Ok((_, c)) => Ok(c),
                        Err(e) => Err(e),
                    },
                )
                &&& r matches Ok((s, _)) ==> s == source
            },
            CodeSource::File { path, lines } => r matches Ok((s, c)) && s == source && match lines {
                Some((a, b)) => c@ == join_lines(lines_between(crate::text::lines(read@), a, b)),
                None => c@ == read@,
            },
        },
{
    let content = match &source {
        CodeSource::Diff { paths, hunks, lines } => {
            match diff_content(paths[0].as_str(), read, hunks, *lines) {
                Ok(c) => c,
                Err(e) => {
                    return Err(e);
                },
            }
        },
        CodeSource::File { lines, .. } => file_content(read, *lines),
    };
    Ok((source, content))
}

/// The paths a source names.
pub open spec fn source_paths(source: CodeSource) -> Seq<Seq<char>> {
    match source {
        CodeSource::Diff { paths, .. } => texts(paths@),
        CodeSource::File { path, .. } => seq![path@],
    }
}

/// `files` with each of `paths` it does not hold yet added at the end, in order.
pub open spec fn with_paths(files: Seq<Seq<char>>, paths: Seq<Seq<char>>) -> Seq<Seq<char>>
    decreases paths.len(),
{
    if paths.len() == 0 {
        files
    } else {
        let f = with_paths(files, paths.drop_last());
        if f.contains(paths.last()) {
            f
        } else {
            f.push(paths.last())
        }
    }
}

/// Adding paths to a list of files keeps every file, takes in every path, and holds
/// no path twice if the files held none twice before.
pub proof fn lemma_with_paths(files: Seq<Seq<char>>, paths: Seq<Seq<char>>)
    ensures
        forall|i: int| 0 <= i < paths.len() ==> with_paths(files, paths).contains(#[trigger] paths[i]),
        forall|i: int| 0 <= i < files.len() ==> with_paths(files, paths).contains(#[trigger] files[i]),
        files.no_duplicates() ==> with_paths(files, paths).no_duplicates(),
    decreases paths.len(),
{
    if paths.len() > 0 {
        let init = paths.drop_last();
        lemma_with_paths(files, init);
        let f = with_paths(files, init);
        assert forall|i: int| 0 <= i < paths.len() implies with_paths(files, paths).contains(
            #[trigger] paths[i],
        ) by {
            if i < paths.len() - 1 {
                assert(paths[i] == init[i]);
                assert(f.contains(init[i]));
                if !f.contains(paths.last()) {
                    let k = choose|k: int| 0 <= k < f.len() && f[k] == init[i];
                    assert(f.push(paths.last())[k] == init[i]);
                }
            } else if !f.contains(paths.last()) {
                assert(f.push(paths.last())[f.len() as int] == paths.last());
            }
        }
        assert forall|i: int| 0 <= i < files.len() implies with_paths(files, paths).contains(
            #[trigger] files[i],
        ) by {
            assert(f.contains(files[i]));
            if !f.contains(paths.last()) {
                let k = choose|k: int| 0 <= k < f.len() && f[k] == files[i];
                assert(f.push(paths.last())[k] == files[i]);
            }
        }
        if files.no_duplicates() && !f.contains(paths.last()) {
            let g = f.push(paths.last());
            assert forall|a: int, b: int| 0 <= a < g.len() && 0 <= b < g.len() && a != b implies g[a]
                != g[b] by {
                if a < f.len() && b < f.len() {
                } else if a == f.len() {
                    assert(g[b] == f[b]);
                } else {
                    assert(g[a] == f[a]);
                }
            }
        }
    }
}

pub(crate) fn holds_path(files: &Vec<String>, p: &String) -> (b: bool)
    ensures
        b == texts(files@).contains(p@),
{
    let mut i: usize = 0;
    while i < files.len()
        invariant
            i <= files@.len(),
            forall|k: int| 0 <= k < i ==> files@[k]@ != p@,
        decreases files@.len() - i,
    {
        if files[i] == *p {
            assert(texts(files@)[i as int] == p@);
            return true;
        }
        i = i + 1;
    }
    proof {
        assert forall|k: int| 0 <= k < texts(files@).len() implies texts(files@)[k] != p@ by {
            assert(texts(files@)[k] == files@[k]@);
        }
    }
    false
}

pub(crate) fn source_path_list(source: &CodeSource) -> (r: Vec<String>)
    ensures
        texts(r@) == source_paths(*source),
{
    let mut paths: Vec<String> = Vec::new();
    match source {
        CodeSource::Diff { paths: ps, .. } => {
            let mut i: usize = 0;
            while i < ps.len()
                invariant
                    i <= ps@.len(),
                    paths@ == ps@.take(i as int),
                decreases ps@.len() - i,
            {
                paths.push(ps[i].clone());
                assert(paths@ =~= ps@.take(i + 1));
                i = i + 1;
            }
            assert(ps@.take(i as int) =~= ps@);
        },
        CodeSource::File { path, .. } => {
            paths.push(path.clone());
        },
    }
    assert(texts(paths@) =~= source_paths(*source));
    paths
}

/// What `diff preview` prints for a file's diff: a note when it is empty or holds no
/// hunk; else the numbered hunks, then the full diff.
pub fn diff_preview_of(path: &str, diff: &str, hunks: &Vec<Hunk>) -> (out: CommandOutput)
    requires
        line_spans_fit(hunks@),
    ensures
        trim(diff@).len() == 0 ==> out.stdout@.len() == 0 && texts(out.stderr@) == seq![
            "No changes found for '"@ + path@ + "'."@,
        ],
        trim(diff@).len() > 0 && hunks@.len() == 0 ==> out.stdout@.len() == 0 && texts(
            out.stderr@,
        ) == seq!["No hunks found in diff for '"@ + path@ + "'."@],
        trim(diff@).len() > 0 && hunks@.len() > 0 ==> out.stderr@.len() == 0 && texts(
            out.stdout@,
        ) == seq![hunks_preview(hunks@), "--- Full diff ---"@, diff@],
{
    if trim_str(diff).as_str().is_empty() {
        let mut m = owned("No changes found for '");
        append_str(&mut m, path);
        append_str(&mut m, "'.");
        return CommandOutput { stdout: Vec::new(), stderr: one_line(m) };
    }
    if hunks.len() == 0 {
        let mut m = owned("No hunks found in diff for '");
        append_str(&mut m, path);
        append_str(&mut m, "'.");
        return CommandOutput { stdout: Vec::new(), stderr: one_line(m) };
    }
    let mut stdout: Vec<String> = Vec::new();
    stdout.push(format_hunk_preview(hunks.as_slice()));
    stdout.push(owned("--- Full diff ---"));
    stdout.push(owned(diff));
    assert(texts(stdout@) =~= seq![hunks_preview(hunks@), "--- Full diff ---"@, diff@]);
    CommandOutput { stdout, stderr: Vec::new() }
}

/// Run a diff command on the diff text of its file (see `diff_preview`).
pub fn diff(action: &DiffAction, diff_text: &str) -> (out: CommandOutput)
    requires
        patch_safe(diff_text@),
    ensures
        match action {
            DiffAction::Preview { only } => exists|hunks: Seq<Hunk>|
                (trim(diff_text@).len() > 0 ==> parsed_hunks(diff_text@, hunks)) && #[trigger] line_spans_fit(hunks) && (trim(diff_text@).len() == 0 ==> out.stdout@.len()
                    == 0 && texts(out.stderr@) == seq!["No changes found for '"@ + only@ + "'."@])
                    && (trim(diff_text@).len() > 0 && hunks.len() == 0 ==> out.stdout@.len() == 0
                    && texts(out.stderr@) == seq!["No hunks found in diff for '"@ + only@ + "'."@])
                    && (trim(diff_text@).len() > 0 && hunks.len() > 0 ==> out.stderr@.len() == 0
                    && texts(out.stdout@) == seq![
                    hunks_preview(hunks),
                    "--- Full diff ---"@,
                    diff_text@,
                ]),
        },
{
    match action {
        DiffAction::Preview { only } => diff_preview(only.as_str(), diff_text),
    }
}

/// `diff preview` for a file's diff: the diff is parsed into hunks when it is not
/// empty, then reported (see `diff_preview_of`).
pub fn diff_preview(path: &str, diff: &str) -> (out: CommandOutput)
    requires
        patch_safe(diff@),
    ensures
        exists|hunks: Seq<Hunk>|
            (trim(diff@).len() > 0 ==> parsed_hunks(diff@, hunks)) && #[trigger] line_spans_fit(hunks) && (trim(diff@).len() == 0 ==> out.stdout@.len() == 0
                && texts(out.stderr@) == seq!["No changes found for '"@ + path@ + "'."@]) && (trim(
                diff@,
            ).len() > 0 && hunks.len() == 0 ==> out.stdout@.len() == 0 && texts(out.stderr@)
                == seq!["No hunks found in diff for '"@ + path@ + "'."@]) && (trim(diff@).len() > 0
                && hunks.len() > 0 ==> out.stderr@.len() == 0 && texts(out.stdout@) == seq![
                hunks_preview(hunks),
                "--- Full diff ---"@,
                diff@,
            ]),
{
    let hunks = if trim_str(diff).as_str().is_empty() {
        Vec::new()
    } else {
        parse_hunks(diff)
    };
    let out = diff_preview_of(path, diff, &hunks);
    assert(line_spans_fit(hunks@));
    assert(trim(diff@).len() > 0 ==> parsed_hunks(diff@, hunks@));
    out
}

} // verus!
