use vstd::prelude::*;

verus! {

// ---------------------------------------------------------------------------
// Tag
// ---------------------------------------------------------------------------

/// Confidence tag for a section.
#[derive(Debug, Clone, Copy, PartialEq, Eq, Structural)]
pub enum Tag {
    Untagged,
    GotIt,
    Shaky,
    Lost,
}

impl Default for Tag {
    fn default() -> (t: Self)
        ensures
            t == Tag::Untagged,
    {
        Tag::Untagged
    }
}

/// The one-character badge shown for a tag in the section list.
pub open spec fn tag_badge(t: Tag) -> Seq<char> {
    match t {
        Tag::Untagged => "-"@,
        Tag::GotIt => "1"@,
        Tag::Shaky => "2"@,
        Tag::Lost => "3"@,
    }
}

/// The human-readable name of a tag.
pub open spec fn tag_label(t: Tag) -> Seq<char> {
    match t {
        Tag::Untagged => "untagged"@,
        Tag::GotIt => "got it"@,
        Tag::Shaky => "shaky"@,
        Tag::Lost => "lost"@,
    }
}

impl Tag {
    pub fn badge(&self) -> (s: &'static str)
        ensures
            s@ == tag_badge(*self),
    {
        match self {
            Tag::Untagged => "-",
            Tag::GotIt => "1",
            Tag::Shaky => "2",
            Tag::Lost => "3",
        }
    }

    pub fn label(&self) -> (s: &'static str)
        ensures
            s@ == tag_label(*self),
    {
        match self {
            Tag::Untagged => "untagged",
            Tag::GotIt => "got it",
            Tag::Shaky => "shaky",
            Tag::Lost => "lost",
        }
    }
}

// ---------------------------------------------------------------------------
// Assessment and Section
// ---------------------------------------------------------------------------

/// AI assessment of a user's hypothesis.
#[derive(Debug)]
pub struct Assessment {
    /// Points where the user's understanding matches the code behavior.
    pub correct: Vec<String>,
    /// Points where the user's interpretation differs from actual behavior.
    pub diverges: Vec<String>,
    /// Code behaviors the user did not identify.
    pub missed: Vec<String>,
}

/// An assessment counts as a confirmation when nothing diverged and nothing was missed.
pub open spec fn confirms(a: Assessment) -> bool {
    a.diverges.len() == 0 && a.missed.len() == 0
}

/// Where a piece of code comes from: a diff of files (optionally narrowed to hunks or
/// to a line range), or a file read directly (optionally a line range of it).
#[derive(Debug)]
pub enum CodeSource {
    Diff { paths: Vec<String>, hunks: Option<Vec<usize>>, lines: Option<(usize, usize)> },
    File { path: String, lines: Option<(usize, usize)> },
}

/// A piece of code in a section, with its id within the section and its source.
#[derive(Debug)]
pub struct CodeBlock {
    pub id: String,
    pub source: CodeSource,
    pub content: String,
}

/// The texts of a list of strings.
pub open spec fn texts(v: Seq<String>) -> Seq<Seq<char>> {
    Seq::new(v.len(), |i: int| v[i]@)
}

/// A source as plain values: diff or file, its paths, hunk numbers and line range.
pub open spec fn source_view(s: CodeSource) -> (bool, Seq<Seq<char>>, Option<Seq<usize>>, Option<(usize, usize)>) {
    match s {
        CodeSource::Diff { paths, hunks, lines } => (
            true,
            texts(paths@),
            match hunks {
                Some(h) => Some(h@),
                None => None,
            },
            lines,
        ),
        CodeSource::File { path, lines } => (false, seq![path@], None, lines),
    }
}

/// Two code blocks hold the same data.
pub open spec fn same_block(a: CodeBlock, b: CodeBlock) -> bool {
    a.id@ == b.id@ && source_view(a.source) == source_view(b.source) && a.content@ == b.content@
}

/// Two lists of code blocks hold the same data, block by block.
pub open spec fn same_blocks(a: Seq<CodeBlock>, b: Seq<CodeBlock>) -> bool {
    a.len() == b.len() && forall|i: int| 0 <= i < a.len() ==> same_block(#[trigger] a[i], b[i])
}

/// A logical grouping of related code changes.
#[derive(Debug)]
pub struct Section {
    /// Unique identifier for the section.
    pub id: String,
    /// Human-readable title describing the section.
    pub title: String,
    /// Brief description of what this section contains.
    pub description: String,
    /// The actual code diff for this section.
    pub code: String,
    /// Code blocks added to the section, in order.
    pub code_blocks: Vec<CodeBlock>,
    /// Files affected by this section.
    pub files: Vec<String>,
    /// User's confidence tag.
    pub tag: Tag,
    /// User's hypothesis about what this code does.
    pub hypothesis: Option<String>,
    /// AI assessment of the user's hypothesis (if submitted).
    pub assessment: Option<Assessment>,
}

/// Shaky and lost sections need a deep review.
pub open spec fn needs_review(s: Section) -> bool {
    s.tag == Tag::Shaky || s.tag == Tag::Lost
}

/// A section is reviewed once it carries an assessment.
pub open spec fn is_reviewed(s: Section) -> bool {
    s.assessment is Some
}

/// Two assessments hold the same points.
pub open spec fn same_assessment(a: Assessment, b: Assessment) -> bool {
    a.correct@ == b.correct@ && a.diverges@ == b.diverges@ && a.missed@ == b.missed@
}

/// Two sections hold the same data.
pub open spec fn same_section(a: Section, b: Section) -> bool {
    &&& a.id == b.id
    &&& a.title == b.title
    &&& a.description == b.description
    &&& a.code == b.code
    &&& same_blocks(a.code_blocks@, b.code_blocks@)
    &&& a.files@ == b.files@
    &&& a.tag == b.tag
    &&& a.hypothesis == b.hypothesis
    &&& match (a.assessment, b.assessment) {
        (Some(x), Some(y)) => same_assessment(x, y),
        (None, None) => true,
        _ => false,
    }
}

fn clone_strings(v: &Vec<String>) -> (r: Vec<String>)
    ensures
        r@ == v@,
{
    let mut r: Vec<String> = Vec::new();
    let mut i: usize = 0;
    while i < v.len()
        invariant
            i <= v@.len(),
            r@ == v@.take(i as int),
        decreases v@.len() - i,
    {
        r.push(v[i].clone());
        assert(r@ =~= v@.take(i + 1));
        i = i + 1;
    }
    assert(v@.take(i as int) =~= v@);
    r
}

impl Assessment {
    /// A copy holding the same points.
    pub fn duplicate(&self) -> (r: Self)
        ensures
            same_assessment(r, *self),
    {
        Assessment {
            correct: clone_strings(&self.correct),
            diverges: clone_strings(&self.diverges),
            missed: clone_strings(&self.missed),
        }
    }
}

fn copy_numbers(v: &Vec<usize>) -> (r: Vec<usize>)
    ensures
        r@ == v@,
{
    let mut r: Vec<usize> = Vec::new();
    let mut i: usize = 0;
    while i < v.len()
        invariant
            i <= v@.len(),
            r@ == v@.take(i as int),
        decreases v@.len() - i,
    {
        r.push(v[i]);
        assert(r@ =~= v@.take(i + 1));
        i = i + 1;
    }
    assert(v@.take(i as int) =~= v@);
    r
}

impl CodeSource {
    /// A copy naming the same source.
    pub fn duplicate(&self) -> (r: Self)
        ensures
            source_view(r) == source_view(*self),
    {
        match self {
            CodeSource::Diff { paths, hunks, lines } => {
                let p = clone_strings(paths);
                let h = match hunks {
                    Some(h) => Some(copy_numbers(h)),
                    None => None,
                };
                let r = CodeSource::Diff { paths: p, hunks: h, lines: *lines };
                assert(texts(p@) =~= texts(paths@));
                r
            },
            CodeSource::File { path, lines } => CodeSource::File { path: path.clone(), lines: *lines },
        }
    }
}

impl CodeBlock {
    /// A copy holding the same data.
    pub fn duplicate(&self) -> (r: Self)
        ensures
            same_block(r, *self),
    {
        CodeBlock { id: self.id.clone(), source: self.source.duplicate(), content: self.content.clone() }
    }
}

fn copy_blocks(v: &Vec<CodeBlock>) -> (r: Vec<CodeBlock>)
    ensures
        same_blocks(r@, v@),
{
    let mut r: Vec<CodeBlock> = Vec::new();
    let mut i: usize = 0;
    while i < v.len()
        invariant
            i <= v@.len(),
            r@.len() == i,
            forall|k: int| 0 <= k < i ==> same_block(#[trigger] r@[k], v@[k]),
        decreases v@.len() - i,
    {
        r.push(v[i].duplicate());
        i = i + 1;
    }
    r
}

/// The pieces of code a section shows: its own code (when there is some), then the
/// contents of its code blocks.
pub open spec fn code_pieces(s: Section) -> Seq<Seq<char>> {
    (if s.code@.len() > 0 {
        seq![s.code@]
    } else {
        Seq::empty()
    }) + Seq::new(s.code_blocks@.len(), |i: int| s.code_blocks@[i].content@)
}

/// All the code of a section, its pieces joined by newlines.
pub open spec fn section_code(s: Section) -> Seq<char> {
    crate::git::join_lines(code_pieces(s))
}

impl Section {
    /// All the code of the section: its own code, then its code blocks' contents,
    /// joined by newlines.
    pub fn code(&self) -> (r: String)
        ensures
            r@ == section_code(*self),
    {
        let ghost pieces = code_pieces(*self);
        let ghost first: int = if self.code@.len() > 0 { 1 } else { 0 };
        let mut r = String::new();
        let ghost mut n: int = 0;
        let mut any = false;
        if !self.code.as_str().is_empty() {
            r = self.code.clone();
            any = true;
            proof {
                n = 1;
            }
            assert(pieces.take(1) =~= seq![self.code@]);
        } else {
            assert(pieces.take(0) =~= Seq::<Seq<char>>::empty());
        }
        let mut i: usize = 0;
        while i < self.code_blocks.len()
            invariant
                pieces == code_pieces(*self),
                first == (if self.code@.len() > 0 { 1int } else { 0int }),
                pieces.len() == first + self.code_blocks@.len(),
                forall|k: int| 0 <= k < self.code_blocks@.len() ==> pieces[first + k] == #[trigger] self.code_blocks@[k].content@,
                i <= self.code_blocks@.len(),
                n == first + i,
                any == (n > 0),
                r@ == crate::git::join_lines(pieces.take(n)),
            decreases self.code_blocks@.len() - i,
        {
            assert(pieces.take(n + 1).drop_last() =~= pieces.take(n));
            assert(pieces.take(n + 1).last() == self.code_blocks@[i as int].content@);
            if any {
                crate::text::append_str(&mut r, "\n");
            }
            crate::text::append_str(&mut r, self.code_blocks[i].content.as_str());
            assert(r@ =~= crate::git::join_lines(pieces.take(n + 1)));
            any = true;
            proof {
                n = n + 1;
            }
            i = i + 1;
        }
        assert(pieces.take(n) =~= pieces);
        r
    }

    /// A copy holding the same data.
    pub fn duplicate(&self) -> (r: Self)
        ensures
            same_section(r, *self),
    {
        let hypothesis = match &self.hypothesis {
            Some(h) => Some(h.clone()),
            None => None,
        };
        let assessment = match &self.assessment {
            Some(a) => Some(a.duplicate()),
            None => None,
        };
        Section {
            id: self.id.clone(),
            title: self.title.clone(),
            description: self.description.clone(),
            code: self.code.clone(),
            code_blocks: copy_blocks(&self.code_blocks),
            files: clone_strings(&self.files),
            tag: self.tag,
            hypothesis,
            assessment,
        }
    }

    pub fn new(id: String, title: String, description: String, code: String) -> (s: Self)
        ensures
            s.id == id,
            s.title == title,
            s.description == description,
            s.code == code,
            s.code_blocks@.len() == 0,
            s.files@.len() == 0,
            s.tag == Tag::Untagged,
            s.hypothesis is None,
            s.assessment is None,
    {
        Section {
            id,
            title,
            description,
            code,
            code_blocks: Vec::new(),
            files: Vec::new(),
            tag: Tag::Untagged,
            hypothesis: None,
            assessment: None,
        }
    }

    /// Returns true if this section needs deep review (shaky or lost).
    pub fn needs_review(&self) -> (b: bool)
        ensures
            b == needs_review(*self),
    {
        match self.tag {
            Tag::Shaky | Tag::Lost => true,
            _ => false,
        }
    }

    /// Returns true if this section has been reviewed (has an assessment).
    pub fn is_reviewed(&self) -> (b: bool)
        ensures
            b == is_reviewed(*self),
    {
        self.assessment.is_some()
    }
}

} // verus!

verus! {

// ---------------------------------------------------------------------------
// Review stage and screens
// ---------------------------------------------------------------------------

/// The current review stage (persistent).
#[derive(Debug, Clone, Copy, PartialEq, Eq, Structural)]
pub enum ReviewStage {
    Loading,
    Triage,
    DeepReview,
    Summary,
}

impl Default for ReviewStage {
    fn default() -> (s: Self)
        ensures
            s == ReviewStage::Loading,
    {
        ReviewStage::Loading
    }
}

/// Active screen (determines which view is rendered).
#[derive(Debug, Clone, Copy, PartialEq, Eq, Structural)]
pub enum Screen {
    Loading,
    Triage,
    DeepReview,
    PseudocodeReview,
    Summary,
}

/// The screen that shows a stage.
pub open spec fn screen_of_stage(stage: ReviewStage) -> Screen {
    match stage {
        ReviewStage::Loading => Screen::Loading,
        ReviewStage::Triage => Screen::Triage,
        ReviewStage::DeepReview => Screen::DeepReview,
        ReviewStage::Summary => Screen::Summary,
    }
}

/// The stage that is recorded when a screen is entered.
pub open spec fn stage_of_screen(screen: Screen) -> ReviewStage {
    match screen {
        Screen::Loading => ReviewStage::Loading,
        Screen::Triage => ReviewStage::Triage,
        Screen::DeepReview | Screen::PseudocodeReview => ReviewStage::DeepReview,
        Screen::Summary => ReviewStage::Summary,
    }
}

impl From<ReviewStage> for Screen {
    fn from(stage: ReviewStage) -> (s: Self) {
        match stage {
            ReviewStage::Loading => Screen::Loading,
            ReviewStage::Triage => Screen::Triage,
            ReviewStage::DeepReview => Screen::DeepReview,
            ReviewStage::Summary => Screen::Summary,
        }
    }
}

impl vstd::std_specs::convert::FromSpecImpl<ReviewStage> for Screen {
    open spec fn obeys_from_spec() -> bool {
        true
    }

    open spec fn from_spec(v: ReviewStage) -> Self {
        screen_of_stage(v)
    }
}

/// Entering the screen of a stage records that same stage again.
pub proof fn lemma_stage_screen_roundtrip(stage: ReviewStage)
    ensures
        stage_of_screen(screen_of_stage(stage)) == stage,
{
}

// ---------------------------------------------------------------------------
// Session
// ---------------------------------------------------------------------------

/// Persistent session data that survives app restarts.
#[derive(Debug)]
pub struct Session {
    /// Version for schema migration.
    pub version: u32,
    /// Session identifier (commit count or branch mode).
    pub identifier: String,
    /// Raw diff text (for potential re-chunking).
    pub diff_text: String,
    /// Sections of the review.
    pub sections: Vec<Section>,
    /// Current review stage.
    pub stage: ReviewStage,
    /// Index of current section being reviewed (in deep review).
    pub current_section_index: usize,
    /// Draft hypothesis text being composed (saved on each keystroke).
    pub draft_hypothesis: Option<String>,
}

/// Number of sections carrying tag `t`.
pub open spec fn count_tag(s: Seq<Section>, t: Tag) -> nat
    decreases s.len(),
{
    if s.len() == 0 {
        0
    } else {
        count_tag(s.drop_last(), t) + if s.last().tag == t {
            1nat
        } else {
            0nat
        }
    }
}

/// Number of sections whose assessment confirms the hypothesis.
pub open spec fn count_confirmed(s: Seq<Section>) -> nat
    decreases s.len(),
{
    if s.len() == 0 {
        0
    } else {
        count_confirmed(s.drop_last()) + if s.last().assessment matches Some(a) && confirms(a) {
            1nat
        } else {
            0nat
        }
    }
}

/// Number of sections whose assessment corrects the hypothesis.
pub open spec fn count_corrected(s: Seq<Section>) -> nat
    decreases s.len(),
{
    if s.len() == 0 {
        0
    } else {
        count_corrected(s.drop_last()) + if s.last().assessment matches Some(a) && !confirms(a) {
            1nat
        } else {
            0nat
        }
    }
}

/// Number of sections that carry an assessment.
pub open spec fn count_reviewed(s: Seq<Section>) -> nat
    decreases s.len(),
{
    if s.len() == 0 {
        0
    } else {
        count_reviewed(s.drop_last()) + if is_reviewed(s.last()) {
            1nat
        } else {
            0nat
        }
    }
}

/// The sections that need review, in their order.
pub open spec fn needing_review(s: Seq<Section>) -> Seq<Section>
    decreases s.len(),
{
    if s.len() == 0 {
        Seq::empty()
    } else if needs_review(s.last()) {
        needing_review(s.drop_last()).push(s.last())
    } else {
        needing_review(s.drop_last())
    }
}

/// The sections that need review and have not been reviewed yet, in their order.
pub open spec fn needing_deep_review(s: Seq<Section>) -> Seq<Section>
    decreases s.len(),
{
    if s.len() == 0 {
        Seq::empty()
    } else if needs_review(s.last()) && !is_reviewed(s.last()) {
        needing_deep_review(s.drop_last()).push(s.last())
    } else {
        needing_deep_review(s.drop_last())
    }
}

/// Every section carries a tag other than `Untagged`.
pub open spec fn all_tagged(s: Seq<Section>) -> bool {
    forall|i: int| 0 <= i < s.len() ==> s[i].tag != Tag::Untagged
}

/// Every section that needs review has been reviewed.
pub open spec fn deep_review_complete(s: Seq<Section>) -> bool {
    forall|i: int| 0 <= i < s.len() && needs_review(s[i]) ==> is_reviewed(s[i])
}

pub proof fn lemma_count_tag_bound(s: Seq<Section>, t: Tag)
    ensures
        count_tag(s, t) <= s.len(),
    decreases s.len(),
{
    if s.len() > 0 {
        lemma_count_tag_bound(s.drop_last(), t);
    }
}

/// Counting by tag puts every section in exactly one of the four counts.
pub proof fn lemma_tag_counts_partition(s: Seq<Section>)
    ensures
        count_tag(s, Tag::Untagged) + count_tag(s, Tag::GotIt) + count_tag(s, Tag::Shaky)
            + count_tag(s, Tag::Lost) == s.len(),
    decreases s.len(),
{
    if s.len() > 0 {
        lemma_tag_counts_partition(s.drop_last());
    }
}

/// Confirmed and corrected hypotheses together are exactly the reviewed sections.
pub proof fn lemma_hypothesis_counts_partition(s: Seq<Section>)
    ensures
        count_confirmed(s) + count_corrected(s) == count_reviewed(s),
        count_reviewed(s) <= s.len(),
    decreases s.len(),
{
    if s.len() > 0 {
        lemma_hypothesis_counts_partition(s.drop_last());
    }
}

/// All sections are tagged exactly when none is counted as untagged.
pub proof fn lemma_all_tagged_iff_no_untagged(s: Seq<Section>)
    ensures
        all_tagged(s) <==> count_tag(s, Tag::Untagged) == 0,
    decreases s.len(),
{
    if s.len() > 0 {
        lemma_all_tagged_iff_no_untagged(s.drop_last());
        if all_tagged(s) {
            assert(all_tagged(s.drop_last()));
        }
        if all_tagged(s.drop_last()) && s.last().tag != Tag::Untagged {
            assert forall|i: int| 0 <= i < s.len() implies s[i].tag != Tag::Untagged by {
                if i < s.len() - 1 {
                    assert(s[i] == s.drop_last()[i]);
                }
            }
        }
    }
}

/// The deep review is complete exactly when no section is left needing one.
pub proof fn lemma_deep_review_complete_iff_none_left(s: Seq<Section>)
    ensures
        deep_review_complete(s) <==> needing_deep_review(s).len() == 0,
    decreases s.len(),
{
    if s.len() > 0 {
        lemma_deep_review_complete_iff_none_left(s.drop_last());
        if deep_review_complete(s) {
            assert forall|i: int|
                0 <= i < s.drop_last().len() && needs_review(
                    s.drop_last()[i],
                ) implies is_reviewed(s.drop_last()[i]) by {
                assert(s[i] == s.drop_last()[i]);
            }
        }
        if deep_review_complete(s.drop_last()) && !(needs_review(s.last()) && !is_reviewed(
            s.last(),
        )) {
            assert forall|i: int| 0 <= i < s.len() && needs_review(s[i]) implies is_reviewed(
                s[i],
            ) by {
                if i < s.len() - 1 {
                    assert(s[i] == s.drop_last()[i]);
                }
            }
        }
    }
}

/// Deref each element of a sequence of references.
pub open spec fn derefs(s: Seq<&Section>) -> Seq<Section> {
    s.map_values(|r: &Section| *r)
}

impl Session {
    /// Current schema version.
    pub const CURRENT_VERSION: u32 = 1;

    /// Creates a new session with the given identifier.
    pub fn new(identifier: String, diff_text: String) -> (s: Self)
        ensures
            s.version == 1,
            s.identifier == identifier,
            s.diff_text == diff_text,
            s.sections@.len() == 0,
            s.stage == ReviewStage::Loading,
            s.current_section_index == 0,
            s.draft_hypothesis is None,
    {
        Session {
            version: Self::CURRENT_VERSION,
            identifier,
            diff_text,
            sections: Vec::new(),
            stage: ReviewStage::Loading,
            current_section_index: 0,
            draft_hypothesis: None,
        }
    }

    /// Get counts of sections by tag.
    pub fn tag_counts(&self) -> (c: TagCounts)
        ensures
            c.untagged == count_tag(self.sections@, Tag::Untagged),
            c.got_it == count_tag(self.sections@, Tag::GotIt),
            c.shaky == count_tag(self.sections@, Tag::Shaky),
            c.lost == count_tag(self.sections@, Tag::Lost),
            c.untagged + c.got_it + c.shaky + c.lost == self.sections@.len(),
    {
        let mut c = TagCounts { untagged: 0, got_it: 0, shaky: 0, lost: 0 };
        let mut i: usize = 0;
        while i < self.sections.len()
            invariant
                i <= self.sections@.len(),
                c.untagged == count_tag(self.sections@.take(i as int), Tag::Untagged),
                c.got_it == count_tag(self.sections@.take(i as int), Tag::GotIt),
                c.shaky == count_tag(self.sections@.take(i as int), Tag::Shaky),
                c.lost == count_tag(self.sections@.take(i as int), Tag::Lost),
            decreases self.sections@.len() - i,
        {
            proof {
                let t = self.sections@.take(i + 1);
                assert(t.drop_last() =~= self.sections@.take(i as int));
                lemma_tag_counts_partition(self.sections@.take(i as int));
            }
            match self.sections[i].tag {
                Tag::Untagged => c.untagged = c.untagged + 1,
                Tag::GotIt => c.got_it = c.got_it + 1,
                Tag::Shaky => c.shaky = c.shaky + 1,
                Tag::Lost => c.lost = c.lost + 1,
            }
            i = i + 1;
        }
        proof {
            assert(self.sections@.take(i as int) =~= self.sections@);
            lemma_tag_counts_partition(self.sections@);
        }
        c
    }

    /// Get counts of sections with hypotheses.
    pub fn hypothesis_counts(&self) -> (c: HypothesisCounts)
        ensures
            c.confirmed == count_confirmed(self.sections@),
            c.corrected == count_corrected(self.sections@),
            c.confirmed + c.corrected == count_reviewed(self.sections@),
    {
        let mut c = HypothesisCounts { confirmed: 0, corrected: 0 };
        let mut i: usize = 0;
        while i < self.sections.len()
            invariant
                i <= self.sections@.len(),
                c.confirmed == count_confirmed(self.sections@.take(i as int)),
                c.corrected == count_corrected(self.sections@.take(i as int)),
            decreases self.sections@.len() - i,
        {
            proof {
                let t = self.sections@.take(i + 1);
                assert(t.drop_last() =~= self.sections@.take(i as int));
                lemma_hypothesis_counts_partition(self.sections@.take(i as int));
            }
            match &self.sections[i].assessment {
                Some(a) => {
                    if a.diverges.len() == 0 && a.missed.len() == 0 {
                        c.confirmed = c.confirmed + 1;
                    } else {
                        c.corrected = c.corrected + 1;
                    }
                },
                None => {},
            }
            i = i + 1;
        }
        proof {
            assert(self.sections@.take(i as int) =~= self.sections@);
            lemma_hypothesis_counts_partition(self.sections@);
        }
        c
    }

    /// Get sections that need review (shaky or lost).
    pub fn sections_needing_review(&self) -> (r: Vec<&Section>)
        ensures
            derefs(r@) == needing_review(self.sections@),
    {
        let mut r: Vec<&Section> = Vec::new();
        let mut i: usize = 0;
        while i < self.sections.len()
            invariant
                i <= self.sections@.len(),
                derefs(r@) == needing_review(self.sections@.take(i as int)),
            decreases self.sections@.len() - i,
        {
            let ghost old_r = r@;
            proof {
                assert(self.sections@.take(i + 1).drop_last() =~= self.sections@.take(i as int));
            }
            if self.sections[i].needs_review() {
                r.push(&self.sections[i]);
                assert(derefs(r@) =~= derefs(old_r).push(self.sections@[i as int]));
            }
            i = i + 1;
        }
        assert(self.sections@.take(i as int) =~= self.sections@);
        r
    }

    /// Get all unreviewed sections that need review.
    pub fn sections_needing_deep_review(&self) -> (r: Vec<&Section>)
        ensures
            derefs(r@) == needing_deep_review(self.sections@),
    {
        let mut r: Vec<&Section> = Vec::new();
        let mut i: usize = 0;
        while i < self.sections.len()
            invariant
                i <= self.sections@.len(),
                derefs(r@) == needing_deep_review(self.sections@.take(i as int)),
            decreases self.sections@.len() - i,
        {
            let ghost old_r = r@;
            proof {
                assert(self.sections@.take(i + 1).drop_last() =~= self.sections@.take(i as int));
            }
            if self.sections[i].needs_review() && !self.sections[i].is_reviewed() {
                r.push(&self.sections[i]);
                assert(derefs(r@) =~= derefs(old_r).push(self.sections@[i as int]));
            }
            i = i + 1;
        }
        assert(self.sections@.take(i as int) =~= self.sections@);
        r
    }

    /// Check if all sections have been tagged.
    pub fn all_tagged(&self) -> (b: bool)
        ensures
            b == all_tagged(self.sections@),
    {
        let mut i: usize = 0;
        while i < self.sections.len()
            invariant
                i <= self.sections@.len(),
                forall|k: int| 0 <= k < i ==> self.sections@[k].tag != Tag::Untagged,
            decreases self.sections@.len() - i,
        {
            if self.sections[i].tag == Tag::Untagged {
                return false;
            }
            i = i + 1;
        }
        true
    }

    /// Check if triage is complete and can proceed.
    pub fn can_proceed_from_triage(&self) -> (b: bool)
        ensures
            b == all_tagged(self.sections@),
    {
        self.all_tagged()
    }

    /// Check if all deep reviews are complete.
    pub fn deep_review_complete(&self) -> (b: bool)
        ensures
            b == deep_review_complete(self.sections@),
    {
        let mut i: usize = 0;
        while i < self.sections.len()
            invariant
                i <= self.sections@.len(),
                forall|k: int|
                    0 <= k < i && needs_review(self.sections@[k]) ==> is_reviewed(
                        self.sections@[k],
                    ),
            decreases self.sections@.len() - i,
        {
            if self.sections[i].needs_review() && !self.sections[i].is_reviewed() {
                return false;
            }
            i = i + 1;
        }
        true
    }
}

/// Counts of sections by tag.
#[derive(Debug)]
pub struct TagCounts {
    pub untagged: usize,
    pub got_it: usize,
    pub shaky: usize,
    pub lost: usize,
}

impl Default for TagCounts {
    fn default() -> (c: Self)
        ensures
            c.untagged == 0 && c.got_it == 0 && c.shaky == 0 && c.lost == 0,
    {
        TagCounts { untagged: 0, got_it: 0, shaky: 0, lost: 0 }
    }
}

impl TagCounts {
    pub fn total(&self) -> (n: usize)
        requires
            self.untagged + self.got_it + self.shaky + self.lost <= usize::MAX,
        ensures
            n == self.untagged + self.got_it + self.shaky + self.lost,
    {
        self.untagged + self.got_it + self.shaky + self.lost
    }

    pub fn tagged(&self) -> (n: usize)
        requires
            self.got_it + self.shaky + self.lost <= usize::MAX,
        ensures
            n == self.got_it + self.shaky + self.lost,
    {
        self.got_it + self.shaky + self.lost
    }
}

/// Counts of assessed hypotheses.
#[derive(Debug)]
pub struct HypothesisCounts {
    pub confirmed: usize,
    pub corrected: usize,
}

impl Default for HypothesisCounts {
    fn default() -> (c: Self)
        ensures
            c.confirmed == 0 && c.corrected == 0,
    {
        HypothesisCounts { confirmed: 0, corrected: 0 }
    }
}

impl HypothesisCounts {
    pub fn total(&self) -> (n: usize)
        requires
            self.confirmed + self.corrected <= usize::MAX,
        ensures
            n == self.confirmed + self.corrected,
    {
        self.confirmed + self.corrected
    }
}

} // verus!

verus! {

// ---------------------------------------------------------------------------
// UI and application state
// ---------------------------------------------------------------------------

/// Ephemeral UI state that resets on navigation.
#[derive(Debug)]
pub struct UiState {
    /// Selected section index in triage/deep review.
    pub selected_index: usize,
    /// Scroll offset for section list.
    pub scroll_offset: usize,
    /// Cursor position in text input.
    pub cursor_position: usize,
    /// Current text being typed in hypothesis input.
    pub input_text: String,
    /// Whether AI is currently processing.
    pub ai_loading: bool,
    /// Error message to display (if any).
    pub error: Option<String>,
    /// Whether chunking needs to be retried (set when user presses 'r' on error).
    pub needs_chunking_retry: bool,
    /// Whether assessment needs to be retried (set when user presses 'r' on error).
    pub needs_assessment_retry: bool,
}

/// The freshly reset UI state.
pub open spec fn ui_is_default(u: UiState) -> bool {
    &&& u.selected_index == 0
    &&& u.scroll_offset == 0
    &&& u.cursor_position == 0
    &&& u.input_text@.len() == 0
    &&& !u.ai_loading
    &&& u.error is None
    &&& !u.needs_chunking_retry
    &&& !u.needs_assessment_retry
}

impl Default for UiState {
    fn default() -> (u: Self)
        ensures
            ui_is_default(u),
    {
        UiState {
            selected_index: 0,
            scroll_offset: 0,
            cursor_position: 0,
            input_text: String::new(),
            ai_loading: false,
            error: None,
            needs_chunking_retry: false,
            needs_assessment_retry: false,
        }
    }
}

impl UiState {
    pub fn clear_error(&mut self)
        ensures
            final(self).error is None,
            final(self).selected_index == old(self).selected_index,
            final(self).scroll_offset == old(self).scroll_offset,
            final(self).cursor_position == old(self).cursor_position,
            final(self).input_text == old(self).input_text,
            final(self).ai_loading == old(self).ai_loading,
            final(self).needs_chunking_retry == old(self).needs_chunking_retry,
            final(self).needs_assessment_retry == old(self).needs_assessment_retry,
    {
        self.error = None;
    }

    pub fn set_error(&mut self, msg: &str)
        ensures
            final(self).error matches Some(e) && e@ == msg@,
            final(self).selected_index == old(self).selected_index,
            final(self).scroll_offset == old(self).scroll_offset,
            final(self).cursor_position == old(self).cursor_position,
            final(self).input_text == old(self).input_text,
            final(self).ai_loading == old(self).ai_loading,
            final(self).needs_chunking_retry == old(self).needs_chunking_retry,
            final(self).needs_assessment_retry == old(self).needs_assessment_retry,
    {
        self.error = Some(String::from_str(msg));
    }

    /// Request retry for chunking operation.
    pub fn request_chunking_retry(&mut self)
        ensures
            final(self).error is None,
            final(self).needs_chunking_retry,
            final(self).selected_index == old(self).selected_index,
            final(self).scroll_offset == old(self).scroll_offset,
            final(self).cursor_position == old(self).cursor_position,
            final(self).input_text == old(self).input_text,
            final(self).ai_loading == old(self).ai_loading,
            final(self).needs_assessment_retry == old(self).needs_assessment_retry,
    {
        self.clear_error();
        self.needs_chunking_retry = true;
    }

    /// Request retry for assessment operation.
    pub fn request_assessment_retry(&mut self)
        ensures
            final(self).error is None,
            final(self).needs_assessment_retry,
            final(self).selected_index == old(self).selected_index,
            final(self).scroll_offset == old(self).scroll_offset,
            final(self).cursor_position == old(self).cursor_position,
            final(self).input_text == old(self).input_text,
            final(self).ai_loading == old(self).ai_loading,
            final(self).needs_chunking_retry == old(self).needs_chunking_retry,
    {
        self.clear_error();
        self.needs_assessment_retry = true;
    }
}

/// Complete application state.
#[derive(Debug)]
pub struct AppState {
    /// Persistent session data (saved to disk).
    pub session: Session,
    /// Current screen being displayed.
    pub screen: Screen,
    /// Ephemeral UI state.
    pub ui: UiState,
    /// Whether the app should quit.
    pub should_quit: bool,
}

/// The session is the same apart from its stage.
pub open spec fn same_but_stage(a: Session, b: Session) -> bool {
    &&& a.version == b.version
    &&& a.identifier == b.identifier
    &&& a.diff_text == b.diff_text
    &&& a.sections == b.sections
    &&& a.current_section_index == b.current_section_index
    &&& a.draft_hypothesis == b.draft_hypothesis
}

/// `after` is `before` moved to `screen`: the stage follows the screen and the UI is reset.
pub open spec fn moved_to(before: AppState, after: AppState, screen: Screen) -> bool {
    &&& after.screen == screen
    &&& after.session.stage == stage_of_screen(screen)
    &&& same_but_stage(after.session, before.session)
    &&& ui_is_default(after.ui)
    &&& after.should_quit == before.should_quit
}

impl AppState {
    pub fn new(session: Session) -> (s: Self)
        ensures
            s.screen == screen_of_stage(session.stage),
            s.session == session,
            ui_is_default(s.ui),
            !s.should_quit,
    {
        let screen = Screen::from(session.stage);
        AppState { session, screen, ui: UiState::default(), should_quit: false }
    }

    /// Transition to a new screen.
    pub fn goto(&mut self, screen: Screen)
        ensures
            moved_to(*old(self), *final(self), screen),
    {
        self.screen = screen;
        match screen {
            Screen::Loading => self.session.stage = ReviewStage::Loading,
            Screen::Triage => self.session.stage = ReviewStage::Triage,
            Screen::DeepReview | Screen::PseudocodeReview => {
                self.session.stage = ReviewStage::DeepReview
            },
            Screen::Summary => self.session.stage = ReviewStage::Summary,
        }
        self.ui = UiState::default();
    }

    /// Request app quit.
    pub fn quit(&mut self)
        ensures
            final(self).should_quit,
            final(self).session == old(self).session,
            final(self).screen == old(self).screen,
            final(self).ui == old(self).ui,
    {
        self.should_quit = true;
    }

    /// Get the current section (if any) based on selected index.
    pub fn current_section(&self) -> (r: Option<&Section>)
        ensures
            self.ui.selected_index < self.session.sections@.len() ==> (r matches Some(s) && *s
                == self.session.sections@[self.ui.selected_index as int]),
            self.ui.selected_index >= self.session.sections@.len() ==> r is None,
    {
        if self.ui.selected_index < self.session.sections.len() {
            Some(&self.session.sections[self.ui.selected_index])
        } else {
            None
        }
    }

    /// Get the current section mutably.
    pub fn current_section_mut(&mut self) -> (r: Option<&mut Section>)
        ensures
            old(self).ui.selected_index < old(self).session.sections@.len() ==> {
                &&& r is Some
                &&& *r->0 == old(self).session.sections@[old(self).ui.selected_index as int]
                &&& final(self).session.sections@ == old(self).session.sections@.update(
                    old(self).ui.selected_index as int,
                    *final(r->0),
                )
            },
            old(self).ui.selected_index >= old(self).session.sections@.len() ==> {
                &&& r is None
                &&& final(self).session.sections == old(self).session.sections
            },
            final(self).ui == old(self).ui,
            final(self).screen == old(self).screen,
            final(self).should_quit == old(self).should_quit,
            same_but_sections(final(self).session, old(self).session),
    {
        let i = self.ui.selected_index;
        if i < self.session.sections.len() {
            Some(&mut self.session.sections[i])
        } else {
            None
        }
    }
}

/// The session is the same apart from its sections.
pub open spec fn same_but_sections(a: Session, b: Session) -> bool {
    &&& a.version == b.version
    &&& a.identifier == b.identifier
    &&& a.diff_text == b.diff_text
    &&& a.stage == b.stage
    &&& a.current_section_index == b.current_section_index
    &&& a.draft_hypothesis == b.draft_hypothesis
}

} // verus!
