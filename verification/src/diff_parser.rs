use vstd::prelude::*;

use crate::error::AppError;
use crate::text::{
    all_digits, chars_of, decimal, digits_value, find, find_in, is_digit, lemma_digits_value_step,
    lemma_find_from_props, line_ranges, lines, range_texts, starts_with, string_from_range,
    usize_to_string,
};

verus! {

/// A parsed hunk from a unified diff.
#[derive(Debug)]
pub struct Hunk {
    /// 1-based index of the hunk within its diff.
    pub index: usize,
    /// The @@ header line.
    pub header: String,
    /// The full hunk content (header + lines).
    pub content: String,
    /// Starting line in the old file.
    pub old_start: usize,
    /// Starting line in the new file.
    pub new_start: usize,
    /// Number of lines in the new file.
    pub new_count: usize,
}

// ---------------------------------------------------------------------------
// Selecting hunks by index
// ---------------------------------------------------------------------------

/// Position of the first hunk numbered `idx`.
pub open spec fn position_of_index(h: Seq<Hunk>, idx: usize) -> Option<int>
    decreases h.len(),
{
    if h.len() == 0 {
        None
    } else {
        match position_of_index(h.drop_last(), idx) {
            Some(k) => Some(k),
            None => if h.last().index == idx {
                Some(h.len() - 1)
            } else {
                None
            },
        }
    }
}

/// The contents of the hunks numbered `ids`, in that order, or the first number
/// (in that order) that no hunk carries.
pub open spec fn select_by_index(h: Seq<Hunk>, ids: Seq<usize>) -> Result<Seq<char>, usize>
    decreases ids.len(),
{
    if ids.len() == 0 {
        Ok(Seq::empty())
    } else {
        match select_by_index(h, ids.drop_last()) {
            Err(e) => Err(e),
            Ok(text) => match position_of_index(h, ids.last()) {
                Some(k) => Ok(text + h[k].content@),
                None => Err(ids.last()),
            },
        }
    }
}

/// Selecting hunks by a list of numbers is selecting by its first part, then by its
/// second part, and joining the texts; the first number missing is reported.
pub proof fn lemma_select_by_index_concat(h: Seq<Hunk>, a: Seq<usize>, b: Seq<usize>)
    ensures
        select_by_index(h, a + b) == match select_by_index(h, a) {
            Err(e) => Err(e),
            Ok(x) => match select_by_index(h, b) {
                Err(e) => Err(e),
                Ok(y) => Ok(x + y),
            },
        },
    decreases b.len(),
{
    if b.len() == 0 {
        assert(a + b =~= a);
        if let Ok(x) = select_by_index(h, a) {
            assert(x + Seq::<char>::empty() =~= x);
        }
    } else {
        assert((a + b).drop_last() =~= a + b.drop_last());
        lemma_select_by_index_concat(h, a, b.drop_last());
        if let (Ok(x), Ok(y)) = (select_by_index(h, a), select_by_index(h, b.drop_last())) {
            if let Some(k) = position_of_index(h, b.last()) {
                assert(x + y + h[k].content@ =~= x + (y + h[k].content@));
            }
        }
    }
}

/// The message for a hunk number that is not there.
pub open spec fn missing_hunk_message(idx: usize, count: nat) -> Seq<char> {
    "Hunk index "@ + decimal(idx as nat) + " not found (have 1.."@ + decimal(count) + ")"@
}

fn find_hunk(hunks: &[Hunk], idx: usize) -> (r: Option<usize>)
    ensures
        match r {
            Some(k) => position_of_index(hunks@, idx) == Some(k as int) && k < hunks@.len(),
            None => position_of_index(hunks@, idx) is None,
        },
{
    let mut i: usize = 0;
    while i < hunks.len()
        invariant
            i <= hunks@.len(),
            position_of_index(hunks@.take(i as int), idx) is None,
        decreases hunks@.len() - i,
    {
        assert(hunks@.take(i + 1).drop_last() =~= hunks@.take(i as int));
        if hunks[i].index == idx {
            proof {
                lemma_position_prefix(hunks@, i + 1, idx);
            }
            return Some(i);
        }
        i = i + 1;
    }
    assert(hunks@.take(i as int) =~= hunks@);
    None
}

/// A hunk found in a prefix is found at the same place in the whole.
proof fn lemma_position_prefix(h: Seq<Hunk>, n: int, idx: usize)
    requires
        0 <= n <= h.len(),
        position_of_index(h.take(n), idx) is Some,
    ensures
        position_of_index(h, idx) == position_of_index(h.take(n), idx),
    decreases h.len() - n,
{
    if n < h.len() {
        assert(h.take(n + 1).drop_last() =~= h.take(n));
        lemma_position_prefix(h, n + 1, idx);
    } else {
        assert(h.take(n) =~= h);
    }
}

/// Filter hunks by 1-based indices, reassemble into a diff string.
pub fn filter_by_hunks(hunks: &[Hunk], indices: &[usize]) -> (r: Result<String, AppError>)
    ensures
        match select_by_index(hunks@, indices@) {
            Ok(text) => r matches Ok(s) && s@ == text,
            Err(idx) => r matches Err(AppError::Git(m)) && m@ == missing_hunk_message(
                idx,
                hunks@.len(),
            ),
        },
{
    let mut result = String::new();
    let mut i: usize = 0;
    while i < indices.len()
        invariant
            i <= indices@.len(),
            select_by_index(hunks@, indices@.take(i as int)) == Ok::<Seq<char>, usize>(
                result@,
            ),
        decreases indices@.len() - i,
    {
        let idx = indices[i];
        assert(indices@.take(i + 1).drop_last() =~= indices@.take(i as int));
        match find_hunk(hunks, idx) {
            Some(k) => {
                result.append(hunks[k].content.as_str());
            },
            None => {
                proof {
                    lemma_select_error_persists(hunks@, indices@, i + 1, idx);
                }
                let mut m = String::from_str("Hunk index ");
                m.append(usize_to_string(idx).as_str());
                m.append(" not found (have 1..");
                m.append(usize_to_string(hunks.len()).as_str());
                m.append(")");
                return Err(AppError::Git(m));
            },
        }
        i = i + 1;
    }
    assert(indices@.take(i as int) =~= indices@);
    Ok(result)
}

/// Once a prefix of the indices fails, the whole list fails the same way.
proof fn lemma_select_error_persists(h: Seq<Hunk>, ids: Seq<usize>, n: int, e: usize)
    requires
        0 <= n <= ids.len(),
        select_by_index(h, ids.take(n)) == Err::<Seq<char>, usize>(e),
    ensures
        select_by_index(h, ids) == Err::<Seq<char>, usize>(e),
    decreases ids.len() - n,
{
    if n < ids.len() {
        assert(ids.take(n + 1).drop_last() =~= ids.take(n));
        lemma_select_error_persists(h, ids, n + 1, e);
    } else {
        assert(ids.take(n) =~= ids);
    }
}

// ---------------------------------------------------------------------------
// Selecting hunks by line range
// ---------------------------------------------------------------------------

/// The last new-file line a hunk covers.
pub open spec fn hunk_last_line(h: Hunk) -> int {
    h.new_start + h.new_count - 1
}

/// The hunk touches lines `start..=end` of the new file (a deletion-only hunk touches none).
pub open spec fn overlaps(h: Hunk, start: usize, end: usize) -> bool {
    h.new_count != 0 && h.new_start <= end && hunk_last_line(h) >= start
}

/// Every hunk's last line can be computed.
pub open spec fn line_spans_fit(h: Seq<Hunk>) -> bool {
    forall|i: int| 0 <= i < h.len() ==> #[trigger] h[i].new_start + h[i].new_count <= usize::MAX + 1
}

/// The contents of the hunks that overlap `start..=end`, in order.
pub open spec fn select_by_lines(h: Seq<Hunk>, start: usize, end: usize) -> Seq<char>
    decreases h.len(),
{
    if h.len() == 0 {
        Seq::empty()
    } else if overlaps(h.last(), start, end) {
        select_by_lines(h.drop_last(), start, end) + h.last().content@
    } else {
        select_by_lines(h.drop_last(), start, end)
    }
}

/// Filter hunks to those overlapping a line range in the new file.
/// `start` and `end` are 1-based line numbers in the current (new) file.
pub fn filter_by_lines(hunks: &[Hunk], start: usize, end: usize) -> (r: String)
    requires
        line_spans_fit(hunks@),
    ensures
        r@ == select_by_lines(hunks@, start, end),
{
    let mut result = String::new();
    let mut i: usize = 0;
    while i < hunks.len()
        invariant
            i <= hunks@.len(),
            line_spans_fit(hunks@),
            result@ == select_by_lines(hunks@.take(i as int), start, end),
        decreases hunks@.len() - i,
    {
        assert(hunks@.take(i + 1).drop_last() =~= hunks@.take(i as int));
        let h = &hunks[i];
        assert(h.new_start + h.new_count <= usize::MAX + 1);
        if h.new_count != 0 {
            let hunk_end = h.new_start + (h.new_count - 1);
            if h.new_start <= end && hunk_end >= start {
                result.append(h.content.as_str());
            }
        }
        i = i + 1;
    }
    assert(hunks@.take(i as int) =~= hunks@);
    result
}

// ---------------------------------------------------------------------------
// Preview
// ---------------------------------------------------------------------------

/// An added line of a diff (not the `+++` file header).
pub open spec fn is_added_line(l: Seq<char>) -> bool {
    starts_with(l, "+"@) && !starts_with(l, "+++"@)
}

/// A removed line of a diff (not the `---` file header).
pub open spec fn is_removed_line(l: Seq<char>) -> bool {
    starts_with(l, "-"@) && !starts_with(l, "---"@)
}

/// How many of the lines are added lines.
pub open spec fn count_added(ls: Seq<Seq<char>>) -> nat
    decreases ls.len(),
{
    if ls.len() == 0 {
        0
    } else {
        count_added(ls.drop_last()) + if is_added_line(ls.last()) {
            1nat
        } else {
            0nat
        }
    }
}

/// How many of the lines are removed lines.
pub open spec fn count_removed(ls: Seq<Seq<char>>) -> nat
    decreases ls.len(),
{
    if ls.len() == 0 {
        0
    } else {
        count_removed(ls.drop_last()) + if is_removed_line(ls.last()) {
            1nat
        } else {
            0nat
        }
    }
}

/// The last new-file line shown in a preview (the start line for an empty hunk).
pub open spec fn preview_last_line(h: Hunk) -> nat {
    if h.new_count == 0 {
        h.new_start as nat
    } else {
        (h.new_start + h.new_count - 1) as nat
    }
}

/// The preview entry of one hunk.
pub open spec fn hunk_preview(h: Hunk) -> Seq<char> {
    "--- Hunk "@ + decimal(h.index as nat) + " ---  "@ + h.header@ + "\n"@ + "  +"@ + decimal(
        count_added(lines(h.content@)),
    ) + " -"@ + decimal(count_removed(lines(h.content@))) + " lines (new file: lines "@
        + decimal(h.new_start as nat) + "-"@ + decimal(preview_last_line(h)) + ")\n"@ + "\n"@
}

proof fn lemma_count_added_is_filter(ls: Seq<Seq<char>>)
    ensures
        count_added(ls) == ls.filter(|l: Seq<char>| starts_with(l, "+"@) && !starts_with(l, "+++"@)).len(),
    decreases ls.len(),
{
    reveal(Seq::filter);
    if ls.len() > 0 {
        lemma_count_added_is_filter(ls.drop_last());
    }
}

proof fn lemma_count_removed_is_filter(ls: Seq<Seq<char>>)
    ensures
        count_removed(ls) == ls.filter(|l: Seq<char>| starts_with(l, "-"@) && !starts_with(l, "---"@)).len(),
    decreases ls.len(),
{
    reveal(Seq::filter);
    if ls.len() > 0 {
        lemma_count_removed_is_filter(ls.drop_last());
    }
}

/// A hunk's preview line gives after `+` the number of its lines that start with `+`
/// but not `+++` (added lines), and after `-` the number that start with `-` but not
/// `---` (removed lines); then the new-file lines it spans, from its new start to the
/// last line it covers (the start itself for a hunk of no lines).
pub proof fn lemma_preview_counts(h: Hunk)
    ensures
        hunk_preview(h) == "--- Hunk "@ + decimal(h.index as nat) + " ---  "@ + h.header@ + "\n"@
            + "  +"@ + decimal(
            lines(h.content@).filter(
                |l: Seq<char>| starts_with(l, "+"@) && !starts_with(l, "+++"@),
            ).len(),
        ) + " -"@ + decimal(
            lines(h.content@).filter(
                |l: Seq<char>| starts_with(l, "-"@) && !starts_with(l, "---"@),
            ).len(),
        ) + " lines (new file: lines "@ + decimal(h.new_start as nat) + "-"@ + decimal(
            if h.new_count == 0 {
                h.new_start as nat
            } else {
                (h.new_start + h.new_count - 1) as nat
            },
        ) + ")\n\n"@,
        starts_with(
            hunk_preview(h),
            "--- Hunk "@ + decimal(h.index as nat) + " ---  "@ + h.header@ + "\n"@ + "  +"@
                + decimal(
                lines(h.content@).filter(
                    |l: Seq<char>| starts_with(l, "+"@) && !starts_with(l, "+++"@),
                ).len(),
            ) + " -"@ + decimal(
                lines(h.content@).filter(
                    |l: Seq<char>| starts_with(l, "-"@) && !starts_with(l, "---"@),
                ).len(),
            ) + " lines (new file: lines "@,
        ),
{
    let ls = lines(h.content@);
    lemma_count_added_is_filter(ls);
    lemma_count_removed_is_filter(ls);
    let p = "--- Hunk "@ + decimal(h.index as nat) + " ---  "@ + h.header@ + "\n"@ + "  +"@
        + decimal(count_added(ls)) + " -"@ + decimal(count_removed(ls)) + " lines (new file: lines "@;
    let rest = decimal(h.new_start as nat) + "-"@ + decimal(preview_last_line(h)) + ")\n"@ + "\n"@;
    assert(hunk_preview(h) =~= p + rest);
    assert((p + rest).subrange(0, p.len() as int) =~= p);
    reveal_strlit(")\n");
    reveal_strlit("\n");
    reveal_strlit(")\n\n");
    assert(")\n"@ + "\n"@ =~= ")\n\n"@);
    assert(hunk_preview(h) =~= p + decimal(h.new_start as nat) + "-"@ + decimal(preview_last_line(h))
        + ")\n\n"@);
}

/// The preview of two runs of hunks one after the other is the preview of the first
/// followed by that of the second: every hunk keeps its entry, in order.
pub proof fn lemma_hunks_preview_concat(a: Seq<Hunk>, b: Seq<Hunk>)
    ensures
        hunks_preview(a + b) == hunks_preview(a) + hunks_preview(b),
    decreases b.len(),
{
    if b.len() == 0 {
        assert(a + b =~= a);
        assert(hunks_preview(a) + hunks_preview(b) =~= hunks_preview(a));
    } else {
        lemma_hunks_preview_concat(a, b.drop_last());
        assert((a + b).drop_last() =~= a + b.drop_last());
        assert((a + b).last() == b.last());
        assert(hunks_preview(a + b) =~= hunks_preview(a) + hunks_preview(b));
    }
}

/// The preview of a single hunk is its entry.
pub proof fn lemma_hunks_preview_one(h: Hunk)
    ensures
        hunks_preview(seq![h]) == hunk_preview(h),
{
    assert(seq![h].drop_last() =~= Seq::<Hunk>::empty());
    assert(hunks_preview(Seq::<Hunk>::empty()) =~= Seq::<char>::empty());
    assert(Seq::<char>::empty() + hunk_preview(h) =~= hunk_preview(h));
}

/// The preview of all hunks, one entry after the other.
pub open spec fn hunks_preview(h: Seq<Hunk>) -> Seq<char>
    decreases h.len(),
{
    if h.len() == 0 {
        Seq::empty()
    } else {
        hunks_preview(h.drop_last()) + hunk_preview(h.last())
    }
}

fn line_starts_with(v: &Vec<char>, a: usize, b: usize, p: &str) -> (r: bool)
    requires
        a <= b <= v.len(),
    ensures
        r == starts_with(v@.subrange(a as int, b as int), p@),
{
    let pv = chars_of(p);
    if pv.len() > b - a {
        return false;
    }
    let mut k: usize = 0;
    while k < pv.len()
        invariant
            a + pv@.len() <= b <= v.len(),
            pv@ == p@,
            k <= pv@.len(),
            forall|m: int| 0 <= m < k ==> v@[a + m] == pv@[m],
        decreases pv@.len() - k,
    {
        if v[a + k] != pv[k] {
            assert(v@.subrange(a as int, b as int).subrange(0, pv@.len() as int)[k as int]
                == v@[a + k]);
            assert(v@.subrange(a as int, b as int).subrange(0, pv@.len() as int) != pv@);
            return false;
        }
        k = k + 1;
    }
    assert(v@.subrange(a as int, b as int).subrange(0, pv@.len() as int) =~= pv@);
    true
}

/// Counts of added and removed lines in a hunk's content.
fn count_changes(content: &str) -> (r: (usize, usize))
    ensures
        r.0 == count_added(lines(content@)),
        r.1 == count_removed(lines(content@)),
{
    let v = chars_of(content);
    let ranges = line_ranges(&v);
    let ghost ls = lines(v@);
    let mut added: usize = 0;
    let mut removed: usize = 0;
    let mut i: usize = 0;
    while i < ranges.len()
        invariant
            v@ == content@,
            ls == lines(v@),
            range_texts(v@, ranges@) == ls,
            forall|k: int| 0 <= k < ranges@.len() ==> #[trigger] ranges@[k].0 <= ranges@[k].1 <= v@.len(),
            i <= ranges@.len(),
            added == count_added(ls.take(i as int)),
            removed == count_removed(ls.take(i as int)),
            added <= i,
            removed <= i,
        decreases ranges@.len() - i,
    {
        let (a, b) = ranges[i];
        assert(ranges@[i as int].0 <= ranges@[i as int].1 <= v@.len());
        assert(ls[i as int] == v@.subrange(a as int, b as int));
        assert(ls.take(i + 1).drop_last() =~= ls.take(i as int));
        if line_starts_with(&v, a, b, "+") && !line_starts_with(&v, a, b, "+++") {
            added = added + 1;
        }
        if line_starts_with(&v, a, b, "-") && !line_starts_with(&v, a, b, "---") {
            removed = removed + 1;
        }
        i = i + 1;
    }
    assert(ls.take(i as int) =~= ls);
    (added, removed)
}

/// The preview entry of one hunk.
fn preview_entry(h: &Hunk) -> (r: String)
    requires
        h.new_start + h.new_count <= usize::MAX + 1,
    ensures
        r@ == hunk_preview(*h),
{
    let (added, removed) = count_changes(h.content.as_str());
    let last = if h.new_count == 0 {
        h.new_start
    } else {
        h.new_start + (h.new_count - 1)
    };
    let mut out = String::from_str("--- Hunk ");
    out.append(usize_to_string(h.index).as_str());
    out.append(" ---  ");
    out.append(h.header.as_str());
    out.append("\n");
    out.append("  +");
    out.append(usize_to_string(added).as_str());
    out.append(" -");
    out.append(usize_to_string(removed).as_str());
    out.append(" lines (new file: lines ");
    out.append(usize_to_string(h.new_start).as_str());
    out.append("-");
    out.append(usize_to_string(last).as_str());
    out.append(")\n");
    out.append("\n");
    out
}

/// Format hunks for preview display with numbered indices.
pub fn format_hunk_preview(hunks: &[Hunk]) -> (r: String)
    requires
        line_spans_fit(hunks@),
    ensures
        r@ == hunks_preview(hunks@),
{
    let mut output = String::new();
    let mut i: usize = 0;
    while i < hunks.len()
        invariant
            i <= hunks@.len(),
            line_spans_fit(hunks@),
            output@ == hunks_preview(hunks@.take(i as int)),
        decreases hunks@.len() - i,
    {
        assert(hunks@.take(i + 1).drop_last() =~= hunks@.take(i as int));
        let h = &hunks[i];
        assert(h.new_start + h.new_count <= usize::MAX + 1);
        let entry = preview_entry(h);
        output.append(entry.as_str());
        i = i + 1;
    }
    assert(hunks@.take(i as int) =~= hunks@);
    output
}

// ---------------------------------------------------------------------------
// Hunk headers that the parser reads safely
// ---------------------------------------------------------------------------

/// The characters that stand between `@@ -` and ` @@` in a well-formed hunk header.
pub open spec fn is_number_char(c: char) -> bool {
    is_digit(c) || c == ',' || c == ' ' || c == '+'
}

pub open spec fn is_ascii_char(c: char) -> bool {
    (c as u32) < 0x80
}

/// Every run of digits in `s` has a value of at most half of `usize::MAX`.
pub open spec fn digit_runs_small(s: Seq<char>) -> bool {
    forall|i: int, j: int|
        0 <= i < j <= s.len() && all_digits(#[trigger] s.subrange(i, j)) ==> digits_value(
            s.subrange(i, j),
        ) <= usize::MAX / 2
}

/// The numbers of a line that starts like a hunk header (`@@ -`): the text up to the
/// first ` @@` after it.
pub open spec fn header_numbers(l: Seq<char>) -> Option<Seq<char>> {
    if starts_with(l, "@@ -"@) {
        match find(l.skip(4), " @@"@) {
            Some(p) => Some(l.skip(4).take(p)),
            None => None,
        }
    } else {
        None
    }
}

/// The hunk header parser reads this line without failing: either the line is no
/// header, or its numbers hold an ASCII character no header number has, or they are
/// ASCII digits and separators with no run of digits too large to add up.
pub open spec fn header_numbers_safe(l: Seq<char>) -> bool {
    match header_numbers(l) {
        None => true,
        Some(nums) => (exists|i: int|
            0 <= i < nums.len() && is_ascii_char(nums[i]) && !is_number_char(#[trigger] nums[i]))
            || ((forall|i: int| 0 <= i < nums.len() ==> is_number_char(#[trigger] nums[i]))
            && digit_runs_small(nums)),
    }
}

/// Every line of the diff is read safely by the hunk header parser.
pub open spec fn hunk_headers_safe(t: Seq<char>) -> bool {
    forall|i: int| 0 <= i < lines(t).len() ==> header_numbers_safe(#[trigger] lines(t)[i])
}

/// Leading digits add to a value: a suffix of a digit string is worth no more.
proof fn lemma_digits_suffix(s: Seq<char>, k: int)
    requires
        0 <= k <= s.len(),
        all_digits(s),
    ensures
        digits_value(s.skip(k)) <= digits_value(s),
    decreases s.len(),
{
    if k < s.len() {
        let t = s.drop_last();
        assert(all_digits(t));
        lemma_digits_suffix(t, k);
        assert(s.skip(k).drop_last() =~= t.skip(k));
        assert(s.skip(k).last() == s.last());
    } else {
        assert(s.skip(k).len() == 0);
    }
}

fn copy_range(v: &Vec<char>, a: usize, b: usize) -> (r: Vec<char>)
    requires
        a <= b <= v.len(),
    ensures
        r@ == v@.subrange(a as int, b as int),
{
    let mut r: Vec<char> = Vec::new();
    let mut i = a;
    while i < b
        invariant
            a <= i <= b <= v.len(),
            r@ == v@.subrange(a as int, i as int),
        decreases b - i,
    {
        r.push(v[i]);
        assert(r@ =~= v@.subrange(a as int, i + 1));
        i = i + 1;
    }
    r
}

fn is_number_char_exec(c: char) -> (b: bool)
    ensures
        b == is_number_char(c),
{
    ('0' <= c && c <= '9') || c == ',' || c == ' ' || c == '+'
}

/// Checks that every run of digits in `v` (all number characters) is small.
fn digit_runs_small_exec(v: &Vec<char>) -> (b: bool)
    ensures
        b == digit_runs_small(v@),
{
    let half = usize::MAX / 2;
    let mut run_start: usize = 0;
    let mut value: usize = 0;
    let mut j: usize = 0;
    while j < v.len()
        invariant
            run_start <= j <= v@.len(),
            half == usize::MAX / 2,
            all_digits(v@.subrange(run_start as int, j as int)),
            value == digits_value(v@.subrange(run_start as int, j as int)),
            value <= half,
            run_start < j ==> forall|k: int| run_start <= k < j ==> is_digit(v@[k]),
            run_start > 0 ==> !is_digit(v@[run_start - 1]),
            // every digit string ending at or before j is small
            forall|x: int, y: int|
                0 <= x < y <= j && all_digits(#[trigger] v@.subrange(x, y)) ==> digits_value(
                    v@.subrange(x, y),
                ) <= usize::MAX / 2,
        decreases v@.len() - j,
    {
        let c = v[j];
        if '0' <= c && c <= '9' {
            let d = ((c as u32) - ('0' as u32)) as usize;
            proof {
                lemma_digits_value_step(v@.subrange(run_start as int, (j + 1) as int), j - run_start);
                assert(v@.subrange(run_start as int, (j + 1) as int).take(j - run_start)
                    =~= v@.subrange(run_start as int, j as int));
                assert(v@.subrange(run_start as int, (j + 1) as int).take(j + 1 - run_start)
                    =~= v@.subrange(run_start as int, (j + 1) as int));
            }
            if value > (half - d) / 10 {
                proof {
                    assert(value * 10 + d > half) by (nonlinear_arith)
                        requires
                            value > (half - d) / 10,
                            d <= 9,
                            half >= 9,
                    ;
                    let x = run_start as int;
                    let y = (j + 1) as int;
                    assert(all_digits(v@.subrange(x, y)));
                    assert(!(digits_value(v@.subrange(x, y)) <= usize::MAX / 2));
                }
                return false;
            }
            assert(value * 10 + d <= half) by (nonlinear_arith)
                requires
                    value <= (half - d) / 10,
                    d <= 9,
            ;
            value = value * 10 + d;
            proof {
                let ghost run = v@.subrange(run_start as int, (j + 1) as int);
                assert(all_digits(run));
                assert forall|x: int, y: int|
                    0 <= x < y <= j + 1 && all_digits(#[trigger] v@.subrange(x, y)) implies digits_value(
                    v@.subrange(x, y),
                ) <= usize::MAX / 2 by {
                    if y == j + 1 {
                        // the digit string lies inside the current run
                        if x < run_start {
                            assert(v@.subrange(x, y)[run_start - 1 - x] == v@[run_start - 1]);
                        }
                        assert(v@.subrange(x, y) =~= run.skip(x - run_start));
                        lemma_digits_suffix(run, x - run_start);
                    }
                }
            }
        } else {
            proof {
                assert forall|x: int, y: int|
                    0 <= x < y <= j + 1 && all_digits(#[trigger] v@.subrange(x, y)) implies digits_value(
                    v@.subrange(x, y),
                ) <= usize::MAX / 2 by {
                    if y == j + 1 {
                        assert(v@.subrange(x, y)[j - x] == v@[j as int]);
                    }
                }
                assert(v@.subrange((j + 1) as int, (j + 1) as int) =~= Seq::<char>::empty());
            }
            run_start = j + 1;
            value = 0;
        }
        j = j + 1;
    }
    true
}

/// Checks one line against the hunk header parser's limits.
fn header_numbers_safe_exec(l: &Vec<char>) -> (b: bool)
    ensures
        b == header_numbers_safe(l@),
{
    let head = chars_of("@@ -");
    let tail = chars_of(" @@");
    proof {
        reveal_strlit("@@ -");
        reveal_strlit(" @@");
        assert(head@.len() == 4);
    }
    let n = l.len();
    if !crate::text::matches_at(l, &head, 0) {
        return true;
    }
    let rest = copy_range(l, 4, n);
    assert(rest@ =~= l@.skip(4));
    let p = find_in(&rest, &tail, 0);
    let p = match p {
        None => {
            return true;
        },
        Some(p) => p,
    };
    let nums = copy_range(&rest, 0, p);
    assert(nums@ =~= rest@.take(p as int));
    proof {
        assert(tail@ == " @@"@);
        assert(starts_with(l@, "@@ -"@));
        assert(find(l@.skip(4), " @@"@) == Some(p as int));
        assert(header_numbers(l@) == Some(nums@));
    }
    let mut i: usize = 0;
    let mut all_number = true;
    while i < nums.len()
        invariant
            i <= nums@.len(),
            header_numbers(l@) == Some(nums@),
            all_number ==> forall|k: int| 0 <= k < i ==> is_number_char(nums@[k]),
            !all_number ==> !(forall|k: int|
                0 <= k < nums@.len() ==> is_number_char(#[trigger] nums@[k])),
            forall|k: int| 0 <= k < i ==> !(is_ascii_char(nums@[k]) && !is_number_char(#[trigger] nums@[k])),
        decreases nums@.len() - i,
    {
        let c = nums[i];
        let number = is_number_char_exec(c);
        if (c as u32) < 0x80 && !number {
            assert(is_ascii_char(nums@[i as int]) && !is_number_char(nums@[i as int]));
            return true;
        }
        if !number {
            all_number = false;
        }
        i = i + 1;
    }
    if !all_number {
        return false;
    }
    digit_runs_small_exec(&nums)
}

/// Checks that the hunk header parser reads every line of `text` safely.
pub fn hunk_headers_safe_check(text: &str) -> (b: bool)
    ensures
        b == hunk_headers_safe(text@),
{
    let v = chars_of(text);
    let ranges = line_ranges(&v);
    let ghost ls = lines(v@);
    let mut i: usize = 0;
    assert(forall|k: int| 0 <= k < ranges@.len() ==> #[trigger] ranges@[k].0 <= ranges@[k].1 <= v@.len());
    while i < ranges.len()
        invariant
            v@ == text@,
            ls == lines(v@),
            range_texts(v@, ranges@) == ls,
            forall|k: int| 0 <= k < ranges@.len() ==> #[trigger] ranges@[k].0 <= ranges@[k].1 <= v@.len(),
            i <= ranges@.len(),
            forall|k: int| 0 <= k < i ==> header_numbers_safe(#[trigger] ls[k]),
        decreases ranges@.len() - i,
    {
        let (a, b) = ranges[i];
        assert(ranges@[i as int].0 <= ranges@[i as int].1 <= v@.len());
        assert(ls[i as int] == v@.subrange(a as int, b as int));
        let l = copy_range(&v, a, b);
        if !header_numbers_safe_exec(&l) {
            return false;
        }
        i = i + 1;
    }
    true
}

// ---------------------------------------------------------------------------
// File header lines that the parser reads safely
// ---------------------------------------------------------------------------

/// A file header line of the parser: `head` (`--- ` or `+++ `) and at least one more
/// character, the first of which is no tab.
pub open spec fn is_file_line(l: Seq<char>, head: Seq<char>) -> bool {
    starts_with(l, head) && l.len() > 4 && l[4] != '\t'
}

/// A source file line (`--- name`).
pub open spec fn source_line(l: Seq<char>) -> bool {
    is_file_line(l, "--- "@)
}

/// A target file line (`+++ name`).
pub open spec fn target_line(l: Seq<char>) -> bool {
    is_file_line(l, "+++ "@)
}

/// Every target file line has a source file line somewhere before it: the parser
/// takes the source name of a file from the last such line, and fails hard when there
/// is none.
pub open spec fn file_headers_ordered(t: Seq<char>) -> bool {
    let ls = lines(t);
    forall|i: int|
        0 <= i < ls.len() && #[trigger] target_line(ls[i]) ==> exists|j: int|
            0 <= j < i && #[trigger] source_line(ls[j])
}

/// The `unidiff` parser reads the text without failing hard: its hunk headers and its
/// file header lines are as it needs them.
pub open spec fn patch_safe(t: Seq<char>) -> bool {
    hunk_headers_safe(t) && file_headers_ordered(t)
}

/// Whether the characters `v[a..b]` form a file header line starting with `head`.
fn file_line_at(v: &Vec<char>, a: usize, b: usize, head: &str) -> (r: bool)
    requires
        a <= b <= v@.len(),
        head@.len() == 4,
    ensures
        r == is_file_line(v@.subrange(a as int, b as int), head@),
{
    let l = copy_range(v, a, b);
    let h = chars_of(head);
    let r = crate::text::matches_at(&l, &h, 0) && l.len() > 4 && l[4] != '\t';
    r
}

/// Checks that every target file line of `text` has a source file line before it.
pub fn file_headers_ordered_check(text: &str) -> (b: bool)
    ensures
        b == file_headers_ordered(text@),
{
    proof {
        reveal_strlit("--- ");
        reveal_strlit("+++ ");
    }
    let v = chars_of(text);
    let ranges = line_ranges(&v);
    let ghost ls = lines(v@);
    let mut seen = false;
    let mut i: usize = 0;
    while i < ranges.len()
        invariant
            v@ == text@,
            ls == lines(v@),
            range_texts(v@, ranges@) == ls,
            forall|k: int| 0 <= k < ranges@.len() ==> #[trigger] ranges@[k].0 <= ranges@[k].1 <= v@.len(),
            i <= ranges@.len(),
            "--- "@.len() == 4,
            "+++ "@.len() == 4,
            seen == exists|j: int| 0 <= j < i && #[trigger] source_line(ls[j]),
            forall|k: int|
                0 <= k < i && #[trigger] target_line(ls[k]) ==> exists|j: int|
                    0 <= j < k && #[trigger] source_line(ls[j]),
        decreases ranges@.len() - i,
    {
        let (a, b) = ranges[i];
        assert(ranges@[i as int].0 <= ranges@[i as int].1 <= v@.len());
        assert(ls[i as int] == v@.subrange(a as int, b as int));
        let is_target = file_line_at(&v, a, b, "+++ ");
        let is_source = file_line_at(&v, a, b, "--- ");
        assert(is_target == target_line(ls[i as int]));
        assert(is_source == source_line(ls[i as int]));
        if is_target && !seen {
            proof {
                assert(!(exists|j: int| 0 <= j < i && #[trigger] source_line(ls[j])));
                assert(0 <= i < ls.len() && target_line(ls[i as int]));
            }
            return false;
        }
        proof {
            if is_source {
                assert(0 <= i < i + 1 && source_line(ls[i as int]));
            } else {
                assert forall|j: int| 0 <= j < i + 1 && #[trigger] source_line(ls[j]) implies j < i by {}
            }
        }
        if is_source {
            seen = true;
        }
        i = i + 1;
    }
    assert(ls.len() == ranges@.len());
    true
}

/// Checks that the `unidiff` parser reads `text` without failing hard.
pub fn patch_safe_check(text: &str) -> (b: bool)
    ensures
        b == patch_safe(text@),
{
    hunk_headers_safe_check(text) && file_headers_ordered_check(text)
}

// ---------------------------------------------------------------------------
// Parsing with unidiff
// ---------------------------------------------------------------------------

/// One hunk as the `unidiff` parser reads it.
#[derive(Debug)]
pub struct PatchHunk {
    pub source_start: usize,
    pub source_length: usize,
    pub target_start: usize,
    pub target_length: usize,
    pub section_header: String,
    /// The hunk as `unidiff` prints it (its header line and its lines).
    pub text: String,
}

/// One file of a patch as the `unidiff` parser reads it.
#[derive(Debug)]
pub struct PatchFile {
    pub source_file: String,
    pub target_file: String,
    pub hunks: Vec<PatchHunk>,
}

impl View for PatchHunk {
    type V = (usize, usize, usize, usize, Seq<char>, Seq<char>);

    open spec fn view(&self) -> Self::V {
        (
            self.source_start,
            self.source_length,
            self.target_start,
            self.target_length,
            self.section_header@,
            self.text@,
        )
    }
}

impl View for PatchFile {
    type V = (Seq<char>, Seq<char>, Seq<(usize, usize, usize, usize, Seq<char>, Seq<char>)>);

    open spec fn view(&self) -> Self::V {
        (self.source_file@, self.target_file@, self.hunks@.map_values(|h: PatchHunk| h@))
    }
}

/// A hunk's four header numbers are each at most half of `usize::MAX`.
pub open spec fn header_numbers_bounded(h: PatchHunk) -> bool {
    &&& h.source_start <= usize::MAX / 2
    &&& h.source_length <= usize::MAX / 2
    &&& h.target_start <= usize::MAX / 2
    &&& h.target_length <= usize::MAX / 2
}

/// The files (source name, target name, hunks) that `unidiff::PatchSet::parse` reads
/// from a diff text, or `None` where it reports an error.
pub uninterp spec fn unidiff_patch(text: Seq<char>) -> Option<
    Seq<(Seq<char>, Seq<char>, Seq<(usize, usize, usize, usize, Seq<char>, Seq<char>)>)>,
>;

/// Runs `unidiff::PatchSet::parse` on the text and copies out, for each file, its
/// source and target names and, for each hunk, its four header numbers, its section
/// header and its printed text.  Claimed: the result is `unidiff_patch` of the text,
/// `None` where the parser reports an error.  The parser panics when a hunk header's
/// numbers are not ASCII digits that fit, and when a target file line (`+++ `) comes
/// before any source file line (`--- `); `patch_safe` rules both out.  The
/// numbers it then reads are digit runs of the headers (or the default 1), so each is
/// at most half of `usize::MAX`, which is claimed too.
#[verifier::external_body]
fn parse_patch(text: &str) -> (r: Option<Vec<PatchFile>>)
    requires
        patch_safe(text@),
    ensures
        match r {
            Some(files) => unidiff_patch(text@) == Some(files@.map_values(|f: PatchFile| f@))
                && forall|i: int, k: int|
                0 <= i < files@.len() && 0 <= k < files@[i].hunks@.len() ==> header_numbers_bounded(
                    #[trigger] files@[i].hunks@[k],
                ),
            None => unidiff_patch(text@) is None,
        },
{
    let mut patch = unidiff::PatchSet::new();
    if patch.parse(text).is_err() {
        return None;
    }
    Some(patch.files().iter().map(|f| PatchFile {
        source_file: f.source_file.clone(),
        target_file: f.target_file.clone(),
        hunks: f.hunks().iter().map(|h| PatchHunk {
            source_start: h.source_start, source_length: h.source_length,
            target_start: h.target_start, target_length: h.target_length,
            section_header: h.section_header.clone(), text: h.to_string(),
        }).collect(),
    }).collect())
}

impl View for Hunk {
    type V = (nat, Seq<char>, Seq<char>, usize, usize, usize);

    open spec fn view(&self) -> Self::V {
        (self.index as nat, self.header@, self.content@, self.old_start, self.new_start, self.new_count)
    }
}

/// The `@@` header line of a hunk, with its section header when there is one.
pub open spec fn hunk_header_text(h: (usize, usize, usize, usize, Seq<char>, Seq<char>)) -> Seq<char> {
    let base = "@@ -"@ + decimal(h.0 as nat) + ","@ + decimal(h.1 as nat) + " +"@ + decimal(
        h.2 as nat,
    ) + ","@ + decimal(h.3 as nat) + " @@"@;
    if h.4.len() == 0 {
        base
    } else {
        base + " "@ + h.4
    }
}

/// The content of hunk `k` of a file: its printed text and a newline, the first hunk
/// of each file led by the `---` / `+++` file lines.
pub open spec fn hunk_content_text(
    f: (Seq<char>, Seq<char>, Seq<(usize, usize, usize, usize, Seq<char>, Seq<char>)>),
    k: int,
) -> Seq<char> {
    if k == 0 {
        "--- "@ + f.0 + "\n+++ "@ + f.1 + "\n"@ + f.2[k].5 + "\n"@
    } else {
        f.2[k].5 + "\n"@
    }
}

/// The hunks of one file, numbered from `first`.
pub open spec fn file_hunks(
    f: (Seq<char>, Seq<char>, Seq<(usize, usize, usize, usize, Seq<char>, Seq<char>)>),
    first: nat,
) -> Seq<(nat, Seq<char>, Seq<char>, usize, usize, usize)> {
    Seq::new(
        f.2.len(),
        |k: int|
            (
                (first + k) as nat,
                hunk_header_text(f.2[k]),
                hunk_content_text(f, k),
                f.2[k].0,
                f.2[k].2,
                f.2[k].3,
            ),
    )
}

/// The hunks of all files in order, numbered from 1.
pub open spec fn hunks_of_files(
    files: Seq<(Seq<char>, Seq<char>, Seq<(usize, usize, usize, usize, Seq<char>, Seq<char>)>)>,
) -> Seq<(nat, Seq<char>, Seq<char>, usize, usize, usize)>
    decreases files.len(),
{
    if files.len() == 0 {
        Seq::empty()
    } else {
        let before = hunks_of_files(files.drop_last());
        before + file_hunks(files.last(), before.len() + 1)
    }
}

proof fn lemma_hunks_of_files_numbered(
    files: Seq<(Seq<char>, Seq<char>, Seq<(usize, usize, usize, usize, Seq<char>, Seq<char>)>)>,
)
    ensures
        forall|k: int|
            0 <= k < hunks_of_files(files).len() ==> (#[trigger] hunks_of_files(files)[k]).0 == k + 1,
    decreases files.len(),
{
    if files.len() > 0 {
        lemma_hunks_of_files_numbered(files.drop_last());
        let before = hunks_of_files(files.drop_last());
        let all = hunks_of_files(files);
        assert forall|k: int| 0 <= k < all.len() implies (#[trigger] all[k]).0 == k + 1 by {
            if k < before.len() {
                assert(all[k] == before[k]);
            } else {
                assert(all[k] == file_hunks(files.last(), before.len() + 1)[k - before.len()]);
            }
        }
    }
}

/// The hunks parsed from a diff are numbered 1, 2, ... in order.
pub proof fn lemma_parsed_hunks_numbered(text: Seq<char>, r: Seq<Hunk>)
    requires
        parsed_hunks(text, r),
    ensures
        forall|k: int| 0 <= k < r.len() ==> (#[trigger] r[k]).index == k + 1,
{
    if let Some(files) = unidiff_patch(text) {
        lemma_hunks_of_files_numbered(files);
        if hunks_of_files(files).len() < usize::MAX {
            assert forall|k: int| 0 <= k < r.len() implies (#[trigger] r[k]).index == k + 1 by {
                assert(hunk_views(r)[k] == r[k]@);
                assert(hunks_of_files(files)[k].0 == k + 1);
            }
        }
    }
}

/// The views of a sequence of hunks.
pub open spec fn hunk_views(h: Seq<Hunk>) -> Seq<(nat, Seq<char>, Seq<char>, usize, usize, usize)> {
    h.map_values(|x: Hunk| x@)
}

fn header_of(h: &PatchHunk) -> (r: String)
    ensures
        r@ == hunk_header_text(h@),
{
    let mut r = String::from_str("@@ -");
    r.append(usize_to_string(h.source_start).as_str());
    r.append(",");
    r.append(usize_to_string(h.source_length).as_str());
    r.append(" +");
    r.append(usize_to_string(h.target_start).as_str());
    r.append(",");
    r.append(usize_to_string(h.target_length).as_str());
    r.append(" @@");
    if h.section_header.as_str().is_empty() {
        return r;
    }
    r.append(" ");
    r.append(h.section_header.as_str());
    r
}

/// Numbers the hunks of the parsed files from 1 and builds each one's header and
/// content.  `first` numbers stay below `usize::MAX`.
pub fn hunks_from_files(files: &Vec<PatchFile>) -> (r: Vec<Hunk>)
    requires
        hunks_of_files(files@.map_values(|f: PatchFile| f@)).len() < usize::MAX,
    ensures
        hunk_views(r@) == hunks_of_files(files@.map_values(|f: PatchFile| f@)),
        (forall|i: int, k: int|
            0 <= i < files@.len() && 0 <= k < files@[i].hunks@.len() ==> header_numbers_bounded(
                #[trigger] files@[i].hunks@[k],
            )) ==> line_spans_fit(r@),
{
    let ghost fv = files@.map_values(|f: PatchFile| f@);
    let mut r: Vec<Hunk> = Vec::new();
    let mut fi: usize = 0;
    while fi < files.len()
        invariant
            fi <= files@.len(),
            fv == files@.map_values(|f: PatchFile| f@),
            hunks_of_files(fv).len() < usize::MAX,
            hunk_views(r@) == hunks_of_files(fv.take(fi as int)),
            (forall|i: int, k: int|
                0 <= i < files@.len() && 0 <= k < files@[i].hunks@.len() ==> header_numbers_bounded(
                    #[trigger] files@[i].hunks@[k],
                )) ==> line_spans_fit(r@),
        decreases files@.len() - fi,
    {
        let file = &files[fi];
        proof {
            assert(fv.take(fi + 1).drop_last() =~= fv.take(fi as int));
            assert(fv.take(fi + 1).last() == file@);
            lemma_hunks_prefix_len(fv, fi + 1);
        }
        let ghost before = r@;
        let ghost target = hunks_of_files(fv.take(fi + 1));
        let mut k: usize = 0;
        while k < file.hunks.len()
            invariant
                k <= file.hunks@.len(),
                file@ == fv[fi as int],
                target == hunks_of_files(fv.take(fi as int)) + file_hunks(
                    file@,
                    hunks_of_files(fv.take(fi as int)).len() + 1,
                ),
                target.len() < usize::MAX,
                hunk_views(before) == hunks_of_files(fv.take(fi as int)),
                hunk_views(r@) == target.take(before.len() + k),
                r@.len() == before.len() + k,
                file == &files@[fi as int],
                fi < files@.len(),
                (forall|i: int, k: int|
                    0 <= i < files@.len() && 0 <= k < files@[i].hunks@.len() ==> header_numbers_bounded(
                        #[trigger] files@[i].hunks@[k],
                    )) ==> line_spans_fit(r@),
            decreases file.hunks@.len() - k,
        {
            let h = &file.hunks[k];
            let index = r.len() + 1;
            let header = header_of(h);
            let content = if k == 0 {
                let mut c = String::from_str("--- ");
                c.append(file.source_file.as_str());
                c.append("\n+++ ");
                c.append(file.target_file.as_str());
                c.append("\n");
                c.append(h.text.as_str());
                c.append("\n");
                c
            } else {
                let mut c = String::from_str(h.text.as_str());
                c.append("\n");
                c
            };
            let ghost old_r = r@;
            r.push(
                Hunk {
                    index,
                    header,
                    content,
                    old_start: h.source_start,
                    new_start: h.target_start,
                    new_count: h.target_length,
                },
            );
            proof {
                if forall|i: int, k: int|
                    0 <= i < files@.len() && 0 <= k < files@[i].hunks@.len() ==> header_numbers_bounded(
                        #[trigger] files@[i].hunks@[k],
                    ) {
                    assert(header_numbers_bounded(files@[fi as int].hunks@[k as int]));
                    assert forall|j: int| 0 <= j < r@.len() implies #[trigger] r@[j].new_start
                        + r@[j].new_count <= usize::MAX + 1 by {
                        if j < old_r.len() {
                            assert(r@[j] == old_r[j]);
                        }
                    }
                }
                assert(file.hunks@.map_values(|x: PatchHunk| x@)[k as int] == h@);
                assert(hunk_views(r@) =~= hunk_views(old_r).push(r@.last()@));
                assert(target[before.len() + k] == r@.last()@);
                assert(hunk_views(r@) =~= target.take(before.len() + k + 1));
            }
            k = k + 1;
        }
        proof {
            assert(target.take(before.len() + k) =~= target);
        }
        fi = fi + 1;
    }
    assert(fv.take(fi as int) =~= fv);
    r
}

/// The hunks of a prefix of the files are no more than the hunks of all files.
proof fn lemma_hunks_prefix_len(
    files: Seq<(Seq<char>, Seq<char>, Seq<(usize, usize, usize, usize, Seq<char>, Seq<char>)>)>,
    n: int,
)
    requires
        0 <= n <= files.len(),
    ensures
        hunks_of_files(files.take(n)).len() <= hunks_of_files(files).len(),
    decreases files.len() - n,
{
    if n < files.len() {
        assert(files.take(n + 1).drop_last() =~= files.take(n));
        lemma_hunks_prefix_len(files, n + 1);
    } else {
        assert(files.take(n) =~= files);
    }
}

/// Total number of hunks in the parsed files, if it stays below `usize::MAX`.
fn count_hunks(files: &Vec<PatchFile>) -> (r: Option<usize>)
    ensures
        match r {
            Some(n) => n == hunks_of_files(files@.map_values(|f: PatchFile| f@)).len() && n
                < usize::MAX,
            None => hunks_of_files(files@.map_values(|f: PatchFile| f@)).len() >= usize::MAX,
        },
{
    let ghost fv = files@.map_values(|f: PatchFile| f@);
    let mut n: usize = 0;
    let mut fi: usize = 0;
    while fi < files.len()
        invariant
            fi <= files@.len(),
            fv == files@.map_values(|f: PatchFile| f@),
            n == hunks_of_files(fv.take(fi as int)).len(),
            n < usize::MAX,
        decreases files@.len() - fi,
    {
        proof {
            assert(fv.take(fi + 1).drop_last() =~= fv.take(fi as int));
            lemma_hunks_prefix_len(fv, fi + 1);
        }
        let m = files[fi].hunks.len();
        if m >= usize::MAX - n {
            return None;
        }
        n = n + m;
        fi = fi + 1;
    }
    assert(fv.take(fi as int) =~= fv);
    Some(n)
}

/// A hunk header line as the parser's numbers give it: `@@ -<old start>,<old length>
/// +<new start>,<new count> @@`, for some old length, at its start.
pub open spec fn header_shows(header: Seq<char>, old_start: usize, new_start: usize, new_count: usize) -> bool {
    exists|old_len: usize|
        starts_with(
            header,
            #[trigger] header_ranges(old_start, old_len, new_start, new_count),
        )
}

/// `@@ -<old start>,<old length> +<new start>,<new count> @@`.
pub open spec fn header_ranges(old_start: usize, old_len: usize, new_start: usize, new_count: usize) -> Seq<char> {
    "@@ -"@ + decimal(old_start as nat) + ","@ + decimal(old_len as nat) + " +"@ + decimal(
        new_start as nat,
    ) + ","@ + decimal(new_count as nat) + " @@"@
}

proof fn lemma_file_hunk_headers(
    f: (Seq<char>, Seq<char>, Seq<(usize, usize, usize, usize, Seq<char>, Seq<char>)>),
    first: nat,
)
    ensures
        forall|k: int|
            0 <= k < file_hunks(f, first).len() ==> header_shows(
                (#[trigger] file_hunks(f, first)[k]).1,
                file_hunks(f, first)[k].3,
                file_hunks(f, first)[k].4,
                file_hunks(f, first)[k].5,
            ),
{
    assert forall|k: int| 0 <= k < file_hunks(f, first).len() implies header_shows(
        (#[trigger] file_hunks(f, first)[k]).1,
        file_hunks(f, first)[k].3,
        file_hunks(f, first)[k].4,
        file_hunks(f, first)[k].5,
    ) by {
        let hh = f.2[k];
        let base = header_ranges(hh.0, hh.1, hh.2, hh.3);
        let text = hunk_header_text(hh);
        if hh.4.len() == 0 {
            assert(text =~= base);
        } else {
            assert(text =~= base + (" "@ + hh.4));
        }
        assert(text.subrange(0, base.len() as int) =~= base);
        assert(starts_with(text, base));
    }
}

proof fn lemma_files_hunk_headers(
    files: Seq<(Seq<char>, Seq<char>, Seq<(usize, usize, usize, usize, Seq<char>, Seq<char>)>)>,
)
    ensures
        forall|k: int|
            0 <= k < hunks_of_files(files).len() ==> header_shows(
                (#[trigger] hunks_of_files(files)[k]).1,
                hunks_of_files(files)[k].3,
                hunks_of_files(files)[k].4,
                hunks_of_files(files)[k].5,
            ),
    decreases files.len(),
{
    if files.len() > 0 {
        lemma_files_hunk_headers(files.drop_last());
        let before = hunks_of_files(files.drop_last());
        let fh = file_hunks(files.last(), before.len() + 1);
        lemma_file_hunk_headers(files.last(), before.len() + 1);
        let all = hunks_of_files(files);
        assert forall|k: int| 0 <= k < all.len() implies header_shows(
            (#[trigger] all[k]).1,
            all[k].3,
            all[k].4,
            all[k].5,
        ) by {
            if k < before.len() {
                assert(all[k] == before[k]);
            } else {
                assert(all[k] == fh[k - before.len()]);
            }
        }
    }
}

/// Every parsed hunk's header begins with its ranges: `-` and the hunk's old start,
/// then `+` and its new start and new line count.
pub proof fn lemma_parsed_hunk_headers(text: Seq<char>, r: Seq<Hunk>)
    requires
        parsed_hunks(text, r),
    ensures
        forall|k: int|
            0 <= k < r.len() ==> header_shows(
                (#[trigger] r[k]).header@,
                r[k].old_start,
                r[k].new_start,
                r[k].new_count,
            ),
{
    if let Some(files) = unidiff_patch(text) {
        lemma_files_hunk_headers(files);
        if hunks_of_files(files).len() < usize::MAX {
            assert forall|k: int| 0 <= k < r.len() implies header_shows(
                (#[trigger] r[k]).header@,
                r[k].old_start,
                r[k].new_start,
                r[k].new_count,
            ) by {
                assert(hunk_views(r)[k] == r[k]@);
                assert(hunks_of_files(files)[k] == r[k]@);
            }
        }
    }
}

/// `r` are the hunks the `unidiff` parser reads from `text`, numbered in order over
/// all files (none when it rejects the text, or when they are too many to number).
pub open spec fn parsed_hunks(text: Seq<char>, r: Seq<Hunk>) -> bool {
    match unidiff_patch(text) {
        None => r.len() == 0,
        Some(files) => if hunks_of_files(files).len() < usize::MAX {
            hunk_views(r) == hunks_of_files(files)
        } else {
            r.len() == 0
        },
    }
}

/// Parse a unified diff into numbered hunks.  Each hunk's content includes its `@@`
/// header and all its lines; the first hunk of each file also has the `---` / `+++`
/// file lines.  A diff the parser rejects gives no hunks.
pub fn parse_hunks(diff_text: &str) -> (r: Vec<Hunk>)
    requires
        patch_safe(diff_text@),
    ensures
        parsed_hunks(diff_text@, r@),
        line_spans_fit(r@),
{
    match parse_patch(diff_text) {
        None => Vec::new(),
        Some(files) => match count_hunks(&files) {
            Some(_) => hunks_from_files(&files),
            None => Vec::new(),
        },
    }
}

} // verus!
