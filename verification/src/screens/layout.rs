use vstd::prelude::*;

use crate::text::{
    char_utf8_len, chars_of, index_of, is_whitespace, is_ws, lemma_index_of, lemma_index_of_is,
    lemma_index_of_none, lemma_utf8_bytes_monotone, lemma_utf8_bytes_take_step, starts_with,
    str_starts_with, string_from_range, utf8_bytes,
};

verus! {

/// How a line of a diff is shown.
#[derive(Clone, Copy, Debug, PartialEq, Eq, Structural)]
pub enum LineKind {
    /// `diff `, `index `, `--- ` or `+++ `: file metadata.
    Meta,
    /// `@@`: a hunk header.
    HunkHeader,
    /// `+`: an added line.
    Added,
    /// `-`: a removed line.
    Removed,
    /// ` `: an unchanged line.
    Context,
    /// Any other line, highlighted as a whole.
    Plain,
}

/// The kind of a diff line, decided by how it starts (metadata first, then the hunk
/// header, then the one-character prefixes).
pub open spec fn line_kind(l: Seq<char>) -> LineKind {
    if starts_with(l, "diff "@) || starts_with(l, "index "@) || starts_with(l, "--- "@)
        || starts_with(l, "+++ "@) {
        LineKind::Meta
    } else if starts_with(l, "@@"@) {
        LineKind::HunkHeader
    } else if starts_with(l, "+"@) {
        LineKind::Added
    } else if starts_with(l, "-"@) {
        LineKind::Removed
    } else if starts_with(l, " "@) {
        LineKind::Context
    } else {
        LineKind::Plain
    }
}

/// Classify a diff line for display.
pub fn classify_line(line: &str) -> (k: LineKind)
    ensures
        k == line_kind(line@),
{
    if str_starts_with(line, "diff ") || str_starts_with(line, "index ") || str_starts_with(
        line,
        "--- ",
    ) || str_starts_with(line, "+++ ") {
        LineKind::Meta
    } else if str_starts_with(line, "@@") {
        LineKind::HunkHeader
    } else if str_starts_with(line, "+") {
        LineKind::Added
    } else if str_starts_with(line, "-") {
        LineKind::Removed
    } else if str_starts_with(line, " ") {
        LineKind::Context
    } else {
        LineKind::Plain
    }
}

/// Index of the last `c` in `s`, or `-1`.
pub open spec fn last_index_of(s: Seq<char>, c: char) -> int
    decreases s.len(),
{
    if s.len() == 0 {
        -1
    } else if s.last() == c {
        s.len() - 1
    } else {
        last_index_of(s.drop_last(), c)
    }
}

/// What follows the last `'.'` of a path (the whole path when it has none), as
/// `rsplit('.').next()` gives it.
pub open spec fn extension_spec(path: Seq<char>) -> Seq<char> {
    let i = last_index_of(path, '.');
    if i < 0 {
        path
    } else {
        path.skip(i + 1)
    }
}

pub proof fn lemma_last_index_of(s: Seq<char>, c: char)
    ensures
        -1 <= last_index_of(s, c) < s.len(),
    decreases s.len(),
{
    if s.len() > 0 && s.last() != c {
        lemma_last_index_of(s.drop_last(), c);
    }
}

/// The extension of a path, used to pick a syntax for highlighting.
pub fn extension_of(path: &str) -> (e: String)
    ensures
        e@ == extension_spec(path@),
{
    let v = chars_of(path);
    proof {
        lemma_last_index_of(v@, '.');
    }
    let mut i = v.len();
    assert(v@.take(i as int) =~= v@);
    while i > 0
        invariant
            i <= v@.len(),
            v@ == path@,
            last_index_of(v@, '.') == last_index_of(v@.take(i as int), '.'),
        decreases i,
    {
        if v[i - 1] == '.' {
            proof {
                assert(v@.take(i as int).last() == '.');
                assert(last_index_of(v@.take(i as int), '.') == i - 1);
                assert(last_index_of(v@, '.') == i - 1);
                assert(extension_spec(v@) == v@.skip(i as int));
            }
            let e = string_from_range(&v, i, v.len());
            assert(e@ =~= v@.skip(i as int));
            return e;
        }
        proof {
            assert(v@.take(i as int).drop_last() =~= v@.take(i - 1));
        }
        i = i - 1;
    }
    assert(v@.take(0) =~= Seq::<char>::empty());
    string_from_range(&v, 0, v.len())
}

// ---------------------------------------------------------------------------
// Height of wrapped text
// ---------------------------------------------------------------------------

/// `str::split('\n')`: the pieces between newlines, the last one included even when
/// empty.
pub open spec fn split_lines(s: Seq<char>) -> Seq<Seq<char>>
    decreases s.len(),
{
    let j = index_of(s, '\n');
    if j < 0 {
        seq![s]
    } else {
        proof {
            lemma_index_of(s, '\n');
        }
        seq![s.take(j)] + split_lines(s.skip(j + 1))
    }
}

/// Number of characters before the first whitespace.
pub open spec fn word_len(s: Seq<char>) -> nat
    decreases s.len(),
{
    if s.len() == 0 || is_ws(s[0]) {
        0
    } else {
        1 + word_len(s.drop_first())
    }
}

/// `str::split_whitespace`: the maximal runs of non-whitespace characters.
pub open spec fn words(s: Seq<char>) -> Seq<Seq<char>>
    decreases s.len(),
{
    if s.len() == 0 {
        Seq::empty()
    } else if is_ws(s[0]) {
        words(s.drop_first())
    } else {
        proof {
            lemma_word_len_bound(s);
        }
        seq![s.take(word_len(s) as int)] + words(s.skip(word_len(s) as int))
    }
}

/// Rows used and width of the last row, after laying the words out greedily on rows
/// `width` bytes wide: a word that does not fit after a space starts a new row.
pub open spec fn wrap_state(ws: Seq<Seq<char>>, width: nat) -> (nat, nat)
    decreases ws.len(),
{
    if ws.len() == 0 {
        (1, 0)
    } else {
        let (rows, cur) = wrap_state(ws.drop_last(), width);
        let w = utf8_bytes(ws.last());
        if cur == 0 {
            (rows, w)
        } else if cur + 1 + w > width {
            (rows + 1, w)
        } else {
            (rows, cur + 1 + w)
        }
    }
}

/// Rows of one line (one row for a blank line).
pub open spec fn line_rows(l: Seq<char>, width: nat) -> nat {
    wrap_state(words(l), width).0
}

/// Rows of all lines.
pub open spec fn rows_total(ls: Seq<Seq<char>>, width: nat) -> nat
    decreases ls.len(),
{
    if ls.len() == 0 {
        0
    } else {
        rows_total(ls.drop_last(), width) + line_rows(ls.last(), width)
    }
}

/// How many rows a text takes once wrapped at `width` (modulo 2^16, as a `u16` cast
/// keeps it): none
/// for an empty text or a zero width.
pub open spec fn wrapped_height_spec(text: Seq<char>, width: u16) -> u16 {
    if text.len() == 0 || width == 0 {
        0
    } else {
        (rows_total(split_lines(text), width as nat) % 65536) as u16
    }
}

pub proof fn lemma_word_len_bound(s: Seq<char>)
    ensures
        word_len(s) <= s.len(),
        s.len() > 0 && !is_ws(s[0]) ==> word_len(s) > 0,
    decreases s.len(),
{
    if s.len() > 0 && !is_ws(s[0]) {
        lemma_word_len_bound(s.drop_first());
    }
}

proof fn lemma_word_len_is(s: Seq<char>, n: int)
    requires
        0 <= n <= s.len(),
        forall|k: int| 0 <= k < n ==> !is_ws(#[trigger] s[k]),
        n == s.len() || is_ws(s[n]),
    ensures
        word_len(s) == n,
    decreases n,
{
    if n > 0 {
        let t = s.drop_first();
        assert forall|k: int| 0 <= k < n - 1 implies !is_ws(#[trigger] t[k]) by {
            assert(t[k] == s[k + 1]);
        }
        if n < s.len() {
            assert(t[n - 1] == s[n]);
        }
        lemma_word_len_is(t, n - 1);
    }
}

proof fn lemma_utf8_bytes_split(s: Seq<char>, i: int, j: int)
    requires
        0 <= i <= j <= s.len(),
    ensures
        utf8_bytes(s.take(j)) == utf8_bytes(s.take(i)) + utf8_bytes(s.subrange(i, j)),
    decreases j - i,
{
    if i < j {
        lemma_utf8_bytes_split(s, i, j - 1);
        lemma_utf8_bytes_take_step(s, j - 1);
        assert(s.subrange(i, j).drop_last() =~= s.subrange(i, j - 1));
    } else {
        assert(s.subrange(i, j) =~= Seq::<char>::empty());
    }
}

/// Rows taken by the line `v[start..end]`.
fn line_rows_of(v: &Vec<char>, start: usize, end: usize, width: usize) -> (r: usize)
    requires
        start <= end <= v@.len(),
        utf8_bytes(v@) + 65536 <= usize::MAX / 2,
        width <= 65535,
    ensures
        r == line_rows(v@.subrange(start as int, end as int), width as nat),
        r <= 1 + (end - start),
{
    let ghost l = v@.subrange(start as int, end as int);
    let ghost total = utf8_bytes(v@);
    let mut i = start;
    let mut rows: usize = 1;
    let mut cur: usize = 0;
    let ghost mut acc: Seq<Seq<char>> = Seq::empty();
    proof {
        assert(v@.subrange(start as int, end as int) =~= l);
        crate::text::lemma_utf8_bytes_at_least_len(v@);
        lemma_utf8_bytes_monotone(v@, end as int, v@.len() as int);
        assert(v@.take(v@.len() as int) =~= v@);
    }
    while i < end
        invariant
            start <= i <= end <= v@.len(),
            l == v@.subrange(start as int, end as int),
            total == utf8_bytes(v@),
            total + 65536 <= usize::MAX / 2,
            width <= 65535,
            utf8_bytes(v@.take(end as int)) <= total,
            words(l) == acc + words(v@.subrange(i as int, end as int)),
            wrap_state(acc, width as nat) == (rows as nat, cur as nat),
            rows <= 1 + (i - start),
            v@.len() <= total,
            cur <= total + width,
        decreases end - i,
    {
        let ghost rest = v@.subrange(i as int, end as int);
        if is_whitespace(v[i]) {
            proof {
                assert(rest[0] == v@[i as int]);
                assert(rest.drop_first() =~= v@.subrange(i + 1, end as int));
            }
            i = i + 1;
        } else {
            let mut j = i;
            let mut wb: usize = 0;
            while j < end && !is_whitespace(v[j])
                invariant
                    i <= j <= end <= v@.len(),
                    total == utf8_bytes(v@),
                    total + 65536 <= usize::MAX / 2,
                    utf8_bytes(v@.take(end as int)) <= total,
                    wb == utf8_bytes(v@.subrange(i as int, j as int)),
                    wb <= total,
                    forall|k: int| i <= k < j ==> !is_ws(#[trigger] v@[k]),
                decreases end - j,
            {
                proof {
                    lemma_utf8_bytes_split(v@, i as int, j + 1);
                    lemma_utf8_bytes_monotone(v@, j + 1, end as int);
                    lemma_utf8_bytes_take_step(v@, j as int);
                    assert(v@.subrange(i as int, j + 1).drop_last() =~= v@.subrange(i as int, j as int));
                }
                wb = wb + char_utf8_len(v[j]);
                j = j + 1;
            }
            let ghost word = v@.subrange(i as int, j as int);
            proof {
                assert forall|k: int| 0 <= k < j - i implies !is_ws(#[trigger] rest[k]) by {
                    assert(rest[k] == v@[i + k]);
                }
                if j < end {
                    assert(rest[j - i] == v@[j as int]);
                }
                lemma_word_len_is(rest, j - i);
                assert(rest.take(j - i) =~= word);
                assert(rest.skip(j - i) =~= v@.subrange(j as int, end as int));
                assert(words(rest) == seq![word] + words(v@.subrange(j as int, end as int)));
                assert(acc.push(word).drop_last() =~= acc);
                assert(acc + words(rest) =~= acc.push(word) + words(v@.subrange(j as int, end as int)));
            }
            if cur == 0 {
                cur = wb;
            } else if cur + 1 + wb > width {
                rows = rows + 1;
                cur = wb;
            } else {
                cur = cur + 1 + wb;
            }
            proof {
                acc = acc.push(word);
            }
            i = j;
        }
    }
    proof {
        assert(v@.subrange(i as int, end as int) =~= Seq::<char>::empty());
        assert(acc + Seq::<Seq<char>>::empty() =~= acc);
    }
    rows
}

/// Estimate how many rows a text takes once wrapped at `width` columns, as the
/// terminal's word wrapping (with trimming) lays it out: each line (a blank one takes
/// one row) has its words placed greedily, widths counted in bytes.
pub fn wrapped_height(text: &str, width: u16) -> (h: u16)
    requires
        utf8_bytes(text@) + 65536 <= usize::MAX / 2,
    ensures
        h == wrapped_height_spec(text@, width),
{
    let v = chars_of(text);
    if v.len() == 0 || width == 0 {
        return 0;
    }
    let w = width as usize;
    let mut total: usize = 0;
    let mut start: usize = 0;
    let ghost mut done: Seq<Seq<char>> = Seq::empty();
    proof {
        assert(v@.skip(0) =~= v@);
    }
    loop
        invariant
            v@ == text@,
            v@.len() > 0,
            start <= v@.len(),
            utf8_bytes(v@) + 65536 <= usize::MAX / 2,
            w == width as usize,
            width != 0,
            w <= 65535,
            split_lines(v@) == done + split_lines(v@.skip(start as int)),
            total == rows_total(done, w as nat),
            total <= 2 * start,
        decreases v@.len() - start,
    {
        let ghost rest = v@.skip(start as int);
        let mut end = start;
        while end < v.len() && v[end] != '\n'
            invariant
                start <= end <= v@.len(),
                rest == v@.skip(start as int),
                forall|k: int| start <= k < end ==> v@[k] != '\n',
            decreases v@.len() - end,
        {
            end = end + 1;
        }
        proof {
            lemma_utf8_bytes_at_least(v@);
        }
        let rows = line_rows_of(&v, start, end, w);
        let ghost piece = v@.subrange(start as int, end as int);
        proof {
            assert(rest.take(end - start) =~= piece);
            assert(done.push(piece).drop_last() =~= done);
        }
        total = total + rows;
        if end == v.len() {
            proof {
                lemma_index_of_none(rest, '\n');
                assert(rest =~= piece);
                assert(split_lines(rest) == seq![piece]);
                assert(split_lines(v@) =~= done.push(piece));
                assert(rows_total(done.push(piece), w as nat) == rows_total(done, w as nat)
                    + line_rows(piece, w as nat));
                done = done.push(piece);
                assert(total == rows_total(split_lines(text@), width as nat));
            }
            return (total % 65536) as u16;
        }
        proof {
            assert(rest[end - start] == '\n');
            assert forall|k: int| 0 <= k < end - start implies rest[k] != '\n' by {
                assert(rest[k] == v@[start + k]);
            }
            lemma_index_of_is(rest, '\n', end - start);
            assert(rest.skip(end - start + 1) =~= v@.skip(end + 1));
            assert(split_lines(rest) == seq![piece] + split_lines(v@.skip(end + 1)));
            assert(done + split_lines(rest) =~= done.push(piece) + split_lines(v@.skip(end + 1)));
            done = done.push(piece);
        }
        start = end + 1;
    }
}

proof fn lemma_utf8_bytes_at_least(s: Seq<char>)
    ensures
        utf8_bytes(s) >= s.len(),
{
    crate::text::lemma_utf8_bytes_at_least_len(s);
}


// ---------------------------------------------------------------------------
// Bullet lists
// ---------------------------------------------------------------------------

/// Items joined by a separator.
pub open spec fn join_with(items: Seq<String>, sep: Seq<char>) -> Seq<char>
    decreases items.len(),
{
    if items.len() == 0 {
        Seq::empty()
    } else if items.len() == 1 {
        items[0]@
    } else {
        join_with(items.drop_last(), sep) + sep + items.last()@
    }
}

/// Points shown as a bullet list, one `- ` item per line; `(none)` when that would
/// show nothing.
pub open spec fn bullet_list(items: Seq<String>) -> Seq<char> {
    let joined = join_with(items, "\n- "@);
    if joined.len() == 0 {
        "(none)"@
    } else {
        "- "@ + joined
    }
}

/// Format the points of an assessment as a bullet list (see `bullet_list`).
pub fn bullet_text(items: &Vec<String>) -> (r: String)
    ensures
        r@ == bullet_list(items@),
{
    let mut joined = String::new();
    let mut i: usize = 0;
    while i < items.len()
        invariant
            i <= items@.len(),
            joined@ == join_with(items@.take(i as int), "\n- "@),
        decreases items@.len() - i,
    {
        assert(items@.take(i + 1).drop_last() =~= items@.take(i as int));
        if i > 0 {
            crate::text::append_str(&mut joined, "\n- ");
        }
        crate::text::append_str(&mut joined, items[i].as_str());
        assert(joined@ =~= join_with(items@.take(i + 1), "\n- "@));
        i = i + 1;
    }
    assert(items@.take(i as int) =~= items@);
    if joined.as_str().is_empty() {
        crate::text::owned("(none)")
    } else {
        let mut r = crate::text::owned("- ");
        crate::text::append_str(&mut r, joined.as_str());
        r
    }
}

} // verus!
