use vstd::prelude::*;

use syntect::easy::HighlightLines;
use syntect::highlighting::ThemeSet;
use syntect::parsing::SyntaxSet;

use crate::models::{texts, CodeBlock, CodeSource};
use crate::screens::layout::{classify_line, extension_of, extension_spec, line_kind, LineKind};
use crate::text::{chars_of, line_ranges, lines, starts_with, str_starts_with, string_from_range};

verus! {

/// The color a piece of highlighted code is drawn in.
#[derive(Clone, Copy, Debug, PartialEq, Eq, Structural)]
pub enum SpanColor {
    /// The terminal's own color.
    Default,
    Blue,
    Cyan,
    Green,
    Red,
    /// A color of the highlighting theme.
    Rgb(u8, u8, u8),
}

/// A piece of a highlighted line.
#[derive(Debug)]
pub struct StyledSpan {
    pub text: String,
    pub color: SpanColor,
}

/// A highlighted line as plain values: each span's color and text.
pub open spec fn spans_view(row: Seq<StyledSpan>) -> Seq<(SpanColor, Seq<char>)> {
    Seq::new(row.len(), |j: int| (row[j].color, row[j].text@))
}

/// Highlighted lines as plain values.
pub open spec fn rows_view(rows: Seq<Vec<StyledSpan>>) -> Seq<Seq<(SpanColor, Seq<char>)>> {
    Seq::new(rows.len(), |i: int| spans_view(rows[i]@))
}

/// What the syntax highlighter makes of the lines fed to it one after another, with
/// the syntax picked by the extension (plain text when there is none or it is not
/// known): for each line, the pieces with their foreground colors, or nothing where
/// the highlighter failed on it.
pub uninterp spec fn syntect_highlight(
    ext: Option<Seq<char>>,
    fed: Seq<Seq<char>>,
) -> Seq<Option<Seq<(u8, u8, u8, Seq<char>)>>>;

/// The texts of highlighted pieces, one after another.
pub open spec fn pieces_text(p: Seq<(u8, u8, u8, Seq<char>)>) -> Seq<char>
    decreases p.len(),
{
    if p.len() == 0 {
        Seq::empty()
    } else {
        pieces_text(p.drop_last()) + p.last().3
    }
}

/// The texts of a highlighted line's spans, one after another.
pub open spec fn spans_text(row: Seq<(SpanColor, Seq<char>)>) -> Seq<char>
    decreases row.len(),
{
    if row.len() == 0 {
        Seq::empty()
    } else {
        spans_text(row.drop_last()) + row.last().1
    }
}

/// `syntect`'s `HighlightLines::highlight_line`, called on each of the lines in turn
/// with one highlighter (built by `HighlightLines::new` for the syntax that
/// `SyntaxSet::find_syntax_by_extension` finds in the default syntaxes, else plain
/// text, and the default theme `base16-ocean.dark`). The contract claims that the
/// result is the one `syntect_highlight` names for the extension and the lines, one
/// entry per line, and that the pieces of a line, put together, give the line back
/// (which syntect's documentation of its highlight iterator states).
#[verifier::external_body]
fn highlight_fed_lines(ext: Option<&str>, fed: &Vec<String>) -> (r: Vec<
    Option<Vec<(u8, u8, u8, String)>>,
>)
    ensures
        r.deep_view() == syntect_highlight(ext.deep_view(), fed.deep_view()),
        r@.len() == fed@.len(),
        forall|i: int|
            0 <= i < fed@.len() ==> (#[trigger] r.deep_view()[i] matches Some(p) ==> pieces_text(p)
                == fed@[i]@),
{
    let set = SyntaxSet::load_defaults_newlines();
    let theme = &ThemeSet::load_defaults().themes["base16-ocean.dark"];
    let syntax = ext.and_then(|e| set.find_syntax_by_extension(e)).unwrap_or_else(|| set.find_syntax_plain_text());
    let mut h = HighlightLines::new(syntax, theme);
    fed.iter().map(|l| {
        h.highlight_line(l, &set).ok().map(|v| {
            v.into_iter().map(|(s, t)| (s.foreground.r, s.foreground.g, s.foreground.b, t.to_string())).collect()
        })
    }).collect()
}

/// A line takes part in highlighting unless it is diff metadata or a hunk header.
pub open spec fn is_fed(l: Seq<char>) -> bool {
    line_kind(l) != LineKind::Meta && line_kind(l) != LineKind::HunkHeader
}

/// What of a line the highlighter gets: the code after a diff prefix, or the whole
/// line when it has none.
pub open spec fn fed_text(l: Seq<char>) -> Seq<char> {
    match line_kind(l) {
        LineKind::Added | LineKind::Removed | LineKind::Context => l.drop_first(),
        _ => l,
    }
}

/// The texts fed to the highlighter for some lines, in order.
pub open spec fn fed_lines(ls: Seq<Seq<char>>) -> Seq<Seq<char>>
    decreases ls.len(),
{
    if ls.len() == 0 {
        Seq::empty()
    } else {
        let f = fed_lines(ls.drop_last());
        if is_fed(ls.last()) {
            f.push(fed_text(ls.last()))
        } else {
            f
        }
    }
}

/// Highlighted pieces as spans in the theme's colors.
pub open spec fn rgb_spans(p: Seq<(u8, u8, u8, Seq<char>)>) -> Seq<(SpanColor, Seq<char>)> {
    Seq::new(p.len(), |i: int| (SpanColor::Rgb(p[i].0, p[i].1, p[i].2), p[i].3))
}

/// How one line is drawn, given what the highlighter made of it: metadata in blue,
/// hunk headers in cyan, a diff prefix in its own color (green `+`, red `-`, plain
/// space) before the highlighted code, other lines highlighted whole. Where the
/// highlighter failed, the whole line is one span in the prefix's color.
pub open spec fn line_spans(l: Seq<char>, h: Option<Seq<(u8, u8, u8, Seq<char>)>>) -> Seq<
    (SpanColor, Seq<char>),
> {
    match line_kind(l) {
        LineKind::Meta => seq![(SpanColor::Blue, l)],
        LineKind::HunkHeader => seq![(SpanColor::Cyan, l)],
        LineKind::Added => match h {
            Some(p) => seq![(SpanColor::Green, "+"@)] + rgb_spans(p),
            None => seq![(SpanColor::Green, l)],
        },
        LineKind::Removed => match h {
            Some(p) => seq![(SpanColor::Red, "-"@)] + rgb_spans(p),
            None => seq![(SpanColor::Red, l)],
        },
        LineKind::Context => match h {
            Some(p) => seq![(SpanColor::Default, " "@)] + rgb_spans(p),
            None => seq![(SpanColor::Default, l)],
        },
        LineKind::Plain => match h {
            Some(p) => rgb_spans(p),
            None => seq![(SpanColor::Default, l)],
        },
    }
}

/// The rows of some lines, the `i`-th drawn with what the highlighter made of it
/// (the result for the fed lines before it is skipped).
pub open spec fn block_rows(
    ls: Seq<Seq<char>>,
    hs: Seq<Option<Seq<(u8, u8, u8, Seq<char>)>>>,
) -> Seq<Seq<(SpanColor, Seq<char>)>> {
    Seq::new(ls.len(), |i: int| line_spans(ls[i], hs[fed_lines(ls.take(i)).len() as int]))
}

/// The extension that picks a block's syntax: that of its first path.
pub open spec fn source_ext(s: CodeSource) -> Option<Seq<char>> {
    match s {
        CodeSource::Diff { paths, .. } => if paths@.len() > 0 {
            Some(extension_spec(paths@[0]@))
        } else {
            None
        },
        CodeSource::File { path, .. } => Some(extension_spec(path@)),
    }
}

/// The rows of a code block: its lines, highlighted with one highlighter per block.
pub open spec fn block_highlight(b: CodeBlock) -> Seq<Seq<(SpanColor, Seq<char>)>> {
    let ls = lines(b.content@);
    block_rows(ls, syntect_highlight(source_ext(b.source), fed_lines(ls)))
}

/// The rows of code blocks, block after block.
pub open spec fn highlighted(blocks: Seq<CodeBlock>) -> Seq<Seq<(SpanColor, Seq<char>)>>
    decreases blocks.len(),
{
    if blocks.len() == 0 {
        Seq::empty()
    } else {
        highlighted(blocks.drop_last()) + block_highlight(blocks.last())
    }
}

/// The lines of code blocks, block after block.
pub open spec fn block_lines(blocks: Seq<CodeBlock>) -> Seq<Seq<char>>
    decreases blocks.len(),
{
    if blocks.len() == 0 {
        Seq::empty()
    } else {
        block_lines(blocks.drop_last()) + lines(blocks.last().content@)
    }
}


proof fn lemma_fed_prefix(ls: Seq<Seq<char>>, n: int)
    requires
        0 <= n <= ls.len(),
    ensures
        fed_lines(ls.take(n)).len() <= fed_lines(ls).len(),
        forall|j: int|
            0 <= j < fed_lines(ls.take(n)).len() ==> #[trigger] fed_lines(ls)[j] == fed_lines(
                ls.take(n),
            )[j],
    decreases ls.len() - n,
{
    if n < ls.len() {
        lemma_fed_prefix(ls, n + 1);
        assert(ls.take(n + 1).drop_last() =~= ls.take(n));
        assert forall|j: int| 0 <= j < fed_lines(ls.take(n)).len() implies #[trigger] fed_lines(
            ls,
        )[j] == fed_lines(ls.take(n))[j] by {
            assert(fed_lines(ls.take(n + 1))[j] == fed_lines(ls.take(n))[j]);
        }
    } else {
        assert(ls.take(n) =~= ls);
    }
}

proof fn lemma_spans_text_concat(a: Seq<(SpanColor, Seq<char>)>, b: Seq<(SpanColor, Seq<char>)>)
    ensures
        spans_text(a + b) == spans_text(a) + spans_text(b),
    decreases b.len(),
{
    if b.len() == 0 {
        assert(a + b =~= a);
        assert(spans_text(a) + spans_text(b) =~= spans_text(a));
    } else {
        lemma_spans_text_concat(a, b.drop_last());
        assert((a + b).drop_last() =~= a + b.drop_last());
        assert(spans_text(a + b) =~= spans_text(a) + spans_text(b));
    }
}

proof fn lemma_rgb_text(p: Seq<(u8, u8, u8, Seq<char>)>)
    ensures
        spans_text(rgb_spans(p)) == pieces_text(p),
    decreases p.len(),
{
    if p.len() > 0 {
        lemma_rgb_text(p.drop_last());
        assert(rgb_spans(p).drop_last() =~= rgb_spans(p.drop_last()));
    }
}

proof fn lemma_spans_text_one(c: SpanColor, t: Seq<char>)
    ensures
        spans_text(seq![(c, t)]) == t,
{
    assert(seq![(c, t)].drop_last() =~= Seq::<(SpanColor, Seq<char>)>::empty());
    assert(spans_text(Seq::<(SpanColor, Seq<char>)>::empty()) =~= Seq::<char>::empty());
    assert(Seq::<char>::empty() + t =~= t);
}

/// A line drawn from what the highlighter made of it shows the line's text again,
/// whenever the highlighted pieces give back the text it was fed.
pub proof fn lemma_line_text(l: Seq<char>, h: Option<Seq<(u8, u8, u8, Seq<char>)>>)
    requires
        h matches Some(p) ==> pieces_text(p) == fed_text(l),
    ensures
        spans_text(line_spans(l, h)) == l,
{
    reveal_strlit("+");
    reveal_strlit("-");
    reveal_strlit(" ");
    match line_kind(l) {
        LineKind::Meta => lemma_spans_text_one(SpanColor::Blue, l),
        LineKind::HunkHeader => lemma_spans_text_one(SpanColor::Cyan, l),
        kind => {
            let color = match kind {
                LineKind::Added => SpanColor::Green,
                LineKind::Removed => SpanColor::Red,
                _ => SpanColor::Default,
            };
            match h {
                None => lemma_spans_text_one(color, l),
                Some(p) => {
                    lemma_rgb_text(p);
                    if kind != LineKind::Plain {
                        let prefix = seq![l[0]];
                        assert(l.subrange(0, 1)[0] == l[0]);
                        assert(l.subrange(0, 1) =~= prefix);
                        lemma_spans_text_one(color, prefix);
                        lemma_spans_text_concat(seq![(color, prefix)], rgb_spans(p));
                        assert(line_spans(l, h) =~= seq![(color, prefix)] + rgb_spans(p));
                        assert(prefix + l.drop_first() =~= l);
                    }
                },
            }
        },
    }
}

fn lines_of(s: &str) -> (r: Vec<String>)
    ensures
        texts(r@) == lines(s@),
{
    let v = chars_of(s);
    let ranges = line_ranges(&v);
    let mut r: Vec<String> = Vec::new();
    let mut i: usize = 0;
    while i < ranges.len()
        invariant
            v@ == s@,
            forall|k: int| 0 <= k < ranges@.len() ==> #[trigger] ranges@[k].0 <= ranges@[k].1 <= v@.len(),
            crate::text::range_texts(v@, ranges@) == lines(v@),
            i <= ranges@.len(),
            r@.len() == i,
            forall|k: int| 0 <= k < i ==> (#[trigger] r@[k])@ == lines(v@)[k],
        decreases ranges@.len() - i,
    {
        let (a, b) = ranges[i];
        assert(ranges@[i as int].0 <= ranges@[i as int].1);
        r.push(string_from_range(&v, a, b));
        assert(crate::text::range_texts(v@, ranges@)[i as int] == v@.subrange(a as int, b as int));
        i = i + 1;
    }
    assert(texts(r@) =~= lines(s@));
    r
}

/// The code a line feeds the highlighter (see `fed_text`).
fn fed_text_of(line: &String) -> (r: String)
    ensures
        r@ == fed_text(line@),
{
    match classify_line(line.as_str()) {
        LineKind::Added | LineKind::Removed | LineKind::Context => {
            let v = chars_of(line.as_str());
            proof {
                reveal_strlit("+");
                reveal_strlit("-");
                reveal_strlit(" ");
            }
            assert(v@.len() > 0);
            let r = string_from_range(&v, 1, v.len());
            assert(r@ =~= line@.drop_first());
            r
        },
        _ => line.clone(),
    }
}

fn source_extension(source: &CodeSource) -> (r: Option<String>)
    ensures
        match r {
            Some(e) => source_ext(*source) == Some(e@),
            None => source_ext(*source) is None,
        },
{
    match source {
        CodeSource::Diff { paths, .. } => if paths.len() > 0 {
            Some(extension_of(paths[0].as_str()))
        } else {
            None
        },
        CodeSource::File { path, .. } => Some(extension_of(path.as_str())),
    }
}

fn push_theme_spans(row: &mut Vec<StyledSpan>, p: &Vec<(u8, u8, u8, String)>)
    ensures
        spans_view(final(row)@) == spans_view(old(row)@) + rgb_spans(p.deep_view()),
{
    let mut i: usize = 0;
    while i < p.len()
        invariant
            i <= p@.len(),
            spans_view(row@) == spans_view(old(row)@) + rgb_spans(p.deep_view().take(i as int)),
        decreases p@.len() - i,
    {
        let item = &p[i];
        let ghost piece = (SpanColor::Rgb(item.0, item.1, item.2), item.3@);
        assert(p.deep_view()[i as int] == (item.0, item.1, item.2, item.3@));
        let ghost prev = spans_view(row@);
        let text = item.3.clone();
        row.push(StyledSpan { text, color: SpanColor::Rgb(item.0, item.1, item.2) });
        assert(spans_view(row@) =~= prev.push(piece));
        assert(rgb_spans(p.deep_view().take(i + 1)) =~= rgb_spans(p.deep_view().take(i as int)).push(piece));
        assert(spans_view(row@) =~= spans_view(old(row)@) + rgb_spans(p.deep_view().take(i + 1)));
        i = i + 1;
    }
    assert(p.deep_view().take(i as int) =~= p.deep_view());
}

fn single_span(text: String, color: SpanColor) -> (r: Vec<StyledSpan>)
    ensures
        spans_view(r@) == seq![(color, text@)],
{
    let mut r: Vec<StyledSpan> = Vec::new();
    r.push(StyledSpan { text, color });
    assert(spans_view(r@) =~= seq![(color, text@)]);
    r
}

/// Draw one line from what the highlighter made of it (see `line_spans`).
fn row_of(line: &String, h: &Option<Vec<(u8, u8, u8, String)>>) -> (r: Vec<StyledSpan>)
    ensures
        spans_view(r@) == line_spans(line@, h.deep_view()),
{
    let kind = classify_line(line.as_str());
    let (prefix, color) = match kind {
        LineKind::Meta => {
            return single_span(line.clone(), SpanColor::Blue);
        },
        LineKind::HunkHeader => {
            return single_span(line.clone(), SpanColor::Cyan);
        },
        LineKind::Added => ("+", SpanColor::Green),
        LineKind::Removed => ("-", SpanColor::Red),
        LineKind::Context => (" ", SpanColor::Default),
        LineKind::Plain => ("", SpanColor::Default),
    };
    match h {
        None => single_span(line.clone(), color),
        Some(p) => {
            let mut row: Vec<StyledSpan> = Vec::new();
            if kind != LineKind::Plain {
                row.push(StyledSpan { text: crate::text::owned(prefix), color });
            }
            let ghost head = spans_view(row@);
            push_theme_spans(&mut row, p);
            proof {
                reveal_strlit("+");
                reveal_strlit("-");
                reveal_strlit(" ");
                if kind == LineKind::Plain {
                    assert(head =~= Seq::<(SpanColor, Seq<char>)>::empty());
                } else {
                    assert(head =~= seq![(color, prefix@)]);
                }
                assert(spans_view(row@) =~= line_spans(line@, h.deep_view()));
            }
            row
        },
    }
}

/// Append the rows of one code block: its lines, with one highlighter fed the code of
/// each line that is not metadata or a hunk header.
fn highlight_block(b: &CodeBlock, rows: &mut Vec<Vec<StyledSpan>>)
    ensures
        rows_view(final(rows)@) == rows_view(old(rows)@) + block_highlight(*b),
        forall|i: int|
            0 <= i < lines(b.content@).len() ==> spans_text(#[trigger] block_highlight(*b)[i])
                == lines(b.content@)[i],
{
    let ls = lines_of(b.content.as_str());
    let ghost lv = lines(b.content@);
    let mut fed: Vec<String> = Vec::new();
    let mut i: usize = 0;
    while i < ls.len()
        invariant
            texts(ls@) == lv,
            i <= ls@.len(),
            texts(fed@) == fed_lines(lv.take(i as int)),
        decreases ls@.len() - i,
    {
        assert(lv.take(i + 1).drop_last() =~= lv.take(i as int));
        assert(lv[i as int] == ls@[i as int]@);
        if classify_line(ls[i].as_str()) != LineKind::Meta && classify_line(ls[i].as_str())
            != LineKind::HunkHeader {
            let t = fed_text_of(&ls[i]);
            fed.push(t);
            assert(texts(fed@) =~= fed_lines(lv.take(i + 1)));
        }
        i = i + 1;
    }
    assert(lv.take(i as int) =~= lv);
    let ext = source_extension(&b.source);
    let e: Option<&str> = match &ext {
        Some(x) => Some(x.as_str()),
        None => None,
    };
    let hs = highlight_fed_lines(e, &fed);
    let ghost hv = hs.deep_view();
    assert(e.deep_view() == source_ext(b.source));
    assert(fed.deep_view() =~= fed_lines(lv));
    let n_fed = fed.len();
    let ghost start = rows_view(rows@);
    let ghost want = block_highlight(*b);
    let mut j: usize = 0;
    let mut i: usize = 0;
    while i < ls.len()
        invariant
            texts(ls@) == lv,
            lv == lines(b.content@),
            want == block_highlight(*b),
            want == block_rows(lv, hv),
            hv == hs.deep_view(),
            hs@.len() == fed@.len(),
            n_fed == fed@.len(),
            texts(fed@) == fed_lines(lv),
            forall|k: int|
                0 <= k < fed@.len() ==> (#[trigger] hv[k] matches Some(p) ==> pieces_text(p)
                    == fed@[k]@),
            i <= ls@.len(),
            j == fed_lines(lv.take(i as int)).len(),
            rows_view(rows@) == start + want.take(i as int),
            forall|k: int| 0 <= k < i ==> spans_text(#[trigger] want[k]) == lv[k],
        decreases ls@.len() - i,
    {
        proof {
            assert(lv.take(i + 1).drop_last() =~= lv.take(i as int));
            lemma_fed_prefix(lv, i + 1);
            assert(lv[i as int] == ls@[i as int]@);
        }
        let row = if classify_line(ls[i].as_str()) != LineKind::Meta && classify_line(
            ls[i].as_str(),
        ) != LineKind::HunkHeader {
            proof {
                assert(fed_lines(lv.take(i + 1)) == fed_lines(lv.take(i as int)).push(
                    fed_text(lv[i as int]),
                ));
                assert(fed_lines(lv)[j as int] == fed_text(lv[i as int]));
                assert(texts(fed@).len() == fed@.len());
                assert(fed_lines(lv.take(i + 1)).len() == j + 1);
                assert(j + 1 <= fed@.len());
                assert(texts(fed@)[j as int] == fed@[j as int]@);
                assert(hv[j as int] == hs@[j as int].deep_view());
                lemma_line_text(lv[i as int], hv[j as int]);
            }
            let r = row_of(&ls[i], &hs[j]);
            assert(spans_view(r@) == want[i as int]);
            j = j + 1;
            r
        } else {
            let none: Option<Vec<(u8, u8, u8, String)>> = None;
            proof {
                lemma_line_text(lv[i as int], None);
            }
            let r = row_of(&ls[i], &none);
            assert(spans_view(r@) == want[i as int]);
            r
        };
        assert(spans_view(row@) == want[i as int]);
        let ghost prev = rows_view(rows@);
        rows.push(row);
        assert(rows_view(rows@) =~= prev.push(want[i as int]));
        assert(want.take(i + 1) =~= want.take(i as int).push(want[i as int]));
        assert(rows_view(rows@) =~= start + want.take(i + 1));
        i = i + 1;
    }
    assert(want.take(i as int) =~= want);
}

/// Highlight the code of some blocks for display, block after block, one row per
/// line: metadata lines blue, hunk headers cyan, other lines syntax-highlighted after
/// their diff prefix (green `+`, red `-`), with one highlighter per block whose
/// syntax comes from the block's first path. Each row's spans give its line back.
pub fn highlight_diff_lines(blocks: &Vec<CodeBlock>) -> (r: Vec<Vec<StyledSpan>>)
    ensures
        rows_view(r@) == highlighted(blocks@),
        r@.len() == block_lines(blocks@).len(),
        forall|i: int|
            0 <= i < r@.len() ==> spans_text(#[trigger] rows_view(r@)[i]) == block_lines(
                blocks@,
            )[i],
{
    let mut rows: Vec<Vec<StyledSpan>> = Vec::new();
    let mut k: usize = 0;
    assert(rows_view(rows@) =~= highlighted(blocks@.take(0)));
    while k < blocks.len()
        invariant
            k <= blocks@.len(),
            rows_view(rows@) == highlighted(blocks@.take(k as int)),
            rows@.len() == block_lines(blocks@.take(k as int)).len(),
            forall|i: int|
                0 <= i < rows@.len() ==> spans_text(#[trigger] rows_view(rows@)[i]) == block_lines(
                    blocks@.take(k as int),
                )[i],
        decreases blocks@.len() - k,
    {
        let ghost before = rows_view(rows@);
        assert(blocks@.take(k + 1).drop_last() =~= blocks@.take(k as int));
        highlight_block(&blocks[k], &mut rows);
        proof {
            let b = blocks@[k as int];
            let now = block_lines(blocks@.take(k + 1));
            assert(now == block_lines(blocks@.take(k as int)) + lines(b.content@));
            assert(rows_view(rows@) == highlighted(blocks@.take(k + 1)));
            assert forall|i: int| 0 <= i < rows@.len() implies spans_text(
                #[trigger] rows_view(rows@)[i],
            ) == now[i] by {
                if i >= before.len() {
                    assert(rows_view(rows@)[i] == block_highlight(b)[i - before.len()]);
                } else {
                    assert(rows_view(rows@)[i] == before[i]);
                }
            }
        }
        k = k + 1;
    }
    assert(blocks@.take(k as int) =~= blocks@);
    rows
}


// ---------------------------------------------------------------------------
// Prefix coloring
// ---------------------------------------------------------------------------

/// How the hypothesis screen colors a line of a section's code: added lines green and
/// removed lines red (`+++` and `---` lines excepted), hunk headers cyan, `diff` and
/// `index` lines blue, the rest in the terminal's color.
pub open spec fn prefix_color(l: Seq<char>) -> SpanColor {
    if starts_with(l, "+"@) && !starts_with(l, "+++"@) {
        SpanColor::Green
    } else if starts_with(l, "-"@) && !starts_with(l, "---"@) {
        SpanColor::Red
    } else if starts_with(l, "@@"@) {
        SpanColor::Cyan
    } else if starts_with(l, "diff"@) || starts_with(l, "index"@) {
        SpanColor::Blue
    } else {
        SpanColor::Default
    }
}

fn prefix_color_of(line: &str) -> (c: SpanColor)
    ensures
        c == prefix_color(line@),
{
    if str_starts_with(line, "+") && !str_starts_with(line, "+++") {
        SpanColor::Green
    } else if str_starts_with(line, "-") && !str_starts_with(line, "---") {
        SpanColor::Red
    } else if str_starts_with(line, "@@") {
        SpanColor::Cyan
    } else if str_starts_with(line, "diff") || str_starts_with(line, "index") {
        SpanColor::Blue
    } else {
        SpanColor::Default
    }
}

/// A section's code as the hypothesis screen shows it: one span per line, colored by
/// its prefix (see `prefix_color`).
pub fn color_code_lines(code: &str) -> (r: Vec<StyledSpan>)
    ensures
        spans_view(r@) == lines(code@).map_values(|l: Seq<char>| (prefix_color(l), l)),
{
    let ls = lines_of(code);
    let mut r: Vec<StyledSpan> = Vec::new();
    let mut i: usize = 0;
    while i < ls.len()
        invariant
            texts(ls@) == lines(code@),
            i <= ls@.len(),
            r@.len() == i,
            forall|k: int|
                0 <= k < i ==> spans_view(r@)[k] == (prefix_color(ls@[k]@), ls@[k]@),
        decreases ls@.len() - i,
    {
        let color = prefix_color_of(ls[i].as_str());
        let text = ls[i].clone();
        let ghost prev = spans_view(r@);
        r.push(StyledSpan { text, color });
        assert(spans_view(r@) =~= prev.push((prefix_color(ls@[i as int]@), ls@[i as int]@)));
        i = i + 1;
    }
    proof {
        assert forall|k: int| 0 <= k < ls@.len() implies ls@[k]@ == #[trigger] lines(code@)[k] by {
            assert(texts(ls@)[k] == ls@[k]@);
        }
    }
    assert(spans_view(r@) =~= lines(code@).map_values(|l: Seq<char>| (prefix_color(l), l)));
    r
}

} // verus!
