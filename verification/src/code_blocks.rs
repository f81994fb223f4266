use vstd::prelude::*;

use crate::cli::CodeAction;
use crate::commands::{
    distinct_texts, find_section, has_repeat, holds_path, id_position, join_comma, lemma_with_paths,
    not_found_error, one_line, section_not_found, source_path_list, source_paths, with_paths,
    CommandOutput,
};
use crate::error::AppError;
use crate::models::{same_block, same_but_sections, texts, CodeBlock, CodeSource, Section, Session};
use crate::text::{
    append_str, chars_of, decimal, lemma_parse_decimal, line_ranges, lines, owned, parse_usize,
    parse_usize_range, starts_with, usize_to_string,
};

verus! {

// ---------------------------------------------------------------------------
// Finding code blocks
// ---------------------------------------------------------------------------

/// Position of the first block with the given id.
pub open spec fn block_position(b: Seq<CodeBlock>, id: Seq<char>) -> Option<int>
    decreases b.len(),
{
    if b.len() == 0 {
        None
    } else {
        match block_position(b.drop_last(), id) {
            Some(k) => Some(k),
            None => if b.last().id@ == id {
                Some(b.len() - 1)
            } else {
                None
            },
        }
    }
}

proof fn lemma_block_position_prefix(b: Seq<CodeBlock>, n: int, id: Seq<char>)
    requires
        0 <= n <= b.len(),
        block_position(b.take(n), id) is Some,
    ensures
        block_position(b, id) == block_position(b.take(n), id),
    decreases b.len() - n,
{
    if n < b.len() {
        assert(b.take(n + 1).drop_last() =~= b.take(n));
        lemma_block_position_prefix(b, n + 1, id);
    } else {
        assert(b.take(n) =~= b);
    }
}

/// The position found carries the id; when none is found, no block carries it.
pub proof fn lemma_block_position(b: Seq<CodeBlock>, id: Seq<char>)
    ensures
        block_position(b, id) matches Some(k) ==> 0 <= k < b.len() && b[k].id@ == id,
        block_position(b, id) is None ==> forall|k: int| 0 <= k < b.len() ==> b[k].id@ != id,
    decreases b.len(),
{
    if b.len() > 0 {
        lemma_block_position(b.drop_last(), id);
        assert forall|k: int| 0 <= k < b.len() - 1 implies b[k] == b.drop_last()[k] by {}
    }
}

/// Position of the first block with the given id.
pub fn find_block(blocks: &Vec<CodeBlock>, id: &str) -> (r: Option<usize>)
    ensures
        match r {
            Some(k) => block_position(blocks@, id@) == Some(k as int) && k < blocks@.len(),
            None => block_position(blocks@, id@) is None,
        },
{
    let wanted = owned(id);
    let mut i: usize = 0;
    while i < blocks.len()
        invariant
            wanted@ == id@,
            i <= blocks@.len(),
            block_position(blocks@.take(i as int), id@) is None,
        decreases blocks@.len() - i,
    {
        assert(blocks@.take(i + 1).drop_last() =~= blocks@.take(i as int));
        if blocks[i].id == wanted {
            proof {
                lemma_block_position_prefix(blocks@, i + 1, id@);
            }
            return Some(i);
        }
        i = i + 1;
    }
    assert(blocks@.take(i as int) =~= blocks@);
    None
}

/// The message for a code block id that a section does not hold.
pub open spec fn block_not_found(code_id: Seq<char>, section_id: Seq<char>) -> Seq<char> {
    "Code block '"@ + code_id + "' not found in section '"@ + section_id + "'"@
}

fn block_not_found_error(code_id: &str, section_id: &str) -> (e: AppError)
    ensures
        e matches AppError::Session(m) && m@ == block_not_found(code_id@, section_id@),
{
    let mut m = owned("Code block '");
    append_str(&mut m, code_id);
    append_str(&mut m, "' not found in section '");
    append_str(&mut m, section_id);
    append_str(&mut m, "'");
    AppError::Session(m)
}

// ---------------------------------------------------------------------------
// New ids
// ---------------------------------------------------------------------------

/// The number `code_<n>` carries, if the id has that form.
pub open spec fn block_number(id: Seq<char>) -> Option<usize> {
    if starts_with(id, "code_"@) {
        parse_usize(id.skip(5))
    } else {
        None
    }
}

/// The largest number among the block ids of the form `code_<n>` (0 when there is none).
pub open spec fn max_block_number(b: Seq<CodeBlock>) -> usize
    decreases b.len(),
{
    if b.len() == 0 {
        0
    } else {
        let m = max_block_number(b.drop_last());
        match block_number(b.last().id@) {
            Some(n) => if n > m {
                n
            } else {
                m
            },
            None => m,
        }
    }
}

proof fn lemma_max_block_number(b: Seq<CodeBlock>)
    ensures
        forall|k: int|
            0 <= k < b.len() ==> (block_number(#[trigger] b[k].id@) matches Some(n) ==> n
                <= max_block_number(b)),
    decreases b.len(),
{
    if b.len() > 0 {
        lemma_max_block_number(b.drop_last());
        assert forall|k: int| 0 <= k < b.len() - 1 implies b[k] == b.drop_last()[k] by {}
    }
}

fn block_number_of(id: &str) -> (r: Option<usize>)
    ensures
        r == block_number(id@),
{
    let v = chars_of(id);
    let p = chars_of("code_");
    proof {
        reveal_strlit("code_");
    }
    if !crate::text::matches_at(&v, &p, 0) {
        return None;
    }
    assert(v@.subrange(5, v@.len() as int) =~= v@.skip(5));
    parse_usize_range(&v, 5, v.len())
}

/// The id for a new block of a section: `code_<n>` with `n` one above the largest
/// number a `code_<n>` id of the section carries, so no block of the section has it.
/// `None` when that number is the largest there is.
pub fn next_code_id(section: &Section) -> (r: Option<String>)
    ensures
        max_block_number(section.code_blocks@) < usize::MAX ==> (r matches Some(id) && id@
            == "code_"@ + decimal((max_block_number(section.code_blocks@) + 1) as nat)
            && block_position(section.code_blocks@, id@) is None),
        max_block_number(section.code_blocks@) == usize::MAX ==> r is None,
{
    let blocks = &section.code_blocks;
    let mut m: usize = 0;
    let mut i: usize = 0;
    while i < blocks.len()
        invariant
            i <= blocks@.len(),
            m == max_block_number(blocks@.take(i as int)),
        decreases blocks@.len() - i,
    {
        assert(blocks@.take(i + 1).drop_last() =~= blocks@.take(i as int));
        match block_number_of(blocks[i].id.as_str()) {
            Some(n) => {
                if n > m {
                    m = n;
                }
            },
            None => {},
        }
        i = i + 1;
    }
    assert(blocks@.take(i as int) =~= blocks@);
    if m == usize::MAX {
        return None;
    }
    let n = m + 1;
    let mut id = owned("code_");
    append_str(&mut id, usize_to_string(n).as_str());
    proof {
        reveal_strlit("code_");
        lemma_max_block_number(blocks@);
        lemma_parse_decimal(n);
        assert(id@.skip(5) =~= decimal(n as nat));
        assert(id@.subrange(0, 5) =~= "code_"@);
        assert(block_number(id@) == Some(n));
        lemma_block_position(blocks@, id@);
        if block_position(blocks@, id@) is Some {
            let k = block_position(blocks@, id@)->0;
            assert(block_number(blocks@[k].id@) == Some(n));
        }
    }
    Some(id)
}

// ---------------------------------------------------------------------------
// Files of a section
// ---------------------------------------------------------------------------

/// The files a section's code blocks name: the paths of their sources, block by
/// block, each path once, in the order it first comes.
pub open spec fn block_paths(b: Seq<CodeBlock>) -> Seq<Seq<char>>
    decreases b.len(),
{
    if b.len() == 0 {
        Seq::empty()
    } else {
        with_paths(block_paths(b.drop_last()), source_paths(b.last().source))
    }
}

/// The files derived from code blocks name every path of every block, and none twice.
pub proof fn lemma_block_paths(b: Seq<CodeBlock>)
    ensures
        block_paths(b).no_duplicates(),
        forall|i: int, j: int|
            0 <= i < b.len() && 0 <= j < source_paths(b[i].source).len() ==> block_paths(
                b,
            ).contains(#[trigger] source_paths(b[i].source)[j]),
    decreases b.len(),
{
    if b.len() > 0 {
        let init = b.drop_last();
        lemma_block_paths(init);
        lemma_with_paths(block_paths(init), source_paths(b.last().source));
        assert forall|i: int, j: int|
            0 <= i < b.len() && 0 <= j < source_paths(b[i].source).len() implies block_paths(
            b,
        ).contains(#[trigger] source_paths(b[i].source)[j]) by {
            if i < b.len() - 1 {
                assert(b[i] == init[i]);
                let p = source_paths(init[i].source)[j];
                assert(block_paths(init).contains(p));
                let k = choose|k: int| 0 <= k < block_paths(init).len() && block_paths(init)[k] == p;
                assert(block_paths(init)[k] == p);
            }
        }
    }
}

fn add_paths(files: &mut Vec<String>, source: &CodeSource)
    ensures
        texts(final(files)@) == with_paths(texts(old(files)@), source_paths(*source)),
{
    let paths = source_path_list(source);
    let ghost base = texts(files@);
    let mut j: usize = 0;
    while j < paths.len()
        invariant
            j <= paths@.len(),
            texts(paths@) == source_paths(*source),
            texts(files@) == with_paths(base, texts(paths@).take(j as int)),
        decreases paths@.len() - j,
    {
        assert(texts(paths@).take(j + 1).drop_last() =~= texts(paths@).take(j as int));
        if !holds_path(files, &paths[j]) {
            files.push(paths[j].clone());
            assert(texts(files@) =~= with_paths(base, texts(paths@).take(j as int)).push(
                paths@[j as int]@,
            ));
        }
        j = j + 1;
    }
    assert(texts(paths@).take(j as int) =~= texts(paths@));
}

/// Set a section's files to those its code blocks name (see `block_paths`).
pub fn derive_files(section: &mut Section)
    ensures
        texts(final(section).files@) == block_paths(old(section).code_blocks@),
        *final(section) == (Section { files: final(section).files, ..*old(section) }),
{
    let mut files: Vec<String> = Vec::new();
    let mut i: usize = 0;
    assert(texts(files@) =~= block_paths(section.code_blocks@.take(0)));
    while i < section.code_blocks.len()
        invariant
            i <= section.code_blocks@.len(),
            texts(files@) == block_paths(section.code_blocks@.take(i as int)),
        decreases section.code_blocks@.len() - i,
    {
        assert(section.code_blocks@.take(i + 1).drop_last() =~= section.code_blocks@.take(i as int));
        add_paths(&mut files, &section.code_blocks[i].source);
        i = i + 1;
    }
    assert(section.code_blocks@.take(i as int) =~= section.code_blocks@);
    section.files = files;
}


// ---------------------------------------------------------------------------
// Commands
// ---------------------------------------------------------------------------

/// The message when no new code block id is left in a section.
pub const NO_CODE_ID: &'static str = "No code block id left";

/// The section after a change to its code blocks: only its blocks and its files
/// differ, and its files are those the blocks name.
pub open spec fn blocks_changed(before: Section, after: Section) -> bool {
    &&& texts(after.files@) == block_paths(after.code_blocks@)
    &&& after == (Section { code_blocks: after.code_blocks, files: after.files, ..before })
}

/// The session after a change to section `k` alone.
pub open spec fn only_section_changed(before: Session, after: Session, k: int) -> bool {
    &&& after.sections@ == before.sections@.update(k, after.sections@[k])
    &&& same_but_sections(after, before)
}

/// What `code_add` does and prints.
pub open spec fn code_add_applied(
    s0: Session,
    section_id: Seq<char>,
    source: CodeSource,
    content: String,
    s1: Session,
    r: Result<CommandOutput, AppError>,
) -> bool {
    match id_position(s0.sections@, section_id) {
        None => (r matches Err(AppError::Session(m)) && m@ == section_not_found(section_id))
            && s1 == s0,
        Some(k) => {
            let before = s0.sections@[k];
            let after = s1.sections@[k];
            if max_block_number(before.code_blocks@) < usize::MAX {
                &&& r matches Ok(out) && out.stderr@.len() == 0 && out.stdout@.len() == 1 && {
                    let id = out.stdout@[0]@;
                    &&& id == "code_"@ + decimal((max_block_number(before.code_blocks@) + 1) as nat)
                    &&& block_position(before.code_blocks@, id) is None
                    &&& after.code_blocks@.len() == before.code_blocks@.len() + 1
                    &&& after.code_blocks@.drop_last() == before.code_blocks@
                    &&& after.code_blocks@.last().id@ == id
                    &&& after.code_blocks@.last().source == source
                    &&& after.code_blocks@.last().content == content
                }
                &&& blocks_changed(before, after)
                &&& only_section_changed(s0, s1, k)
            } else {
                &&& r matches Err(AppError::Session(m)) && m@ == NO_CODE_ID@
                &&& s1 == s0
            }
        },
    }
}

/// Add a code block to the section with the given id. The block gets a new id (see
/// `next_code_id`), goes last, and the section's files are derived again from its
/// blocks; the id is printed.
pub fn code_add(session: &mut Session, section_id: &str, source: CodeSource, content: String) -> (r:
    Result<CommandOutput, AppError>)
    ensures
        code_add_applied(*old(session), section_id@, source, content, *final(session), r),
{
    match find_section(&session.sections, section_id) {
        None => Err(not_found_error(section_id)),
        Some(k) => match next_code_id(&session.sections[k]) {
            None => Err(AppError::Session(owned(NO_CODE_ID))),
            Some(id) => {
                let printed = id.clone();
                let ghost before_blocks = session.sections@[k as int].code_blocks@;
                let sections = &mut session.sections;
                let section = &mut sections[k];
                section.code_blocks.push(CodeBlock { id, source, content });
                derive_files(section);
                assert(session.sections@[k as int].code_blocks@.drop_last() =~= before_blocks);
                assert(session.sections@ =~= old(session).sections@.update(
                    k as int,
                    session.sections@[k as int],
                ));
                let mut stdout: Vec<String> = Vec::new();
                stdout.push(printed);
                Ok(CommandOutput { stdout, stderr: Vec::new() })
            },
        },
    }
}

/// What `code_show` prints.
pub open spec fn code_show_result(
    s0: Session,
    section_id: Seq<char>,
    code_id: Seq<char>,
    r: Result<CommandOutput, AppError>,
) -> bool {
    match id_position(s0.sections@, section_id) {
        None => r matches Err(AppError::Session(m)) && m@ == section_not_found(section_id),
        Some(k) => match block_position(s0.sections@[k].code_blocks@, code_id) {
            None => r matches Err(AppError::Session(m)) && m@ == block_not_found(
                code_id,
                section_id,
            ),
            Some(j) => r matches Ok(out) && out.stderr@.len() == 0 && texts(out.stdout@)
                == seq![s0.sections@[k].code_blocks@[j].content@],
        },
    }
}

/// Print the content of a code block.
pub fn code_show(session: &Session, section_id: &str, code_id: &str) -> (r: Result<
    CommandOutput,
    AppError,
>)
    ensures
        code_show_result(*session, section_id@, code_id@, r),
{
    match find_section(&session.sections, section_id) {
        None => Err(not_found_error(section_id)),
        Some(k) => match find_block(&session.sections[k].code_blocks, code_id) {
            None => Err(block_not_found_error(code_id, section_id)),
            Some(j) => Ok(
                CommandOutput {
                    stdout: one_line(session.sections[k].code_blocks[j].content.clone()),
                    stderr: Vec::new(),
                },
            ),
        },
    }
}

/// The message for a section without code blocks.
pub open spec fn no_blocks_message(section_id: Seq<char>) -> Seq<char> {
    "No code blocks in section '"@ + section_id + "'."@
}

/// Numbers joined by `","`.
pub open spec fn join_numbers(v: Seq<usize>) -> Seq<char>
    decreases v.len(),
{
    if v.len() == 0 {
        Seq::empty()
    } else if v.len() == 1 {
        decimal(v[0] as nat)
    } else {
        join_numbers(v.drop_last()) + ","@ + decimal(v.last() as nat)
    }
}

/// ` lines:<start>-<end>` for a line range, nothing without one.
pub open spec fn range_note(lines: Option<(usize, usize)>) -> Seq<char> {
    match lines {
        Some((a, b)) => " lines:"@ + decimal(a as nat) + "-"@ + decimal(b as nat),
        None => Seq::empty(),
    }
}

/// How `code list` describes a source.
pub open spec fn source_note(source: CodeSource) -> Seq<char> {
    match source {
        CodeSource::Diff { paths, hunks, lines } => "diff: "@ + join_comma(paths@) + match hunks {
            Some(h) => " hunks:"@ + join_numbers(h@),
            None => Seq::empty(),
        } + range_note(lines),
        CodeSource::File { path, lines } => "file: "@ + path@ + range_note(lines),
    }
}

/// The line `code list` prints for a block: its id, its source and how many lines
/// its content has.
pub open spec fn block_entry(b: CodeBlock) -> Seq<char> {
    b.id@ + ": "@ + source_note(b.source) + " ("@ + decimal(lines(b.content@).len()) + " lines)"@
}

fn numbers_text(v: &Vec<usize>) -> (r: String)
    ensures
        r@ == join_numbers(v@),
{
    let mut r = String::new();
    let mut i: usize = 0;
    while i < v.len()
        invariant
            i <= v@.len(),
            r@ == join_numbers(v@.take(i as int)),
        decreases v@.len() - i,
    {
        assert(v@.take(i + 1).drop_last() =~= v@.take(i as int));
        if i > 0 {
            append_str(&mut r, ",");
        }
        append_str(&mut r, usize_to_string(v[i]).as_str());
        assert(r@ =~= join_numbers(v@.take(i + 1)));
        i = i + 1;
    }
    assert(v@.take(i as int) =~= v@);
    r
}

fn append_range_note(r: &mut String, lines: Option<(usize, usize)>)
    ensures
        final(r)@ == old(r)@ + range_note(lines),
{
    match lines {
        Some((a, b)) => {
            append_str(r, " lines:");
            append_str(r, usize_to_string(a).as_str());
            append_str(r, "-");
            append_str(r, usize_to_string(b).as_str());
        },
        None => {
            assert(old(r)@ + range_note(lines) =~= old(r)@);
        },
    }
}

fn block_entry_text(b: &CodeBlock) -> (r: String)
    ensures
        r@ == block_entry(*b),
{
    let mut r = b.id.clone();
    append_str(&mut r, ": ");
    match &b.source {
        CodeSource::Diff { paths, hunks, lines } => {
            append_str(&mut r, "diff: ");
            append_str(&mut r, crate::commands::join_files(paths).as_str());
            match hunks {
                Some(h) => {
                    append_str(&mut r, " hunks:");
                    append_str(&mut r, numbers_text(h).as_str());
                },
                None => {},
            }
            append_range_note(&mut r, *lines);
        },
        CodeSource::File { path, lines } => {
            append_str(&mut r, "file: ");
            append_str(&mut r, path.as_str());
            append_range_note(&mut r, *lines);
        },
    }
    let count = line_ranges(&chars_of(b.content.as_str())).len();
    append_str(&mut r, " (");
    append_str(&mut r, usize_to_string(count).as_str());
    append_str(&mut r, " lines)");
    assert(r@ =~= block_entry(*b));
    r
}

/// What `code_list` prints.
pub open spec fn code_list_result(
    s0: Session,
    section_id: Seq<char>,
    r: Result<CommandOutput, AppError>,
) -> bool {
    match id_position(s0.sections@, section_id) {
        None => r matches Err(AppError::Session(m)) && m@ == section_not_found(section_id),
        Some(k) => r matches Ok(out) && if s0.sections@[k].code_blocks@.len() == 0 {
            out.stdout@.len() == 0 && texts(out.stderr@) == seq![no_blocks_message(section_id)]
        } else {
            out.stderr@.len() == 0 && texts(out.stdout@)
                == s0.sections@[k].code_blocks@.map_values(|b: CodeBlock| block_entry(b))
        },
    }
}

/// List the code blocks of a section, one line each (see `block_entry`).
pub fn code_list(session: &Session, section_id: &str) -> (r: Result<CommandOutput, AppError>)
    ensures
        code_list_result(*session, section_id@, r),
{
    match find_section(&session.sections, section_id) {
        None => Err(not_found_error(section_id)),
        Some(k) => {
            let blocks = &session.sections[k].code_blocks;
            if blocks.len() == 0 {
                let mut m = owned("No code blocks in section '");
                append_str(&mut m, section_id);
                append_str(&mut m, "'.");
                return Ok(CommandOutput { stdout: Vec::new(), stderr: one_line(m) });
            }
            let mut stdout: Vec<String> = Vec::new();
            let mut i: usize = 0;
            while i < blocks.len()
                invariant
                    i <= blocks@.len(),
                    stdout@.len() == i,
                    forall|j: int| 0 <= j < i ==> (#[trigger] stdout@[j])@ == block_entry(blocks@[j]),
                decreases blocks@.len() - i,
            {
                stdout.push(block_entry_text(&blocks[i]));
                i = i + 1;
            }
            assert(texts(stdout@) =~= blocks@.map_values(|b: CodeBlock| block_entry(b)));
            Ok(CommandOutput { stdout, stderr: Vec::new() })
        },
    }
}

/// What `code_delete` does and prints.
pub open spec fn code_delete_applied(
    s0: Session,
    section_id: Seq<char>,
    code_id: Seq<char>,
    s1: Session,
    r: Result<CommandOutput, AppError>,
) -> bool {
    match id_position(s0.sections@, section_id) {
        None => (r matches Err(AppError::Session(m)) && m@ == section_not_found(section_id))
            && s1 == s0,
        Some(k) => {
            let before = s0.sections@[k];
            let after = s1.sections@[k];
            match block_position(before.code_blocks@, code_id) {
                None => (r matches Err(AppError::Session(m)) && m@ == block_not_found(
                    code_id,
                    section_id,
                )) && s1 == s0,
                Some(j) => {
                    &&& r matches Ok(out) && out.stdout@.len() == 0 && texts(out.stderr@)
                        == seq![
                        "Deleted code block '"@ + code_id + "' from section '"@ + section_id
                            + "'"@,
                    ]
                    &&& after.code_blocks@ == before.code_blocks@.remove(j)
                    &&& blocks_changed(before, after)
                    &&& only_section_changed(s0, s1, k)
                },
            }
        },
    }
}

/// Delete a code block; the section's files are derived again from what is left.
pub fn code_delete(session: &mut Session, section_id: &str, code_id: &str) -> (r: Result<
    CommandOutput,
    AppError,
>)
    ensures
        code_delete_applied(*old(session), section_id@, code_id@, *final(session), r),
{
    match find_section(&session.sections, section_id) {
        None => Err(not_found_error(section_id)),
        Some(k) => match find_block(&session.sections[k].code_blocks, code_id) {
            None => Err(block_not_found_error(code_id, section_id)),
            Some(j) => {
                let sections = &mut session.sections;
                let section = &mut sections[k];
                section.code_blocks.remove(j);
                derive_files(section);
                let mut m = owned("Deleted code block '");
                append_str(&mut m, code_id);
                append_str(&mut m, "' from section '");
                append_str(&mut m, section_id);
                append_str(&mut m, "'");
                Ok(CommandOutput { stdout: Vec::new(), stderr: one_line(m) })
            },
        },
    }
}

/// What `code_update` does and prints.
pub open spec fn code_update_applied(
    s0: Session,
    section_id: Seq<char>,
    code_id: Seq<char>,
    source: CodeSource,
    content: String,
    s1: Session,
    r: Result<CommandOutput, AppError>,
) -> bool {
    match id_position(s0.sections@, section_id) {
        None => (r matches Err(AppError::Session(m)) && m@ == section_not_found(section_id))
            && s1 == s0,
        Some(k) => {
            let before = s0.sections@[k];
            let after = s1.sections@[k];
            match block_position(before.code_blocks@, code_id) {
                None => (r matches Err(AppError::Session(m)) && m@ == block_not_found(
                    code_id,
                    section_id,
                )) && s1 == s0,
                Some(j) => {
                    &&& r matches Ok(out) && out.stdout@.len() == 0 && texts(out.stderr@)
                        == seq!["Code block '"@ + code_id + "' updated."@]
                    &&& after.code_blocks@ == before.code_blocks@.update(
                        j,
                        CodeBlock { id: before.code_blocks@[j].id, source, content },
                    )
                    &&& blocks_changed(before, after)
                    &&& only_section_changed(s0, s1, k)
                },
            }
        },
    }
}

/// Replace the source and content of a code block (its id stays); the section's files
/// are derived again.
pub fn code_update(
    session: &mut Session,
    section_id: &str,
    code_id: &str,
    source: CodeSource,
    content: String,
) -> (r: Result<CommandOutput, AppError>)
    ensures
        code_update_applied(*old(session), section_id@, code_id@, source, content, *final(session), r),
{
    match find_section(&session.sections, section_id) {
        None => Err(not_found_error(section_id)),
        Some(k) => match find_block(&session.sections[k].code_blocks, code_id) {
            None => Err(block_not_found_error(code_id, section_id)),
            Some(j) => {
                let sections = &mut session.sections;
                let section = &mut sections[k];
                let blocks = &mut section.code_blocks;
                let block = &mut blocks[j];
                block.source = source;
                block.content = content;
                derive_files(section);
                let mut m = owned("Code block '");
                append_str(&mut m, code_id);
                append_str(&mut m, "' updated.");
                Ok(CommandOutput { stdout: Vec::new(), stderr: one_line(m) })
            },
        },
    }
}


/// The first of `ids` (by position) that no block carries.
pub open spec fn first_missing_block(b: Seq<CodeBlock>, ids: Seq<String>) -> Option<int>
    decreases ids.len(),
{
    if ids.len() == 0 {
        None
    } else {
        match first_missing_block(b, ids.drop_last()) {
            Some(j) => Some(j),
            None => if block_position(b, ids.last()@) is None {
                Some(ids.len() - 1)
            } else {
                None
            },
        }
    }
}

proof fn lemma_first_missing_block_prefix(b: Seq<CodeBlock>, ids: Seq<String>, n: int)
    requires
        0 <= n <= ids.len(),
        first_missing_block(b, ids.take(n)) is Some,
    ensures
        first_missing_block(b, ids) == first_missing_block(b, ids.take(n)),
    decreases ids.len() - n,
{
    if n < ids.len() {
        assert(ids.take(n + 1).drop_last() =~= ids.take(n));
        lemma_first_missing_block_prefix(b, ids, n + 1);
    } else {
        assert(ids.take(n) =~= ids);
    }
}

proof fn lemma_first_missing_block_none(b: Seq<CodeBlock>, ids: Seq<String>)
    requires
        first_missing_block(b, ids) is None,
    ensures
        forall|j: int| 0 <= j < ids.len() ==> block_position(b, (#[trigger] ids[j])@) is Some,
    decreases ids.len(),
{
    if ids.len() > 0 {
        lemma_first_missing_block_none(b, ids.drop_last());
        assert forall|j: int| 0 <= j < ids.len() implies block_position(b, (#[trigger] ids[j])@) is Some by {
            if j < ids.len() - 1 {
                assert(ids[j] == ids.drop_last()[j]);
            }
        }
    }
}

/// The blocks in the order the ids give, each id standing for the first block that
/// carries it.
pub open spec fn reordered_blocks(b: Seq<CodeBlock>, ids: Seq<String>) -> Seq<CodeBlock> {
    Seq::new(ids.len(), |j: int| b[block_position(b, ids[j]@)->0])
}

/// A reorder of code blocks is taken exactly when each id is found, none is named
/// twice and there are as many ids as blocks; the blocks it then puts in place are
/// taken from different positions, so each block of the section appears once.
pub proof fn lemma_block_reorder_is_permutation(b: Seq<CodeBlock>, ids: Seq<String>)
    requires
        first_missing_block(b, ids) is None,
        distinct_texts(ids),
        ids.len() == b.len(),
    ensures
        forall|a: int, c: int|
            0 <= a < ids.len() && 0 <= c < ids.len() && a != c ==> block_position(b, ids[a]@)->0
                != block_position(b, ids[c]@)->0,
        forall|a: int|
            0 <= a < ids.len() ==> 0 <= #[trigger] block_position(b, ids[a]@)->0 < b.len()
                && reordered_blocks(b, ids)[a].id@ == ids[a]@,
{
    lemma_first_missing_block_none(b, ids);
    assert forall|a: int| 0 <= a < ids.len() implies 0 <= #[trigger] block_position(b, ids[a]@)->0
        < b.len() && reordered_blocks(b, ids)[a].id@ == ids[a]@ by {
        lemma_block_position(b, ids[a]@);
        assert(block_position(b, ids[a]@) is Some);
    }
    assert forall|a: int, c: int|
        0 <= a < ids.len() && 0 <= c < ids.len() && a != c implies block_position(b, ids[a]@)->0
            != block_position(b, ids[c]@)->0 by {
        lemma_block_position(b, ids[a]@);
        lemma_block_position(b, ids[c]@);
        assert(block_position(b, ids[a]@) is Some);
        assert(block_position(b, ids[c]@) is Some);
    }
}

/// Deleting the block just added gives the section its blocks back, and so its files:
/// the new id is found at the end (no earlier block carries it), and removing the
/// block there leaves the old blocks.
pub proof fn lemma_add_then_delete(b: Seq<CodeBlock>, added: CodeBlock)
    requires
        block_position(b, added.id@) is None,
    ensures
        block_position(b.push(added), added.id@) == Some(b.len() as int),
        b.push(added).remove(b.len() as int) == b,
        block_paths(b.push(added).remove(b.len() as int)) == block_paths(b),
{
    assert(b.push(added).drop_last() =~= b);
    assert(b.push(added).remove(b.len() as int) =~= b);
}

/// The message for a reorder that does not name every block of a section.
pub open spec fn block_count_mismatch(expected: nat, got: nat) -> Seq<char> {
    "Expected "@ + decimal(expected) + " code block IDs, got "@ + decimal(got)
        + ". All code blocks must be included."@
}

/// What `code_reorder` does and prints.
pub open spec fn code_reorder_applied(
    s0: Session,
    section_id: Seq<char>,
    ids: Seq<String>,
    s1: Session,
    r: Result<CommandOutput, AppError>,
) -> bool {
    match id_position(s0.sections@, section_id) {
        None => (r matches Err(AppError::Session(m)) && m@ == section_not_found(section_id))
            && s1 == s0,
        Some(k) => {
            let before = s0.sections@[k];
            let after = s1.sections@[k];
            let b = before.code_blocks@;
            match first_missing_block(b, ids) {
                Some(j) => (r matches Err(AppError::Session(m)) && m@ == block_not_found(
                    ids[j]@,
                    section_id,
                )) && s1 == s0,
                None => if ids.len() != b.len() || !distinct_texts(ids) {
                    (r matches Err(AppError::Session(m)) && m@ == block_count_mismatch(
                        b.len(),
                        ids.len(),
                    )) && s1 == s0
                } else {
                    &&& r matches Ok(out) && out.stdout@.len() == 0 && texts(out.stderr@)
                        == seq!["Code blocks reordered in section '"@ + section_id + "'."@]
                    &&& after.code_blocks@.len() == ids.len()
                    &&& forall|j: int|
                        0 <= j < ids.len() ==> same_block(
                            #[trigger] after.code_blocks@[j],
                            reordered_blocks(b, ids)[j],
                        )
                    &&& after == (Section { code_blocks: after.code_blocks, ..before })
                    &&& only_section_changed(s0, s1, k)
                },
            }
        },
    }
}

/// Put the code blocks of a section in the order the ids give. Every id must be a
/// block's, and the ids must name each block once; else nothing changes.
pub fn code_reorder(session: &mut Session, section_id: &str, ids: &Vec<String>) -> (r: Result<
    CommandOutput,
    AppError,
>)
    ensures
        code_reorder_applied(*old(session), section_id@, ids@, *final(session), r),
{
    let k = match find_section(&session.sections, section_id) {
        None => {
            return Err(not_found_error(section_id));
        },
        Some(k) => k,
    };
    let ghost b = session.sections@[k as int].code_blocks@;
    let mut j: usize = 0;
    while j < ids.len()
        invariant
            k < session.sections@.len(),
            b == session.sections@[k as int].code_blocks@,
            *session == *old(session),
            id_position(old(session).sections@, section_id@) == Some(k as int),
            j <= ids@.len(),
            first_missing_block(b, ids@.take(j as int)) is None,
        decreases ids@.len() - j,
    {
        assert(ids@.take(j + 1).drop_last() =~= ids@.take(j as int));
        if find_block(&session.sections[k].code_blocks, ids[j].as_str()).is_none() {
            proof {
                lemma_first_missing_block_prefix(b, ids@, j + 1);
            }
            return Err(block_not_found_error(ids[j].as_str(), section_id));
        }
        j = j + 1;
    }
    assert(ids@.take(j as int) =~= ids@);
    let count = session.sections[k].code_blocks.len();
    if ids.len() != count || has_repeat(ids) {
        let mut m = owned("Expected ");
        append_str(&mut m, usize_to_string(count).as_str());
        append_str(&mut m, " code block IDs, got ");
        append_str(&mut m, usize_to_string(ids.len()).as_str());
        append_str(&mut m, ". All code blocks must be included.");
        return Err(AppError::Session(m));
    }
    proof {
        lemma_first_missing_block_none(b, ids@);
    }
    let mut next: Vec<CodeBlock> = Vec::new();
    let mut j: usize = 0;
    while j < ids.len()
        invariant
            k < session.sections@.len(),
            b == session.sections@[k as int].code_blocks@,
            *session == *old(session),
            id_position(old(session).sections@, section_id@) == Some(k as int),
            j <= ids@.len(),
            forall|i: int| 0 <= i < ids@.len() ==> block_position(b, (#[trigger] ids@[i])@) is Some,
            next@.len() == j,
            forall|i: int| 0 <= i < j ==> same_block(#[trigger] next@[i], reordered_blocks(b, ids@)[i]),
        decreases ids@.len() - j,
    {
        let at = match find_block(&session.sections[k].code_blocks, ids[j].as_str()) {
            Some(i) => i,
            None => 0,
        };
        assert(block_position(b, ids@[j as int]@) is Some);
        next.push(session.sections[k].code_blocks[at].duplicate());
        j = j + 1;
    }
    let sections = &mut session.sections;
    let section = &mut sections[k];
    section.code_blocks = next;
    let mut m = owned("Code blocks reordered in section '");
    append_str(&mut m, section_id);
    append_str(&mut m, "'.");
    Ok(CommandOutput { stdout: Vec::new(), stderr: one_line(m) })
}


/// The message for moving a code block to another section, which is not offered.
pub const MOVE_UNSUPPORTED: &'static str = "Moving a code block between sections is not supported";

/// What a code command does and prints; for `add` and `update`, `resolved` is the
/// source and content read for the block.
pub open spec fn code_applied(
    s0: Session,
    action: CodeAction,
    resolved: Option<(CodeSource, String)>,
    s1: Session,
    r: Result<CommandOutput, AppError>,
) -> bool {
    match action {
        CodeAction::Add { section_id, .. } => match resolved {
            Some((source, content)) => code_add_applied(s0, section_id@, source, content, s1, r),
            None => true,
        },
        CodeAction::Show { section_id, code_id } => s1 == s0 && code_show_result(
            s0,
            section_id@,
            code_id@,
            r,
        ),
        CodeAction::List { section_id } => s1 == s0 && code_list_result(s0, section_id@, r),
        CodeAction::Delete { section_id, code_id } => code_delete_applied(
            s0,
            section_id@,
            code_id@,
            s1,
            r,
        ),
        CodeAction::Move { .. } => s1 == s0 && (r matches Err(AppError::Session(m)) && m@
            == MOVE_UNSUPPORTED@),
        CodeAction::Reorder { section_id, ids } => code_reorder_applied(
            s0,
            section_id@,
            ids@,
            s1,
            r,
        ),
        CodeAction::Update { section_id, code_id, .. } => match resolved {
            Some((source, content)) => code_update_applied(
                s0,
                section_id@,
                code_id@,
                source,
                content,
                s1,
                r,
            ),
            None => true,
        },
    }
}

/// Run a code command on a session: add, show, list, delete, reorder or update the
/// code blocks of a section. For `add` and `update` the caller has read the block's
/// source (see `resolve_content`) and hands over the source and content. What the
/// command prints is handed back; the caller saves the session.
pub fn code(session: &mut Session, action: CodeAction, resolved: Option<(CodeSource, String)>) -> (r:
    Result<CommandOutput, AppError>)
    requires
        (action is Add || action is Update) ==> resolved is Some,
    ensures
        code_applied(*old(session), action, resolved, *final(session), r),
{
    match action {
        CodeAction::Add { section_id, .. } => match resolved {
            Some((source, content)) => code_add(session, section_id.as_str(), source, content),
            // ruled out by the precondition
            None => Ok(CommandOutput { stdout: Vec::new(), stderr: Vec::new() }),
        },
        CodeAction::Show { section_id, code_id } => code_show(
            session,
            section_id.as_str(),
            code_id.as_str(),
        ),
        CodeAction::List { section_id } => code_list(session, section_id.as_str()),
        CodeAction::Delete { section_id, code_id } => code_delete(
            session,
            section_id.as_str(),
            code_id.as_str(),
        ),
        CodeAction::Move { .. } => Err(AppError::Session(owned(MOVE_UNSUPPORTED))),
        CodeAction::Reorder { section_id, ids } => code_reorder(
            session,
            section_id.as_str(),
            &ids,
        ),
        CodeAction::Update { section_id, code_id, .. } => match resolved {
            Some((source, content)) => code_update(
                session,
                section_id.as_str(),
                code_id.as_str(),
                source,
                content,
            ),
            // ruled out by the precondition
            None => Ok(CommandOutput { stdout: Vec::new(), stderr: Vec::new() }),
        },
    }
}

} // verus!
