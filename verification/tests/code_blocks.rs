use gauge::cli::{CodeAction, SectionAction};
use gauge::commands::section;
use gauge::code_blocks::{
    code, code_add, code_delete, code_list, code_reorder, code_show, code_update, derive_files,
    next_code_id,
};
use gauge::models::{CodeBlock, CodeSource, Section, Session};
use gauge::screens::highlight::{highlight_diff_lines, SpanColor, StyledSpan};
use gauge::screens::layout::bullet_text;

fn session_with_section() -> Session {
    let mut s = Session::new("blocks".to_string(), String::new());
    s.sections.push(Section::new(
        "sec_1".to_string(),
        "Title".to_string(),
        "Desc".to_string(),
        String::new(),
    ));
    s
}

fn diff_source(path: &str) -> CodeSource {
    CodeSource::Diff { paths: vec![path.to_string()], hunks: None, lines: None }
}

fn ids(s: &Session) -> Vec<String> {
    s.sections[0].code_blocks.iter().map(|b| b.id.clone()).collect()
}

fn row_text(row: &[StyledSpan]) -> String {
    row.iter().map(|s| s.text.as_str()).collect()
}

#[test]
fn code_add_gives_fresh_ids_and_derives_files() {
    let mut s = session_with_section();
    let out = code_add(&mut s, "sec_1", diff_source("a.rs"), "+x".to_string()).unwrap();
    assert_eq!(out.stdout, vec!["code_1".to_string()]);
    assert!(out.stderr.is_empty());
    let file = CodeSource::File { path: "b.rs".to_string(), lines: Some((1, 10)) };
    let out = code_add(&mut s, "sec_1", file, "fn main() {}".to_string()).unwrap();
    assert_eq!(out.stdout, vec!["code_2".to_string()]);
    let out = code_add(&mut s, "sec_1", diff_source("a.rs"), "+y".to_string()).unwrap();
    assert_eq!(out.stdout, vec!["code_3".to_string()]);
    assert_eq!(ids(&s), vec!["code_1", "code_2", "code_3"]);
    assert_eq!(s.sections[0].files, vec!["a.rs".to_string(), "b.rs".to_string()]);
    assert_eq!(s.sections[0].code_blocks[2].content, "+y");
    assert_eq!(s.sections[0].code, "");
}

#[test]
fn next_code_id_is_above_every_numbered_id() {
    let mut section = Section::new("s".to_string(), "T".to_string(), "D".to_string(), String::new());
    assert_eq!(next_code_id(&section).unwrap(), "code_1");
    section.code_blocks.push(CodeBlock {
        id: "code_7".to_string(),
        source: diff_source("a.rs"),
        content: String::new(),
    });
    section.code_blocks.push(CodeBlock {
        id: "other".to_string(),
        source: diff_source("a.rs"),
        content: String::new(),
    });
    assert_eq!(next_code_id(&section).unwrap(), "code_8");
}

#[test]
fn code_add_to_missing_section_fails() {
    let mut s = session_with_section();
    let err = code_add(&mut s, "sec_9", diff_source("a.rs"), "+x".to_string()).unwrap_err();
    assert_eq!(err.to_string(), "Session error: Section 'sec_9' not found");
    assert!(s.sections[0].code_blocks.is_empty());
}

#[test]
fn code_show_and_list() {
    let mut s = session_with_section();
    let out = code_list(&s, "sec_1").unwrap();
    assert!(out.stdout.is_empty());
    assert_eq!(out.stderr, vec!["No code blocks in section 'sec_1'.".to_string()]);
    let source = CodeSource::Diff {
        paths: vec!["a.rs".to_string(), "c.rs".to_string()],
        hunks: Some(vec![1, 3]),
        lines: Some((2, 5)),
    };
    code_add(&mut s, "sec_1", source, "+a\n+b".to_string()).unwrap();
    let file = CodeSource::File { path: "b.rs".to_string(), lines: Some((1, 10)) };
    code_add(&mut s, "sec_1", file, "fn main() {}".to_string()).unwrap();
    let out = code_list(&s, "sec_1").unwrap();
    assert_eq!(
        out.stdout,
        vec![
            "code_1: diff: a.rs, c.rs hunks:1,3 lines:2-5 (2 lines)".to_string(),
            "code_2: file: b.rs lines:1-10 (1 lines)".to_string(),
        ]
    );
    let out = code_show(&s, "sec_1", "code_1").unwrap();
    assert_eq!(out.stdout, vec!["+a\n+b".to_string()]);
    let err = code_show(&s, "sec_1", "code_9").unwrap_err();
    assert_eq!(err.to_string(), "Session error: Code block 'code_9' not found in section 'sec_1'");
    let err = code_list(&s, "nope").unwrap_err();
    assert_eq!(err.to_string(), "Session error: Section 'nope' not found");
}

#[test]
fn code_delete_rederives_files() {
    let mut s = session_with_section();
    code_add(&mut s, "sec_1", diff_source("a.rs"), "+x".to_string()).unwrap();
    code_add(&mut s, "sec_1", diff_source("b.rs"), "+y".to_string()).unwrap();
    let out = code_delete(&mut s, "sec_1", "code_1").unwrap();
    assert_eq!(out.stderr, vec!["Deleted code block 'code_1' from section 'sec_1'".to_string()]);
    assert_eq!(ids(&s), vec!["code_2"]);
    assert_eq!(s.sections[0].files, vec!["b.rs".to_string()]);
    let err = code_delete(&mut s, "sec_1", "code_1").unwrap_err();
    assert_eq!(err.to_string(), "Session error: Code block 'code_1' not found in section 'sec_1'");
    let out = code_add(&mut s, "sec_1", diff_source("c.rs"), "+z".to_string()).unwrap();
    assert_eq!(out.stdout, vec!["code_3".to_string()]);
}

#[test]
fn code_reorder_needs_each_block_once() {
    let mut s = session_with_section();
    code_add(&mut s, "sec_1", diff_source("a.rs"), "+x".to_string()).unwrap();
    code_add(&mut s, "sec_1", diff_source("b.rs"), "+y".to_string()).unwrap();
    let twice = vec!["code_1".to_string(), "code_1".to_string()];
    let err = code_reorder(&mut s, "sec_1", &twice).unwrap_err();
    assert_eq!(
        err.to_string(),
        "Session error: Expected 2 code block IDs, got 2. All code blocks must be included."
    );
    assert_eq!(ids(&s), vec!["code_1", "code_2"]);
    let short = vec!["code_2".to_string()];
    let err = code_reorder(&mut s, "sec_1", &short).unwrap_err();
    assert_eq!(
        err.to_string(),
        "Session error: Expected 2 code block IDs, got 1. All code blocks must be included."
    );
    let unknown = vec!["code_5".to_string(), "code_1".to_string()];
    let err = code_reorder(&mut s, "sec_1", &unknown).unwrap_err();
    assert_eq!(err.to_string(), "Session error: Code block 'code_5' not found in section 'sec_1'");
    let swapped = vec!["code_2".to_string(), "code_1".to_string()];
    let out = code_reorder(&mut s, "sec_1", &swapped).unwrap();
    assert_eq!(out.stderr, vec!["Code blocks reordered in section 'sec_1'.".to_string()]);
    assert_eq!(ids(&s), vec!["code_2", "code_1"]);
    assert_eq!(s.sections[0].code_blocks[0].content, "+y");
    assert_eq!(s.sections[0].files, vec!["a.rs".to_string(), "b.rs".to_string()]);
}

#[test]
fn code_update_replaces_source_and_content() {
    let mut s = session_with_section();
    code_add(&mut s, "sec_1", diff_source("a.rs"), "+x".to_string()).unwrap();
    let file = CodeSource::File { path: "z.rs".to_string(), lines: None };
    let out = code_update(&mut s, "sec_1", "code_1", file, "fn z() {}".to_string()).unwrap();
    assert_eq!(out.stderr, vec!["Code block 'code_1' updated.".to_string()]);
    assert_eq!(s.sections[0].code_blocks[0].id, "code_1");
    assert_eq!(s.sections[0].code_blocks[0].content, "fn z() {}");
    assert_eq!(s.sections[0].files, vec!["z.rs".to_string()]);
    let err = code_update(&mut s, "sec_1", "code_4", diff_source("a.rs"), String::new()).unwrap_err();
    assert_eq!(err.to_string(), "Session error: Code block 'code_4' not found in section 'sec_1'");
}

#[test]
fn derive_files_collects_paths_in_order() {
    let mut section = Section::new("s".to_string(), "T".to_string(), "D".to_string(), String::new());
    section.files = vec!["stale.rs".to_string()];
    section.code_blocks.push(CodeBlock {
        id: "code_1".to_string(),
        source: CodeSource::Diff {
            paths: vec!["b.rs".to_string(), "a.rs".to_string()],
            hunks: None,
            lines: None,
        },
        content: String::new(),
    });
    section.code_blocks.push(CodeBlock {
        id: "code_2".to_string(),
        source: CodeSource::File { path: "a.rs".to_string(), lines: None },
        content: String::new(),
    });
    derive_files(&mut section);
    assert_eq!(section.files, vec!["b.rs".to_string(), "a.rs".to_string()]);
}

#[test]
fn highlighting_colors_diff_structure() {
    let block = CodeBlock {
        id: "code_1".to_string(),
        source: diff_source("src/lib.rs"),
        content: "diff --git a/src/lib.rs b/src/lib.rs\n--- a/src/lib.rs\n+++ b/src/lib.rs\n@@ -1,2 +1,2 @@\n fn keep() {}\n-let x = 1;\n+let x = 2;"
            .to_string(),
    };
    let rows = highlight_diff_lines(&vec![block]);
    assert_eq!(rows.len(), 7);
    assert_eq!(rows[0].len(), 1);
    assert_eq!(rows[0][0].color, SpanColor::Blue);
    assert_eq!(rows[2][0].color, SpanColor::Blue);
    assert_eq!(rows[3].len(), 1);
    assert_eq!(rows[3][0].color, SpanColor::Cyan);
    assert_eq!(rows[3][0].text, "@@ -1,2 +1,2 @@");
    assert_eq!(rows[4][0].text, " ");
    assert_eq!(rows[4][0].color, SpanColor::Default);
    assert_eq!(rows[5][0].text, "-");
    assert_eq!(rows[5][0].color, SpanColor::Red);
    assert_eq!(rows[6][0].text, "+");
    assert_eq!(rows[6][0].color, SpanColor::Green);
    assert!(rows[6].len() > 1);
    assert!(rows[6][1..].iter().all(|s| matches!(s.color, SpanColor::Rgb(_, _, _))));
    assert_eq!(row_text(&rows[6]), "+let x = 2;");
    assert_eq!(row_text(&rows[4]), " fn keep() {}");
}

#[test]
fn highlighting_goes_block_after_block() {
    let first = CodeBlock {
        id: "code_1".to_string(),
        source: CodeSource::File { path: "main.py".to_string(), lines: None },
        content: "def f():\n    return 1\n".to_string(),
    };
    let second = CodeBlock {
        id: "code_2".to_string(),
        source: CodeSource::Diff { paths: vec![], hunks: None, lines: None },
        content: "plain text".to_string(),
    };
    let rows = highlight_diff_lines(&vec![first, second]);
    assert_eq!(rows.len(), 3);
    assert_eq!(row_text(&rows[0]), "def f():");
    assert_eq!(row_text(&rows[1]), "    return 1");
    assert_eq!(row_text(&rows[2]), "plain text");
    assert!(rows[2].iter().all(|s| matches!(s.color, SpanColor::Rgb(_, _, _))));
    assert!(highlight_diff_lines(&vec![]).is_empty());
}

#[test]
fn bullet_lists() {
    assert_eq!(bullet_text(&vec![]), "(none)");
    assert_eq!(bullet_text(&vec!["a".to_string()]), "- a");
    assert_eq!(bullet_text(&vec!["a".to_string(), "b".to_string()]), "- a\n- b");
    assert_eq!(bullet_text(&vec![String::new()]), "(none)");
}

#[test]
fn deleting_the_added_block_restores_the_section() {
    let mut s = session_with_section();
    code_add(&mut s, "sec_1", diff_source("a.rs"), "+x".to_string()).unwrap();
    let out = code_add(&mut s, "sec_1", diff_source("b.rs"), "+y".to_string()).unwrap();
    let new_id = out.stdout[0].clone();
    code_delete(&mut s, "sec_1", &new_id).unwrap();
    assert_eq!(ids(&s), vec!["code_1"]);
    assert_eq!(s.sections[0].code_blocks[0].content, "+x");
    assert_eq!(s.sections[0].files, vec!["a.rs".to_string()]);
}

#[test]
fn code_dispatches_each_action() {
    let mut s = session_with_section();
    let add = CodeAction::Add {
        section_id: "sec_1".to_string(),
        only: Some("a.rs".to_string()),
        file: None,
        hunks: None,
        lines: None,
    };
    let out = code(&mut s, add, Some((diff_source("a.rs"), "+x".to_string()))).unwrap();
    assert_eq!(out.stdout, vec!["code_1".to_string()]);
    let show = CodeAction::Show { section_id: "sec_1".to_string(), code_id: "code_1".to_string() };
    assert_eq!(code(&mut s, show, None).unwrap().stdout, vec!["+x".to_string()]);
    let list = CodeAction::List { section_id: "sec_1".to_string() };
    assert_eq!(
        code(&mut s, list, None).unwrap().stdout,
        vec!["code_1: diff: a.rs (1 lines)".to_string()]
    );
    let update = CodeAction::Update {
        section_id: "sec_1".to_string(),
        code_id: "code_1".to_string(),
        only: None,
        file: Some("b.rs".to_string()),
        hunks: None,
        lines: None,
    };
    let file = CodeSource::File { path: "b.rs".to_string(), lines: None };
    code(&mut s, update, Some((file, "fn b() {}".to_string()))).unwrap();
    assert_eq!(s.sections[0].files, vec!["b.rs".to_string()]);
    let moved = CodeAction::Move {
        section_id: "sec_1".to_string(),
        code_id: "code_1".to_string(),
        target_section_id: "sec_2".to_string(),
    };
    let err = code(&mut s, moved, None).unwrap_err();
    assert_eq!(err.to_string(), "Session error: Moving a code block between sections is not supported");
    let delete = CodeAction::Delete { section_id: "sec_1".to_string(), code_id: "code_1".to_string() };
    code(&mut s, delete, None).unwrap();
    assert!(s.sections[0].code_blocks.is_empty());
    assert!(s.sections[0].files.is_empty());
}

#[test]
fn section_commands_count_code_blocks() {
    let mut s = session_with_section();
    code_add(&mut s, "sec_1", diff_source("a.rs"), "+x".to_string()).unwrap();
    let listed = section(&mut s, SectionAction::List).unwrap();
    assert_eq!(listed.stdout, vec!["sec_1: Title (1 code blocks, untagged)".to_string()]);
    let shown = section(&mut s, SectionAction::Show { id: "sec_1".to_string() }).unwrap();
    assert_eq!(shown.stdout[4], "Code blocks: 1");
    assert_eq!(shown.stdout[5], "Files: a.rs");
}

#[test]
fn hypothesis_code_colored_by_prefix() {
    let spans = gauge::screens::highlight::color_code_lines(
        "+a\n+++ b\n-c\n--- d\n@@ x\ndiff y\nindex z\n plain",
    );
    let colors: Vec<SpanColor> = spans.iter().map(|s| s.color).collect();
    assert_eq!(
        colors,
        vec![
            SpanColor::Green,
            SpanColor::Default,
            SpanColor::Red,
            SpanColor::Default,
            SpanColor::Cyan,
            SpanColor::Blue,
            SpanColor::Blue,
            SpanColor::Default,
        ]
    );
    assert_eq!(spans[1].text, "+++ b");
    assert_eq!(spans[7].text, " plain");
}
