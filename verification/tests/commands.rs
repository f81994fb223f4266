use gauge::cli::SectionAction;
use gauge::commands::{
    active_session, context_key, diff_content, diff_preview, file_content, init_plan,
    mark_done, next_section_id, plan_content, resolve_content, section, session_list_line, session_to_open,
    InitPlan,
};
use gauge::models::{CodeSource, ReviewStage, Section, Session, Tag};
use gauge::session::SessionLoadResult;

const SAMPLE_DIFF: &str = "\
diff --git a/src/main.rs b/src/main.rs
--- a/src/main.rs
+++ b/src/main.rs
@@ -1,2 +1,3 @@
 use std::io;
+use std::fs;
 fn main() {}
@@ -10,2 +11,3 @@
 fn helper() {
+    // new comment
 }
";

fn session_with(ids: &[&str]) -> Session {
    let mut s = Session::new("test".to_string(), String::new());
    for id in ids {
        s.sections.push(Section::new(
            id.to_string(),
            format!("Title {}", id),
            format!("Desc {}", id),
            String::new(),
        ));
    }
    s
}

#[test]
fn test_resolve_content_requires_source() {
    let result = plan_content(None, None, None, None);
    assert!(result.is_err());
    assert!(result.unwrap_err().to_string().contains("--only or --file"));
}

#[test]
fn test_parse_line_range_in_resolve() {
    let result = plan_content(Some("foo.rs".to_string()), None, None, Some("bad".to_string()));
    assert!(result.is_err());
}

#[test]
fn plan_content_modes() {
    match plan_content(Some("a.rs".to_string()), None, Some(vec![1, 3]), Some("2-4".to_string())) {
        Ok(CodeSource::Diff { paths, hunks, lines }) => {
            assert_eq!(paths, vec!["a.rs".to_string()]);
            assert_eq!(hunks, Some(vec![1, 3]));
            assert_eq!(lines, Some((2, 4)));
        }
        other => panic!("expected a diff source, got {:?}", other),
    }
    match plan_content(None, Some("b.rs".to_string()), None, None) {
        Ok(CodeSource::File { path, lines }) => {
            assert_eq!(path, "b.rs");
            assert_eq!(lines, None);
        }
        other => panic!("expected a file source, got {:?}", other),
    }
    let both = plan_content(Some("a".to_string()), Some("b".to_string()), None, None);
    assert_eq!(
        both.unwrap_err().to_string(),
        "Session error: --only and --file are mutually exclusive"
    );
    let bad = plan_content(None, None, None, Some("9-1".to_string()));
    assert_eq!(bad.unwrap_err().to_string(), "Session error: Start line 9 is greater than end line 1");
}

#[test]
fn diff_content_cases() {
    let empty = diff_content("x.rs", "  \n", &None, None);
    assert_eq!(
        empty.unwrap_err().to_string(),
        "Session error: No diff found for 'x.rs'. File may not have changes."
    );
    assert_eq!(diff_content("x.rs", SAMPLE_DIFF, &None, None).unwrap(), SAMPLE_DIFF);
    let second = diff_content("x.rs", SAMPLE_DIFF, &Some(vec![2]), None).unwrap();
    assert!(second.contains("new comment"));
    assert!(!second.contains("use std::fs"));
    let by_lines = diff_content("x.rs", SAMPLE_DIFF, &None, Some((1, 2))).unwrap();
    assert!(by_lines.contains("use std::fs"));
    assert!(!by_lines.contains("new comment"));
    let missing = diff_content("x.rs", SAMPLE_DIFF, &Some(vec![5]), None);
    assert_eq!(
        missing.unwrap_err().to_string(),
        "Git error: Hunk index 5 not found (have 1..2)"
    );
}

#[test]
fn file_content_ranges() {
    let text = "one\ntwo\nthree\nfour\n";
    assert_eq!(file_content(text, None), text);
    assert_eq!(file_content(text, Some((2, 3))), "two\nthree");
    assert_eq!(file_content(text, Some((4, 10))), "four");
    assert_eq!(file_content(text, Some((5, 9))), "");
}

#[test]
fn section_reorder_refuses_repeated_ids() {
    let mut s = session_with(&["sec_1", "sec_2"]);
    let err = section(
        &mut s,
        SectionAction::Reorder { ids: vec!["sec_1".to_string(), "sec_1".to_string()] },
    )
    .unwrap_err();
    assert_eq!(
        err.to_string(),
        "Session error: Expected 2 section IDs, got 2. All sections must be included."
    );
    assert_eq!(s.sections.len(), 2);
    assert_eq!(s.sections[0].id, "sec_1");
    assert_eq!(s.sections[1].id, "sec_2");
    section(
        &mut s,
        SectionAction::Reorder { ids: vec!["sec_2".to_string(), "sec_1".to_string()] },
    )
    .unwrap();
    assert_eq!(s.sections[0].id, "sec_2");
    assert_eq!(s.sections[1].id, "sec_1");
}

#[test]
fn diff_preview_reports() {
    let out = diff_preview("x.rs", "");
    assert_eq!(out.stderr, vec!["No changes found for 'x.rs'.".to_string()]);
    let out = diff_preview("x.rs", "not a diff\n");
    assert_eq!(out.stderr, vec!["No hunks found in diff for 'x.rs'.".to_string()]);
    let out = diff_preview("x.rs", SAMPLE_DIFF);
    assert!(out.stderr.is_empty());
    assert_eq!(out.stdout.len(), 3);
    assert!(out.stdout[0].contains("--- Hunk 2 ---"));
    assert_eq!(out.stdout[1], "--- Full diff ---");
    assert_eq!(out.stdout[2], SAMPLE_DIFF);
}

#[test]
fn section_add_show_list() {
    let mut s = session_with(&["sec_1", "sec_7", "other"]);
    let out = section(
        &mut s,
        SectionAction::Add { title: "New".to_string(), description: "D".to_string() },
    )
    .unwrap();
    assert_eq!(out.stdout, vec!["sec_8".to_string()]);
    assert_eq!(s.sections.len(), 4);
    assert_eq!(s.sections[3].id, "sec_8");
    assert_eq!(s.sections[3].title, "New");

    s.sections[0].files = vec!["a.rs".to_string(), "b.rs".to_string()];
    s.sections[0].tag = Tag::Shaky;
    let shown = section(&mut s, SectionAction::Show { id: "sec_1".to_string() }).unwrap();
    assert_eq!(
        shown.stdout,
        vec![
            "ID: sec_1".to_string(),
            "Title: Title sec_1".to_string(),
            "Description: Desc sec_1".to_string(),
            "Tag: shaky".to_string(),
            "Code blocks: 0".to_string(),
            "Files: a.rs, b.rs".to_string(),
        ]
    );
    let listed = section(&mut s, SectionAction::List).unwrap();
    assert_eq!(listed.stdout[1], "sec_7: Title sec_7 (0 code blocks, untagged)");
    assert_eq!(listed.stdout.len(), 4);

    let mut empty = session_with(&[]);
    let none = section(&mut empty, SectionAction::List).unwrap();
    assert_eq!(none.stderr, vec!["No sections.".to_string()]);
    assert_eq!(next_section_id(&empty).unwrap(), "sec_1");
}

#[test]
fn section_delete_update_reorder() {
    let mut s = session_with(&["a", "b", "c"]);
    let err = section(&mut s, SectionAction::Delete { id: "zz".to_string() }).unwrap_err();
    assert_eq!(err.to_string(), "Session error: Section 'zz' not found");
    section(&mut s, SectionAction::Delete { id: "b".to_string() }).unwrap();
    assert_eq!(s.sections.len(), 2);
    assert_eq!(s.sections[1].id, "c");

    let out = section(
        &mut s,
        SectionAction::Update { id: "c".to_string(), title: Some("New C".to_string()), description: None },
    )
    .unwrap();
    assert_eq!(out.stderr, vec!["Section 'c' updated.".to_string()]);
    assert_eq!(s.sections[1].title, "New C");
    assert_eq!(s.sections[1].description, "Desc c");

    let wrong = section(&mut s, SectionAction::Reorder { ids: vec!["c".to_string()] }).unwrap_err();
    assert_eq!(
        wrong.to_string(),
        "Session error: Expected 2 section IDs, got 1. All sections must be included."
    );
    let missing =
        section(&mut s, SectionAction::Reorder { ids: vec!["x".to_string(), "y".to_string()] })
            .unwrap_err();
    assert_eq!(missing.to_string(), "Session error: Section 'x' not found");
    section(&mut s, SectionAction::Reorder { ids: vec!["c".to_string(), "a".to_string()] }).unwrap();
    assert_eq!(s.sections[0].id, "c");
    assert_eq!(s.sections[0].title, "New C");
    assert_eq!(s.sections[1].id, "a");
}

#[test]
fn sessions_loaded_for_commands() {
    let loaded = active_session("n", SessionLoadResult::Loaded(session_with(&["a"])));
    assert_eq!(loaded.unwrap().sections.len(), 1);
    let missing = active_session("n", SessionLoadResult::NotFound).unwrap_err();
    assert_eq!(
        missing.to_string(),
        "Session error: Active session 'n' not found. Run 'sherpa init <name>' to create one."
    );
    let corrupt = session_to_open(
        "n",
        SessionLoadResult::Corrupted { path: "/p.json".to_string(), error: "bad".to_string() },
    )
    .unwrap_err();
    assert_eq!(corrupt.to_string(), "Session error: Session file corrupted (/p.json): bad");
    let absent = session_to_open("n", SessionLoadResult::NotFound).unwrap_err();
    assert_eq!(absent.to_string(), "Session error: Session 'n' not found. Run 'sherpa init n' first.");
    assert_eq!(init_plan("n", &SessionLoadResult::NotFound).unwrap(), InitPlan::Create);
    let replace = SessionLoadResult::Corrupted { path: String::new(), error: String::new() };
    assert_eq!(init_plan("n", &replace).unwrap(), InitPlan::ReplaceCorrupted);
    let exists = init_plan("n", &SessionLoadResult::Loaded(session_with(&[]))).unwrap_err();
    assert_eq!(
        exists.to_string(),
        "Session error: Session 'n' already exists. Delete it first or choose a different name."
    );
}

#[test]
fn done_and_listing() {
    let mut empty = session_with(&[]);
    assert_eq!(
        mark_done(&mut empty).unwrap_err().to_string(),
        "Session error: No sections in session. Add sections before marking done."
    );
    let mut s = session_with(&["a", "b"]);
    mark_done(&mut s).unwrap();
    assert_eq!(s.stage, ReviewStage::Triage);
    assert_eq!(session_list_line("rev", true, Some(&s)), "rev * (triage, 2 sections)");
    assert_eq!(session_list_line("old", false, None), "old (corrupted)");
}

#[test]
fn context_keys() {
    let a = context_key("/repo", "main");
    assert_eq!(a.len(), 16);
    assert_eq!(a, context_key("/repo", "main"));
    assert_ne!(a, context_key("/repo", "dev"));
}

#[test]
fn resolve_content_from_what_was_read() {
    let whole = CodeSource::Diff { paths: vec!["src/main.rs".to_string()], hunks: None, lines: None };
    let (source, content) = resolve_content(whole, SAMPLE_DIFF).unwrap();
    assert_eq!(content, SAMPLE_DIFF);
    assert!(matches!(source, CodeSource::Diff { ref paths, .. } if paths[0] == "src/main.rs"));

    let picked = CodeSource::Diff { paths: vec!["src/main.rs".to_string()], hunks: Some(vec![2]), lines: None };
    let (_, content) = resolve_content(picked, SAMPLE_DIFF).unwrap();
    let hunks = gauge::diff_parser::parse_hunks(SAMPLE_DIFF);
    assert_eq!(content, gauge::diff_parser::filter_by_hunks(&hunks, &[2]).unwrap());
    assert!(content.contains("@@"));

    let empty = CodeSource::Diff { paths: vec!["x.rs".to_string()], hunks: None, lines: None };
    let err = resolve_content(empty, "  \n").unwrap_err();
    assert_eq!(err.to_string(), "Session error: No diff found for 'x.rs'. File may not have changes.");

    let file = CodeSource::File { path: "f.txt".to_string(), lines: Some((2, 3)) };
    let (_, content) = resolve_content(file, "one\ntwo\nthree\nfour").unwrap();
    assert_eq!(content, "two\nthree");
}
