use gauge::diff_parser::{
    filter_by_hunks, filter_by_lines, format_hunk_preview, hunk_headers_safe_check, parse_hunks,
    patch_safe_check, Hunk,
};

const SAMPLE_DIFF: &str = "\
diff --git a/src/main.rs b/src/main.rs
index abcdef1..abcdef2 100644
--- a/src/main.rs
+++ b/src/main.rs
@@ -1,5 +1,6 @@
 use std::io;
+use std::fs;

 fn main() {
     println!(\"hello\");
@@ -10,3 +11,5 @@
 fn helper() {
+    // new comment
+    do_thing();
     old_thing();
 }
";

#[test]
fn test_parse_hunks() {
    let hunks = parse_hunks(SAMPLE_DIFF);
    assert_eq!(hunks.len(), 2);
    assert_eq!(hunks[0].index, 1);
    assert_eq!(hunks[0].new_start, 1);
    assert_eq!(hunks[0].new_count, 6);
    assert_eq!(hunks[1].index, 2);
    assert_eq!(hunks[1].new_start, 11);
    assert_eq!(hunks[1].new_count, 5);
}

#[test]
fn test_filter_by_hunks() {
    let hunks = parse_hunks(SAMPLE_DIFF);
    let result = filter_by_hunks(&hunks, &[2]).unwrap();
    assert!(result.contains("new comment"));
    assert!(!result.contains("use std::fs"));
}

#[test]
fn test_filter_by_hunks_invalid_index() {
    let hunks = parse_hunks(SAMPLE_DIFF);
    let result = filter_by_hunks(&hunks, &[99]);
    assert!(result.is_err());
}

#[test]
fn test_filter_by_lines() {
    let hunks = parse_hunks(SAMPLE_DIFF);
    let result = filter_by_lines(&hunks, 11, 15);
    assert!(result.contains("new comment"));
    assert!(!result.contains("use std::fs"));
}

#[test]
fn test_filter_by_lines_overlap() {
    let hunks = parse_hunks(SAMPLE_DIFF);
    let result = filter_by_lines(&hunks, 1, 15);
    assert!(result.contains("use std::fs"));
    assert!(result.contains("new comment"));
}

#[test]
fn test_empty_diff() {
    let hunks = parse_hunks("");
    assert!(hunks.is_empty());
}

#[test]
fn test_preamble_included_in_first_hunk() {
    let hunks = parse_hunks(SAMPLE_DIFF);
    assert!(hunks[0].content.contains("--- a/src/main.rs"));
    assert!(hunks[0].content.contains("+++ b/src/main.rs"));
    assert!(!hunks[1].content.contains("--- a/src/main.rs"));
}

#[test]
fn test_format_hunk_preview() {
    let hunks = parse_hunks(SAMPLE_DIFF);
    let preview = format_hunk_preview(&hunks);
    assert!(preview.contains("Hunk 1"));
    assert!(preview.contains("Hunk 2"));
}

#[test]
fn test_header_with_function_context() {
    let diff = "\
diff --git a/src/lib.rs b/src/lib.rs
--- a/src/lib.rs
+++ b/src/lib.rs
@@ -100,5 +200,7 @@ fn process(-data: &str)
 fn helper() {
+    new_thing();
     old_thing();
 }
";
    let hunks = parse_hunks(diff);
    assert_eq!(hunks.len(), 1);
    assert_eq!(hunks[0].old_start, 100);
    assert_eq!(hunks[0].new_start, 200);
    assert_eq!(hunks[0].new_count, 7);
}

#[test]
fn test_single_line_hunk_header() {
    let diff = "\
diff --git a/f.rs b/f.rs
--- a/f.rs
+++ b/f.rs
@@ -1 +1 @@
-old
+new
";
    let hunks = parse_hunks(diff);
    assert_eq!(hunks.len(), 1);
    assert_eq!(hunks[0].old_start, 1);
    assert_eq!(hunks[0].new_start, 1);
    assert_eq!(hunks[0].new_count, 1);
}

#[test]
fn test_deletion_hunk_excluded_from_line_filter() {
    let diff = "\
diff --git a/f.rs b/f.rs
--- a/f.rs
+++ b/f.rs
@@ -10,3 +10,0 @@
-removed1
-removed2
-removed3
";
    let hunks = parse_hunks(diff);
    assert_eq!(hunks.len(), 1);
    assert_eq!(hunks[0].new_count, 0);
    let result = filter_by_lines(&hunks, 1, 100);
    assert!(result.is_empty());
}

fn hunk(index: usize, content: &str, new_start: usize, new_count: usize) -> Hunk {
    Hunk {
        index,
        header: format!("@@ -1 +{},{} @@", new_start, new_count),
        content: content.to_string(),
        old_start: 1,
        new_start,
        new_count,
    }
}

#[test]
fn filter_by_hunks_keeps_requested_order() {
    let hunks = vec![hunk(1, "A\n", 1, 2), hunk(2, "B\n", 5, 1)];
    assert_eq!(filter_by_hunks(&hunks, &[2, 1]).unwrap(), "B\nA\n");
    assert_eq!(filter_by_hunks(&hunks, &[]).unwrap(), "");
    let err = filter_by_hunks(&hunks, &[1, 3]).unwrap_err();
    assert_eq!(err.to_string(), "Git error: Hunk index 3 not found (have 1..2)");
}

#[test]
fn filter_by_lines_uses_new_file_span() {
    let hunks = vec![hunk(1, "A\n", 1, 2), hunk(2, "B\n", 5, 1)];
    assert_eq!(filter_by_lines(&hunks, 2, 4), "A\n");
    assert_eq!(filter_by_lines(&hunks, 5, 5), "B\n");
    assert_eq!(filter_by_lines(&hunks, 3, 4), "");
}

#[test]
fn preview_format_exact() {
    let hunks = vec![hunk(1, "@@ -1 +1,2 @@\n+a\n-b\n c\n", 1, 2)];
    assert_eq!(
        format_hunk_preview(&hunks),
        "--- Hunk 1 ---  @@ -1 +1,2 @@\n  +1 -1 lines (new file: lines 1-2)\n\n"
    );
}

#[test]
fn header_safety_check() {
    assert!(hunk_headers_safe_check(SAMPLE_DIFF));
    assert!(!hunk_headers_safe_check("@@ -99999999999999999999999,1 +1 @@\n"));
}

#[test]
fn patch_safety_needs_a_source_line_before_each_target_line() {
    assert!(patch_safe_check(SAMPLE_DIFF));
    assert!(patch_safe_check(""));
    assert!(!patch_safe_check("+++ b/x\n"));
    assert!(!patch_safe_check("@@ -1 +1 @@\n+++ b/x\n"));
    // A second target line after a source line is refused by the parser with an
    // error, not a crash, so it is safe to hand over.
    assert!(patch_safe_check("--- a/x\n+++ b/x\n@@ -1 +1 @@\n-a\n+b\n+++ b/y\n"));
    assert!(parse_hunks("--- a/x\n+++ b/x\n@@ -1 +1 @@\n-a\n+b\n+++ b/y\n").is_empty());
    assert!(patch_safe_check("--- a/x\n+++ b/x\n@@ -1 +1 @@\n-a\n+b\n--- a/y\n+++ b/y\n"));
}
