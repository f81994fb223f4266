use gauge::git::{
    command_output, diff_output, diff_range, next_branch_step, resolve_ref_failure_head,
    select_lines, BranchDecision, BranchProbe,
};

#[test]
fn select_lines_is_one_based_and_inclusive() {
    let text = "a\nb\nc\r\nd";
    assert_eq!(select_lines(text, 2, 3), "b\nc");
    assert_eq!(select_lines(text, 0, 1), "a");
    assert_eq!(select_lines(text, 3, 2), "");
    assert_eq!(select_lines("", 1, 5), "");
}

#[test]
fn command_outputs() {
    assert_eq!(command_output(true, "  /repo\n", "", "x: ").unwrap(), "/repo");
    let err = command_output(false, "", " not a repo \n", "Failed to get repo root: ").unwrap_err();
    assert_eq!(err.to_string(), "Git error: Failed to get repo root: not a repo");
    assert_eq!(diff_output(true, " +a\n", "").unwrap(), " +a\n");
    assert_eq!(
        diff_output(false, "", "bad\n").unwrap_err().to_string(),
        "Git error: git diff failed: bad"
    );
    assert_eq!(resolve_ref_failure_head("v1"), "Failed to resolve ref 'v1': ");
    assert_eq!(diff_range("abc"), "abc..HEAD");
}

#[test]
fn default_branch_steps() {
    match next_branch_step(BranchProbe::Config, true, " trunk\n") {
        BranchDecision::Found(b) => assert_eq!(b, "trunk"),
        other => panic!("unexpected {:?}", other),
    }
    match next_branch_step(BranchProbe::Config, true, "  ") {
        BranchDecision::Probe(p) => assert_eq!(p, BranchProbe::Main),
        other => panic!("unexpected {:?}", other),
    }
    match next_branch_step(BranchProbe::Main, false, "") {
        BranchDecision::Probe(p) => assert_eq!(p, BranchProbe::Master),
        other => panic!("unexpected {:?}", other),
    }
    match next_branch_step(BranchProbe::Master, true, "") {
        BranchDecision::Found(b) => assert_eq!(b, "master"),
        other => panic!("unexpected {:?}", other),
    }
    match next_branch_step(BranchProbe::Master, false, "") {
        BranchDecision::Fail(e) => assert_eq!(
            e.to_string(),
            "Git error: Could not detect default branch (neither 'main' nor 'master' found)"
        ),
        other => panic!("unexpected {:?}", other),
    }
}
