use vstd::prelude::*;

use crate::error::AppError;
use crate::text::{
    append_str, chars_of, line_ranges, lines, owned, range_texts, string_from_range, trim,
    trim_str,
};

verus! {

/// The lines of a text joined by `'\n'`.
pub open spec fn join_lines(ls: Seq<Seq<char>>) -> Seq<char>
    decreases ls.len(),
{
    if ls.len() == 0 {
        Seq::empty()
    } else if ls.len() == 1 {
        ls[0]
    } else {
        join_lines(ls.drop_last()) + "\n"@ + ls.last()
    }
}

/// A single line is joined to itself.
pub proof fn lemma_join_lines_one(x: Seq<char>)
    ensures
        join_lines(seq![x]) == x,
{
}

/// Joining two non-empty runs of lines one after the other puts exactly one newline
/// between the first run's text and the second's.
pub proof fn lemma_join_lines_concat(a: Seq<Seq<char>>, b: Seq<Seq<char>>)
    requires
        a.len() > 0,
        b.len() > 0,
    ensures
        join_lines(a + b) == join_lines(a) + "\n"@ + join_lines(b),
    decreases b.len(),
{
    if b.len() == 1 {
        assert((a + b).drop_last() =~= a);
        assert((a + b).last() == b[0]);
    } else {
        lemma_join_lines_concat(a, b.drop_last());
        assert((a + b).drop_last() =~= a + b.drop_last());
        assert((a + b).last() == b.last());
        assert(join_lines(a + b) =~= join_lines(a) + "\n"@ + join_lines(b));
    }
}

/// The lines whose 1-based numbers lie in `start..=end`, in order.
pub open spec fn lines_between(ls: Seq<Seq<char>>, start: usize, end: usize) -> Seq<Seq<char>>
    decreases ls.len(),
{
    if ls.len() == 0 {
        Seq::empty()
    } else {
        let rest = lines_between(ls.drop_last(), start, end);
        if start <= ls.len() && ls.len() <= end {
            rest.push(ls.last())
        } else {
            rest
        }
    }
}

/// The lines numbered `start..=end` (counting from 1) are a run of consecutive
/// lines: every line from the first number in range up to the last line there is
/// kept, blank or not, and nothing else (nothing when the range holds no line).
pub proof fn lemma_lines_between_is_range(ls: Seq<Seq<char>>, start: usize, end: usize)
    ensures
        ({
            let lo: int = if start == 0 { 0 } else { start - 1 };
            let hi: int = if end < ls.len() { end as int } else { ls.len() as int };
            lines_between(ls, start, end) == if lo < hi {
                ls.subrange(lo, hi)
            } else {
                Seq::<Seq<char>>::empty()
            }
        }),
    decreases ls.len(),
{
    if ls.len() > 0 {
        let init = ls.drop_last();
        lemma_lines_between_is_range(init, start, end);
        let lo: int = if start == 0 { 0 } else { start - 1 };
        let hi: int = if end < ls.len() { end as int } else { ls.len() as int };
        let hi0: int = if end < init.len() { end as int } else { init.len() as int };
        if start <= ls.len() && ls.len() <= end {
            assert(hi == ls.len());
            assert(hi0 == ls.len() - 1);
            if lo < hi0 {
                assert(init.subrange(lo, hi0).push(ls.last()) =~= ls.subrange(lo, hi));
            } else {
                assert(lo == ls.len() - 1);
                assert(Seq::<Seq<char>>::empty().push(ls.last()) =~= ls.subrange(lo, hi));
            }
        } else {
            if lo < hi {
                assert(hi == hi0);
                assert(init.subrange(lo, hi0) =~= ls.subrange(lo, hi));
            }
        }
    }
}

/// Lines `start..=end` (1-based) of a file's content, joined by `'\n'`.
pub fn select_lines(content: &str, start: usize, end: usize) -> (r: String)
    ensures
        r@ == join_lines(lines_between(lines(content@), start, end)),
{
    let v = chars_of(content);
    let ranges = line_ranges(&v);
    let ghost all = lines(v@);
    let mut out = String::new();
    let mut picked: usize = 0;
    let mut i: usize = 0;
    while i < ranges.len()
        invariant
            v@ == content@,
            all == lines(v@),
            range_texts(v@, ranges@) == all,
            forall|k: int| 0 <= k < ranges@.len() ==> #[trigger] ranges@[k].0 <= ranges@[k].1 <= v@.len(),
            i <= ranges@.len(),
            picked == lines_between(all.take(i as int), start, end).len(),
            picked <= i,
            out@ == join_lines(lines_between(all.take(i as int), start, end)),
        decreases ranges@.len() - i,
    {
        let ghost before = lines_between(all.take(i as int), start, end);
        proof {
            assert(all.take(i + 1).drop_last() =~= all.take(i as int));
            assert(all.take(i + 1).last() == all[i as int]);
        }
        let number = i + 1;
        if start <= number && number <= end {
            let (a, b) = ranges[i];
            let line = string_from_range(&v, a, b);
            assert(line@ == all[i as int]);
            if picked > 0 {
                append_str(&mut out, "\n");
            }
            append_str(&mut out, line.as_str());
            picked = picked + 1;
            proof {
                let now = lines_between(all.take(i + 1), start, end);
                assert(now == before.push(all[i as int]));
                assert(now.drop_last() =~= before);
                if before.len() == 0 {
                    assert(out@ =~= join_lines(now));
                } else {
                    assert(out@ =~= join_lines(now));
                }
            }
        }
        i = i + 1;
    }
    assert(all.take(i as int) =~= all);
    out
}

/// What a git command that prints one value gives: its output trimmed, or on failure
/// an error made of `failure_head` and its trimmed error output.
pub open spec fn command_value(
    success: bool,
    stdout: Seq<char>,
    stderr: Seq<char>,
    failure_head: Seq<char>,
) -> Result<Seq<char>, Seq<char>> {
    if success {
        Ok(trim(stdout))
    } else {
        Err(failure_head + trim(stderr))
    }
}

/// Interpret the outcome of a git command that prints one value (a path, a branch, a
/// commit): `Ok` with the trimmed output, or a `Git` error.
pub fn command_output(success: bool, stdout: &str, stderr: &str, failure_head: &str) -> (r: Result<
    String,
    AppError,
>)
    ensures
        match command_value(success, stdout@, stderr@, failure_head@) {
            Ok(v) => r matches Ok(s) && s@ == v,
            Err(m) => r matches Err(AppError::Git(e)) && e@ == m,
        },
{
    if success {
        Ok(trim_str(stdout))
    } else {
        let mut m = owned(failure_head);
        append_str(&mut m, trim_str(stderr).as_str());
        Err(AppError::Git(m))
    }
}

/// Interpret the outcome of `git diff`: its output as it is, or a `Git` error with the
/// trimmed error output.
pub fn diff_output(success: bool, stdout: &str, stderr: &str) -> (r: Result<String, AppError>)
    ensures
        success ==> (r matches Ok(s) && s@ == stdout@),
        !success ==> (r matches Err(AppError::Git(e)) && e@ == "git diff failed: "@ + trim(stderr@)),
{
    if success {
        Ok(owned(stdout))
    } else {
        let mut m = owned("git diff failed: ");
        append_str(&mut m, trim_str(stderr).as_str());
        Err(AppError::Git(m))
    }
}

/// The opening of the error for a ref that does not resolve.
pub fn resolve_ref_failure_head(reference: &str) -> (r: String)
    ensures
        r@ == "Failed to resolve ref '"@ + reference@ + "': "@,
{
    let mut m = owned("Failed to resolve ref '");
    append_str(&mut m, reference);
    append_str(&mut m, "': ");
    m
}

/// The revision range of a diff from `base_ref` to `HEAD`.
pub fn diff_range(base_ref: &str) -> (r: String)
    ensures
        r@ == base_ref@ + "..HEAD"@,
{
    let mut m = owned(base_ref);
    append_str(&mut m, "..HEAD");
    m
}

/// The checks made, in turn, to find the default branch.
#[derive(Clone, Copy, Debug, PartialEq, Eq, Structural)]
pub enum BranchProbe {
    /// `git config --get init.defaultBranch`.
    Config,
    /// `git rev-parse --verify main`.
    Main,
    /// `git rev-parse --verify master`.
    Master,
}

/// What to do after a check.
#[derive(Debug)]
pub enum BranchDecision {
    /// The default branch is found.
    Found(String),
    /// Run the next check.
    Probe(BranchProbe),
    /// No check found it.
    Fail(AppError),
}

/// The message when neither `main` nor `master` exists.
pub const NO_DEFAULT_BRANCH: &'static str = "Could not detect default branch (neither 'main' nor 'master' found)";

/// What follows a check that succeeded or not, with its output: a configured default
/// branch is taken when it is not blank; else `main`, then `master`, are tried.
pub open spec fn branch_decision_spec(
    probe: BranchProbe,
    success: bool,
    stdout: Seq<char>,
) -> Result<Seq<char>, Option<BranchProbe>> {
    match probe {
        BranchProbe::Config => if success && trim(stdout).len() > 0 {
            Ok(trim(stdout))
        } else {
            Err(Some(BranchProbe::Main))
        },
        BranchProbe::Main => if success {
            Ok("main"@)
        } else {
            Err(Some(BranchProbe::Master))
        },
        BranchProbe::Master => if success {
            Ok("master"@)
        } else {
            Err(None)
        },
    }
}

/// Decide, after one check of the default branch, whether it is found, which check
/// comes next, or that it cannot be found.
pub fn next_branch_step(probe: BranchProbe, success: bool, stdout: &str) -> (r: BranchDecision)
    ensures
        match branch_decision_spec(probe, success, stdout@) {
            Ok(b) => r matches BranchDecision::Found(s) && s@ == b,
            Err(Some(p)) => r == BranchDecision::Probe(p),
            Err(None) => r matches BranchDecision::Fail(AppError::Git(m)) && m@
                == NO_DEFAULT_BRANCH@,
        },
{
    match probe {
        BranchProbe::Config => {
            if success {
                let branch = trim_str(stdout);
                if !branch.as_str().is_empty() {
                    return BranchDecision::Found(branch);
                }
            }
            BranchDecision::Probe(BranchProbe::Main)
        },
        BranchProbe::Main => {
            if success {
                BranchDecision::Found(owned("main"))
            } else {
                BranchDecision::Probe(BranchProbe::Master)
            }
        },
        BranchProbe::Master => {
            if success {
                BranchDecision::Found(owned("master"))
            } else {
                BranchDecision::Fail(AppError::Git(owned(NO_DEFAULT_BRANCH)))
            }
        },
    }
}

} // verus!
