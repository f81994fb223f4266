use vstd::prelude::*;

use crate::text::{
    all_digits, chars_of, decimal, index_of, is_digit, lemma_decimal_digits, lemma_index_of,
    lemma_index_of_is, lemma_parse_decimal, parse_usize, parse_usize_range, string_from_range,
    usize_to_string,
};

verus! {

/// Interactive code review TUI for understanding diffs.
#[derive(Debug)]
pub struct Cli {
    pub command: Command,
}

/// The subcommands.
#[derive(Debug)]
#[allow(inconsistent_fields)]
pub enum Command {
    /// Create a new review session.
    Init { name: String, base: Option<String> },
    /// Launch TUI for a session.
    Open { name: String },
    /// List all sessions.
    List,
    /// Mark active session ready for triage.
    Done,
    /// Manage sections.
    Section { action: SectionAction },
    /// Manage code blocks within sections.
    Code { action: CodeAction },
    /// Diff utilities.
    Diff { action: DiffAction },
}

#[derive(Debug)]
#[allow(inconsistent_fields)]
pub enum SectionAction {
    Add { title: String, description: String },
    Show { id: String },
    List,
    Delete { id: String },
    Reorder { ids: Vec<String> },
    Update { id: String, title: Option<String>, description: Option<String> },
}

#[derive(Debug)]
#[allow(inconsistent_fields)]
pub enum CodeAction {
    Add {
        section_id: String,
        only: Option<String>,
        file: Option<String>,
        hunks: Option<Vec<usize>>,
        lines: Option<String>,
    },
    Show { section_id: String, code_id: String },
    List { section_id: String },
    Delete { section_id: String, code_id: String },
    Move { section_id: String, code_id: String, target_section_id: String },
    Reorder { section_id: String, ids: Vec<String> },
    Update {
        section_id: String,
        code_id: String,
        only: Option<String>,
        file: Option<String>,
        hunks: Option<Vec<usize>>,
        lines: Option<String>,
    },
}

#[derive(Debug)]
pub enum DiffAction {
    Preview { only: String },
}

/// Number of times `c` occurs in `s`.
pub open spec fn count_char(s: Seq<char>, c: char) -> nat
    decreases s.len(),
{
    if s.len() == 0 {
        0
    } else {
        count_char(s.drop_last(), c) + if s.last() == c {
            1nat
        } else {
            0nat
        }
    }
}

/// What `parse_line_range` answers for the text `s`: `start-end` with both
/// numbers at least 1 and `start <= end`, or the message saying what is wrong.
pub open spec fn line_range_of(s: Seq<char>) -> Result<(usize, usize), Seq<char>> {
    if count_char(s, '-') != 1 {
        Err("Invalid line range '"@ + s + "', expected format: start-end"@)
    } else {
        let j = index_of(s, '-');
        let a = s.take(j);
        let b = s.skip(j + 1);
        match parse_usize(a) {
            None => Err("Invalid start line '"@ + a + "'"@),
            Some(start) => match parse_usize(b) {
                None => Err("Invalid end line '"@ + b + "'"@),
                Some(end) => if start == 0 || end == 0 {
                    Err("Line numbers must be >= 1"@)
                } else if start > end {
                    Err(
                        "Start line "@ + decimal(start as nat) + " is greater than end line "@
                            + decimal(end as nat),
                    )
                } else {
                    Ok((start, end))
                },
            },
        }
    }
}

/// Writing a valid range as `start-end` and parsing it gives the range back.
pub proof fn lemma_line_range_round_trip(start: usize, end: usize)
    requires
        1 <= start <= end,
    ensures
        line_range_of(decimal(start as nat) + "-"@ + decimal(end as nat)) == Ok::<
            (usize, usize),
            Seq<char>,
        >((start, end)),
{
    reveal_strlit("-");
    let a = decimal(start as nat);
    let b = decimal(end as nat);
    let s = a + "-"@ + b;
    lemma_decimal_digits(start as nat);
    lemma_decimal_digits(end as nat);
    lemma_parse_decimal(start);
    lemma_parse_decimal(end);
    assert forall|i: int| 0 <= i < a.len() implies s[i] != '-' by {
        assert(s[i] == a[i]);
        assert(is_digit(a[i]));
    }
    assert(s[a.len() as int] == '-');
    lemma_index_of_is(s, '-', a.len() as int);
    assert(s.take(a.len() as int) =~= a);
    assert(s.skip(a.len() as int + 1) =~= b);
    lemma_no_dash(a);
    lemma_no_dash(b);
    lemma_count_char_concat(a + "-"@, b, '-');
    lemma_count_char_concat(a, "-"@, '-');
    assert(count_char("-"@, '-') == 1) by {
        reveal_strlit("-");
        assert("-"@.len() == 1);
        assert("-"@.last() == '-');
        assert("-"@.drop_last() =~= Seq::<char>::empty());
        assert(count_char(Seq::<char>::empty(), '-') == 0);
    }
}

proof fn lemma_no_dash(d: Seq<char>)
    requires
        all_digits(d),
    ensures
        count_char(d, '-') == 0,
    decreases d.len(),
{
    if d.len() > 0 {
        assert(is_digit(d[d.len() - 1]));
        assert forall|i: int| 0 <= i < d.drop_last().len() implies is_digit(#[trigger] d.drop_last()[i]) by {
            assert(d.drop_last()[i] == d[i]);
        }
        lemma_no_dash(d.drop_last());
    }
}

proof fn lemma_count_char_concat(x: Seq<char>, y: Seq<char>, c: char)
    ensures
        count_char(x + y, c) == count_char(x, c) + count_char(y, c),
    decreases y.len(),
{
    if y.len() == 0 {
        assert(x + y =~= x);
    } else {
        assert((x + y).drop_last() =~= x + y.drop_last());
        lemma_count_char_concat(x, y.drop_last(), c);
    }
}

pub proof fn lemma_count_char_step(s: Seq<char>, i: int, c: char)
    requires
        0 <= i < s.len(),
    ensures
        count_char(s.take(i + 1), c) == count_char(s.take(i), c) + if s[i] == c {
            1nat
        } else {
            0nat
        },
{
    assert(s.take(i + 1).drop_last() =~= s.take(i));
}

/// Parse a line range string like "10-25" into (start, end).
pub fn parse_line_range(s: &str) -> (r: Result<(usize, usize), String>)
    ensures
        match r {
            Ok(p) => line_range_of(s@) == Ok::<(usize, usize), Seq<char>>(p),
            Err(m) => line_range_of(s@) == Err::<(usize, usize), Seq<char>>(m@),
        },
{
    let v = chars_of(s);
    let mut dashes: usize = 0;
    let mut first: usize = 0;
    let mut i: usize = 0;
    while i < v.len()
        invariant
            v@ == s@,
            i <= v.len(),
            dashes == count_char(v@.take(i as int), '-'),
            dashes <= i,
            dashes == 0 ==> forall|k: int| 0 <= k < i ==> v@[k] != '-',
            dashes > 0 ==> first < i && v@[first as int] == '-' && forall|k: int|
                0 <= k < first ==> v@[k] != '-',
        decreases v.len() - i,
    {
        proof {
            lemma_count_char_step(v@, i as int, '-');
        }
        if v[i] == '-' {
            if dashes == 0 {
                first = i;
            }
            dashes = dashes + 1;
        }
        i = i + 1;
    }
    assert(v@.take(v@.len() as int) =~= v@);
    if dashes != 1 {
        let mut m = String::from_str("Invalid line range '");
        m.append(s);
        m.append("', expected format: start-end");
        return Err(m);
    }
    proof {
        lemma_index_of(v@, '-');
        if index_of(v@, '-') < 0 {
            assert(v@[first as int] != '-');
        } else if index_of(v@, '-') < first {
        } else if index_of(v@, '-') > first {
        }
        assert(index_of(v@, '-') == first);
        assert(v@.take(first as int) =~= v@.subrange(0, first as int));
        assert(v@.skip(first + 1) =~= v@.subrange(first + 1, v@.len() as int));
    }
    let start = parse_usize_range(&v, 0, first);
    let start = match start {
        Some(x) => x,
        None => {
            let mut m = String::from_str("Invalid start line '");
            m.append(string_from_range(&v, 0, first).as_str());
            m.append("'");
            return Err(m);
        },
    };
    let end = parse_usize_range(&v, first + 1, v.len());
    let end = match end {
        Some(x) => x,
        None => {
            let mut m = String::from_str("Invalid end line '");
            m.append(string_from_range(&v, first + 1, v.len()).as_str());
            m.append("'");
            return Err(m);
        },
    };
    if start == 0 || end == 0 {
        return Err(String::from_str("Line numbers must be >= 1"));
    }
    if start > end {
        let mut m = String::from_str("Start line ");
        m.append(usize_to_string(start).as_str());
        m.append(" is greater than end line ");
        m.append(usize_to_string(end).as_str());
        return Err(m);
    }
    Ok((start, end))
}

} // verus!
