use vstd::prelude::*;

use super::types::{AssessmentError, AssessmentResult, ChunkingError, ChunkingResult};
use crate::models::{Assessment, Section, Tag};

verus! {

/// What a client answers when a second operation is asked while one runs.
pub const BUSY_MESSAGE: &'static str = "AI client is busy with another operation";

/// The AI client interface for code review operations.
pub trait AiClient {
    /// Chunk a git diff into logical sections ordered by importance.
    fn chunk_diff(&mut self, diff: &str) -> ChunkingResult;

    /// Assess a user's hypothesis about what code does: what is correct, what
    /// diverges, and what was missed.
    fn assess_hypothesis(&mut self, code: &str, hypothesis: &str) -> AssessmentResult;

    /// Check if an AI operation is currently in progress.
    fn is_busy(&self) -> bool;
}

/// Stand-in client for tests: answers with fixed sections and a fixed assessment.
#[derive(Debug)]
pub struct MockAiClient {
    busy: bool,
}

/// `s` is a fresh section with the given id, title, description and code.
pub open spec fn is_stub_section(
    s: Section,
    id: Seq<char>,
    title: Seq<char>,
    description: Seq<char>,
    code: Seq<char>,
) -> bool {
    &&& s.id@ == id
    &&& s.title@ == title
    &&& s.description@ == description
    &&& s.code@ == code
    &&& s.files@.len() == 0
    &&& s.tag == Tag::Untagged
    &&& s.hypothesis is None
    &&& s.assessment is None
}

/// The three sections the stand-in client hands out.
pub open spec fn mock_sections(v: Seq<Section>) -> bool {
    &&& v.len() == 3
    &&& is_stub_section(
        v[0],
        "sec_1"@,
        "Core Data Models"@,
        "Defines the fundamental types used throughout the application"@,
        "// stub code for section 1"@,
    )
    &&& is_stub_section(
        v[1],
        "sec_2"@,
        "API Handlers"@,
        "HTTP request handlers for the REST API endpoints"@,
        "// stub code for section 2"@,
    )
    &&& is_stub_section(
        v[2],
        "sec_3"@,
        "Utility Functions"@,
        "Helper functions for string manipulation and validation"@,
        "// stub code for section 3"@,
    )
}

/// The assessment the stand-in client hands out.
pub open spec fn mock_assessment(a: Assessment) -> bool {
    &&& a.correct@.len() == 2
    &&& a.correct@[0]@ == "Correctly identified the main purpose of the function"@
    &&& a.correct@[1]@ == "Understood the error handling flow"@
    &&& a.diverges@.len() == 1
    &&& a.diverges@[0]@ == "The function actually returns early on empty input"@
    &&& a.missed@.len() == 1
    &&& a.missed@[0]@ == "The function also validates the input format"@
}

impl MockAiClient {
    pub fn new() -> (c: Self)
        ensures
            !c.busy_flag(),
    {
        MockAiClient { busy: false }
    }

    pub closed spec fn busy_flag(&self) -> bool {
        self.busy
    }

    /// Set the busy state manually for testing concurrent call rejection.
    pub fn set_busy(&mut self, busy: bool)
        ensures
            final(self).busy_flag() == busy,
    {
        self.busy = busy;
    }
}

impl Default for MockAiClient {
    fn default() -> (c: Self)
        ensures
            !c.busy_flag(),
    {
        MockAiClient::new()
    }
}

impl AiClient for MockAiClient {
    fn chunk_diff(&mut self, _diff: &str) -> (r: ChunkingResult)
        ensures
            final(self).busy_flag() == old(self).busy_flag(),
            old(self).busy_flag() ==> (r matches ChunkingResult::Error(e) && e.message@
                == BUSY_MESSAGE@ && e.raw_output is None),
            !old(self).busy_flag() ==> (r matches ChunkingResult::Success(v) && mock_sections(
                v@,
            )),
    {
        if self.busy {
            return ChunkingResult::Error(ChunkingError::new(BUSY_MESSAGE));
        }
        self.busy = true;
        let mut v: Vec<Section> = Vec::new();
        v.push(
            Section::new(
                String::from_str("sec_1"),
                String::from_str("Core Data Models"),
                String::from_str("Defines the fundamental types used throughout the application"),
                String::from_str("// stub code for section 1"),
            ),
        );
        v.push(
            Section::new(
                String::from_str("sec_2"),
                String::from_str("API Handlers"),
                String::from_str("HTTP request handlers for the REST API endpoints"),
                String::from_str("// stub code for section 2"),
            ),
        );
        v.push(
            Section::new(
                String::from_str("sec_3"),
                String::from_str("Utility Functions"),
                String::from_str("Helper functions for string manipulation and validation"),
                String::from_str("// stub code for section 3"),
            ),
        );
        let result = ChunkingResult::Success(v);
        self.busy = false;
        result
    }

    fn assess_hypothesis(&mut self, _code: &str, _hypothesis: &str) -> (r: AssessmentResult)
        ensures
            final(self).busy_flag() == old(self).busy_flag(),
            old(self).busy_flag() ==> (r matches AssessmentResult::Error(e) && e.message@
                == BUSY_MESSAGE@ && e.raw_output is None),
            !old(self).busy_flag() ==> (r matches AssessmentResult::Success(a) && mock_assessment(
                a,
            )),
    {
        if self.busy {
            return AssessmentResult::Error(AssessmentError::new(BUSY_MESSAGE));
        }
        self.busy = true;
        let mut correct: Vec<String> = Vec::new();
        correct.push(String::from_str("Correctly identified the main purpose of the function"));
        correct.push(String::from_str("Understood the error handling flow"));
        let mut diverges: Vec<String> = Vec::new();
        diverges.push(String::from_str("The function actually returns early on empty input"));
        let mut missed: Vec<String> = Vec::new();
        missed.push(String::from_str("The function also validates the input format"));
        let result = AssessmentResult::Success(Assessment { correct, diverges, missed });
        self.busy = false;
        result
    }

    fn is_busy(&self) -> (b: bool)
        ensures
            b == self.busy_flag(),
    {
        self.busy
    }
}

} // verus!
