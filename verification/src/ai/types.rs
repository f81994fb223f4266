use vstd::prelude::*;

use crate::models::{Assessment, Section};

verus! {

/// Result of AI diff chunking operation.
#[derive(Debug)]
pub enum ChunkingResult {
    /// Successfully chunked the diff into sections.
    Success(Vec<Section>),
    /// Failed to chunk the diff.
    Error(ChunkingError),
}

impl ChunkingResult {
    pub fn is_success(&self) -> (b: bool)
        ensures
            b == (*self is Success),
    {
        match self {
            ChunkingResult::Success(_) => true,
            ChunkingResult::Error(_) => false,
        }
    }

    pub fn sections(self) -> (r: Option<Vec<Section>>)
        ensures
            match self {
                ChunkingResult::Success(v) => r == Some(v),
                ChunkingResult::Error(_) => r is None,
            },
    {
        match self {
            ChunkingResult::Success(sections) => Some(sections),
            ChunkingResult::Error(_) => None,
        }
    }
}

#[derive(Debug)]
pub struct ChunkingError {
    pub message: String,
    pub raw_output: Option<String>,
}

impl ChunkingError {
    pub fn new(message: &str) -> (e: Self)
        ensures
            e.message@ == message@,
            e.raw_output is None,
    {
        ChunkingError { message: String::from_str(message), raw_output: None }
    }

    pub fn with_output(self, output: &str) -> (e: Self)
        ensures
            e.message == self.message,
            e.raw_output matches Some(o) && o@ == output@,
    {
        let mut e = self;
        e.raw_output = Some(String::from_str(output));
        e
    }
}

/// Result of AI hypothesis assessment operation.
#[derive(Debug)]
pub enum AssessmentResult {
    /// Successfully assessed the hypothesis.
    Success(Assessment),
    /// Failed to assess the hypothesis.
    Error(AssessmentError),
}

impl AssessmentResult {
    pub fn is_success(&self) -> (b: bool)
        ensures
            b == (*self is Success),
    {
        match self {
            AssessmentResult::Success(_) => true,
            AssessmentResult::Error(_) => false,
        }
    }

    pub fn assessment(self) -> (r: Option<Assessment>)
        ensures
            match self {
                AssessmentResult::Success(a) => r == Some(a),
                AssessmentResult::Error(_) => r is None,
            },
    {
        match self {
            AssessmentResult::Success(assessment) => Some(assessment),
            AssessmentResult::Error(_) => None,
        }
    }
}

#[derive(Debug)]
pub struct AssessmentError {
    pub message: String,
    pub raw_output: Option<String>,
}

impl AssessmentError {
    pub fn new(message: &str) -> (e: Self)
        ensures
            e.message@ == message@,
            e.raw_output is None,
    {
        AssessmentError { message: String::from_str(message), raw_output: None }
    }

    pub fn with_output(self, output: &str) -> (e: Self)
        ensures
            e.message == self.message,
            e.raw_output matches Some(o) && o@ == output@,
    {
        let mut e = self;
        e.raw_output = Some(String::from_str(output));
        e
    }
}

} // verus!
