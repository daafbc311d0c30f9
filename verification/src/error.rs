//! Errors of sentence analysis and of loading dialogue data.

use vstd::prelude::*;

verus! {

/// Why an analysis failed. Each variant carries what the failing part said.
#[derive(Debug, Clone, PartialEq, Eq)]
pub enum AnalysisError {
    /// The tokenizer could not be set up.
    TokenizerInit(String),
    /// The tokenizer could not segment the text.
    Tokenization(String),
    /// The dialogue data could not be read.
    DataLoad(String),
}

impl AnalysisError {
    /// The text that the failing part gave.
    pub open spec fn detail(self) -> Seq<char> {
        match self {
            AnalysisError::TokenizerInit(detail) => detail@,
            AnalysisError::Tokenization(detail) => detail@,
            AnalysisError::DataLoad(detail) => detail@,
        }
    }

    /// What stands in front of the detail in the rendered error.
    pub open spec fn heading(self) -> Seq<char> {
        match self {
            AnalysisError::TokenizerInit(_) => "Failed to initialize tokenizer: "@,
            AnalysisError::Tokenization(_) => "Tokenization failed: "@,
            AnalysisError::DataLoad(_) => "Failed to load dialogue data: "@,
        }
    }

    /// The error as a line of text: the heading of its kind, then the detail.
    pub fn to_string(&self) -> (text: String)
        ensures
            text@ == self.heading() + self.detail(),
    {
        match self {
            AnalysisError::TokenizerInit(detail) => {
                String::from_str("Failed to initialize tokenizer: ").concat(detail.as_str())
            },
            AnalysisError::Tokenization(detail) => {
                String::from_str("Tokenization failed: ").concat(detail.as_str())
            },
            AnalysisError::DataLoad(detail) => {
                String::from_str("Failed to load dialogue data: ").concat(detail.as_str())
            },
        }
    }
}

} // verus!
