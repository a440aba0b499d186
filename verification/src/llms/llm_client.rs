//! The one capability that the summarization asks of a language model.

use vstd::prelude::*;
use vstd::string::StringExecFns;

verus! {

/// Why a backend returned no completion.
#[derive(Debug)]
pub enum LlmError {
    /// The prompt leaves the model too little room for a completion.
    TokenLimit,
    /// The backend answered, but without a completion.
    NoCompletion,
    /// The backend could not be reached or refused the request.
    Backend { message: String },
}

/// The text that tells of an error.
pub open spec fn llm_error_text(error: LlmError) -> Seq<char> {
    match error {
        LlmError::TokenLimit => "the prompt is too large for the model"@,
        LlmError::NoCompletion => "no completion was returned"@,
        LlmError::Backend { message } => "the backend failed: "@ + message@,
    }
}

impl LlmError {
    /// What went wrong, in words.
    pub fn message(&self) -> (text: String)
        ensures
            text@ == llm_error_text(*self),
    {
        match self {
            LlmError::TokenLimit => String::from_str("the prompt is too large for the model"),
            LlmError::NoCompletion => String::from_str("no completion was returned"),
            LlmError::Backend { message } => {
                let mut text = String::from_str("the backend failed: ");
                text.append(message.as_str());
                text
            },
        }
    }
}

/// A language model that completes prompts.
///
/// Nothing is promised of what a backend returns: the callers state what
/// they do with every outcome.
pub trait LlmClient {
    /// Takes a prompt and returns the model's completion of it.
    fn completions(&self, prompt: &str) -> (completion: Result<String, LlmError>);
}

} // verus!
