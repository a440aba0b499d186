//! A backend for trying the pipeline out without a language model.

use vstd::prelude::*;
use vstd::string::StringExecFns;
use crate::llms::llm_client::{LlmClient, LlmError};

verus! {

/// A backend that answers every prompt with `foo bar`.
#[derive(Clone, Copy, Debug)]
pub struct FooBarClient {}

impl FooBarClient {
    /// A new tester backend; this never fails.
    pub fn new() -> (client: Result<Self, LlmError>)
        ensures
            client is Ok,
    {
        Ok(FooBarClient {  })
    }
}

impl LlmClient for FooBarClient {
    /// Answers `foo bar`, whatever the prompt.
    fn completions(&self, prompt: &str) -> (completion: Result<String, LlmError>)
        ensures
            completion is Ok,
            completion->Ok_0@ == "foo bar"@,
    {
        Ok(String::from_str("foo bar"))
    }
}

} // verus!
