//! The language-model backends behind the summarization.

pub mod llm_client;
pub mod openai;
pub mod tester_foobar;
