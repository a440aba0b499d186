//! Turns a unified git diff into a commit message by way of a pluggable
//! language-model backend.
//!
//! The diff is cut into per-file chunks (`util`), each chunk is summarized
//! through a prompt template (`prompt`) and a backend (`llms`), the summaries
//! are gathered by file path (`summaries`) and composed with a title and a
//! body into the message (`summarize`, `lines`). `settings` holds what a run
//! is configured with, and `hook` what the git hook decides.
//!
//! Contracts are stated over the views of the data, and Verus proves them.
//! What is taken on trust is marked where it stands: the calls into the
//! template engine, whose answers are checked before they are used, and the
//! standard library's lower-casing of a text.

pub mod text;
pub mod lines;
pub mod util;
pub mod prompt;
pub mod llms;
pub mod summaries;
pub mod setting_keys;
pub mod settings;
pub mod summarize;
pub mod hook;
