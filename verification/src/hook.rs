//! What the `prepare-commit-msg` hook decides: whether to write a message at
//! all, and what to leave in the commit message file.

use vstd::prelude::*;
use vstd::string::StringExecFns;
use crate::lines::{join_lines, join_with_line_feeds, lines_of, text_lines};
use crate::text::string_views;

verus! {

/// Where git says the commit message comes from.
#[derive(Copy, Clone, PartialEq, Eq, Debug, Structural)]
pub enum CommitSource {
    /// No source: an ordinary commit.
    Empty,
    Message,
    Template,
    Merge,
    Squash,
    /// An existing commit, as when amending.
    Commit,
}

impl Default for CommitSource {
    fn default() -> (source: CommitSource)
        ensures
            source == CommitSource::Empty,
    {
        CommitSource::Empty
    }
}

/// What the hook does for a commit.
#[derive(Copy, Clone, PartialEq, Eq, Debug, Structural)]
pub enum HookDecision {
    /// Write a commit message.
    Run,
    /// Leave the message alone: the commit is being amended.
    SkipAmend,
    /// Leave the message alone: the message has a source of its own.
    SkipSource,
}

/// What the hook does for a commit whose message comes from `source`, under
/// the setting `allow_amend`: it writes a message for an ordinary commit, and
/// for an amended one if the setting allows it.
pub open spec fn decision_for(source: CommitSource, allow_amend: Option<bool>) -> HookDecision {
    match source {
        CommitSource::Empty => HookDecision::Run,
        CommitSource::Commit => if allow_amend == Some(true) {
            HookDecision::Run
        } else {
            HookDecision::SkipAmend
        },
        _ => HookDecision::SkipSource,
    }
}

/// What the hook does for a commit whose message comes from `source`.
pub fn decide(source: CommitSource, allow_amend: Option<bool>) -> (decision: HookDecision)
    ensures
        decision == decision_for(source, allow_amend),
{
    match source {
        CommitSource::Empty => HookDecision::Run,
        CommitSource::Commit => match allow_amend {
            Some(true) => HookDecision::Run,
            _ => HookDecision::SkipAmend,
        },
        _ => HookDecision::SkipSource,
    }
}

/// Each of `lines` behind a `# `.
pub open spec fn commented(lines: Seq<Seq<char>>) -> Seq<Seq<char>> {
    lines.map_values(|line: Seq<char>| "# "@ + line)
}

/// The message that was in the file before, set apart as a comment: each of
/// its lines behind a `# `, between a line that opens and a line that closes.
pub open spec fn amend_block(previous: Seq<char>) -> Seq<char> {
    "### BEGIN GIT COMMIT BEFORE AMEND\n"@ + join_lines(commented(text_lines(previous)))
        + "\n### END GIT COMMIT BEFORE AMEND\n"@
}

/// What is left in the commit message file: the new message, a line feed,
/// and what was in the file before, which is set apart as a comment where
/// amended commits get a message.
pub open spec fn commit_file_text(
    commit_message: Seq<char>,
    previous: Seq<char>,
    allow_amend: bool,
) -> Seq<char> {
    commit_message + "\n"@ + if allow_amend {
        amend_block(previous)
    } else {
        previous
    }
}

/// The message that was in the file before, set apart as a comment.
pub fn comment_out(previous: &str) -> (block: String)
    ensures
        block@ == amend_block(previous@),
{
    let lines = lines_of(previous);
    let mut marked: Vec<String> = Vec::new();
    let mut i: usize = 0;
    while i < lines.len()
        invariant
            i <= lines@.len(),
            marked@.len() == i,
            forall|j: int| 0 <= j < i ==> (#[trigger] marked@[j])@ == "# "@ + lines@[j]@,
        decreases lines@.len() - i,
    {
        let mut line = String::from_str("# ");
        line.append(lines[i].as_str());
        marked.push(line);
        i += 1;
    }
    proof {
        assert(string_views(marked@) =~= commented(string_views(lines@)));
    }
    let body = join_with_line_feeds(&marked);
    let mut block = String::from_str("### BEGIN GIT COMMIT BEFORE AMEND\n");
    block.append(body.as_str());
    block.append("\n### END GIT COMMIT BEFORE AMEND\n");
    block
}

/// What the hook leaves in the commit message file.
pub fn commit_file_contents(commit_message: &str, previous: &str, allow_amend: bool) -> (contents:
    String)
    ensures
        contents@ == commit_file_text(commit_message@, previous@, allow_amend),
{
    let mut contents = String::from_str(commit_message);
    contents.append("\n");
    if allow_amend {
        let block = comment_out(previous);
        contents.append(block.as_str());
    } else {
        contents.append(previous);
    }
    contents
}

} // verus!
