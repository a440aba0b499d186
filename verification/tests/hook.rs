use gptcommit::hook::{comment_out, commit_file_contents, decide, CommitSource, HookDecision};
use gptcommit::lines::lines_of;

#[test]
fn hook_runs_on_ordinary_commits() {
    assert_eq!(decide(CommitSource::Empty, None), HookDecision::Run);
    assert_eq!(decide(CommitSource::Empty, Some(false)), HookDecision::Run);
    assert_eq!(decide(CommitSource::Empty, Some(true)), HookDecision::Run);
}

#[test]
fn hook_runs_on_amended_commits_only_if_allowed() {
    assert_eq!(decide(CommitSource::Commit, Some(true)), HookDecision::Run);
    assert_eq!(decide(CommitSource::Commit, Some(false)), HookDecision::SkipAmend);
    assert_eq!(decide(CommitSource::Commit, None), HookDecision::SkipAmend);
}

#[test]
fn hook_skips_messages_with_a_source() {
    for source in [
        CommitSource::Message,
        CommitSource::Template,
        CommitSource::Merge,
        CommitSource::Squash,
    ] {
        assert_eq!(decide(source, Some(true)), HookDecision::SkipSource);
        assert_eq!(decide(source, None), HookDecision::SkipSource);
    }
    assert_eq!(CommitSource::default(), CommitSource::Empty);
}

#[test]
fn lines_of_reads_as_a_text_file_is_read() {
    for text in ["", "a", "a\n", "a\n\n", "a\r\nb", "a\r", "a\r\r\n", "\n", "\r\n\r", "x\n y \n"] {
        let expected: Vec<&str> = text.lines().collect();
        assert_eq!(lines_of(text), expected, "lines of {:?}", text);
    }
}

#[test]
fn comment_out_marks_every_line() {
    assert_eq!(
        comment_out("old title\n\nold body\n"),
        "### BEGIN GIT COMMIT BEFORE AMEND\n# old title\n# \n# old body\n### END GIT COMMIT BEFORE AMEND\n"
    );
    assert_eq!(
        comment_out(""),
        "### BEGIN GIT COMMIT BEFORE AMEND\n\n### END GIT COMMIT BEFORE AMEND\n"
    );
}

#[test]
fn commit_file_holds_the_new_message_first() {
    assert_eq!(commit_file_contents("new", "# old\n", false), "new\n# old\n");
    assert_eq!(commit_file_contents("new", "", false), "new\n");
    assert_eq!(
        commit_file_contents("new", "old", true),
        "new\n### BEGIN GIT COMMIT BEFORE AMEND\n# old\n### END GIT COMMIT BEFORE AMEND\n"
    );
}
