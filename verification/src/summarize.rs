//! From the chunks of a diff to the text of a commit message.
//!
//! Each chunk is summarized on its own; a chunk that names no file, or a file
//! that is to be passed over, is skipped, and a summary that the backend fails
//! to give is an empty summary. The summaries are gathered by file path. A
//! title and a body are asked for the gathered summaries; if either fails,
//! there is no message. The message is the title, the body and the summaries,
//! without the lines that repeat a line above them, and is translated where
//! the language asked for is not English.

use vstd::prelude::*;
use vstd::string::StringExecFns;
use crate::lines::{has_text, join_lines, join_with_line_feeds, lemma_text_has_line, lemma_unique_lines_not_empty, split_lines, unique_lines, unique_lines_spec};
use crate::llms::llm_client::{llm_error_text, LlmClient, LlmError};
use crate::prompt::{binding_names, engine_agrees, format_error_text, format_prompt, formats, formatted_as, names_match, plain_template, required_names, substituted, FormatError};
use crate::settings::{opt_view, ConfigError, Language, Settings};
use crate::summaries::{distinct_paths, entered, entries_map, lemma_entered, lemma_path_index, FileSummaries};
use crate::text::{contains_chars, contains_seq, lemma_trimmed_idempotent, pair_views, str_eq, str_views, string_views, to_chars, trim, trimmed};
use crate::util::{file_name_spec, get_file_name_from_diff};

verus! {

/// Why one request to the backend gave no text.
#[derive(Debug)]
pub enum StepError {
    /// The prompt could not be formatted.
    Format(FormatError),
    /// The backend returned no completion.
    Completion(LlmError),
}

/// Why there is no commit message.
#[derive(Debug)]
pub enum SummarizeError {
    /// The title could not be had.
    Title(StepError),
    /// The body could not be had.
    Body(StepError),
    /// The translation could not be had.
    Translation(StepError),
}

/// The text that tells of an error.
pub open spec fn step_error_text(error: StepError) -> Seq<char> {
    match error {
        StepError::Format(inner) => format_error_text(inner),
        StepError::Completion(inner) => llm_error_text(inner),
    }
}

/// The text that tells of an error: the step that failed, and why.
pub open spec fn summarize_error_text(error: SummarizeError) -> Seq<char> {
    match error {
        SummarizeError::Title(inner) => "commit title: "@ + step_error_text(inner),
        SummarizeError::Body(inner) => "commit summary: "@ + step_error_text(inner),
        SummarizeError::Translation(inner) => "translation: "@ + step_error_text(inner),
    }
}

impl StepError {
    /// What went wrong, in words.
    pub fn message(&self) -> (text: String)
        ensures
            text@ == step_error_text(*self),
    {
        match self {
            StepError::Format(inner) => inner.message(),
            StepError::Completion(inner) => inner.message(),
        }
    }
}

impl SummarizeError {
    /// What went wrong, in words: the step that failed, and why.
    pub fn message(&self) -> (text: String)
        ensures
            text@ == summarize_error_text(*self),
    {
        match self {
            SummarizeError::Title(inner) => {
                let mut text = String::from_str("commit title: ");
                text.append(inner.message().as_str());
                text
            },
            SummarizeError::Body(inner) => {
                let mut text = String::from_str("commit summary: ");
                text.append(inner.message().as_str());
                text
            },
            SummarizeError::Translation(inner) => {
                let mut text = String::from_str("translation: ");
                text.append(inner.message().as_str());
                text
            },
        }
    }
}

/// The name of the language in which the pipeline writes by itself.
pub open spec fn default_language() -> Seq<char> {
    "English"@
}

/// `path` holds one of the texts of `ignore`.
pub open spec fn is_ignored(path: Seq<char>, ignore: Seq<Seq<char>>) -> bool {
    exists|i: int| 0 <= i < ignore.len() && contains_seq(path, #[trigger] ignore[i])
}

/// The file for which a summary of `chunk` is asked: the file that the chunk
/// names, unless it is to be passed over.
pub open spec fn chunk_target(chunk: Seq<char>, ignore: Seq<Seq<char>>) -> Option<Seq<char>> {
    match file_name_spec(chunk) {
        Some(path) => if is_ignored(path, ignore) {
            None
        } else {
            Some(path)
        },
        None => None,
    }
}

/// The summary that an outcome of the backend stands for: the completion
/// without the white space at its ends, and the empty text for a failure.
pub open spec fn summary_text_spec(completion: Result<String, LlmError>) -> Seq<char> {
    match completion {
        Ok(text) => trimmed(text@),
        Err(_) => Seq::empty(),
    }
}

/// The block that tells of one file: its path in square brackets, and on the
/// next line its summary.
pub open spec fn file_block(path: Seq<char>, text: Seq<char>) -> Seq<char> {
    "["@ + path + "]\n"@ + text
}

/// The blocks of `entries`, one for each entry.
pub open spec fn file_blocks(entries: Seq<(Seq<char>, Seq<char>)>) -> Seq<Seq<char>> {
    Seq::new(entries.len(), |i: int| file_block(entries[i].0, entries[i].1))
}

/// The summary points: the blocks of all entries with a line feed between
/// each two of them.
pub open spec fn summary_points_spec(entries: Seq<(Seq<char>, Seq<char>)>) -> Seq<char> {
    join_lines(file_blocks(entries))
}

/// The part of the message that tells of the files: for each entry with a
/// summary that is not empty its block and a line feed.
pub open spec fn per_file_section(entries: Seq<(Seq<char>, Seq<char>)>) -> Seq<char>
    decreases entries.len(),
{
    if entries.len() == 0 {
        Seq::empty()
    } else if entries.last().1.len() == 0 {
        per_file_section(entries.drop_last())
    } else {
        per_file_section(entries.drop_last()) + file_block(entries.last().0, entries.last().1)
            + "\n"@
    }
}

/// The message before repeated lines are left out: the title, an empty line,
/// the body, an empty line, and the part that tells of the files.
pub open spec fn assembled(
    title: Seq<char>,
    body: Seq<char>,
    entries: Seq<(Seq<char>, Seq<char>)>,
) -> Seq<char> {
    title + "\n\n"@ + body + "\n\n"@ + per_file_section(entries)
}

/// The message: what was assembled, without the lines that repeat a line
/// above them.
pub open spec fn message_spec(
    title: Seq<char>,
    body: Seq<char>,
    entries: Seq<(Seq<char>, Seq<char>)>,
) -> Seq<char> {
    unique_lines_spec(assembled(title, body, entries))
}

/// There is a message wherever the title or the body holds more than line
/// ends, whatever became of the summaries of the files: a failed summary
/// stops no message.
pub proof fn lemma_message_not_empty(
    title: Seq<char>,
    body: Seq<char>,
    entries: Seq<(Seq<char>, Seq<char>)>,
)
    requires
        has_text(title) || has_text(body),
    ensures
        message_spec(title, body, entries).len() > 0,
{
    let whole = assembled(title, body, entries);
    if has_text(title) {
        let i = choose|i: int| 0 <= i < title.len() && #[trigger] title[i] != '\n' && title[i] != '\r';
        assert(whole[i] == title[i]);
    } else {
        let i = choose|i: int| 0 <= i < body.len() && #[trigger] body[i] != '\n' && body[i] != '\r';
        let at = title.len() + "\n\n"@.len() + i;
        assert(whole[at] == body[i]);
    }
    assert(has_text(whole));
    lemma_text_has_line(whole);
    lemma_unique_lines_not_empty(whole);
}

/// The views of a list of summaries of chunks, a skipped chunk being `None`.
pub open spec fn outcome_views(outcomes: Seq<Option<(String, String)>>) -> Seq<
    Option<(Seq<char>, Seq<char>)>,
> {
    Seq::new(
        outcomes.len(),
        |i: int|
            match outcomes[i] {
                Some(pair) => Some((pair.0@, pair.1@)),
                None => None,
            },
    )
}

/// The entries gathered from the summaries of the chunks, taken in order: a
/// skipped chunk adds nothing, and a path met again gets the later summary.
pub open spec fn gathered(outcomes: Seq<Option<(Seq<char>, Seq<char>)>>) -> Seq<
    (Seq<char>, Seq<char>),
>
    decreases outcomes.len(),
{
    if outcomes.len() == 0 {
        Seq::empty()
    } else {
        match outcomes.last() {
            Some(pair) => entered(gathered(outcomes.drop_last()), pair.0, pair.1),
            None => gathered(outcomes.drop_last()),
        }
    }
}

/// The path that the summary of a chunk is for, if the chunk was not skipped.
pub open spec fn named_path(outcome: Option<(Seq<char>, Seq<char>)>) -> Option<Seq<char>> {
    match outcome {
        Some(pair) => Some(pair.0),
        None => None,
    }
}

/// `path` is the path of one of the chunks that were not skipped.
pub open spec fn names_path(outcomes: Seq<Option<(Seq<char>, Seq<char>)>>, path: Seq<char>) -> bool {
    exists|i: int| 0 <= i < outcomes.len() && named_path(#[trigger] outcomes[i]) == Some(path)
}

/// What is gathered holds no path twice; its paths are the paths of the
/// chunks that were not skipped.
pub proof fn lemma_gathered(outcomes: Seq<Option<(Seq<char>, Seq<char>)>>)
    ensures
        distinct_paths(gathered(outcomes)),
        forall|path: Seq<char>|
            entries_map(gathered(outcomes)).dom().contains(path) <==> names_path(outcomes, path),
        forall|k: int|
            0 <= k < gathered(outcomes).len() ==> outcomes.contains(
                Some(#[trigger] gathered(outcomes)[k]),
            ),
    decreases outcomes.len(),
{
    if outcomes.len() > 0 {
        let init = outcomes.drop_last();
        lemma_gathered(init);
        let before = gathered(init);
        match outcomes.last() {
            Some(pair) => {
                lemma_entered(before, pair.0, pair.1);
                lemma_path_index(before, pair.0);
            },
            None => {},
        }
        assert forall|k: int| 0 <= k < gathered(outcomes).len() implies outcomes.contains(
            Some(#[trigger] gathered(outcomes)[k]),
        ) by {
            let entry = gathered(outcomes)[k];
            if outcomes.last() == Some(entry) {
                assert(outcomes[outcomes.len() - 1] == Some(entry));
            } else {
                assert(k < before.len() && before[k] == entry);
                assert(init.contains(Some(before[k])));
                let i = choose|i: int| 0 <= i < init.len() && init[i] == Some(entry);
                assert(outcomes[i] == Some(entry));
            }
        }
        assert forall|path: Seq<char>|
            entries_map(gathered(outcomes)).dom().contains(path) <==> names_path(
                outcomes,
                path,
            ) by {
            if names_path(init, path) {
                let i = choose|i: int|
                    0 <= i < init.len() && named_path(#[trigger] init[i]) == Some(path);
                assert(outcomes[i] == init[i]);
            }
            if names_path(outcomes, path) {
                let i = choose|i: int|
                    0 <= i < outcomes.len() && named_path(#[trigger] outcomes[i]) == Some(path);
                if i < init.len() {
                    assert(init[i] == outcomes[i]);
                }
            }
            if named_path(outcomes.last()) == Some(path) {
                assert(named_path(outcomes[outcomes.len() - 1]) == Some(path));
            }
        }
    }
}

/// Where two chunks name one file, the later summary stands: the summary
/// gathered for a path is the one of the last chunk that names it. So a file
/// whose summary failed keeps its place, with the empty summary.
pub proof fn lemma_gathered_last_wins(
    outcomes: Seq<Option<(Seq<char>, Seq<char>)>>,
    i: int,
    path: Seq<char>,
    text: Seq<char>,
)
    requires
        0 <= i < outcomes.len(),
        outcomes[i] == Some((path, text)),
        forall|j: int| i < j < outcomes.len() ==> named_path(#[trigger] outcomes[j]) != Some(path),
    ensures
        entries_map(gathered(outcomes)).dom().contains(path),
        entries_map(gathered(outcomes))[path] == text,
    decreases outcomes.len(),
{
    let init = outcomes.drop_last();
    lemma_gathered(init);
    let before = gathered(init);
    if i == outcomes.len() - 1 {
        lemma_entered(before, path, text);
    } else {
        assert(init[i] == outcomes[i]);
        assert forall|j: int| i < j < init.len() implies named_path(#[trigger] init[j]) != Some(
            path,
        ) by {
            assert(init[j] == outcomes[j]);
        }
        lemma_gathered_last_wins(init, i, path, text);
        assert(named_path(outcomes[outcomes.len() - 1]) != Some(path));
        match outcomes.last() {
            Some(pair) => {
                lemma_entered(before, pair.0, pair.1);
            },
            None => {},
        }
    }
}

/// `entries` are summaries of `chunks`: no path stands twice, the paths are
/// the files that the chunks name and that are not to be passed over, and
/// every summary is free of white space at its ends.
pub open spec fn summarizes(
    entries: Seq<(Seq<char>, Seq<char>)>,
    chunks: Seq<Seq<char>>,
    ignore: Seq<Seq<char>>,
) -> bool {
    &&& distinct_paths(entries)
    &&& forall|path: Seq<char>|
        entries_map(entries).dom().contains(path) <==> exists|i: int|
            0 <= i < chunks.len() && chunk_target(#[trigger] chunks[i], ignore) == Some(path)
    &&& forall|k: int|
        0 <= k < entries.len() ==> trimmed((#[trigger] entries[k]).1) == entries[k].1
}

/// A file that is to be passed over is the file of no summary, whatever the
/// chunks are.
pub proof fn lemma_ignored_files_are_left_out(
    entries: Seq<(Seq<char>, Seq<char>)>,
    chunks: Seq<Seq<char>>,
    ignore: Seq<Seq<char>>,
    path: Seq<char>,
)
    requires
        summarizes(entries, chunks, ignore),
        is_ignored(path, ignore),
    ensures
        !entries_map(entries).dom().contains(path),
{
    if entries_map(entries).dom().contains(path) {
        let i = choose|i: int|
            0 <= i < chunks.len() && chunk_target(#[trigger] chunks[i], ignore) == Some(path);
        assert(chunk_target(chunks[i], ignore) == Some(path));
    }
}

/// Whether `path` holds one of the texts of `ignore`.
pub fn is_ignored_path(path: &str, ignore: &Vec<String>) -> (ignored: bool)
    ensures
        ignored == is_ignored(path@, string_views(ignore@)),
{
    let chars = to_chars(path);
    let mut i: usize = 0;
    while i < ignore.len()
        invariant
            chars@ == path@,
            i <= ignore@.len(),
            forall|j: int| 0 <= j < i ==> !contains_seq(path@, #[trigger] string_views(ignore@)[j]),
        decreases ignore@.len() - i,
    {
        let pattern = to_chars(ignore[i].as_str());
        proof {
            assert(string_views(ignore@)[i as int] == pattern@);
        }
        if contains_chars(&chars, &pattern) {
            return true;
        }
        i += 1;
    }
    false
}

/// The file for which a summary of `chunk` is to be asked, if any: a chunk
/// that names no file is skipped, and so is one whose file is to be passed
/// over, for which the backend is therefore never asked.
pub fn summary_target<'a>(chunk: &'a str, ignore: &Vec<String>) -> (target: Option<&'a str>)
    ensures
        match target {
            Some(path) => chunk_target(chunk@, string_views(ignore@)) == Some(path@),
            None => chunk_target(chunk@, string_views(ignore@)) is None,
        },
{
    match get_file_name_from_diff(chunk) {
        Some(path) => {
            if is_ignored_path(path, ignore) {
                None
            } else {
                Some(path)
            }
        },
        None => None,
    }
}

/// The summary that an outcome of the backend stands for: the completion
/// without the white space at its ends; for a failure of the backend, of
/// whatever kind, the empty text.
pub fn summary_text(completion: Result<String, LlmError>) -> (text: String)
    ensures
        text@ == summary_text_spec(completion),
        trimmed(text@) == text@,
{
    match completion {
        Ok(answer) => {
            proof {
                lemma_trimmed_idempotent(answer@);
            }
            trim(answer.as_str()).to_owned()
        },
        Err(_) => {
            proof {
                lemma_trimmed_idempotent(Seq::<char>::empty());
                assert(trimmed(Seq::<char>::empty()) =~= Seq::<char>::empty());
            }
            String::new()
        },
    }
}

/// Gathers the summaries of the chunks by file path, taking them in order:
/// a skipped chunk adds nothing, and where two chunks name one file the
/// later summary stands.
pub fn collect_summaries(outcomes: &Vec<Option<(String, String)>>) -> (summaries: FileSummaries)
    ensures
        summaries.entries() == gathered(outcome_views(outcomes@)),
        forall|path: Seq<char>|
            summaries@.dom().contains(path) <==> names_path(outcome_views(outcomes@), path),
        forall|k: int|
            0 <= k < summaries.entries().len() ==> outcome_views(outcomes@).contains(
                Some(#[trigger] summaries.entries()[k]),
            ),
{
    let ghost views = outcome_views(outcomes@);
    let mut summaries = FileSummaries::new();
    let mut k: usize = 0;
    proof {
        assert(views.subrange(0, 0) =~= Seq::empty());
    }
    while k < outcomes.len()
        invariant
            views == outcome_views(outcomes@),
            k <= outcomes@.len(),
            summaries.entries() == gathered(views.subrange(0, k as int)),
        decreases outcomes@.len() - k,
    {
        proof {
            let upto = views.subrange(0, k + 1);
            assert(upto.drop_last() =~= views.subrange(0, k as int));
            assert(upto.last() == views[k as int]);
        }
        match &outcomes[k] {
            Some(pair) => {
                summaries = summaries.insert(pair.0.clone(), pair.1.clone());
            },
            None => {},
        }
        k += 1;
    }
    proof {
        assert(views.subrange(0, outcomes@.len() as int) =~= views);
        lemma_gathered(views);
        summaries.lemma_view();
    }
    summaries
}

/// The block that tells of one file.
pub fn render_block(path: &str, text: &str) -> (block: String)
    ensures
        block@ == file_block(path@, text@),
{
    let mut block = String::from_str("[");
    block.append(path);
    block.append("]\n");
    block.append(text);
    block
}

/// The summary points of `summaries`: for each file, in the order of the
/// entries, its block, with a line feed between each two blocks. A file with
/// an empty summary has its block too.
pub fn summary_points(summaries: &FileSummaries) -> (points: String)
    ensures
        points@ == summary_points_spec(summaries.entries()),
{
    let n = summaries.len();
    let mut blocks: Vec<String> = Vec::new();
    let mut i: usize = 0;
    while i < n
        invariant
            n == summaries.entries().len(),
            i <= n,
            blocks@.len() == i,
            forall|j: int|
                0 <= j < i ==> (#[trigger] blocks@[j])@ == file_block(
                    summaries.entries()[j].0,
                    summaries.entries()[j].1,
                ),
        decreases n - i,
    {
        let pair = summaries.entry(i);
        blocks.push(render_block(pair.0.as_str(), pair.1.as_str()));
        i += 1;
    }
    proof {
        assert(string_views(blocks@) =~= file_blocks(summaries.entries()));
    }
    join_with_line_feeds(&blocks)
}

/// The message before repeated lines are left out.
pub fn assemble_message(title: &str, body: &str, per_file: &FileSummaries) -> (message: String)
    ensures
        message@ == assembled(title@, body@, per_file.entries()),
{
    let n = per_file.len();
    let mut section = String::new();
    let mut i: usize = 0;
    proof {
        assert(per_file.entries().subrange(0, 0) =~= Seq::empty());
    }
    while i < n
        invariant
            n == per_file.entries().len(),
            i <= n,
            section@ == per_file_section(per_file.entries().subrange(0, i as int)),
        decreases n - i,
    {
        let pair = per_file.entry(i);
        proof {
            let upto = per_file.entries().subrange(0, i + 1);
            assert(upto.drop_last() =~= per_file.entries().subrange(0, i as int));
            assert(upto.last() == per_file.entries()[i as int]);
        }
        if !str_eq(pair.1.as_str(), "") {
            proof {
                reveal_strlit("");
                assert(pair.1@.len() != 0) by {
                    if pair.1@.len() == 0 {
                        assert(pair.1@ =~= ""@);
                    }
                }
            }
            let block = render_block(pair.0.as_str(), pair.1.as_str());
            section.append(block.as_str());
            section.append("\n");
        } else {
            proof {
                reveal_strlit("");
            }
        }
        i += 1;
    }
    proof {
        assert(per_file.entries().subrange(0, n as int) =~= per_file.entries());
    }
    let mut message = String::from_str(title);
    message.append("\n\n");
    message.append(body);
    message.append("\n\n");
    message.append(section.as_str());
    message
}

/// The commit message: the title, an empty line, the body, an empty line,
/// and for every file with a summary that is not empty its block; all this
/// without the lines that repeat a line above them.
pub fn compose_message(title: &str, body: &str, per_file: &FileSummaries) -> (message: String)
    ensures
        message@ == message_spec(title@, body@, per_file.entries()),
        split_lines(message@).no_duplicates(),
        has_text(title@) || has_text(body@) ==> message@.len() > 0,
{
    let whole = assemble_message(title, body, per_file);
    proof {
        if has_text(title@) || has_text(body@) {
            lemma_message_not_empty(title@, body@, per_file.entries());
        }
    }
    unique_lines(whole.as_str())
}

/// Puts the title and the body together, or tells which of them is wanting.
/// There is a message only if both are there: a failed title is an error
/// whatever became of the body.
pub fn join_title_body(title: Result<String, StepError>, body: Result<String, StepError>) -> (both:
    Result<(String, String), SummarizeError>)
    ensures
        both == match title {
            Err(error) => Err::<(String, String), SummarizeError>(SummarizeError::Title(error)),
            Ok(title_text) => match body {
                Err(error) => Err(SummarizeError::Body(error)),
                Ok(body_text) => Ok((title_text, body_text)),
            },
        },
{
    match title {
        Err(error) => Err(SummarizeError::Title(error)),
        Ok(title_text) => match body {
            Err(error) => Err(SummarizeError::Body(error)),
            Ok(body_text) => Ok((title_text, body_text)),
        },
    }
}

/// Whether a message is to be translated into `language`: it is, unless the
/// language is English, in which the message is written anyway.
pub fn needs_translation(language: &str) -> (needed: bool)
    ensures
        needed == (language@ != default_language()),
{
    !str_eq(language, "English")
}

/// One binding: `name` bound to `value`.
pub fn single_binding(name: &str, value: &str) -> (bindings: Vec<(String, String)>)
    ensures
        pair_views(bindings@) == seq![(name@, value@)],
{
    let mut bindings: Vec<(String, String)> = Vec::new();
    bindings.push((String::from_str(name), String::from_str(value)));
    proof {
        assert(pair_views(bindings@) =~= seq![(name@, value@)]);
    }
    bindings
}

/// The error tells that `template` asks for other names than `provided`, and
/// lists both.
pub open spec fn tells_mismatch(error: StepError, template: Seq<char>, provided: Seq<Seq<char>>) -> bool {
    match error {
        StepError::Format(FormatError::PlaceholderMismatch { required, provided: given }) => {
            &&& string_views(required@) == required_names(template)
            &&& string_views(given@) == provided
        },
        _ => false,
    }
}

/// The error is a `Render` error: the template was not rendered as it stands.
pub open spec fn tells_render(error: StepError) -> bool {
    error matches StepError::Format(FormatError::Render { .. })
}

/// The error by which the title failed, if it did.
pub open spec fn failed_title(message: Result<String, SummarizeError>) -> Option<StepError> {
    match message {
        Err(SummarizeError::Title(error)) => Some(error),
        _ => None,
    }
}

/// The error by which the body failed, if the title did not fail and the
/// body did.
pub open spec fn failed_body(message: Result<String, SummarizeError>) -> Option<StepError> {
    match message {
        Err(SummarizeError::Body(error)) => Some(error),
        _ => None,
    }
}

/// The error by which the translation failed, if it did.
pub open spec fn failed_translation(message: Result<String, SummarizeError>) -> Option<StepError> {
    match message {
        Err(SummarizeError::Translation(error)) => Some(error),
        _ => None,
    }
}

/// What a request makes of the backend's answer: the answer as it is, and
/// the backend's error as the error of the request.
pub open spec fn step_of(answer: Result<String, LlmError>) -> Result<String, StepError> {
    match answer {
        Ok(text) => Ok(text),
        Err(error) => Err(StepError::Completion(error)),
    }
}

/// `outcome` is what `client` gave when it was asked to complete `asked`:
/// the backend was asked with just this prompt, and its answer or its error
/// was handed on as it was.
pub open spec fn answered<C: LlmClient>(
    client: &C,
    asked: Seq<char>,
    outcome: Result<String, StepError>,
) -> bool {
    exists|prompt: &str, answer: Result<String, LlmError>|
        prompt@ == asked && #[trigger] call_ensures(C::completions, (client, prompt), answer)
            && outcome == step_of(answer)
}

/// `outcome` is what a request to `client` for `template` with `bindings`
/// gives. If the names bound are not the names of the template, it is a
/// mismatch that lists both; if the template holds more than placeholders
/// and plain text, or the template engine does not render it as the library
/// reads it, it is a `Render` error; in neither case is the backend asked.
/// Otherwise the backend is asked to complete the template with every
/// placeholder replaced by its value, and the outcome is its answer.
pub open spec fn request_result<C: LlmClient>(
    client: &C,
    outcome: Result<String, StepError>,
    template: Seq<char>,
    bindings: Seq<(Seq<char>, Seq<char>)>,
) -> bool {
    if !names_match(required_names(template), binding_names(bindings)) {
        outcome is Err && tells_mismatch(outcome->Err_0, template, binding_names(bindings))
    } else if !plain_template(template) {
        outcome is Err && tells_render(outcome->Err_0)
    } else if !engine_agrees(template, bindings) {
        outcome is Err && tells_render(outcome->Err_0)
    } else {
        answered(client, substituted(template, 0, bindings), outcome)
    }
}

/// The names bound are the names of `template`, and the template holds
/// nothing but placeholders and plain text.
pub open spec fn well_formed_for(template: Seq<char>, provided: Seq<Seq<char>>) -> bool {
    names_match(required_names(template), provided) && plain_template(template)
}

/// The error is the one that a request for a template that is not well
/// formed fails with: a mismatch that lists the names on both sides, or, for
/// a template that holds more than placeholders and plain text, a `Render`
/// error.
pub open spec fn tells_ill_formed(error: StepError, template: Seq<char>, provided: Seq<Seq<char>>) -> bool {
    if names_match(required_names(template), provided) {
        tells_render(error)
    } else {
        tells_mismatch(error, template, provided)
    }
}

/// The bindings of a request for the summary of one chunk.
pub open spec fn file_diff_bindings(file_diff: Seq<char>) -> Seq<(Seq<char>, Seq<char>)> {
    seq![("file_diff"@, file_diff)]
}

/// The bindings of a request for a title or for a body.
pub open spec fn summary_bindings(summary_points: Seq<char>) -> Seq<(Seq<char>, Seq<char>)> {
    seq![("summary_points"@, summary_points)]
}

/// The bindings of a request for a translation.
pub open spec fn translation_bindings(commit_message: Seq<char>, language: Seq<char>) -> Seq<
    (Seq<char>, Seq<char>),
> {
    seq![("commit_message"@, commit_message), ("output_language"@, language)]
}

/// The summary that the outcome of a request stands for: the answer
/// without the white space at its ends, and the empty text for a failure of
/// whatever kind.
pub open spec fn step_summary(outcome: Result<String, StepError>) -> Seq<char> {
    match outcome {
        Ok(text) => trimmed(text@),
        Err(_) => Seq::empty(),
    }
}

/// `text` is the summary of `chunk` that a request to `client` for
/// `template` gave.
pub open spec fn summarized<C: LlmClient>(
    client: &C,
    template: Seq<char>,
    chunk: Seq<char>,
    text: Seq<char>,
) -> bool {
    exists|outcome: Result<String, StepError>| #[trigger]
        request_result(client, outcome, template, file_diff_bindings(chunk)) && text
            == step_summary(outcome)
}

/// `entries` are the summaries that `client` gave of `chunks`: they
/// summarize the chunks, and each summary is the one that a request for a
/// chunk that names its file gave.
pub open spec fn summaries_of<C: LlmClient>(
    client: &C,
    template: Seq<char>,
    entries: Seq<(Seq<char>, Seq<char>)>,
    chunks: Seq<Seq<char>>,
    ignore: Seq<Seq<char>>,
) -> bool {
    &&& summarizes(entries, chunks, ignore)
    &&& forall|k: int|
        0 <= k < entries.len() ==> exists|i: int|
            0 <= i < chunks.len() && chunk_target(#[trigger] chunks[i], ignore) == Some(
                (#[trigger] entries[k]).0,
            ) && summarized(client, template, chunks[i], entries[k].1)
}

/// `message` is what becomes of the outcomes of the requests for a title
/// and for a body: the error of the title if it failed, whatever became of
/// the body; else the error of the body if it failed; else the message
/// composed of the two answers and the summaries of `entries`.
pub open spec fn composed_of(
    message: Result<String, SummarizeError>,
    title: Result<String, StepError>,
    body: Result<String, StepError>,
    entries: Seq<(Seq<char>, Seq<char>)>,
) -> bool {
    match title {
        Err(error) => message == Err::<String, SummarizeError>(SummarizeError::Title(error)),
        Ok(title_text) => match body {
            Err(error) => message == Err::<String, SummarizeError>(SummarizeError::Body(error)),
            Ok(body_text) => message is Ok && message->Ok_0@ == message_spec(
                title_text@,
                body_text@,
                entries,
            ),
        },
    }
}

/// `message` is composed for `entries` by asking `client` for a title and
/// for a body of `points`.
pub open spec fn composes<C: LlmClient>(
    client: &C,
    title_template: Seq<char>,
    body_template: Seq<char>,
    message: Result<String, SummarizeError>,
    points: Seq<char>,
    entries: Seq<(Seq<char>, Seq<char>)>,
) -> bool {
    exists|title: Result<String, StepError>, body: Result<String, StepError>|
        request_result(client, title, title_template, summary_bindings(points)) && request_result(
            client,
            body,
            body_template,
            summary_bindings(points),
        ) && #[trigger] composed_of(message, title, body, entries)
}

/// `message` is what becomes of a composed message in `language`: an error
/// of composing is the error; a message in English is the message as it
/// stands; for another language the backend is asked for a translation, and
/// its answer is the message, its failure the error.
pub open spec fn finished<C: LlmClient>(
    client: &C,
    template: Seq<char>,
    language: Seq<char>,
    message: Result<String, SummarizeError>,
    composed: Result<String, SummarizeError>,
) -> bool {
    match composed {
        Err(error) => message == Err::<String, SummarizeError>(error),
        Ok(text) => if language == default_language() {
            message is Ok && message->Ok_0@ == text@
        } else {
            exists|translated: Result<String, StepError>| #[trigger]
                request_result(
                    client,
                    translated,
                    template,
                    translation_bindings(text@, language),
                ) && message == match translated {
                    Ok(answer) => Ok::<String, SummarizeError>(answer),
                    Err(error) => Err::<String, SummarizeError>(SummarizeError::Translation(error)),
                }
        },
    }
}

/// The prompt that asks for the summary of one chunk: the template with the
/// chunk bound to `file_diff`.
pub fn file_diff_prompt(template: &str, file_diff: &str) -> (prompt: Result<String, FormatError>)
    ensures
        prompt is Ok <==> formats(template@, file_diff_bindings(file_diff@)),
        formatted_as(prompt, template@, file_diff_bindings(file_diff@)),
{
    let bindings = single_binding("file_diff", file_diff);
    format_prompt(template, &bindings)
}

/// The prompt that asks for a title or for a body: the template with the
/// summary points bound to `summary_points`.
pub fn summary_prompt(template: &str, summary_points: &str) -> (prompt: Result<String, FormatError>)
    ensures
        prompt is Ok <==> formats(template@, summary_bindings(summary_points@)),
        formatted_as(prompt, template@, summary_bindings(summary_points@)),
{
    let bindings = single_binding("summary_points", summary_points);
    format_prompt(template, &bindings)
}

/// The request for the translation of a message into `language`: none where
/// the language is English, so that the backend is not asked and the message
/// stays as it is; for every other language one prompt, the template with
/// the message bound to `commit_message` and the language to
/// `output_language`.
pub fn translation_prompt(template: &str, commit_message: &str, language: &str) -> (prompt: Option<
    Result<String, FormatError>,
>)
    ensures
        prompt is None <==> language@ == default_language(),
        prompt is Some ==> (prompt->0 is Ok <==> formats(
            template@,
            translation_bindings(commit_message@, language@),
        )),
        prompt is Some ==> formatted_as(
            prompt->0,
            template@,
            translation_bindings(commit_message@, language@),
        ),
{
    if !needs_translation(language) {
        return None;
    }
    let mut bindings: Vec<(String, String)> = Vec::new();
    bindings.push((String::from_str("commit_message"), String::from_str(commit_message)));
    bindings.push((String::from_str("output_language"), String::from_str(language)));
    proof {
        assert(pair_views(bindings@) =~= seq![
            ("commit_message"@, commit_message@),
            ("output_language"@, language@),
        ]);
    }
    Some(format_prompt(template, &bindings))
}

/// Asks `client` to complete a prompt, if there is one: a prompt that could
/// not be formatted is the error of the request, and the backend is not
/// asked. Where there is a prompt the backend is asked with it, and what it
/// gives is handed on as it is: its answer, or its error.
pub fn complete<C: LlmClient>(client: &C, prompt: Result<String, FormatError>) -> (outcome: Result<
    String,
    StepError,
>)
    ensures
        match prompt {
            Ok(text) => answered(client, text@, outcome),
            Err(error) => outcome == Err::<String, StepError>(StepError::Format(error)),
        },
{
    match prompt {
        Ok(text) => match client.completions(text.as_str()) {
            Ok(answer) => Ok(answer),
            Err(error) => Err(StepError::Completion(error)),
        },
        Err(error) => Err(StepError::Format(error)),
    }
}

/// What turns the chunks of a diff into a commit message: a backend, the
/// prompt templates, the files to pass over and the language to write in.
pub struct SummarizationClient<C: LlmClient> {
    pub client: C,
    pub file_ignore: Vec<String>,
    pub prompt_file_diff: String,
    pub prompt_commit_summary: String,
    pub prompt_commit_title: String,
    pub prompt_translation: String,
    pub prompt_lang: String,
}

/// The text of an optional setting, an unset one being the empty text.
pub open spec fn text_or_empty(text: Option<Seq<char>>) -> Seq<char> {
    match text {
        Some(text) => text,
        None => Seq::empty(),
    }
}

/// The list of an optional setting, an unset one being the empty list.
pub open spec fn list_or_empty(list: Option<Seq<Seq<char>>>) -> Seq<Seq<char>> {
    match list {
        Some(list) => list,
        None => Seq::empty(),
    }
}

fn unwrap_or_empty(text: Option<String>) -> (unwrapped: String)
    ensures
        unwrapped@ == text_or_empty(opt_view(text)),
{
    match text {
        Some(text) => text,
        None => String::new(),
    }
}

impl<C: LlmClient> SummarizationClient<C> {
    /// Sets a client up from the settings in force. The prompt templates and
    /// the output settings must be there, and the output language must be a
    /// language; a template that is not set is empty, and so is the list of
    /// files to pass over.
    pub fn new(settings: Settings, client: C) -> (made: Result<Self, ConfigError>)
        ensures
            made is Ok <==> settings@.prompt is Some && settings@.output is Some && Language::parse(
                text_or_empty(settings@.output->0.lang),
            ) is Some,
            match made {
                Ok(made) => {
                    &&& made.client == client
                    &&& string_views(made.file_ignore@) == list_or_empty(settings@.file_ignore)
                    &&& made.prompt_file_diff@ == text_or_empty(settings@.prompt->0.file_diff)
                    &&& made.prompt_commit_summary@ == text_or_empty(
                        settings@.prompt->0.commit_summary,
                    )
                    &&& made.prompt_commit_title@ == text_or_empty(
                        settings@.prompt->0.commit_title,
                    )
                    &&& made.prompt_translation@ == text_or_empty(settings@.prompt->0.translation)
                    &&& made.prompt_lang@ == Language::parse(
                        text_or_empty(settings@.output->0.lang),
                    )->0.name()
                },
                Err(ConfigError::Missing { key }) => if settings@.prompt is None {
                    key@ == "prompt"@
                } else {
                    settings@.output is None && key@ == "output"@
                },
                Err(ConfigError::Invalid { key, value }) => {
                    &&& settings@.prompt is Some
                    &&& settings@.output is Some
                    &&& key@ == "output.lang"@
                    &&& value@ == text_or_empty(settings@.output->0.lang)
                },
                Err(ConfigError::Message { .. }) => false,
            },
    {
        let prompt = match settings.prompt {
            Some(prompt) => prompt,
            None => {
                return Err(ConfigError::Missing { key: String::from_str("prompt") });
            },
        };
        let output = match settings.output {
            Some(output) => output,
            None => {
                return Err(ConfigError::Missing { key: String::from_str("output") });
            },
        };
        let lang = unwrap_or_empty(output.lang);
        let language = match Language::from_str(lang.as_str()) {
            Ok(language) => language,
            Err(_) => {
                return Err(
                    ConfigError::Invalid { key: String::from_str("output.lang"), value: lang },
                );
            },
        };
        let file_ignore = match settings.file_ignore {
            Some(list) => list,
            None => Vec::new(),
        };
        proof {
            assert(string_views(file_ignore@) =~= list_or_empty(settings@.file_ignore));
        }
        Ok(
            SummarizationClient {
                client,
                file_ignore,
                prompt_file_diff: unwrap_or_empty(prompt.file_diff),
                prompt_commit_summary: unwrap_or_empty(prompt.commit_summary),
                prompt_commit_title: unwrap_or_empty(prompt.commit_title),
                prompt_translation: unwrap_or_empty(prompt.translation),
                prompt_lang: language.to_string(),
            },
        )
    }

    /// The summary of one file's diff, as the backend gives it: the backend
    /// is asked with the file-diff template in which the chunk is bound to
    /// `file_diff`, and its answer is returned as it is.
    pub fn diff_summary(&self, file_name: &str, file_diff: &str) -> (summary: Result<
        String,
        StepError,
    >)
        ensures
            request_result(
                &self.client,
                summary,
                self.prompt_file_diff@,
                file_diff_bindings(file_diff@),
            ),
    {
        complete(&self.client, file_diff_prompt(self.prompt_file_diff.as_str(), file_diff))
    }

    /// The path and the summary of one chunk of a diff.
    ///
    /// A chunk that names no file is skipped, and so is one whose file is to
    /// be passed over. For every other chunk there is a summary: the answer
    /// of the backend without the white space at its ends, or the empty text
    /// where no answer could be had.
    pub fn process_file_diff(&self, file_diff: &str) -> (summary: Option<(String, String)>)
        ensures
            match chunk_target(file_diff@, string_views(self.file_ignore@)) {
                Some(path) => {
                    &&& summary is Some
                    &&& (summary->0).0@ == path
                    &&& summarized(
                        &self.client,
                        self.prompt_file_diff@,
                        file_diff@,
                        (summary->0).1@,
                    )
                    &&& trimmed((summary->0).1@) == (summary->0).1@
                },
                None => summary is None,
            },
    {
        match summary_target(file_diff, &self.file_ignore) {
            Some(file_name) => {
                let outcome = self.diff_summary(file_name, file_diff);
                let ghost asked = outcome;
                let completion = match outcome {
                    Ok(text) => Ok(text),
                    Err(_) => Err(LlmError::NoCompletion),
                };
                let text = summary_text(completion);
                proof {
                    assert(request_result(
                        &self.client,
                        asked,
                        self.prompt_file_diff@,
                        file_diff_bindings(file_diff@),
                    ) && text@ == step_summary(asked));
                }
                Some((String::from_str(file_name), text))
            },
            None => None,
        }
    }

    /// The summaries of all chunks, gathered by file path. Its paths are the
    /// files of the chunks that were not skipped, whatever the backend did: a
    /// file that is to be passed over is never among them, and a file whose
    /// summary could not be had is among them with an empty summary. Each
    /// summary is the one that the backend gave for a chunk of its file.
    pub fn summarize_files(&self, file_diffs: &Vec<&str>) -> (summaries: FileSummaries)
        ensures
            summaries_of(
                &self.client,
                self.prompt_file_diff@,
                summaries.entries(),
                str_views(file_diffs@),
                string_views(self.file_ignore@),
            ),
            forall|path: Seq<char>|
                summaries@.dom().contains(path) ==> !is_ignored(
                    path,
                    string_views(self.file_ignore@),
                ),
    {
        let ghost chunks = str_views(file_diffs@);
        let ghost ignore = string_views(self.file_ignore@);
        let mut outcomes: Vec<Option<(String, String)>> = Vec::new();
        let mut i: usize = 0;
        while i < file_diffs.len()
            invariant
                chunks == str_views(file_diffs@),
                ignore == string_views(self.file_ignore@),
                i <= file_diffs@.len(),
                outcomes@.len() == i,
                forall|j: int|
                    0 <= j < i ==> named_path(#[trigger] outcome_views(outcomes@)[j])
                        == chunk_target(chunks[j], ignore),
                forall|j: int|
                    0 <= j < i ==> match #[trigger] outcome_views(outcomes@)[j] {
                        Some(pair) => trimmed(pair.1) == pair.1 && summarized(
                            &self.client,
                            self.prompt_file_diff@,
                            chunks[j],
                            pair.1,
                        ),
                        None => true,
                    },
            decreases file_diffs@.len() - i,
        {
            let outcome = self.process_file_diff(file_diffs[i]);
            proof {
                let before = outcome_views(outcomes@);
                let after = outcome_views(outcomes@.push(outcome));
                assert forall|j: int| 0 <= j < i implies #[trigger] after[j] == before[j] by {}
                assert(chunks[i as int] == file_diffs@[i as int]@);
            }
            outcomes.push(outcome);
            i += 1;
        }
        let summaries = collect_summaries(&outcomes);
        proof {
            let views = outcome_views(outcomes@);
            let entries = summaries.entries();
            summaries.lemma_view();
            lemma_gathered(views);
            assert forall|path: Seq<char>|
                entries_map(entries).dom().contains(path) <==> exists|i: int|
                    0 <= i < chunks.len() && chunk_target(#[trigger] chunks[i], ignore) == Some(
                        path,
                    ) by {
                if names_path(views, path) {
                    let k = choose|k: int|
                        0 <= k < views.len() && named_path(#[trigger] views[k]) == Some(path);
                    assert(chunk_target(chunks[k], ignore) == Some(path));
                }
                if exists|i: int|
                    0 <= i < chunks.len() && chunk_target(#[trigger] chunks[i], ignore) == Some(
                        path,
                    ) {
                    let k = choose|k: int|
                        0 <= k < chunks.len() && chunk_target(#[trigger] chunks[k], ignore)
                            == Some(path);
                    assert(named_path(views[k]) == Some(path));
                }
            }
            assert forall|k: int| 0 <= k < entries.len() implies trimmed(
                (#[trigger] entries[k]).1,
            ) == entries[k].1 && exists|i: int|
                0 <= i < chunks.len() && chunk_target(#[trigger] chunks[i], ignore) == Some(
                    entries[k].0,
                ) && summarized(&self.client, self.prompt_file_diff@, chunks[i], entries[k].1) by {
                assert(views.contains(Some(entries[k])));
                let j = choose|j: int| 0 <= j < views.len() && views[j] == Some(entries[k]);
                assert(views[j] == Some(entries[k]));
                assert(named_path(views[j]) == chunk_target(chunks[j], ignore));
            }
            assert forall|path: Seq<char>| summaries@.dom().contains(path) implies !is_ignored(
                path,
                ignore,
            ) by {
                if is_ignored(path, ignore) {
                    lemma_ignored_files_are_left_out(entries, chunks, ignore, path);
                }
            }
        }
        summaries
    }

    /// The body of the commit message for the summary points: the backend is
    /// asked with the commit-summary template in which the points are bound
    /// to `summary_points`, and its answer is returned as it is.
    pub fn commit_summary(&self, summary_points: &str) -> (body: Result<String, StepError>)
        ensures
            request_result(
                &self.client,
                body,
                self.prompt_commit_summary@,
                summary_bindings(summary_points@),
            ),
    {
        complete(&self.client, summary_prompt(self.prompt_commit_summary.as_str(), summary_points))
    }

    /// The title of the commit message for the summary points: the backend
    /// is asked with the commit-title template in which the points are bound
    /// to `summary_points`, and its answer is returned as it is. There is no
    /// second try and no title of the library's own.
    pub fn commit_title(&self, summary_points: &str) -> (title: Result<String, StepError>)
        ensures
            request_result(
                &self.client,
                title,
                self.prompt_commit_title@,
                summary_bindings(summary_points@),
            ),
    {
        complete(&self.client, summary_prompt(self.prompt_commit_title.as_str(), summary_points))
    }

    /// The commit message in the language asked for. Where that is English
    /// the message is returned as it is and the backend is not asked;
    /// otherwise the backend is asked once, with the translation template in
    /// which the message is bound to `commit_message` and the language to
    /// `output_language`, and its answer is returned as it is.
    pub fn commit_translate(&self, commit_message: &str) -> (translated: Result<String, StepError>)
        ensures
            self.prompt_lang@ == default_language() ==> translated is Ok && translated->Ok_0@
                == commit_message@,
            self.prompt_lang@ != default_language() ==> request_result(
                &self.client,
                translated,
                self.prompt_translation@,
                translation_bindings(commit_message@, self.prompt_lang@),
            ),
    {
        match translation_prompt(
            self.prompt_translation.as_str(),
            commit_message,
            self.prompt_lang.as_str(),
        ) {
            None => Ok(String::from_str(commit_message)),
            Some(prompt) => complete(&self.client, prompt),
        }
    }

    /// The commit message for the summaries of a change, in English: a
    /// title and a body are asked for the summary points, and if either
    /// fails there is no message, whatever became of the other. The message
    /// is the title, the body and the summaries that are not empty, without
    /// the lines that repeat a line above them.
    pub fn compose(&self, summary_points: &str, per_file: &FileSummaries) -> (message: Result<
        String,
        SummarizeError,
    >)
        ensures
            composes(
                &self.client,
                self.prompt_commit_title@,
                self.prompt_commit_summary@,
                message,
                summary_points@,
                per_file.entries(),
            ),
            !well_formed_for(self.prompt_commit_title@, seq!["summary_points"@]) ==> failed_title(
                message,
            ) is Some && tells_ill_formed(
                failed_title(message)->0,
                self.prompt_commit_title@,
                seq!["summary_points"@],
            ),
            !well_formed_for(self.prompt_commit_summary@, seq!["summary_points"@]) ==> failed_title(
                message,
            ) is Some || (failed_body(message) is Some && tells_ill_formed(
                failed_body(message)->0,
                self.prompt_commit_summary@,
                seq!["summary_points"@],
            )),
            match message {
                Ok(text) => split_lines(text@).no_duplicates(),
                Err(error) => !(error is Translation),
            },
    {
        let title = self.commit_title(summary_points);
        let body = self.commit_summary(summary_points);
        let ghost title_outcome = title;
        let ghost body_outcome = body;
        proof {
            assert(binding_names(summary_bindings(summary_points@)) =~= seq!["summary_points"@]);
        }
        let both = match join_title_body(title, body) {
            Ok(both) => both,
            Err(error) => {
                proof {
                    assert(composed_of(
                        Err(error),
                        title_outcome,
                        body_outcome,
                        per_file.entries(),
                    ));
                }
                return Err(error);
            },
        };
        let message = compose_message(both.0.as_str(), both.1.as_str(), per_file);
        proof {
            assert(composed_of(Ok(message), title_outcome, body_outcome, per_file.entries()));
        }
        Ok(message)
    }

    /// The commit message for the chunks of a diff.
    ///
    /// The chunks are summarized one by one and the summaries gathered; the
    /// message is composed for them, and translated where the language asked
    /// for is not English. An English message is composed of a title, a body
    /// and summaries of the chunks, and repeats no line; a message in another
    /// language is the backend's translation of that, as it stands.
    pub fn get_commit_message(&self, file_diffs: Vec<&str>) -> (message: Result<
        String,
        SummarizeError,
    >)
        ensures
            exists|entries: Seq<(Seq<char>, Seq<char>)>, composed: Result<String, SummarizeError>|
                summaries_of(
                    &self.client,
                    self.prompt_file_diff@,
                    entries,
                    str_views(file_diffs@),
                    string_views(self.file_ignore@),
                ) && #[trigger] composes(
                    &self.client,
                    self.prompt_commit_title@,
                    self.prompt_commit_summary@,
                    composed,
                    summary_points_spec(entries),
                    entries,
                ) && finished(
                    &self.client,
                    self.prompt_translation@,
                    self.prompt_lang@,
                    message,
                    composed,
                ),
            !well_formed_for(self.prompt_commit_title@, seq!["summary_points"@]) ==> failed_title(
                message,
            ) is Some && tells_ill_formed(
                failed_title(message)->0,
                self.prompt_commit_title@,
                seq!["summary_points"@],
            ),
            !well_formed_for(self.prompt_commit_summary@, seq!["summary_points"@]) ==> failed_title(
                message,
            ) is Some || (failed_body(message) is Some && tells_ill_formed(
                failed_body(message)->0,
                self.prompt_commit_summary@,
                seq!["summary_points"@],
            )),
            self.prompt_lang@ != default_language() && !well_formed_for(
                self.prompt_translation@,
                seq!["commit_message"@, "output_language"@],
            ) ==> message is Err && (failed_translation(message) is Some ==> tells_ill_formed(
                failed_translation(message)->0,
                self.prompt_translation@,
                seq!["commit_message"@, "output_language"@],
            )),
            self.prompt_lang@ == default_language() ==> match message {
                Ok(text) => split_lines(text@).no_duplicates(),
                Err(error) => !(error is Translation),
            },
    {
        let summaries = self.summarize_files(&file_diffs);
        let points = summary_points(&summaries);
        let composed = self.compose(points.as_str(), &summaries);
        let ghost composed_outcome = composed;
        let message = match composed {
            Ok(message) => message,
            Err(error) => {
                proof {
                    assert(finished(
                        &self.client,
                        self.prompt_translation@,
                        self.prompt_lang@,
                        Err(error),
                        composed_outcome,
                    ));
                }
                return Err(error);
            },
        };
        let translated = self.commit_translate(message.as_str());
        let ghost translation = translated;
        let finished_message = match translated {
            Ok(translated) => Ok(translated),
            Err(error) => Err(SummarizeError::Translation(error)),
        };
        proof {
            assert(binding_names(translation_bindings(message@, self.prompt_lang@)) =~= seq![
                "commit_message"@,
                "output_language"@,
            ]);
            if self.prompt_lang@ != default_language() {
                assert(request_result(
                    &self.client,
                    translation,
                    self.prompt_translation@,
                    translation_bindings(message@, self.prompt_lang@),
                ));
            }
            assert(finished(
                &self.client,
                self.prompt_translation@,
                self.prompt_lang@,
                finished_message,
                composed_outcome,
            ));
        }
        finished_message
    }
}

} // verus!
