use std::cell::RefCell;

use gptcommit::llms::llm_client::{LlmClient, LlmError};
use gptcommit::llms::tester_foobar::FooBarClient;
use gptcommit::prompt::FormatError;
use gptcommit::settings::{ConfigError, Settings};
use gptcommit::summaries::FileSummaries;
use gptcommit::summarize::{
    assemble_message, collect_summaries, complete, compose_message, file_diff_prompt,
    is_ignored_path, join_title_body, needs_translation, render_block, single_binding,
    summary_points, summary_prompt, summary_target, summary_text, translation_prompt, StepError,
    SummarizationClient, SummarizeError,
};
use gptcommit::util::split_diff;

const THREE_FILES: &str = "diff --git a/one.rs b/one.rs\n+1\ndiff --git a/two.rs b/two.rs\n+2\ndiff --git a/three.rs b/three.rs\n+3\n";

/// Answers by a rule of its own and keeps every prompt that it was asked.
struct Scripted {
    asked: RefCell<Vec<String>>,
    answer: fn(&str) -> Result<String, LlmError>,
}

impl Scripted {
    fn new(answer: fn(&str) -> Result<String, LlmError>) -> Self {
        Scripted { asked: RefCell::new(Vec::new()), answer }
    }
}

impl LlmClient for Scripted {
    fn completions(&self, prompt: &str) -> Result<String, LlmError> {
        self.asked.borrow_mut().push(prompt.to_string());
        (self.answer)(prompt)
    }
}

fn settings(lang: &str) -> Settings {
    let mut settings = Settings::defaults();
    let mut prompt = settings.prompt.take().unwrap();
    prompt.file_diff = Some("FILE {{ file_diff }}".to_string());
    prompt.commit_title = Some("TITLE {{ summary_points }}".to_string());
    prompt.commit_summary = Some("BODY {{ summary_points }}".to_string());
    prompt.translation = Some("TRANSLATE {{ commit_message }} INTO {{ output_language }}".to_string());
    settings.prompt = Some(prompt);
    let mut output = settings.output.take().unwrap();
    output.lang = Some(lang.to_string());
    settings.output = Some(output);
    settings.file_ignore = Some(vec!["lock".to_string()]);
    settings
}

fn by_kind(prompt: &str) -> Result<String, LlmError> {
    if prompt.starts_with("FILE ") {
        Ok(format!("  changed {}  ", prompt.matches('+').count()))
    } else if prompt.starts_with("TITLE ") {
        Ok("a title".to_string())
    } else if prompt.starts_with("BODY ") {
        Ok("a body".to_string())
    } else {
        Ok("translated".to_string())
    }
}

fn fails_on_two(prompt: &str) -> Result<String, LlmError> {
    if prompt.starts_with("FILE ") && prompt.contains("two.rs") {
        Err(LlmError::TokenLimit)
    } else {
        by_kind(prompt)
    }
}

fn fails_on_title(prompt: &str) -> Result<String, LlmError> {
    if prompt.starts_with("TITLE ") {
        Err(LlmError::Backend { message: "down".to_string() })
    } else {
        by_kind(prompt)
    }
}

fn fails_on_body(prompt: &str) -> Result<String, LlmError> {
    if prompt.starts_with("BODY ") {
        Err(LlmError::NoCompletion)
    } else {
        by_kind(prompt)
    }
}

fn summaries(pairs: &[(&str, &str)]) -> FileSummaries {
    let mut all = FileSummaries::new();
    for (path, text) in pairs {
        all = all.insert(path.to_string(), text.to_string());
    }
    all
}

#[test]
fn foobar_pipeline_gives_the_whole_message() {
    let client = SummarizationClient::new(Settings::defaults(), FooBarClient::new().unwrap()).unwrap();
    let message = client.get_commit_message(split_diff(THREE_FILES)).unwrap();
    assert_eq!(message, "foo bar\n\n[one.rs]\n[two.rs]\n[three.rs]");
}

#[test]
fn one_failed_file_does_not_stop_the_others() {
    let client = SummarizationClient::new(settings("en"), Scripted::new(fails_on_two)).unwrap();
    let chunks = split_diff(THREE_FILES);
    let map = client.summarize_files(&chunks);
    assert_eq!(map.len(), 3);
    assert_eq!(map.get("one.rs").map(String::as_str), Some("changed 1"));
    assert_eq!(map.get("two.rs").map(String::as_str), Some(""));
    assert_eq!(map.get("three.rs").map(String::as_str), Some("changed 1"));

    let message = client.get_commit_message(chunks).unwrap();
    assert_eq!(message, "a title\n\na body\n[one.rs]\nchanged 1\n[three.rs]");
}

#[test]
fn ignored_files_are_neither_asked_about_nor_kept() {
    let diff = "diff --git a/Cargo.lock b/Cargo.lock\n+1\ndiff --git a/src/lib.rs b/src/lib.rs\n+2\n";
    let client = SummarizationClient::new(settings("en"), Scripted::new(by_kind)).unwrap();
    let map = client.summarize_files(&split_diff(diff));
    assert_eq!(map.len(), 1);
    assert!(!map.contains_key("Cargo.lock"));
    assert!(map.contains_key("src/lib.rs"));
    let asked = client.client.asked.borrow();
    assert_eq!(asked.len(), 1);
    assert!(asked[0].contains("src/lib.rs"));
    assert!(!asked.iter().any(|prompt| prompt.contains("Cargo.lock")));
}

#[test]
fn chunks_without_a_file_name_are_skipped() {
    let client = SummarizationClient::new(settings("en"), Scripted::new(by_kind)).unwrap();
    assert_eq!(client.process_file_diff("not a diff"), None);
    assert_eq!(client.process_file_diff(""), None);
    assert_eq!(client.client.asked.borrow().len(), 0);
    assert_eq!(
        client.process_file_diff("diff --git a/x b/x\n+1\n+2"),
        Some(("x".to_string(), "changed 2".to_string()))
    );
    assert_eq!(client.client.asked.borrow().as_slice(), ["FILE diff --git a/x b/x\n+1\n+2"]);
}

#[test]
fn a_failed_title_is_fatal() {
    let client = SummarizationClient::new(settings("en"), Scripted::new(fails_on_title)).unwrap();
    match client.get_commit_message(split_diff(THREE_FILES)) {
        Err(SummarizeError::Title(StepError::Completion(LlmError::Backend { message }))) => {
            assert_eq!(message, "down")
        }
        other => panic!("expected a failed title, got {:?}", other),
    }
}

#[test]
fn a_failed_body_is_fatal() {
    let client = SummarizationClient::new(settings("en"), Scripted::new(fails_on_body)).unwrap();
    assert!(matches!(
        client.get_commit_message(split_diff(THREE_FILES)),
        Err(SummarizeError::Body(StepError::Completion(LlmError::NoCompletion)))
    ));
}

#[test]
fn a_title_template_that_asks_for_more_is_fatal() {
    let mut wrong = settings("en");
    let mut prompt = wrong.prompt.take().unwrap();
    prompt.commit_title = Some("{{ summary_points }} {{ other }}".to_string());
    wrong.prompt = Some(prompt);
    let client = SummarizationClient::new(wrong, Scripted::new(by_kind)).unwrap();
    match client.get_commit_message(split_diff(THREE_FILES)) {
        Err(SummarizeError::Title(StepError::Format(FormatError::PlaceholderMismatch {
            required,
            provided,
        }))) => {
            assert_eq!(required, vec!["summary_points", "other"]);
            assert_eq!(provided, vec!["summary_points"]);
        }
        other => panic!("expected a mismatch, got {:?}", other),
    }
}

#[test]
fn a_file_template_that_does_not_fit_gives_empty_summaries() {
    let mut wrong = settings("en");
    let mut prompt = wrong.prompt.take().unwrap();
    prompt.file_diff = Some("no placeholder".to_string());
    wrong.prompt = Some(prompt);
    let client = SummarizationClient::new(wrong, Scripted::new(by_kind)).unwrap();
    let map = client.summarize_files(&split_diff(THREE_FILES));
    assert_eq!(map.len(), 3);
    assert_eq!(map.get("one.rs").map(String::as_str), Some(""));
    assert_eq!(client.client.asked.borrow().len(), 0);
}

#[test]
fn english_is_not_translated() {
    let client = SummarizationClient::new(settings("en"), Scripted::new(by_kind)).unwrap();
    assert_eq!(client.commit_translate("a\n message ").unwrap(), "a\n message ");
    assert_eq!(client.client.asked.borrow().len(), 0);

    let message = client.get_commit_message(split_diff(THREE_FILES)).unwrap();
    assert_eq!(message, "a title\n\na body\n[one.rs]\nchanged 1\n[two.rs]\n[three.rs]");
    // three files, the title and the body
    assert_eq!(client.client.asked.borrow().len(), 5);
}

#[test]
fn english_is_not_translated_even_with_a_bad_template() {
    let mut wrong = settings("English");
    let mut prompt = wrong.prompt.take().unwrap();
    prompt.translation = Some("{{ nothing }}".to_string());
    wrong.prompt = Some(prompt);
    let client = SummarizationClient::new(wrong, Scripted::new(by_kind)).unwrap();
    assert_eq!(client.commit_translate("message").unwrap(), "message");
}

#[test]
fn another_language_costs_one_more_request() {
    let client = SummarizationClient::new(settings("ja"), Scripted::new(by_kind)).unwrap();
    assert_eq!(client.prompt_lang, "Japanese");
    let message = client.get_commit_message(split_diff(THREE_FILES)).unwrap();
    assert_eq!(message, "translated");
    let asked = client.client.asked.borrow();
    assert_eq!(asked.len(), 6);
    assert_eq!(
        asked[5],
        "TRANSLATE a title\n\na body\n[one.rs]\nchanged 1\n[two.rs]\n[three.rs] INTO Japanese"
    );
}

fn fails_on_translation(prompt: &str) -> Result<String, LlmError> {
    if prompt.starts_with("TRANSLATE ") {
        Err(LlmError::TokenLimit)
    } else {
        by_kind(prompt)
    }
}

#[test]
fn a_failed_translation_is_fatal() {
    let client = SummarizationClient::new(settings("zh-cn"), Scripted::new(fails_on_translation)).unwrap();
    assert!(matches!(
        client.get_commit_message(split_diff(THREE_FILES)),
        Err(SummarizeError::Translation(StepError::Completion(LlmError::TokenLimit)))
    ));

    let mut wrong = settings("zh-tw");
    let mut prompt = wrong.prompt.take().unwrap();
    prompt.translation = Some("{{ commit_message }}".to_string());
    wrong.prompt = Some(prompt);
    let client = SummarizationClient::new(wrong, Scripted::new(by_kind)).unwrap();
    match client.commit_translate("message") {
        Err(StepError::Format(FormatError::PlaceholderMismatch { required, provided })) => {
            assert_eq!(required, vec!["commit_message"]);
            assert_eq!(provided, vec!["commit_message", "output_language"]);
        }
        other => panic!("expected a mismatch, got {:?}", other),
    }
}

#[test]
fn compose_asks_for_title_and_body() {
    let client = SummarizationClient::new(settings("ja"), Scripted::new(by_kind)).unwrap();
    let files = summaries(&[("a", "one"), ("b", "")]);
    assert_eq!(client.compose("the points", &files).unwrap(), "a title

a body
[a]
one");
    assert_eq!(client.client.asked.borrow().as_slice(), ["TITLE the points", "BODY the points"]);

    let client = SummarizationClient::new(settings("en"), Scripted::new(fails_on_title)).unwrap();
    assert!(matches!(client.compose("the points", &files), Err(SummarizeError::Title(_))));
}

#[test]
fn title_and_body_get_the_summary_points() {
    let client = SummarizationClient::new(settings("en"), Scripted::new(by_kind)).unwrap();
    client.get_commit_message(split_diff(THREE_FILES)).unwrap();
    let asked = client.client.asked.borrow();
    let points = "[one.rs]\nchanged 1\n[two.rs]\nchanged 1\n[three.rs]\nchanged 1";
    assert_eq!(asked[3], format!("TITLE {}", points));
    assert_eq!(asked[4], format!("BODY {}", points));
}

#[test]
fn client_needs_prompts_output_and_a_language() {
    let mut missing = Settings::defaults();
    missing.prompt = None;
    match SummarizationClient::new(missing, FooBarClient::new().unwrap()).err() {
        Some(ConfigError::Missing { key }) => assert_eq!(key, "prompt"),
        other => panic!("expected missing prompts, got {:?}", other),
    }
    let mut missing = Settings::defaults();
    missing.output = None;
    match SummarizationClient::new(missing, FooBarClient::new().unwrap()).err() {
        Some(ConfigError::Missing { key }) => assert_eq!(key, "output"),
        other => panic!("expected missing output settings, got {:?}", other),
    }
    match SummarizationClient::new(settings("xx"), FooBarClient::new().unwrap()).err() {
        Some(ConfigError::Invalid { key, value }) => {
            assert_eq!(key, "output.lang");
            assert_eq!(value, "xx");
        }
        other => panic!("expected an invalid language, got {:?}", other),
    }
    let mut unset = settings("en");
    let mut output = unset.output.take().unwrap();
    output.lang = None;
    unset.output = Some(output);
    match SummarizationClient::new(unset, FooBarClient::new().unwrap()).err() {
        Some(ConfigError::Invalid { key, value }) => {
            assert_eq!(key, "output.lang");
            assert_eq!(value, "");
        }
        other => panic!("expected an invalid language, got {:?}", other),
    }

    let mut bare = Settings::defaults();
    bare.file_ignore = None;
    let mut prompt = bare.prompt.take().unwrap();
    prompt.file_diff = None;
    bare.prompt = Some(prompt);
    let client = SummarizationClient::new(bare, FooBarClient::new().unwrap()).unwrap();
    assert_eq!(client.prompt_file_diff, "");
    assert!(client.file_ignore.is_empty());
    assert_eq!(client.prompt_lang, "English");
}

#[test]
fn summary_target_follows_name_and_ignore_list() {
    let ignore = vec!["lock".to_string(), "vendor/".to_string()];
    assert_eq!(summary_target("diff --git a/x b/x", &ignore), Some("x"));
    assert_eq!(summary_target("diff --git a/yarn.lock b/yarn.lock", &ignore), None);
    assert_eq!(summary_target("diff --git a/v b/vendor/x.rs", &ignore), None);
    assert_eq!(summary_target("diff --git a/vendor b/vendor", &ignore), Some("vendor"));
    assert_eq!(summary_target("nothing", &ignore), None);
    assert_eq!(summary_target("diff --git a/x b/x", &Vec::new()), Some("x"));
    // an empty pattern is held by every path
    assert_eq!(summary_target("diff --git a/x b/x", &vec![String::new()]), None);
    assert!(is_ignored_path("a/Cargo.lock", &vec!["Cargo.lock".to_string()]));
    assert!(!is_ignored_path("a/Cargo.toml", &vec!["Cargo.lock".to_string()]));
}

#[test]
fn summary_text_is_trimmed_or_empty() {
    assert_eq!(summary_text(Ok("\n - a\n - b \n".to_string())), "- a\n - b");
    assert_eq!(summary_text(Ok(String::new())), "");
    assert_eq!(summary_text(Err(LlmError::TokenLimit)), "");
    assert_eq!(summary_text(Err(LlmError::Backend { message: "x".to_string() })), "");
}

#[test]
fn later_summaries_override_earlier_ones_in_place() {
    let outcomes = vec![
        Some(("a".to_string(), "1".to_string())),
        None,
        Some(("b".to_string(), "2".to_string())),
        Some(("a".to_string(), "3".to_string())),
    ];
    let map = collect_summaries(&outcomes);
    assert_eq!(map.len(), 2);
    assert_eq!(map.entry(0), (&"a".to_string(), &"3".to_string()));
    assert_eq!(map.entry(1), (&"b".to_string(), &"2".to_string()));
    assert_eq!(map.get("c"), None);
    assert_eq!(collect_summaries(&Vec::new()).len(), 0);
}

#[test]
fn summary_points_render_every_file() {
    assert_eq!(render_block("src/a.rs", "- x"), "[src/a.rs]\n- x");
    assert_eq!(
        summary_points(&summaries(&[("a", "one"), ("b", ""), ("c", "three\nlines")])),
        "[a]\none\n[b]\n\n[c]\nthree\nlines"
    );
    assert_eq!(summary_points(&FileSummaries::new()), "");
}

#[test]
fn message_is_assembled_and_then_made_unique() {
    let files = summaries(&[("a", "one"), ("b", ""), ("c", "one")]);
    assert_eq!(assemble_message("T", "B", &files), "T\n\nB\n\n[a]\none\n[c]\none\n");
    assert_eq!(compose_message("T", "B", &files), "T\n\nB\n[a]\none\n[c]");
    assert_eq!(assemble_message("T", "B", &FileSummaries::new()), "T\n\nB\n\n");
    assert_eq!(compose_message("T", "B", &FileSummaries::new()), "T\n\nB");
    assert_eq!(compose_message("same", "same", &FileSummaries::new()), "same\n");
}

#[test]
fn title_and_body_are_both_needed() {
    let failed = || Err(StepError::Completion(LlmError::NoCompletion));
    assert_eq!(
        join_title_body(Ok("t".to_string()), Ok("b".to_string())).unwrap(),
        ("t".to_string(), "b".to_string())
    );
    assert!(matches!(join_title_body(failed(), Ok("b".to_string())), Err(SummarizeError::Title(_))));
    assert!(matches!(join_title_body(Ok("t".to_string()), failed()), Err(SummarizeError::Body(_))));
    assert!(matches!(join_title_body(failed(), failed()), Err(SummarizeError::Title(_))));
}

#[test]
fn only_english_needs_no_translation() {
    assert!(!needs_translation("English"));
    assert!(needs_translation("english"));
    assert!(needs_translation("Japanese"));
    assert!(needs_translation(""));
}

#[test]
fn a_single_binding_binds_one_name() {
    assert_eq!(single_binding("file_diff", "+1"), vec![("file_diff".to_string(), "+1".to_string())]);
}

#[test]
fn errors_name_the_step_that_failed() {
    let error = SummarizeError::Title(StepError::Completion(LlmError::TokenLimit));
    assert_eq!(error.message(), "commit title: the prompt is too large for the model");
    let error = SummarizeError::Body(StepError::Format(FormatError::Render {
        message: "bad".to_string(),
    }));
    assert_eq!(error.message(), "commit summary: template error: bad");
    let error = SummarizeError::Translation(StepError::Completion(LlmError::NoCompletion));
    assert_eq!(error.message(), "translation: no completion was returned");
}

#[test]
fn prompts_bind_what_the_step_is_about() {
    assert_eq!(file_diff_prompt("SUM {{ file_diff }}.", "+1\n-2").unwrap(), "SUM +1\n-2.");
    assert_eq!(summary_prompt("T {{ summary_points }}", "[a]\nx").unwrap(), "T [a]\nx");
    assert!(matches!(
        file_diff_prompt("SUM {{ summary_points }}", "+1"),
        Err(FormatError::PlaceholderMismatch { .. })
    ));
    assert!(matches!(
        summary_prompt("T {{ file_diff }}", "x"),
        Err(FormatError::PlaceholderMismatch { .. })
    ));
}

#[test]
fn translation_is_only_asked_for_other_languages() {
    let template = "{{ commit_message }} -> {{ output_language }}";
    assert!(translation_prompt(template, "m", "English").is_none());
    assert!(translation_prompt("{{ broken", "m", "English").is_none());
    assert_eq!(translation_prompt(template, "m", "Japanese").unwrap().unwrap(), "m -> Japanese");
    assert_eq!(translation_prompt(template, "m", "english").unwrap().unwrap(), "m -> english");
    assert!(matches!(
        translation_prompt("{{ commit_message }}", "m", "Japanese"),
        Some(Err(FormatError::PlaceholderMismatch { .. }))
    ));
}

#[test]
fn complete_asks_only_for_a_prompt_that_is_there() {
    let client = Scripted::new(by_kind);
    assert_eq!(complete(&client, Ok("TITLE x".to_string())).unwrap(), "a title");
    assert_eq!(client.asked.borrow().as_slice(), ["TITLE x"]);
    let refused = Err(FormatError::Render { message: "bad".to_string() });
    match complete(&client, refused) {
        Err(StepError::Format(FormatError::Render { message })) => assert_eq!(message, "bad"),
        other => panic!("expected the prompt's error, got {:?}", other),
    }
    assert_eq!(client.asked.borrow().len(), 1);
    let failing = Scripted::new(fails_on_title);
    assert!(matches!(
        complete(&failing, Ok("TITLE x".to_string())),
        Err(StepError::Completion(LlmError::Backend { .. }))
    ));
}

#[test]
fn there_is_a_message_where_title_or_body_say_something() {
    let none = FileSummaries::new();
    assert_eq!(compose_message("t", "", &none), "t\n");
    assert_eq!(compose_message("", " ", &none), "\n ");
    assert_eq!(compose_message("\r\n", "", &summaries(&[("a", "")])), "");
    assert_eq!(compose_message("", "", &none), "");
    assert_eq!(compose_message("", "", &summaries(&[("a", "x")])), "\n[a]\nx");
}

fn padded(prompt: &str) -> Result<String, LlmError> {
    if prompt.starts_with("TITLE ") {
        Ok("  a title \n".to_string())
    } else if prompt.starts_with("TRANSLATE ") {
        Ok(" same\nsame\n\n".to_string())
    } else {
        by_kind(prompt)
    }
}

#[test]
fn title_and_translation_are_the_answers_as_they_stand() {
    let client = SummarizationClient::new(settings("ja"), Scripted::new(padded)).unwrap();
    assert_eq!(client.commit_title("p").unwrap(), "  a title \n");
    assert_eq!(client.commit_summary("p").unwrap(), "a body");
    assert_eq!(client.commit_translate("m").unwrap(), " same\nsame\n\n");
    assert_eq!(
        client.client.asked.borrow().as_slice(),
        ["TITLE p", "BODY p", "TRANSLATE m INTO Japanese"]
    );

    let client = SummarizationClient::new(settings("ja"), Scripted::new(fails_on_title)).unwrap();
    match client.commit_title("p") {
        Err(StepError::Completion(LlmError::Backend { message })) => assert_eq!(message, "down"),
        other => panic!("expected the error of the backend, got {:?}", other),
    }
    let client = SummarizationClient::new(settings("ja"), Scripted::new(fails_on_translation)).unwrap();
    assert!(matches!(
        client.commit_translate("m"),
        Err(StepError::Completion(LlmError::TokenLimit))
    ));
}

#[test]
fn a_file_summary_is_the_trimmed_answer() {
    let client = SummarizationClient::new(settings("en"), Scripted::new(by_kind)).unwrap();
    let chunk = "diff --git a/one.rs b/one.rs\n+1\n+2\n";
    assert_eq!(client.diff_summary("one.rs", chunk).unwrap(), "  changed 2  ");
    assert_eq!(
        client.process_file_diff(chunk),
        Some(("one.rs".to_string(), "changed 2".to_string()))
    );
    assert_eq!(
        client.client.asked.borrow().as_slice(),
        [format!("FILE {}", chunk), format!("FILE {}", chunk)]
    );
}

fn with_templates(lang: &str, title: &str, body: &str, translation: &str) -> Settings {
    let mut changed = settings(lang);
    let mut prompt = changed.prompt.take().unwrap();
    prompt.commit_title = Some(title.to_string());
    prompt.commit_summary = Some(body.to_string());
    prompt.translation = Some(translation.to_string());
    changed.prompt = Some(prompt);
    changed
}

#[test]
fn a_template_that_is_more_than_placeholders_is_fatal() {
    let plain_title = "TITLE {{ summary_points }}";
    let plain_body = "BODY {{ summary_points }}";
    let plain_translation = "TRANSLATE {{ commit_message }} INTO {{ output_language }}";

    let wrong = with_templates("en", "TITLE {{ summary_points }}{% if a %}", plain_body, plain_translation);
    let client = SummarizationClient::new(wrong, Scripted::new(by_kind)).unwrap();
    assert!(matches!(
        client.get_commit_message(split_diff(THREE_FILES)),
        Err(SummarizeError::Title(StepError::Format(FormatError::Render { .. })))
    ));
    assert!(client.client.asked.borrow().iter().all(|prompt| !prompt.starts_with("TITLE")));

    let wrong = with_templates("en", plain_title, "BODY {{ summary_points }}{# note #}", plain_translation);
    let client = SummarizationClient::new(wrong, Scripted::new(by_kind)).unwrap();
    assert!(matches!(
        client.get_commit_message(split_diff(THREE_FILES)),
        Err(SummarizeError::Body(StepError::Format(FormatError::Render { .. })))
    ));
    assert!(client.client.asked.borrow().iter().all(|prompt| !prompt.starts_with("BODY")));

    let translation = "TRANSLATE {{ commit_message }} INTO {{ output_language }}{{ 1 + 1 }}";
    let wrong = with_templates("ja", plain_title, plain_body, translation);
    let client = SummarizationClient::new(wrong, Scripted::new(by_kind)).unwrap();
    assert!(matches!(
        client.get_commit_message(split_diff(THREE_FILES)),
        Err(SummarizeError::Translation(StepError::Format(FormatError::Render { .. })))
    ));
    assert_eq!(client.client.asked.borrow().len(), 5);

    // in English the translation template is not looked at
    let wrong = with_templates("en", plain_title, plain_body, translation);
    let client = SummarizationClient::new(wrong, Scripted::new(by_kind)).unwrap();
    assert!(client.get_commit_message(split_diff(THREE_FILES)).is_ok());
}
