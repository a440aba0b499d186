//! The settings of a run: the language-model backend, the prompt templates,
//! the output language and the files to pass over.
//!
//! Every field is optional, so that a value of `Settings` can also stand for
//! one source of settings (a configuration file, the environment) that sets
//! some keys and leaves the others alone. The settings in force are the
//! built-in defaults overlaid with each source in turn.

use vstd::prelude::*;
use vstd::string::StringExecFns;
use crate::setting_keys::{parse_bool, parse_u16, read_bool, read_u16, SettingKey};
use crate::text::str_eq;

verus! {

/// Why settings could not be put together.
#[derive(Debug)]
pub enum ConfigError {
    /// A plain message.
    Message { text: String },
    /// A key that must be set is not set.
    Missing { key: String },
    /// A key is set to a value that its kind does not admit.
    Invalid { key: String, value: String },
}

/// The text that tells of an error.
pub open spec fn config_error_text(error: ConfigError) -> Seq<char> {
    match error {
        ConfigError::Message { text } => text@,
        ConfigError::Missing { key } => "missing setting: "@ + key@,
        ConfigError::Invalid { key, value } => "invalid value for "@ + key@ + ": "@ + value@,
    }
}

impl ConfigError {
    /// What went wrong, in words.
    pub fn message(&self) -> (text: String)
        ensures
            text@ == config_error_text(*self),
    {
        match self {
            ConfigError::Message { text } => text.clone(),
            ConfigError::Missing { key } => {
                let mut text = String::from_str("missing setting: ");
                text.append(key.as_str());
                text
            },
            ConfigError::Invalid { key, value } => {
                let mut text = String::from_str("invalid value for ");
                text.append(key.as_str());
                text.append(": ");
                text.append(value.as_str());
                text
            },
        }
    }
}

/// A name that is none of the names of an enumeration.
#[derive(Debug, Clone, Copy)]
pub struct VariantNotFound {}

/// The languages in which a commit message can be written.
#[derive(Debug, Clone, Copy, PartialEq, Eq, Structural)]
pub enum Language {
    En,
    ZhCn,
    ZhTw,
    Ja,
}

impl Language {
    /// The short code by which a configuration names the language.
    pub open spec fn code(self) -> Seq<char> {
        match self {
            Language::En => "en"@,
            Language::ZhCn => "zh-cn"@,
            Language::ZhTw => "zh-tw"@,
            Language::Ja => "ja"@,
        }
    }

    /// The name by which a prompt names the language.
    pub open spec fn name(self) -> Seq<char> {
        match self {
            Language::En => "English"@,
            Language::ZhCn => "Simplified Chinese"@,
            Language::ZhTw => "Traditional Chinese"@,
            Language::Ja => "Japanese"@,
        }
    }

    /// The language that `s` stands for, as its code or as its name.
    pub open spec fn parse(s: Seq<char>) -> Option<Language> {
        if s == Language::En.code() || s == Language::En.name() {
            Some(Language::En)
        } else if s == Language::ZhCn.code() || s == Language::ZhCn.name() {
            Some(Language::ZhCn)
        } else if s == Language::ZhTw.code() || s == Language::ZhTw.name() {
            Some(Language::ZhTw)
        } else if s == Language::Ja.code() || s == Language::Ja.name() {
            Some(Language::Ja)
        } else {
            None
        }
    }

    /// Reads a language from its code (`en`, `zh-cn`, `zh-tw`, `ja`) or from
    /// its name. Upper and lower case are told apart.
    pub fn from_str(s: &str) -> (language: Result<Language, VariantNotFound>)
        ensures
            match language {
                Ok(l) => Language::parse(s@) == Some(l),
                Err(_) => Language::parse(s@) is None,
            },
    {
        if str_eq(s, "en") || str_eq(s, "English") {
            Ok(Language::En)
        } else if str_eq(s, "zh-cn") || str_eq(s, "Simplified Chinese") {
            Ok(Language::ZhCn)
        } else if str_eq(s, "zh-tw") || str_eq(s, "Traditional Chinese") {
            Ok(Language::ZhTw)
        } else if str_eq(s, "ja") || str_eq(s, "Japanese") {
            Ok(Language::Ja)
        } else {
            Err(VariantNotFound {  })
        }
    }

    /// The name by which a prompt names the language.
    pub fn to_string(&self) -> (name: String)
        ensures
            name@ == self.name(),
    {
        match self {
            Language::En => String::from_str("English"),
            Language::ZhCn => String::from_str("Simplified Chinese"),
            Language::ZhTw => String::from_str("Traditional Chinese"),
            Language::Ja => String::from_str("Japanese"),
        }
    }
}

impl Default for Language {
    /// English.
    fn default() -> (language: Language)
        ensures
            language == Language::En,
    {
        Language::En
    }
}

/// The backends that can complete prompts.
#[derive(Debug, Clone, Copy, PartialEq, Eq, Structural)]
pub enum ModelProvider {
    OpenAI,
    TesterFoobar,
}

impl ModelProvider {
    /// The name by which a configuration names the backend.
    pub open spec fn name(self) -> Seq<char> {
        match self {
            ModelProvider::OpenAI => "openai"@,
            ModelProvider::TesterFoobar => "tester-foobar"@,
        }
    }

    /// The backend that `s` names.
    pub open spec fn parse(s: Seq<char>) -> Option<ModelProvider> {
        if s == ModelProvider::OpenAI.name() {
            Some(ModelProvider::OpenAI)
        } else if s == ModelProvider::TesterFoobar.name() {
            Some(ModelProvider::TesterFoobar)
        } else {
            None
        }
    }

    /// Reads a backend from its name, `openai` or `tester-foobar`.
    pub fn from_str(s: &str) -> (provider: Result<ModelProvider, VariantNotFound>)
        ensures
            match provider {
                Ok(p) => ModelProvider::parse(s@) == Some(p),
                Err(_) => ModelProvider::parse(s@) is None,
            },
    {
        if str_eq(s, "openai") {
            Ok(ModelProvider::OpenAI)
        } else if str_eq(s, "tester-foobar") {
            Ok(ModelProvider::TesterFoobar)
        } else {
            Err(VariantNotFound {  })
        }
    }

    /// The name by which a configuration names the backend.
    pub fn to_string(&self) -> (name: String)
        ensures
            name@ == self.name(),
    {
        match self {
            ModelProvider::OpenAI => String::from_str("openai"),
            ModelProvider::TesterFoobar => String::from_str("tester-foobar"),
        }
    }
}

impl Default for ModelProvider {
    /// The OpenAI backend.
    fn default() -> (provider: ModelProvider)
        ensures
            provider == ModelProvider::OpenAI,
    {
        ModelProvider::OpenAI
    }
}

/// The view of an optional string.
pub open spec fn opt_view(s: Option<String>) -> Option<Seq<char>> {
    match s {
        Some(s) => Some(s@),
        None => None,
    }
}

/// The view of an optional list of strings.
pub open spec fn opt_list_view(list: Option<Vec<String>>) -> Option<Seq<Seq<char>>> {
    match list {
        Some(list) => Some(Seq::new(list@.len(), |i: int| list@[i]@)),
        None => None,
    }
}

/// How to reach the OpenAI backend. The key is a secret: these settings are
/// not printed as they are.
pub struct OpenAISettings {
    pub api_base: Option<String>,
    pub api_key: Option<String>,
    pub model: Option<String>,
    pub retries: Option<u16>,
    pub proxy: Option<String>,
}

/// `OpenAISettings` as plain values.
pub struct OpenAISettingsView {
    pub api_base: Option<Seq<char>>,
    pub api_key: Option<Seq<char>>,
    pub model: Option<Seq<char>>,
    pub retries: Option<u16>,
    pub proxy: Option<Seq<char>>,
}

impl View for OpenAISettings {
    type V = OpenAISettingsView;

    open spec fn view(&self) -> OpenAISettingsView {
        OpenAISettingsView {
            api_base: opt_view(self.api_base),
            api_key: opt_view(self.api_key),
            model: opt_view(self.model),
            retries: self.retries,
            proxy: opt_view(self.proxy),
        }
    }
}

/// The prompt templates.
#[derive(Debug)]
pub struct PromptSettings {
    pub conventional_commit_prefix: Option<String>,
    pub commit_summary: Option<String>,
    pub commit_title: Option<String>,
    pub file_diff: Option<String>,
    pub translation: Option<String>,
}

/// `PromptSettings` as plain values.
pub struct PromptSettingsView {
    pub conventional_commit_prefix: Option<Seq<char>>,
    pub commit_summary: Option<Seq<char>>,
    pub commit_title: Option<Seq<char>>,
    pub file_diff: Option<Seq<char>>,
    pub translation: Option<Seq<char>>,
}

impl View for PromptSettings {
    type V = PromptSettingsView;

    open spec fn view(&self) -> PromptSettingsView {
        PromptSettingsView {
            conventional_commit_prefix: opt_view(self.conventional_commit_prefix),
            commit_summary: opt_view(self.commit_summary),
            commit_title: opt_view(self.commit_title),
            file_diff: opt_view(self.file_diff),
            translation: opt_view(self.translation),
        }
    }
}

/// What the commit message looks like.
#[derive(Debug)]
pub struct OutputSettings {
    /// Whether to add a conventional commit tag to the commit message
    pub conventional_commit: Option<bool>,
    /// Output language of the commit message
    pub lang: Option<String>,
    /// Whether to show the summary of each file in the commit
    pub show_per_file_summary: Option<bool>,
}

/// `OutputSettings` as plain values.
pub struct OutputSettingsView {
    pub conventional_commit: Option<bool>,
    pub lang: Option<Seq<char>>,
    pub show_per_file_summary: Option<bool>,
}

impl View for OutputSettings {
    type V = OutputSettingsView;

    open spec fn view(&self) -> OutputSettingsView {
        OutputSettingsView {
            conventional_commit: self.conventional_commit,
            lang: opt_view(self.lang),
            show_per_file_summary: self.show_per_file_summary,
        }
    }
}

/// The settings of a run, or what one source of settings has to say.
pub struct Settings {
    pub model_provider: Option<ModelProvider>,
    pub openai: Option<OpenAISettings>,
    pub prompt: Option<PromptSettings>,
    pub output: Option<OutputSettings>,
    /// Whether to run githook when amending the commit
    pub allow_amend: Option<bool>,
    /// Files to ignore: a file is passed over if its path holds one of these
    pub file_ignore: Option<Vec<String>>,
}

/// `Settings` as plain values.
pub struct SettingsView {
    pub model_provider: Option<ModelProvider>,
    pub openai: Option<OpenAISettingsView>,
    pub prompt: Option<PromptSettingsView>,
    pub output: Option<OutputSettingsView>,
    pub allow_amend: Option<bool>,
    pub file_ignore: Option<Seq<Seq<char>>>,
}

impl View for Settings {
    type V = SettingsView;

    open spec fn view(&self) -> SettingsView {
        SettingsView {
            model_provider: self.model_provider,
            openai: match self.openai {
                Some(s) => Some(s@),
                None => None,
            },
            prompt: match self.prompt {
                Some(s) => Some(s@),
                None => None,
            },
            output: match self.output {
                Some(s) => Some(s@),
                None => None,
            },
            allow_amend: self.allow_amend,
            file_ignore: opt_list_view(self.file_ignore),
        }
    }
}

/// `top` where it is set, and `base` where it is not.
pub open spec fn or_else<T>(top: Option<T>, base: Option<T>) -> Option<T> {
    match top {
        Some(_) => top,
        None => base,
    }
}

/// `base` overlaid with `top`, key by key.
pub open spec fn overlay_openai(base: OpenAISettingsView, top: OpenAISettingsView) -> OpenAISettingsView {
    OpenAISettingsView {
        api_base: or_else(top.api_base, base.api_base),
        api_key: or_else(top.api_key, base.api_key),
        model: or_else(top.model, base.model),
        retries: or_else(top.retries, base.retries),
        proxy: or_else(top.proxy, base.proxy),
    }
}

/// `base` overlaid with `top`, key by key.
pub open spec fn overlay_prompt(base: PromptSettingsView, top: PromptSettingsView) -> PromptSettingsView {
    PromptSettingsView {
        conventional_commit_prefix: or_else(
            top.conventional_commit_prefix,
            base.conventional_commit_prefix,
        ),
        commit_summary: or_else(top.commit_summary, base.commit_summary),
        commit_title: or_else(top.commit_title, base.commit_title),
        file_diff: or_else(top.file_diff, base.file_diff),
        translation: or_else(top.translation, base.translation),
    }
}

/// `base` overlaid with `top`, key by key.
pub open spec fn overlay_output(base: OutputSettingsView, top: OutputSettingsView) -> OutputSettingsView {
    OutputSettingsView {
        conventional_commit: or_else(top.conventional_commit, base.conventional_commit),
        lang: or_else(top.lang, base.lang),
        show_per_file_summary: or_else(top.show_per_file_summary, base.show_per_file_summary),
    }
}

/// `base` overlaid with `top`: a key that `top` sets has the value that `top`
/// gives it, and every other key keeps the value that it has in `base`. A
/// section that both hold is overlaid key by key; the list of files to pass
/// over is one key.
pub open spec fn overlay(base: SettingsView, top: SettingsView) -> SettingsView {
    SettingsView {
        model_provider: or_else(top.model_provider, base.model_provider),
        openai: match (base.openai, top.openai) {
            (Some(b), Some(t)) => Some(overlay_openai(b, t)),
            (_, Some(t)) => Some(t),
            (b, None) => b,
        },
        prompt: match (base.prompt, top.prompt) {
            (Some(b), Some(t)) => Some(overlay_prompt(b, t)),
            (_, Some(t)) => Some(t),
            (b, None) => b,
        },
        output: match (base.output, top.output) {
            (Some(b), Some(t)) => Some(overlay_output(b, t)),
            (_, Some(t)) => Some(t),
            (b, None) => b,
        },
        allow_amend: or_else(top.allow_amend, base.allow_amend),
        file_ignore: or_else(top.file_ignore, base.file_ignore),
    }
}

/// The views of a list of settings.
pub open spec fn settings_views(layers: Seq<Settings>) -> Seq<SettingsView> {
    Seq::new(layers.len(), |i: int| layers[i]@)
}

/// `base` overlaid with each of `layers` in turn, so that a later layer
/// overrides an earlier one.
pub open spec fn merged(base: SettingsView, layers: Seq<SettingsView>) -> SettingsView
    decreases layers.len(),
{
    if layers.len() == 0 {
        base
    } else {
        overlay(merged(base, layers.drop_last()), layers.last())
    }
}

/// The template that asks for the summary of one file's diff.
pub open spec fn default_file_diff_prompt() -> Seq<char> {
    "You are an expert programmer summarizing a git diff.\nA line that starts with `+` was added, a line that starts with `-` was deleted, and every other line is context.\nWrite the summary as a short list, each line starting with `-`.\nDo not name the file and do not copy comments from the code.\n\nTHE GIT DIFF TO BE SUMMARIZED:\n{{ file_diff }}\n\nTHE SUMMARY:\n"@
}

/// The template that asks for the body of the commit message.
pub open spec fn default_commit_summary_prompt() -> Seq<char> {
    "You are an expert programmer writing a commit message.\nBelow are the summaries of the changes made to each file, each under the file's name in square brackets.\nWrite the body of the commit message as a short list, each line starting with `-`, most important changes first.\n\nTHE FILE SUMMARIES:\n{{ summary_points }}\n\nTHE COMMIT MESSAGE:\n"@
}

/// The template that asks for the title of the commit message.
pub open spec fn default_commit_title_prompt() -> Seq<char> {
    "You are an expert programmer writing a commit message title.\nBelow are the summaries of the changes made to each file, each under the file's name in square brackets.\nWrite one line of at most 50 characters that says what the change does. Do not name files.\n\nTHE FILE SUMMARIES:\n{{ summary_points }}\n\nTHE COMMIT MESSAGE TITLE:\n"@
}

/// The template that asks for the translation of a commit message.
pub open spec fn default_translation_prompt() -> Seq<char> {
    "You are a professional translator of technical texts.\nTranslate the commit message below into {{ output_language }}. Keep its layout and every file name as they are.\n\nTHE COMMIT MESSAGE:\n{{ commit_message }}\n\nTHE TRANSLATION:\n"@
}

/// The template that asks for the kind of change by which a title begins.
pub open spec fn default_conventional_commit_prompt() -> Seq<char> {
    "You are an expert programmer labelling a change.\nChoose the one label that fits the change best: build, chore, ci, docs, feat, fix, perf, refactor, style or test.\nAnswer with the label alone.\n\nTHE FILE SUMMARIES:\n{{ summary_points }}\n\nTHE LABEL:\n"@
}

/// The settings that hold where no source says otherwise.
pub open spec fn default_settings() -> SettingsView {
    SettingsView {
        model_provider: Some(ModelProvider::OpenAI),
        openai: Some(
            OpenAISettingsView {
                api_base: Some("https://api.openai.com/v1"@),
                api_key: None,
                model: Some("gpt-3.5-turbo"@),
                retries: Some(2u16),
                proxy: Some(""@),
            },
        ),
        prompt: Some(
            PromptSettingsView {
                conventional_commit_prefix: Some(default_conventional_commit_prompt()),
                commit_summary: Some(default_commit_summary_prompt()),
                commit_title: Some(default_commit_title_prompt()),
                file_diff: Some(default_file_diff_prompt()),
                translation: Some(default_translation_prompt()),
            },
        ),
        output: Some(
            OutputSettingsView {
                conventional_commit: Some(true),
                lang: Some("en"@),
                show_per_file_summary: Some(false),
            },
        ),
        allow_amend: Some(false),
        file_ignore: Some(seq!["package-lock.json"@, "yarn.lock"@, "pnpm-lock.yaml"@, "Cargo.lock"@]),
    }
}

fn pick_text(top: Option<String>, base: Option<String>) -> (picked: Option<String>)
    ensures
        opt_view(picked) == or_else(opt_view(top), opt_view(base)),
{
    match top {
        Some(text) => Some(text),
        None => base,
    }
}

fn pick<T>(top: Option<T>, base: Option<T>) -> (picked: Option<T>)
    ensures
        picked == or_else(top, base),
{
    match top {
        Some(value) => Some(value),
        None => base,
    }
}

impl OpenAISettings {
    /// These settings overlaid with `top`, key by key.
    pub fn overlay(self, top: OpenAISettings) -> (over: OpenAISettings)
        ensures
            over@ == overlay_openai(self@, top@),
    {
        OpenAISettings {
            api_base: pick_text(top.api_base, self.api_base),
            api_key: pick_text(top.api_key, self.api_key),
            model: pick_text(top.model, self.model),
            retries: pick(top.retries, self.retries),
            proxy: pick_text(top.proxy, self.proxy),
        }
    }

    /// Settings that set no key.
    pub fn unset() -> (none: OpenAISettings)
        ensures
            none@ == (OpenAISettingsView {
                api_base: None,
                api_key: None,
                model: None,
                retries: None,
                proxy: None,
            }),
    {
        OpenAISettings { api_base: None, api_key: None, model: None, retries: None, proxy: None }
    }
}

impl PromptSettings {
    /// These settings overlaid with `top`, key by key.
    pub fn overlay(self, top: PromptSettings) -> (over: PromptSettings)
        ensures
            over@ == overlay_prompt(self@, top@),
    {
        PromptSettings {
            conventional_commit_prefix: pick_text(
                top.conventional_commit_prefix,
                self.conventional_commit_prefix,
            ),
            commit_summary: pick_text(top.commit_summary, self.commit_summary),
            commit_title: pick_text(top.commit_title, self.commit_title),
            file_diff: pick_text(top.file_diff, self.file_diff),
            translation: pick_text(top.translation, self.translation),
        }
    }

    /// Settings that set no key.
    pub fn unset() -> (none: PromptSettings)
        ensures
            none@ == (PromptSettingsView {
                conventional_commit_prefix: None,
                commit_summary: None,
                commit_title: None,
                file_diff: None,
                translation: None,
            }),
    {
        PromptSettings {
            conventional_commit_prefix: None,
            commit_summary: None,
            commit_title: None,
            file_diff: None,
            translation: None,
        }
    }
}

impl OutputSettings {
    /// These settings overlaid with `top`, key by key.
    pub fn overlay(self, top: OutputSettings) -> (over: OutputSettings)
        ensures
            over@ == overlay_output(self@, top@),
    {
        OutputSettings {
            conventional_commit: pick(top.conventional_commit, self.conventional_commit),
            lang: pick_text(top.lang, self.lang),
            show_per_file_summary: pick(top.show_per_file_summary, self.show_per_file_summary),
        }
    }

    /// Settings that set no key.
    pub fn unset() -> (none: OutputSettings)
        ensures
            none@ == (OutputSettingsView {
                conventional_commit: None,
                lang: None,
                show_per_file_summary: None,
            }),
    {
        OutputSettings { conventional_commit: None, lang: None, show_per_file_summary: None }
    }
}

/// The settings that set no key at all.
pub open spec fn unset_settings() -> SettingsView {
    SettingsView {
        model_provider: None,
        openai: None,
        prompt: None,
        output: None,
        allow_amend: None,
        file_ignore: None,
    }
}

impl Settings {
    /// Settings that set no key.
    pub fn unset() -> (none: Settings)
        ensures
            none@ == unset_settings(),
    {
        Settings {
            model_provider: None,
            openai: None,
            prompt: None,
            output: None,
            allow_amend: None,
            file_ignore: None,
        }
    }

    /// These settings overlaid with `top`: what `top` sets overrides what is
    /// set here.
    pub fn overlay(self, top: Settings) -> (over: Settings)
        ensures
            over@ == overlay(self@, top@),
    {
        let openai = match (self.openai, top.openai) {
            (Some(b), Some(t)) => Some(b.overlay(t)),
            (_, Some(t)) => Some(t),
            (b, None) => b,
        };
        let prompt = match (self.prompt, top.prompt) {
            (Some(b), Some(t)) => Some(b.overlay(t)),
            (_, Some(t)) => Some(t),
            (b, None) => b,
        };
        let output = match (self.output, top.output) {
            (Some(b), Some(t)) => Some(b.overlay(t)),
            (_, Some(t)) => Some(t),
            (b, None) => b,
        };
        let file_ignore = match top.file_ignore {
            Some(list) => Some(list),
            None => self.file_ignore,
        };
        Settings {
            model_provider: pick(top.model_provider, self.model_provider),
            openai,
            prompt,
            output,
            allow_amend: pick(top.allow_amend, self.allow_amend),
            file_ignore,
        }
    }

    /// The settings that hold where no source says otherwise: the OpenAI
    /// backend with the model `gpt-3.5-turbo` and two retries, the built-in
    /// prompt templates, English output with a conventional-commit tag and
    /// without the per-file summaries, no run on amended commits, and the
    /// usual lock files passed over.
    pub fn defaults() -> (settings: Settings)
        ensures
            settings@ == default_settings(),
    {
        let mut file_ignore: Vec<String> = Vec::new();
        file_ignore.push(String::from_str("package-lock.json"));
        file_ignore.push(String::from_str("yarn.lock"));
        file_ignore.push(String::from_str("pnpm-lock.yaml"));
        file_ignore.push(String::from_str("Cargo.lock"));
        let settings = Settings {
            model_provider: Some(ModelProvider::OpenAI),
            openai: Some(
                OpenAISettings {
                    api_base: Some(String::from_str("https://api.openai.com/v1")),
                    api_key: None,
                    model: Some(String::from_str("gpt-3.5-turbo")),
                    retries: Some(2),
                    proxy: Some(String::from_str("")),
                },
            ),
            prompt: Some(
                PromptSettings {
                    conventional_commit_prefix: Some(
                        String::from_str(
                            "You are an expert programmer labelling a change.\nChoose the one label that fits the change best: build, chore, ci, docs, feat, fix, perf, refactor, style or test.\nAnswer with the label alone.\n\nTHE FILE SUMMARIES:\n{{ summary_points }}\n\nTHE LABEL:\n",
                        ),
                    ),
                    commit_summary: Some(
                        String::from_str(
                            "You are an expert programmer writing a commit message.\nBelow are the summaries of the changes made to each file, each under the file's name in square brackets.\nWrite the body of the commit message as a short list, each line starting with `-`, most important changes first.\n\nTHE FILE SUMMARIES:\n{{ summary_points }}\n\nTHE COMMIT MESSAGE:\n",
                        ),
                    ),
                    commit_title: Some(
                        String::from_str(
                            "You are an expert programmer writing a commit message title.\nBelow are the summaries of the changes made to each file, each under the file's name in square brackets.\nWrite one line of at most 50 characters that says what the change does. Do not name files.\n\nTHE FILE SUMMARIES:\n{{ summary_points }}\n\nTHE COMMIT MESSAGE TITLE:\n",
                        ),
                    ),
                    file_diff: Some(
                        String::from_str(
                            "You are an expert programmer summarizing a git diff.\nA line that starts with `+` was added, a line that starts with `-` was deleted, and every other line is context.\nWrite the summary as a short list, each line starting with `-`.\nDo not name the file and do not copy comments from the code.\n\nTHE GIT DIFF TO BE SUMMARIZED:\n{{ file_diff }}\n\nTHE SUMMARY:\n",
                        ),
                    ),
                    translation: Some(
                        String::from_str(
                            "You are a professional translator of technical texts.\nTranslate the commit message below into {{ output_language }}. Keep its layout and every file name as they are.\n\nTHE COMMIT MESSAGE:\n{{ commit_message }}\n\nTHE TRANSLATION:\n",
                        ),
                    ),
                },
            ),
            output: Some(
                OutputSettings {
                    conventional_commit: Some(true),
                    lang: Some(String::from_str("en")),
                    show_per_file_summary: Some(false),
                },
            ),
            allow_amend: Some(false),
            file_ignore: Some(file_ignore),
        };
        proof {
            assert(settings@.file_ignore->0 =~= default_settings().file_ignore->0);
        }
        settings
    }

    /// The defaults overlaid with each of `layers` in turn.
    fn merge(layers: Vec<Settings>) -> (settings: Settings)
        ensures
            settings@ == merged(default_settings(), settings_views(layers@)),
    {
        let ghost views = settings_views(layers@);
        let mut settings = Settings::defaults();
        proof {
            assert(views.subrange(0, 0) =~= Seq::empty());
        }
        for layer in it: layers
            invariant
                views == settings_views(layers@),
                it.seq() == layers@,
                settings@ == merged(default_settings(), views.subrange(0, it.index() as int)),
        {
            proof {
                let k = it.index() as int;
                let upto = views.subrange(0, k + 1);
                assert(upto.drop_last() =~= views.subrange(0, k));
                assert(upto.last() == layer@);
            }
            settings = settings.overlay(layer);
        }
        proof {
            assert(views.subrange(0, layers@.len() as int) =~= views);
        }
        settings
    }

    /// The settings in force: the defaults, overlaid with what each source
    /// of settings has to say, the sources taken in the order of `layers`, so
    /// that a later source overrides an earlier one.
    pub fn new(layers: Vec<Settings>) -> (settings: Result<Settings, ConfigError>)
        ensures
            settings is Ok,
            settings->Ok_0@ == merged(default_settings(), settings_views(layers@)),
    {
        Ok(Settings::merge(layers))
    }
}

/// Settings that set the one key `key` of the section on the OpenAI backend.
pub open spec fn openai_layer(key: SettingKey, value: Seq<char>) -> Option<OpenAISettingsView> {
    let none = OpenAISettingsView {
        api_base: None,
        api_key: None,
        model: None,
        retries: None,
        proxy: None,
    };
    match key {
        SettingKey::OpenAIApiBase => Some(OpenAISettingsView { api_base: Some(value), ..none }),
        SettingKey::OpenAIApiKey => Some(OpenAISettingsView { api_key: Some(value), ..none }),
        SettingKey::OpenAIModel => Some(OpenAISettingsView { model: Some(value), ..none }),
        SettingKey::OpenAIProxy => Some(OpenAISettingsView { proxy: Some(value), ..none }),
        SettingKey::OpenAIRetries => match parse_u16(value) {
            Some(n) => Some(OpenAISettingsView { retries: Some(n), ..none }),
            None => None,
        },
        _ => None,
    }
}

/// Settings that set the one key `key` of the section on the prompts.
pub open spec fn prompt_layer(key: SettingKey, value: Seq<char>) -> Option<PromptSettingsView> {
    let none = PromptSettingsView {
        conventional_commit_prefix: None,
        commit_summary: None,
        commit_title: None,
        file_diff: None,
        translation: None,
    };
    match key {
        SettingKey::PromptConventionalCommitPrefix => Some(
            PromptSettingsView { conventional_commit_prefix: Some(value), ..none },
        ),
        SettingKey::PromptCommitSummary => Some(
            PromptSettingsView { commit_summary: Some(value), ..none },
        ),
        SettingKey::PromptCommitTitle => Some(
            PromptSettingsView { commit_title: Some(value), ..none },
        ),
        SettingKey::PromptFileDiff => Some(PromptSettingsView { file_diff: Some(value), ..none }),
        SettingKey::PromptTranslation => Some(
            PromptSettingsView { translation: Some(value), ..none },
        ),
        _ => None,
    }
}

/// Settings that set the one key `key` of the section on the output.
pub open spec fn output_layer(key: SettingKey, value: Seq<char>) -> Option<OutputSettingsView> {
    let none = OutputSettingsView {
        conventional_commit: None,
        lang: None,
        show_per_file_summary: None,
    };
    match key {
        SettingKey::OutputLang => Some(OutputSettingsView { lang: Some(value), ..none }),
        SettingKey::OutputConventionalCommit => match parse_bool(value) {
            Some(b) => Some(OutputSettingsView { conventional_commit: Some(b), ..none }),
            None => None,
        },
        SettingKey::OutputShowPerFileSummary => match parse_bool(value) {
            Some(b) => Some(OutputSettingsView { show_per_file_summary: Some(b), ..none }),
            None => None,
        },
        _ => None,
    }
}

/// The settings that set the one key `key` to what `value` stands for, if
/// `value` stands for a value of the key's kind: a text for a text, a truth
/// value for a switch, a number for the retries, the name of a backend for
/// the backend. No text stands for a whole section or for the list of files
/// to pass over.
pub open spec fn layer_for(key: SettingKey, value: Seq<char>) -> Option<SettingsView> {
    match key {
        SettingKey::AllowAmend => match parse_bool(value) {
            Some(b) => Some(SettingsView { allow_amend: Some(b), ..unset_settings() }),
            None => None,
        },
        SettingKey::ModelProvider => match ModelProvider::parse(value) {
            Some(p) => Some(SettingsView { model_provider: Some(p), ..unset_settings() }),
            None => None,
        },
        SettingKey::FileIgnore | SettingKey::OpenAI | SettingKey::Prompt | SettingKey::Output => None,
        SettingKey::OpenAIApiBase
        | SettingKey::OpenAIApiKey
        | SettingKey::OpenAIModel
        | SettingKey::OpenAIRetries
        | SettingKey::OpenAIProxy => match openai_layer(key, value) {
            Some(section) => Some(SettingsView { openai: Some(section), ..unset_settings() }),
            None => None,
        },
        SettingKey::PromptConventionalCommitPrefix
        | SettingKey::PromptCommitSummary
        | SettingKey::PromptCommitTitle
        | SettingKey::PromptFileDiff
        | SettingKey::PromptTranslation => match prompt_layer(key, value) {
            Some(section) => Some(SettingsView { prompt: Some(section), ..unset_settings() }),
            None => None,
        },
        SettingKey::OutputConventionalCommit
        | SettingKey::OutputLang
        | SettingKey::OutputShowPerFileSummary => match output_layer(key, value) {
            Some(section) => Some(SettingsView { output: Some(section), ..unset_settings() }),
            None => None,
        },
    }
}

/// `base` with the key that `key` names set to what `value` stands for. A
/// text that names no setting changes nothing; a value that the key's kind
/// does not admit gives no settings.
pub open spec fn with_override(base: SettingsView, key: Seq<char>, value: Seq<char>) -> Option<
    SettingsView,
> {
    match SettingKey::parse(key) {
        None => Some(base),
        Some(k) => match layer_for(k, value) {
            Some(layer) => Some(overlay(base, layer)),
            None => None,
        },
    }
}

/// `section` with the one key `key` unset.
pub open spec fn openai_without(section: OpenAISettingsView, key: SettingKey) -> OpenAISettingsView {
    match key {
        SettingKey::OpenAIApiBase => OpenAISettingsView { api_base: None, ..section },
        SettingKey::OpenAIApiKey => OpenAISettingsView { api_key: None, ..section },
        SettingKey::OpenAIModel => OpenAISettingsView { model: None, ..section },
        SettingKey::OpenAIRetries => OpenAISettingsView { retries: None, ..section },
        SettingKey::OpenAIProxy => OpenAISettingsView { proxy: None, ..section },
        _ => section,
    }
}

/// `section` with the one key `key` unset.
pub open spec fn prompt_without(section: PromptSettingsView, key: SettingKey) -> PromptSettingsView {
    match key {
        SettingKey::PromptConventionalCommitPrefix => PromptSettingsView {
            conventional_commit_prefix: None,
            ..section
        },
        SettingKey::PromptCommitSummary => PromptSettingsView { commit_summary: None, ..section },
        SettingKey::PromptCommitTitle => PromptSettingsView { commit_title: None, ..section },
        SettingKey::PromptFileDiff => PromptSettingsView { file_diff: None, ..section },
        SettingKey::PromptTranslation => PromptSettingsView { translation: None, ..section },
        _ => section,
    }
}

/// `section` with the one key `key` unset.
pub open spec fn output_without(section: OutputSettingsView, key: SettingKey) -> OutputSettingsView {
    match key {
        SettingKey::OutputConventionalCommit => OutputSettingsView {
            conventional_commit: None,
            ..section
        },
        SettingKey::OutputLang => OutputSettingsView { lang: None, ..section },
        SettingKey::OutputShowPerFileSummary => OutputSettingsView {
            show_per_file_summary: None,
            ..section
        },
        _ => section,
    }
}

/// `base` with `key` unset: a section is unset as a whole, and a key of a
/// section is unset in it.
pub open spec fn without_key(base: SettingsView, key: SettingKey) -> SettingsView {
    match key {
        SettingKey::AllowAmend => SettingsView { allow_amend: None, ..base },
        SettingKey::FileIgnore => SettingsView { file_ignore: None, ..base },
        SettingKey::ModelProvider => SettingsView { model_provider: None, ..base },
        SettingKey::OpenAI => SettingsView { openai: None, ..base },
        SettingKey::Prompt => SettingsView { prompt: None, ..base },
        SettingKey::Output => SettingsView { output: None, ..base },
        SettingKey::OpenAIApiBase
        | SettingKey::OpenAIApiKey
        | SettingKey::OpenAIModel
        | SettingKey::OpenAIRetries
        | SettingKey::OpenAIProxy => SettingsView {
            openai: match base.openai {
                Some(section) => Some(openai_without(section, key)),
                None => None,
            },
            ..base
        },
        SettingKey::PromptConventionalCommitPrefix
        | SettingKey::PromptCommitSummary
        | SettingKey::PromptCommitTitle
        | SettingKey::PromptFileDiff
        | SettingKey::PromptTranslation => SettingsView {
            prompt: match base.prompt {
                Some(section) => Some(prompt_without(section, key)),
                None => None,
            },
            ..base
        },
        SettingKey::OutputConventionalCommit
        | SettingKey::OutputLang
        | SettingKey::OutputShowPerFileSummary => SettingsView {
            output: match base.output {
                Some(section) => Some(output_without(section, key)),
                None => None,
            },
            ..base
        },
    }
}

/// `base` with the key that `key` names unset. A text that names no setting
/// changes nothing.
pub open spec fn cleared(base: SettingsView, key: Seq<char>) -> SettingsView {
    match SettingKey::parse(key) {
        None => base,
        Some(k) => without_key(base, k),
    }
}

/// The message that refuses `value` as a language.
pub open spec fn invalid_language_message(value: Seq<char>) -> Seq<char> {
    "Invalid language: "@ + value + "."@
}

impl OpenAISettings {
    /// Settings that set the one key `key` to what `value` stands for.
    fn layer(key: SettingKey, value: &str) -> (layer: Option<OpenAISettings>)
        ensures
            match layer {
                Some(section) => openai_layer(key, value@) == Some(section@),
                None => openai_layer(key, value@) is None,
            },
    {
        let mut section = OpenAISettings::unset();
        match key {
            SettingKey::OpenAIApiBase => {
                section.api_base = Some(String::from_str(value));
            },
            SettingKey::OpenAIApiKey => {
                section.api_key = Some(String::from_str(value));
            },
            SettingKey::OpenAIModel => {
                section.model = Some(String::from_str(value));
            },
            SettingKey::OpenAIProxy => {
                section.proxy = Some(String::from_str(value));
            },
            SettingKey::OpenAIRetries => match read_u16(value) {
                Some(n) => {
                    section.retries = Some(n);
                },
                None => {
                    return None;
                },
            },
            _ => {
                return None;
            },
        }
        Some(section)
    }

    /// These settings with the one key `key` unset.
    fn without(self, key: SettingKey) -> (rest: OpenAISettings)
        ensures
            rest@ == openai_without(self@, key),
    {
        let mut rest = self;
        match key {
            SettingKey::OpenAIApiBase => {
                rest.api_base = None;
            },
            SettingKey::OpenAIApiKey => {
                rest.api_key = None;
            },
            SettingKey::OpenAIModel => {
                rest.model = None;
            },
            SettingKey::OpenAIRetries => {
                rest.retries = None;
            },
            SettingKey::OpenAIProxy => {
                rest.proxy = None;
            },
            _ => {},
        }
        rest
    }
}

impl PromptSettings {
    /// Settings that set the one key `key` to `value`.
    fn layer(key: SettingKey, value: &str) -> (layer: Option<PromptSettings>)
        ensures
            match layer {
                Some(section) => prompt_layer(key, value@) == Some(section@),
                None => prompt_layer(key, value@) is None,
            },
    {
        let mut section = PromptSettings::unset();
        match key {
            SettingKey::PromptConventionalCommitPrefix => {
                section.conventional_commit_prefix = Some(String::from_str(value));
            },
            SettingKey::PromptCommitSummary => {
                section.commit_summary = Some(String::from_str(value));
            },
            SettingKey::PromptCommitTitle => {
                section.commit_title = Some(String::from_str(value));
            },
            SettingKey::PromptFileDiff => {
                section.file_diff = Some(String::from_str(value));
            },
            SettingKey::PromptTranslation => {
                section.translation = Some(String::from_str(value));
            },
            _ => {
                return None;
            },
        }
        Some(section)
    }

    /// These settings with the one key `key` unset.
    fn without(self, key: SettingKey) -> (rest: PromptSettings)
        ensures
            rest@ == prompt_without(self@, key),
    {
        let mut rest = self;
        match key {
            SettingKey::PromptConventionalCommitPrefix => {
                rest.conventional_commit_prefix = None;
            },
            SettingKey::PromptCommitSummary => {
                rest.commit_summary = None;
            },
            SettingKey::PromptCommitTitle => {
                rest.commit_title = None;
            },
            SettingKey::PromptFileDiff => {
                rest.file_diff = None;
            },
            SettingKey::PromptTranslation => {
                rest.translation = None;
            },
            _ => {},
        }
        rest
    }
}

impl OutputSettings {
    /// Settings that set the one key `key` to what `value` stands for.
    fn layer(key: SettingKey, value: &str) -> (layer: Option<OutputSettings>)
        ensures
            match layer {
                Some(section) => output_layer(key, value@) == Some(section@),
                None => output_layer(key, value@) is None,
            },
    {
        let mut section = OutputSettings::unset();
        match key {
            SettingKey::OutputLang => {
                section.lang = Some(String::from_str(value));
            },
            SettingKey::OutputConventionalCommit => match read_bool(value) {
                Some(b) => {
                    section.conventional_commit = Some(b);
                },
                None => {
                    return None;
                },
            },
            SettingKey::OutputShowPerFileSummary => match read_bool(value) {
                Some(b) => {
                    section.show_per_file_summary = Some(b);
                },
                None => {
                    return None;
                },
            },
            _ => {
                return None;
            },
        }
        Some(section)
    }

    /// These settings with the one key `key` unset.
    fn without(self, key: SettingKey) -> (rest: OutputSettings)
        ensures
            rest@ == output_without(self@, key),
    {
        let mut rest = self;
        match key {
            SettingKey::OutputConventionalCommit => {
                rest.conventional_commit = None;
            },
            SettingKey::OutputLang => {
                rest.lang = None;
            },
            SettingKey::OutputShowPerFileSummary => {
                rest.show_per_file_summary = None;
            },
            _ => {},
        }
        rest
    }
}

impl Settings {
    /// The settings that set the one key `key` to what `value` stands for,
    /// if it stands for a value of the key's kind.
    pub fn layer(key: SettingKey, value: &str) -> (layer: Option<Settings>)
        ensures
            match layer {
                Some(settings) => layer_for(key, value@) == Some(settings@),
                None => layer_for(key, value@) is None,
            },
    {
        let mut settings = Settings::unset();
        match key {
            SettingKey::AllowAmend => match read_bool(value) {
                Some(b) => {
                    settings.allow_amend = Some(b);
                },
                None => {
                    return None;
                },
            },
            SettingKey::ModelProvider => match ModelProvider::from_str(value) {
                Ok(p) => {
                    settings.model_provider = Some(p);
                },
                Err(_) => {
                    return None;
                },
            },
            SettingKey::FileIgnore | SettingKey::OpenAI | SettingKey::Prompt | SettingKey::Output => {
                return None;
            },
            SettingKey::OpenAIApiBase
            | SettingKey::OpenAIApiKey
            | SettingKey::OpenAIModel
            | SettingKey::OpenAIRetries
            | SettingKey::OpenAIProxy => match OpenAISettings::layer(key, value) {
                Some(section) => {
                    settings.openai = Some(section);
                },
                None => {
                    return None;
                },
            },
            SettingKey::PromptConventionalCommitPrefix
            | SettingKey::PromptCommitSummary
            | SettingKey::PromptCommitTitle
            | SettingKey::PromptFileDiff
            | SettingKey::PromptTranslation => match PromptSettings::layer(key, value) {
                Some(section) => {
                    settings.prompt = Some(section);
                },
                None => {
                    return None;
                },
            },
            SettingKey::OutputConventionalCommit
            | SettingKey::OutputLang
            | SettingKey::OutputShowPerFileSummary => match OutputSettings::layer(key, value) {
                Some(section) => {
                    settings.output = Some(section);
                },
                None => {
                    return None;
                },
            },
        }
        Some(settings)
    }

    /// What a variable of the environment has to say on `key`: nothing where
    /// the variable is empty, and else what `layer` makes of its value.
    pub fn layer_unless_empty(key: SettingKey, value: &str) -> (layer: Option<Settings>)
        ensures
            match layer {
                Some(settings) => value@.len() > 0 && layer_for(key, value@) == Some(settings@),
                None => value@.len() == 0 || layer_for(key, value@) is None,
            },
    {
        if value.unicode_len() == 0 {
            None
        } else {
            Settings::layer(key, value)
        }
    }

    /// These settings with `key` unset.
    pub fn without(self, key: SettingKey) -> (rest: Settings)
        ensures
            rest@ == without_key(self@, key),
    {
        let mut rest = self;
        match key {
            SettingKey::AllowAmend => {
                rest.allow_amend = None;
            },
            SettingKey::FileIgnore => {
                rest.file_ignore = None;
            },
            SettingKey::ModelProvider => {
                rest.model_provider = None;
            },
            SettingKey::OpenAI => {
                rest.openai = None;
            },
            SettingKey::Prompt => {
                rest.prompt = None;
            },
            SettingKey::Output => {
                rest.output = None;
            },
            SettingKey::OpenAIApiBase
            | SettingKey::OpenAIApiKey
            | SettingKey::OpenAIModel
            | SettingKey::OpenAIRetries
            | SettingKey::OpenAIProxy => {
                rest.openai = match rest.openai {
                    Some(section) => Some(section.without(key)),
                    None => None,
                };
            },
            SettingKey::PromptConventionalCommitPrefix
            | SettingKey::PromptCommitSummary
            | SettingKey::PromptCommitTitle
            | SettingKey::PromptFileDiff
            | SettingKey::PromptTranslation => {
                rest.prompt = match rest.prompt {
                    Some(section) => Some(section.without(key)),
                    None => None,
                };
            },
            SettingKey::OutputConventionalCommit
            | SettingKey::OutputLang
            | SettingKey::OutputShowPerFileSummary => {
                rest.output = match rest.output {
                    Some(section) => Some(section.without(key)),
                    None => None,
                };
            },
        }
        rest
    }

    /// The settings in force with one key unset: the defaults overlaid with
    /// `layers`, and then without the setting that `key` names. A text that
    /// names no setting changes nothing.
    pub fn from_clear(layers: Vec<Settings>, key: &str) -> (settings: Result<Settings, ConfigError>)
        ensures
            settings is Ok,
            settings->Ok_0@ == cleared(merged(default_settings(), settings_views(layers@)), key@),
    {
        let settings = Settings::merge(layers);
        match SettingKey::from_str(key) {
            Some(k) => Ok(settings.without(k)),
            None => Ok(settings),
        }
    }

    /// The settings in force with one key overridden: the defaults overlaid
    /// with `layers`, and then with the setting that `key` names set to what
    /// `value` stands for.
    ///
    /// A language that is none of the languages is refused with a message.
    /// Any other value that the key's kind does not admit is `Invalid`. A
    /// text that names no setting changes nothing.
    pub fn from_set_override(layers: Vec<Settings>, key: &str, value: &str) -> (settings: Result<
        Settings,
        ConfigError,
    >)
        ensures
            match settings {
                Ok(settings) => {
                    &&& !(key@ == "output.lang"@ && Language::parse(value@) is None)
                    &&& with_override(
                        merged(default_settings(), settings_views(layers@)),
                        key@,
                        value@,
                    ) == Some(settings@)
                },
                Err(ConfigError::Message { text }) => {
                    &&& key@ == "output.lang"@
                    &&& Language::parse(value@) is None
                    &&& text@ == invalid_language_message(value@)
                },
                Err(ConfigError::Invalid { key: k, value: v }) => {
                    &&& !(key@ == "output.lang"@ && Language::parse(value@) is None)
                    &&& with_override(
                        merged(default_settings(), settings_views(layers@)),
                        key@,
                        value@,
                    ) is None
                    &&& k@ == key@
                    &&& v@ == value@
                },
                Err(ConfigError::Missing { .. }) => false,
            },
    {
        if str_eq(key, "output.lang") && Language::from_str(value).is_err() {
            let mut text = String::from_str("Invalid language: ");
            text.append(value);
            text.append(".");
            return Err(ConfigError::Message { text });
        }
        let settings = Settings::merge(layers);
        match SettingKey::from_str(key) {
            None => Ok(settings),
            Some(k) => match Settings::layer(k, value) {
                Some(layer) => Ok(settings.overlay(layer)),
                None => Err(
                    ConfigError::Invalid {
                        key: String::from_str(key),
                        value: String::from_str(value),
                    },
                ),
            },
        }
    }
}

/// The text that a set value of another kind shows as: the empty text.
pub open spec fn shown_other<T>(value: Option<T>) -> Option<Seq<char>> {
    match value {
        Some(_) => Some(Seq::empty()),
        None => None,
    }
}

/// What is shown for the setting `key` of `settings`, if it is set: the text
/// of a text setting, the name of the backend, and the empty text for a
/// setting of another kind and for a section.
pub open spec fn shown(settings: SettingsView, key: SettingKey) -> Option<Seq<char>> {
    match key {
        SettingKey::AllowAmend => shown_other(settings.allow_amend),
        SettingKey::FileIgnore => shown_other(settings.file_ignore),
        SettingKey::ModelProvider => match settings.model_provider {
            Some(provider) => Some(provider.name()),
            None => None,
        },
        SettingKey::OpenAI => shown_other(settings.openai),
        SettingKey::Prompt => shown_other(settings.prompt),
        SettingKey::Output => shown_other(settings.output),
        SettingKey::OpenAIApiBase
        | SettingKey::OpenAIApiKey
        | SettingKey::OpenAIModel
        | SettingKey::OpenAIRetries
        | SettingKey::OpenAIProxy => match settings.openai {
            Some(section) => match key {
                SettingKey::OpenAIApiBase => section.api_base,
                SettingKey::OpenAIApiKey => section.api_key,
                SettingKey::OpenAIModel => section.model,
                SettingKey::OpenAIRetries => shown_other(section.retries),
                _ => section.proxy,
            },
            None => None,
        },
        SettingKey::PromptConventionalCommitPrefix
        | SettingKey::PromptCommitSummary
        | SettingKey::PromptCommitTitle
        | SettingKey::PromptFileDiff
        | SettingKey::PromptTranslation => match settings.prompt {
            Some(section) => match key {
                SettingKey::PromptConventionalCommitPrefix => section.conventional_commit_prefix,
                SettingKey::PromptCommitSummary => section.commit_summary,
                SettingKey::PromptCommitTitle => section.commit_title,
                SettingKey::PromptFileDiff => section.file_diff,
                _ => section.translation,
            },
            None => None,
        },
        SettingKey::OutputConventionalCommit
        | SettingKey::OutputLang
        | SettingKey::OutputShowPerFileSummary => match settings.output {
            Some(section) => match key {
                SettingKey::OutputConventionalCommit => shown_other(section.conventional_commit),
                SettingKey::OutputLang => section.lang,
                _ => shown_other(section.show_per_file_summary),
            },
            None => None,
        },
    }
}

/// What is shown for the setting that `key` names. A text that names no
/// setting, and a setting that is not set, show nothing.
pub open spec fn lookup(settings: SettingsView, key: Seq<char>) -> Option<Seq<char>> {
    match SettingKey::parse(key) {
        Some(k) => shown(settings, k),
        None => None,
    }
}

/// The message that tells that a key was not found.
pub open spec fn not_found_message(key: Seq<char>) -> Seq<char> {
    "Configuration key '"@ + key + "' not found."@
}

fn show_text(value: &Option<String>) -> (text: Option<String>)
    ensures
        opt_view(text) == opt_view(*value),
{
    match value {
        Some(text) => Some(text.clone()),
        None => None,
    }
}

fn show_other<T>(value: &Option<T>) -> (text: Option<String>)
    ensures
        text is Some <==> value is Some,
        text is Some ==> text->0@ == Seq::<char>::empty(),
{
    match value {
        Some(_) => Some(String::new()),
        None => None,
    }
}

impl Settings {
    /// What is shown for the setting `key`, if it is set.
    pub fn show(&self, key: SettingKey) -> (text: Option<String>)
        ensures
            opt_view(text) == shown(self@, key),
    {
        match key {
            SettingKey::AllowAmend => show_other(&self.allow_amend),
            SettingKey::FileIgnore => show_other(&self.file_ignore),
            SettingKey::ModelProvider => match self.model_provider {
                Some(provider) => Some(provider.to_string()),
                None => None,
            },
            SettingKey::OpenAI => show_other(&self.openai),
            SettingKey::Prompt => show_other(&self.prompt),
            SettingKey::Output => show_other(&self.output),
            SettingKey::OpenAIApiBase
            | SettingKey::OpenAIApiKey
            | SettingKey::OpenAIModel
            | SettingKey::OpenAIRetries
            | SettingKey::OpenAIProxy => match &self.openai {
                Some(section) => match key {
                    SettingKey::OpenAIApiBase => show_text(&section.api_base),
                    SettingKey::OpenAIApiKey => show_text(&section.api_key),
                    SettingKey::OpenAIModel => show_text(&section.model),
                    SettingKey::OpenAIRetries => show_other(&section.retries),
                    _ => show_text(&section.proxy),
                },
                None => None,
            },
            SettingKey::PromptConventionalCommitPrefix
            | SettingKey::PromptCommitSummary
            | SettingKey::PromptCommitTitle
            | SettingKey::PromptFileDiff
            | SettingKey::PromptTranslation => match &self.prompt {
                Some(section) => match key {
                    SettingKey::PromptConventionalCommitPrefix => show_text(
                        &section.conventional_commit_prefix,
                    ),
                    SettingKey::PromptCommitSummary => show_text(&section.commit_summary),
                    SettingKey::PromptCommitTitle => show_text(&section.commit_title),
                    SettingKey::PromptFileDiff => show_text(&section.file_diff),
                    _ => show_text(&section.translation),
                },
                None => None,
            },
            SettingKey::OutputConventionalCommit
            | SettingKey::OutputLang
            | SettingKey::OutputShowPerFileSummary => match &self.output {
                Some(section) => match key {
                    SettingKey::OutputConventionalCommit => show_other(
                        &section.conventional_commit,
                    ),
                    SettingKey::OutputLang => show_text(&section.lang),
                    _ => show_other(&section.show_per_file_summary),
                },
                None => None,
            },
        }
    }

    /// The text shown for the setting that `key` names: the text of a text
    /// setting, and the empty text for a setting of another kind and for a
    /// section. A key that names no setting, or one that is not set, is not
    /// found.
    pub fn get(&self, key: &str) -> (text: Result<String, ConfigError>)
        ensures
            match text {
                Ok(text) => lookup(self@, key@) == Some(text@),
                Err(ConfigError::Message { text }) => lookup(self@, key@) is None && text@
                    == not_found_message(key@),
                Err(_) => false,
            },
    {
        let found = match SettingKey::from_str(key) {
            Some(k) => self.show(k),
            None => None,
        };
        match found {
            Some(text) => Ok(text),
            None => {
                let mut text = String::from_str("Configuration key '");
                text.append(key);
                text.append("' not found.");
                Err(ConfigError::Message { text })
            },
        }
    }
}

} // verus!
