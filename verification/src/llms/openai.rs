//! What the OpenAI backend decides before and after it talks to the service:
//! whether it can be set up, which of the two completion interfaces a model
//! is asked through, how many tokens a completion may have, and what becomes
//! of the answer. Talking to the service is left to the caller.

use vstd::prelude::*;
use crate::llms::llm_client::LlmError;
use crate::settings::{opt_view, ConfigError, ModelProvider, OpenAISettings, OpenAISettingsView, Settings, SettingsView};
use crate::text::{is_white_space, lemma_span_end_bounds, matches_at, occurs_at, span_end, span_end_at, to_chars, trim, trimmed};
use vstd::string::StringExecFns;

verus! {

/// The fewest tokens that must be left for a completion.
pub const COMPLETION_TOKEN_LIMIT: usize = 100;

/// `s` in lower case, as `str::to_lowercase` gives it.
pub uninterp spec fn lowercase_of(s: Seq<char>) -> Seq<char>;

/// `str::to_lowercase` depends on the text alone: it follows the Unicode
/// rules for lower case, which know of no locale. Its result is the one that
/// `lowercase_of` names.
pub assume_specification[ str::to_lowercase ](s: &str) -> (lower: String)
    ensures
        lower@ == lowercase_of(s@),
;

/// The text of an optional setting, an unset one being the empty text.
pub open spec fn setting_text(text: Option<Seq<char>>) -> Seq<char> {
    match text {
        Some(text) => text,
        None => Seq::empty(),
    }
}

/// The text of an optional setting, if it is set and not empty.
pub open spec fn nonempty_setting(text: Option<Seq<char>>) -> Option<Seq<char>> {
    match text {
        Some(text) => if text.len() > 0 {
            Some(text)
        } else {
            None
        },
        None => None,
    }
}

/// The section on OpenAI has what a connection needs: a key and a model,
/// both set and not empty.
pub open spec fn usable_openai(section: OpenAISettingsView) -> bool {
    setting_text(section.api_key).len() > 0 && setting_text(section.model).len() > 0
}

/// Whether an optional setting is set and not empty.
fn is_set(text: &Option<String>) -> (set: bool)
    ensures
        set == (setting_text(opt_view(*text)).len() > 0),
{
    match text {
        Some(text) => text.as_str().unicode_len() > 0,
        None => false,
    }
}

/// How the OpenAI service is reached: all that is needed to set up a
/// connection, as plain values.
#[derive(Debug)]
pub struct OpenAIClient {
    /// The model that is asked.
    pub model: String,
    /// The key that is sent with each request.
    pub api_key: String,
    /// The address of the service, where it is not the usual one. With the
    /// usual one the connection speaks HTTP/2 from the start, over TLS 1.2
    /// or newer.
    pub api_base: Option<String>,
    /// The proxy through which requests go, if any.
    pub proxy: Option<String>,
    /// Whether a failed request is tried again, for up to a minute.
    pub retry: bool,
}

impl OpenAIClient {
    /// Takes what a connection needs from the settings. A key and a model
    /// must be set and not empty. An address or a proxy that is empty counts
    /// as not set; requests are tried again if the retries are set above 0.
    pub fn new(settings: OpenAISettings) -> (client: Result<OpenAIClient, ConfigError>)
        ensures
            client is Ok <==> usable_openai(settings@),
            match client {
                Ok(client) => {
                    &&& setting_text(settings@.api_key).len() > 0
                    &&& setting_text(settings@.model).len() > 0
                    &&& client.api_key@ == setting_text(settings@.api_key)
                    &&& client.model@ == setting_text(settings@.model)
                    &&& opt_view(client.api_base) == nonempty_setting(settings@.api_base)
                    &&& opt_view(client.proxy) == nonempty_setting(settings@.proxy)
                    &&& client.retry == (settings@.retries is Some && settings@.retries->0 > 0)
                },
                Err(ConfigError::Missing { key }) => if setting_text(settings@.api_key).len() == 0 {
                    key@ == "openai.api_key"@
                } else {
                    setting_text(settings@.model).len() == 0 && key@ == "openai.model"@
                },
                Err(_) => false,
            },
    {
        let api_key = match settings.api_key {
            Some(key) => key,
            None => String::new(),
        };
        if api_key.as_str().unicode_len() == 0 {
            return Err(ConfigError::Missing { key: String::from_str("openai.api_key") });
        }
        let model = match settings.model {
            Some(model) => model,
            None => String::new(),
        };
        if model.as_str().unicode_len() == 0 {
            return Err(ConfigError::Missing { key: String::from_str("openai.model") });
        }
        let api_base = match settings.api_base {
            Some(base) => if base.as_str().unicode_len() == 0 {
                None
            } else {
                Some(base)
            },
            None => None,
        };
        let proxy = match settings.proxy {
            Some(proxy) => if proxy.as_str().unicode_len() == 0 {
                None
            } else {
                Some(proxy)
            },
            None => None,
        };
        let retry = match settings.retries {
            Some(n) => n > 0,
            None => false,
        };
        Ok(OpenAIClient { model, api_key, api_base, proxy, retry })
    }

    /// The model is asked through the chat interface: its name, the case of
    /// its letters left aside, begins with `gpt-4` or with `gpt-3.5-turbo`.
    pub open spec fn uses_chat_completion(model: Seq<char>) -> bool {
        occurs_at(lowercase_of(model), "gpt-4"@, 0) || occurs_at(
            lowercase_of(model),
            "gpt-3.5-turbo"@,
            0,
        )
    }

    /// Whether `model` is asked through the chat interface.
    pub fn should_use_chat_completion(model: &str) -> (chat: bool)
        ensures
            chat == OpenAIClient::uses_chat_completion(model@),
    {
        let lower = model.to_lowercase();
        is_chat_model_name(lower.as_str())
    }

    /// The number of tokens that a prompt for this client's model may have.
    pub fn get_prompt_token_limit_for_model(&self) -> (limit: usize)
        ensures
            limit == prompt_token_limit(self.model@),
    {
        if crate::text::str_eq(self.model.as_str(), "text-davinci-003") {
            4000
        } else {
            2048
        }
    }
}

/// Whether `lower`, the name of a model in lower case, is the name of a
/// model that is asked through the chat interface: one that begins with
/// `gpt-4` or with `gpt-3.5-turbo`.
pub fn is_chat_model_name(lower: &str) -> (chat: bool)
    ensures
        chat == (occurs_at(lower@, "gpt-4"@, 0) || occurs_at(lower@, "gpt-3.5-turbo"@, 0)),
{
    let chars = to_chars(lower);
    let four = to_chars("gpt-4");
    let turbo = to_chars("gpt-3.5-turbo");
    matches_at(&chars, &four, 0) || matches_at(&chars, &turbo, 0)
}

/// The number of tokens that a prompt for `model` may have: 4000 for
/// `text-davinci-003`, and 2048 for every other model.
pub open spec fn prompt_token_limit(model: Seq<char>) -> nat {
    if model == "text-davinci-003"@ {
        4000
    } else {
        2048
    }
}

/// The number of words in `s` from `from` on, a word being a run of
/// characters free of white space.
pub open spec fn word_count(s: Seq<char>, from: int) -> nat
    decreases s.len() - from,
{
    let start = span_end(s, from, true);
    let end = span_end(s, start, false);
    if from < 0 || start >= s.len() || end <= from || end > s.len() {
        0
    } else {
        1 + word_count(s, end)
    }
}

/// The number of tokens that `prompt` is taken to have: two for each word.
pub open spec fn estimated_tokens(prompt: Seq<char>) -> nat {
    2 * word_count(prompt, 0)
}

/// The number of tokens that `prompt` is taken to have: two for each of its
/// words, and the largest number there is where that is too large to hold.
pub fn estimate_token_count(prompt: &str) -> (count: usize)
    ensures
        count == if estimated_tokens(prompt@) <= usize::MAX {
            estimated_tokens(prompt@)
        } else {
            usize::MAX as nat
        },
{
    let chars = to_chars(prompt);
    let n: usize = chars.len();
    let mut words: usize = 0;
    let mut pos: usize = 0;
    loop
        invariant
            chars@ == prompt@,
            n == prompt@.len(),
            pos <= n,
            words <= pos,
            word_count(prompt@, 0) == words + word_count(prompt@, pos as int),
        ensures
            word_count(prompt@, 0) == words,
            words <= n,
        decreases n - pos,
    {
        let start = span_end_at(&chars, pos, true);
        if start >= n {
            break;
        }
        let end = span_end_at(&chars, start, false);
        proof {
            lemma_span_end_bounds(chars@, start as int, false);
            assert(!is_white_space(chars@[start as int])) by {
                lemma_span_end_bounds(chars@, pos as int, true);
            }
            assert(end > start);
        }
        words += 1;
        pos = end;
    }
    if words > usize::MAX / 2 {
        usize::MAX
    } else {
        words * 2
    }
}

/// Whether a prompt is short enough for this model: its estimated number of
/// tokens is not above the model's limit.
pub fn check_prompt_size(client: &OpenAIClient, prompt: &str) -> (fits: Result<(), LlmError>)
    ensures
        fits is Ok <==> estimated_tokens(prompt@) <= prompt_token_limit(client.model@),
        fits is Err ==> fits->Err_0 is TokenLimit,
{
    if estimate_token_count(prompt) > client.get_prompt_token_limit_for_model() {
        Err(LlmError::TokenLimit)
    } else {
        Ok(())
    }
}

/// The number of tokens that is asked for a completion when `available`
/// tokens are left for it: the request is refused if fewer than 100 are
/// left; otherwise all of them are asked for, as far as 16 bits hold them.
pub open spec fn max_tokens_for(available: nat) -> Option<u16> {
    if available < 100 {
        None
    } else {
        Some((available % 65536) as u16)
    }
}

/// The number of tokens to ask for when `available` tokens are left for the
/// completion, or the refusal of a prompt that leaves too few.
pub fn completion_max_tokens(available: usize) -> (limit: Result<u16, LlmError>)
    ensures
        match limit {
            Ok(n) => max_tokens_for(available as nat) == Some(n),
            Err(error) => max_tokens_for(available as nat) is None && error is TokenLimit,
        },
{
    if available < COMPLETION_TOKEN_LIMIT {
        Err(LlmError::TokenLimit)
    } else {
        Ok((available % 65536) as u16)
    }
}

/// The completion among the choices that the service returned: the first
/// one, and an error if there is none.
pub fn first_choice(choices: Vec<String>) -> (completion: Result<String, LlmError>)
    ensures
        match completion {
            Ok(text) => choices@.len() > 0 && text == choices@[0],
            Err(error) => choices@.len() == 0 && error is NoCompletion,
        },
{
    let mut choices = choices;
    if choices.len() == 0 {
        Err(LlmError::NoCompletion)
    } else {
        Ok(choices.swap_remove(0))
    }
}

/// The completion as the backend hands it on: without the white space at its
/// ends.
pub fn finish_completion(text: &str) -> (completion: String)
    ensures
        completion@ == trimmed(text@),
{
    trim(text).to_owned()
}

/// The backends that the settings can ask for.
#[derive(Copy, Clone, PartialEq, Eq, Debug, Structural)]
pub enum ClientChoice {
    /// The tester backend.
    TesterFoobar,
    /// The OpenAI backend, set up from the section on it.
    OpenAI,
}

/// The backend that `settings` ask for: the tester where it is named, and
/// OpenAI where it is named and its section is there with a key and a model,
/// so that a client can be made from it. Other settings ask for no backend
/// that could be set up.
pub open spec fn client_choice(settings: SettingsView) -> Option<ClientChoice> {
    match settings.model_provider {
        Some(ModelProvider::TesterFoobar) => Some(ClientChoice::TesterFoobar),
        Some(ModelProvider::OpenAI) => match settings.openai {
            Some(section) => if usable_openai(section) {
                Some(ClientChoice::OpenAI)
            } else {
                None
            },
            None => None,
        },
        None => None,
    }
}

/// Whether `settings` ask for a backend that can be set up.
pub fn has_llm_client(settings: &Settings) -> (has: bool)
    ensures
        has == (client_choice(settings@) is Some),
{
    match settings.model_provider {
        Some(ModelProvider::TesterFoobar) => true,
        Some(ModelProvider::OpenAI) => match &settings.openai {
            Some(section) => is_set(&section.api_key) && is_set(&section.model),
            None => false,
        },
        None => false,
    }
}

/// The backend that `settings` ask for. The settings must ask for one that
/// can be set up: without a backend there is nothing to go on with, and a
/// caller that may have such settings asks `has_llm_client` first. Where the
/// choice is OpenAI, `OpenAIClient::new` makes a client from the section.
pub fn get_llm_client(settings: &Settings) -> (choice: ClientChoice)
    requires
        client_choice(settings@) is Some,
    ensures
        Some(choice) == client_choice(settings@),
        choice == ClientChoice::OpenAI ==> settings@.openai is Some && usable_openai(
            settings@.openai->0,
        ),
{
    match settings.model_provider {
        Some(ModelProvider::TesterFoobar) => ClientChoice::TesterFoobar,
        _ => ClientChoice::OpenAI,
    }
}

} // verus!
