//! The keys by which single settings are named, and the texts that stand for
//! their values.
//!
//! A key names a setting by its path, the parts parted by dots, as in
//! `openai.model`. A value is given as a text; what it stands for depends on
//! the kind of the setting that it is for.

use vstd::prelude::*;
use crate::text::{str_eq, to_chars};

verus! {

/// The settings that can be named, and the sections that hold them.
#[derive(Debug, Clone, Copy, PartialEq, Eq, Structural)]
pub enum SettingKey {
    AllowAmend,
    FileIgnore,
    ModelProvider,
    OpenAI,
    OpenAIApiBase,
    OpenAIApiKey,
    OpenAIModel,
    OpenAIRetries,
    OpenAIProxy,
    Prompt,
    PromptConventionalCommitPrefix,
    PromptCommitSummary,
    PromptCommitTitle,
    PromptFileDiff,
    PromptTranslation,
    Output,
    OutputConventionalCommit,
    OutputLang,
    OutputShowPerFileSummary,
}

impl SettingKey {
    /// The key that `s` is.
    pub open spec fn parse(s: Seq<char>) -> Option<SettingKey> {
        if s == "allow_amend"@ {
            Some(SettingKey::AllowAmend)
        } else if s == "file_ignore"@ {
            Some(SettingKey::FileIgnore)
        } else if s == "model_provider"@ {
            Some(SettingKey::ModelProvider)
        } else if s == "openai"@ {
            Some(SettingKey::OpenAI)
        } else if s == "openai.api_base"@ {
            Some(SettingKey::OpenAIApiBase)
        } else if s == "openai.api_key"@ {
            Some(SettingKey::OpenAIApiKey)
        } else if s == "openai.model"@ {
            Some(SettingKey::OpenAIModel)
        } else if s == "openai.retries"@ {
            Some(SettingKey::OpenAIRetries)
        } else if s == "openai.proxy"@ {
            Some(SettingKey::OpenAIProxy)
        } else if s == "prompt"@ {
            Some(SettingKey::Prompt)
        } else if s == "prompt.conventional_commit_prefix"@ {
            Some(SettingKey::PromptConventionalCommitPrefix)
        } else if s == "prompt.commit_summary"@ {
            Some(SettingKey::PromptCommitSummary)
        } else if s == "prompt.commit_title"@ {
            Some(SettingKey::PromptCommitTitle)
        } else if s == "prompt.file_diff"@ {
            Some(SettingKey::PromptFileDiff)
        } else if s == "prompt.translation"@ {
            Some(SettingKey::PromptTranslation)
        } else if s == "output"@ {
            Some(SettingKey::Output)
        } else if s == "output.conventional_commit"@ {
            Some(SettingKey::OutputConventionalCommit)
        } else if s == "output.lang"@ {
            Some(SettingKey::OutputLang)
        } else if s == "output.show_per_file_summary"@ {
            Some(SettingKey::OutputShowPerFileSummary)
        } else {
            None
        }
    }

    /// Reads a key. A text that is no key names no setting.
    pub fn from_str(s: &str) -> (key: Option<SettingKey>)
        ensures
            key == SettingKey::parse(s@),
    {
        if str_eq(s, "allow_amend") {
            Some(SettingKey::AllowAmend)
        } else if str_eq(s, "file_ignore") {
            Some(SettingKey::FileIgnore)
        } else if str_eq(s, "model_provider") {
            Some(SettingKey::ModelProvider)
        } else if str_eq(s, "openai") {
            Some(SettingKey::OpenAI)
        } else if str_eq(s, "openai.api_base") {
            Some(SettingKey::OpenAIApiBase)
        } else if str_eq(s, "openai.api_key") {
            Some(SettingKey::OpenAIApiKey)
        } else if str_eq(s, "openai.model") {
            Some(SettingKey::OpenAIModel)
        } else if str_eq(s, "openai.retries") {
            Some(SettingKey::OpenAIRetries)
        } else if str_eq(s, "openai.proxy") {
            Some(SettingKey::OpenAIProxy)
        } else if str_eq(s, "prompt") {
            Some(SettingKey::Prompt)
        } else if str_eq(s, "prompt.conventional_commit_prefix") {
            Some(SettingKey::PromptConventionalCommitPrefix)
        } else if str_eq(s, "prompt.commit_summary") {
            Some(SettingKey::PromptCommitSummary)
        } else if str_eq(s, "prompt.commit_title") {
            Some(SettingKey::PromptCommitTitle)
        } else if str_eq(s, "prompt.file_diff") {
            Some(SettingKey::PromptFileDiff)
        } else if str_eq(s, "prompt.translation") {
            Some(SettingKey::PromptTranslation)
        } else if str_eq(s, "output") {
            Some(SettingKey::Output)
        } else if str_eq(s, "output.conventional_commit") {
            Some(SettingKey::OutputConventionalCommit)
        } else if str_eq(s, "output.lang") {
            Some(SettingKey::OutputLang)
        } else if str_eq(s, "output.show_per_file_summary") {
            Some(SettingKey::OutputShowPerFileSummary)
        } else {
            None
        }
    }
}

/// `c` is the letter `lower`, in upper or in lower case, or is `lower` itself.
pub open spec fn same_letter(c: char, lower: char) -> bool {
    c == lower || ('A' <= c && c <= 'Z' && c as u32 + 32 == lower as u32)
}

/// `value` is `word`, the case of its letters left aside; `word` is written
/// in lower case.
pub open spec fn is_word(value: Seq<char>, word: Seq<char>) -> bool {
    &&& value.len() == word.len()
    &&& forall|i: int| 0 <= i < value.len() ==> same_letter(#[trigger] value[i], word[i])
}

/// The truth value that `value` stands for: `1`, `true`, `on` and `yes` are
/// true, `0`, `false`, `off` and `no` are false, in upper or lower case.
pub open spec fn parse_bool(value: Seq<char>) -> Option<bool> {
    if is_word(value, "1"@) || is_word(value, "true"@) || is_word(value, "on"@) || is_word(
        value,
        "yes"@,
    ) {
        Some(true)
    } else if is_word(value, "0"@) || is_word(value, "false"@) || is_word(value, "off"@)
        || is_word(value, "no"@) {
        Some(false)
    } else {
        None
    }
}

/// `c` is one of the ten digits.
pub open spec fn is_digit(c: char) -> bool {
    '0' <= c && c <= '9'
}

/// The number that the digits of `s` write in base ten.
pub open spec fn digits_value(s: Seq<char>) -> nat
    decreases s.len(),
{
    if s.len() == 0 {
        0
    } else {
        (digits_value(s.drop_last()) * 10 + (s.last() as u32 - '0' as u32)) as nat
    }
}

/// The number that `value` stands for: `value` consists of one or more
/// digits, and what they write in base ten is below 65536.
pub open spec fn parse_u16(value: Seq<char>) -> Option<u16> {
    if value.len() > 0 && (forall|i: int| 0 <= i < value.len() ==> is_digit(#[trigger] value[i]))
        && digits_value(value) <= u16::MAX {
        Some(digits_value(value) as u16)
    } else {
        None
    }
}

/// Digits put behind a number make it no smaller.
pub proof fn lemma_digits_value_grows(s: Seq<char>, k: int)
    requires
        0 <= k <= s.len(),
        forall|i: int| 0 <= i < s.len() ==> is_digit(#[trigger] s[i]),
    ensures
        digits_value(s.subrange(0, k)) <= digits_value(s),
    decreases s.len() - k,
{
    if k < s.len() {
        let longer = s.subrange(0, k + 1);
        assert(longer.drop_last() =~= s.subrange(0, k));
        assert(longer.last() == s[k]);
        assert(is_digit(s[k]));
        lemma_digits_value_grows(s, k + 1);
    } else {
        assert(s.subrange(0, k) =~= s);
    }
}

fn is_word_of(value: &Vec<char>, word: &str) -> (same: bool)
    ensures
        same == is_word(value@, word@),
{
    let letters = to_chars(word);
    if value.len() != letters.len() {
        return false;
    }
    let n: usize = value.len();
    let mut i: usize = 0;
    while i < n
        invariant
            letters@ == word@,
            n == value@.len(),
            n == letters@.len(),
            i <= n,
            forall|j: int| 0 <= j < i ==> same_letter(#[trigger] value@[j], letters@[j]),
        decreases n - i,
    {
        let c = value[i];
        let w = letters[i];
        let same = c == w || ('A' <= c && c <= 'Z' && c as u32 + 32 == w as u32);
        if !same {
            return false;
        }
        i += 1;
    }
    true
}

/// The truth value that `value` stands for, if it stands for one.
pub fn read_bool(value: &str) -> (read: Option<bool>)
    ensures
        read == parse_bool(value@),
{
    let chars = to_chars(value);
    if is_word_of(&chars, "1") || is_word_of(&chars, "true") || is_word_of(&chars, "on")
        || is_word_of(&chars, "yes") {
        Some(true)
    } else if is_word_of(&chars, "0") || is_word_of(&chars, "false") || is_word_of(&chars, "off")
        || is_word_of(&chars, "no") {
        Some(false)
    } else {
        None
    }
}

/// The number below 65536 that `value` stands for, if it stands for one.
pub fn read_u16(value: &str) -> (read: Option<u16>)
    ensures
        read == parse_u16(value@),
{
    let chars = to_chars(value);
    let n: usize = chars.len();
    if n == 0 {
        return None;
    }
    let mut total: u32 = 0;
    let mut i: usize = 0;
    proof {
        assert(chars@.subrange(0, 0) =~= Seq::<char>::empty());
    }
    while i < n
        invariant
            chars@ == value@,
            n == chars@.len(),
            i <= n,
            forall|j: int| 0 <= j < i ==> is_digit(#[trigger] chars@[j]),
            total == digits_value(chars@.subrange(0, i as int)),
            total <= u16::MAX,
        decreases n - i,
    {
        let c = chars[i];
        if !('0' <= c && c <= '9') {
            return None;
        }
        proof {
            let longer = chars@.subrange(0, i + 1);
            assert(longer.drop_last() =~= chars@.subrange(0, i as int));
            assert(longer.last() == c);
        }
        let next: u32 = total * 10 + (c as u32 - '0' as u32);
        if next > 65535 {
            proof {
                if forall|j: int| 0 <= j < n ==> is_digit(#[trigger] chars@[j]) {
                    lemma_digits_value_grows(chars@, i + 1);
                }
            }
            return None;
        }
        total = next;
        i += 1;
    }
    proof {
        assert(chars@.subrange(0, n as int) =~= chars@);
    }
    Some(total as u16)
}

} // verus!
