use gptcommit::llms::llm_client::LlmError;
use gptcommit::llms::openai::{
    check_prompt_size, completion_max_tokens, estimate_token_count, finish_completion,
    first_choice, get_llm_client, has_llm_client, is_chat_model_name, ClientChoice, OpenAIClient,
};
use gptcommit::settings::{ConfigError, ModelProvider, OpenAISettings, Settings};

fn openai(key: Option<&str>, model: Option<&str>) -> OpenAISettings {
    OpenAISettings {
        api_base: Some("".to_string()),
        api_key: key.map(str::to_string),
        model: model.map(str::to_string),
        retries: Some(2),
        proxy: None,
    }
}

#[test]
fn client_needs_a_key_and_a_model() {
    match OpenAIClient::new(openai(None, Some("gpt-4"))) {
        Err(ConfigError::Missing { key }) => assert_eq!(key, "openai.api_key"),
        other => panic!("expected a missing key, got {:?}", other),
    }
    match OpenAIClient::new(openai(Some(""), Some("gpt-4"))) {
        Err(ConfigError::Missing { key }) => assert_eq!(key, "openai.api_key"),
        other => panic!("expected a missing key, got {:?}", other),
    }
    match OpenAIClient::new(openai(Some("sk"), Some(""))) {
        Err(ConfigError::Missing { key }) => assert_eq!(key, "openai.model"),
        other => panic!("expected a missing model, got {:?}", other),
    }
}

#[test]
fn client_takes_over_what_is_set() {
    let client = OpenAIClient::new(openai(Some("sk"), Some("gpt-4"))).unwrap();
    assert_eq!(client.api_key, "sk");
    assert_eq!(client.model, "gpt-4");
    assert_eq!(client.api_base, None);
    assert_eq!(client.proxy, None);
    assert!(client.retry);

    let client = OpenAIClient::new(OpenAISettings {
        api_base: Some("http://localhost:8080/v1".to_string()),
        api_key: Some("sk".to_string()),
        model: Some("m".to_string()),
        retries: Some(0),
        proxy: Some("socks5://localhost:1080".to_string()),
    })
    .unwrap();
    assert_eq!(client.api_base.as_deref(), Some("http://localhost:8080/v1"));
    assert_eq!(client.proxy.as_deref(), Some("socks5://localhost:1080"));
    assert!(!client.retry);

    let client = OpenAIClient::new(OpenAISettings {
        api_base: None,
        api_key: Some("sk".to_string()),
        model: Some("m".to_string()),
        retries: None,
        proxy: Some("".to_string()),
    })
    .unwrap();
    assert_eq!(client.api_base, None);
    assert_eq!(client.proxy, None);
    assert!(!client.retry);
}

#[test]
fn chat_models_are_told_by_their_names() {
    assert!(OpenAIClient::should_use_chat_completion("gpt-4"));
    assert!(OpenAIClient::should_use_chat_completion("GPT-4-32k"));
    assert!(OpenAIClient::should_use_chat_completion("gpt-3.5-turbo-0301"));
    assert!(OpenAIClient::should_use_chat_completion("Gpt-3.5-Turbo"));
    assert!(!OpenAIClient::should_use_chat_completion("gpt-3.5"));
    assert!(!OpenAIClient::should_use_chat_completion("text-davinci-003"));
    assert!(!OpenAIClient::should_use_chat_completion(" gpt-4"));
    assert!(!OpenAIClient::should_use_chat_completion(""));
}

#[test]
fn prompt_limit_depends_on_the_model() {
    let davinci = OpenAIClient::new(openai(Some("sk"), Some("text-davinci-003"))).unwrap();
    assert_eq!(davinci.get_prompt_token_limit_for_model(), 4000);
    let other = OpenAIClient::new(openai(Some("sk"), Some("text-curie-001"))).unwrap();
    assert_eq!(other.get_prompt_token_limit_for_model(), 2048);
}

#[test]
fn tokens_are_estimated_as_two_per_word() {
    assert_eq!(estimate_token_count(""), 0);
    assert_eq!(estimate_token_count("   \n\t "), 0);
    assert_eq!(estimate_token_count("one"), 2);
    assert_eq!(estimate_token_count("  one two\nthree\u{a0}four  "), 8);
}

#[test]
fn prompt_size_is_checked_against_the_limit() {
    let client = OpenAIClient::new(openai(Some("sk"), Some("text-curie-001"))).unwrap();
    let fits = "w ".repeat(1024);
    let too_long = "w ".repeat(1025);
    assert!(check_prompt_size(&client, &fits).is_ok());
    assert!(matches!(check_prompt_size(&client, &too_long), Err(LlmError::TokenLimit)));
}

#[test]
fn completion_needs_a_hundred_tokens() {
    assert!(matches!(completion_max_tokens(0), Err(LlmError::TokenLimit)));
    assert!(matches!(completion_max_tokens(99), Err(LlmError::TokenLimit)));
    assert_eq!(completion_max_tokens(100).unwrap(), 100);
    assert_eq!(completion_max_tokens(4000).unwrap(), 4000);
    assert_eq!(completion_max_tokens(65535).unwrap(), 65535);
    assert_eq!(completion_max_tokens(65536 + 123).unwrap(), 123);
}

#[test]
fn first_choice_is_the_completion() {
    assert!(matches!(first_choice(Vec::new()), Err(LlmError::NoCompletion)));
    assert_eq!(first_choice(vec!["a".to_string(), "b".to_string()]).unwrap(), "a");
    assert_eq!(finish_completion(" \n- did things\n\n"), "- did things");
}

fn with_openai(key: Option<&str>, model: Option<&str>) -> Settings {
    let mut settings = Settings::defaults();
    let mut openai = settings.openai.take().unwrap();
    openai.api_key = key.map(str::to_string);
    openai.model = model.map(str::to_string);
    settings.openai = Some(openai);
    settings
}

#[test]
fn backend_follows_the_settings() {
    let mut settings = with_openai(Some("key"), Some("gpt-3.5-turbo"));
    assert!(has_llm_client(&settings));
    assert_eq!(get_llm_client(&settings), ClientChoice::OpenAI);
    settings.model_provider = Some(ModelProvider::TesterFoobar);
    assert!(has_llm_client(&settings));
    assert_eq!(get_llm_client(&settings), ClientChoice::TesterFoobar);
    settings.openai = None;
    assert!(has_llm_client(&settings));
    assert_eq!(get_llm_client(&settings), ClientChoice::TesterFoobar);
    settings.model_provider = Some(ModelProvider::OpenAI);
    assert!(!has_llm_client(&settings));
    settings.model_provider = None;
    assert!(!has_llm_client(&settings));
}

#[test]
fn openai_is_chosen_only_where_a_client_can_be_made() {
    // the settings in force by default name no key
    assert!(!has_llm_client(&Settings::defaults()));
    for (key, model, usable) in [
        (Some("key"), Some("model"), true),
        (None, Some("model"), false),
        (Some(""), Some("model"), false),
        (Some("key"), None, false),
        (Some("key"), Some(""), false),
        (None, None, false),
    ] {
        let mut settings = with_openai(key, model);
        assert_eq!(has_llm_client(&settings), usable, "{:?} {:?}", key, model);
        if usable {
            assert_eq!(get_llm_client(&settings), ClientChoice::OpenAI);
        }
        let made = OpenAIClient::new(settings.openai.take().unwrap());
        assert_eq!(made.is_ok(), usable, "{:?} {:?}", key, model);
        // the tester needs no section at all
        settings.model_provider = Some(ModelProvider::TesterFoobar);
        assert!(has_llm_client(&settings));
    }
}

#[test]
fn chat_model_names_begin_with_their_family() {
    assert!(is_chat_model_name("gpt-4"));
    assert!(is_chat_model_name("gpt-4-32k"));
    assert!(is_chat_model_name("gpt-3.5-turbo"));
    assert!(is_chat_model_name("gpt-3.5-turbo-16k"));
    assert!(!is_chat_model_name("GPT-4"));
    assert!(!is_chat_model_name("gpt-3.5"));
    assert!(!is_chat_model_name("my-gpt-4"));
    assert!(!is_chat_model_name(""));
}

#[test]
fn errors_tell_what_went_wrong() {
    assert_eq!(LlmError::TokenLimit.message(), "the prompt is too large for the model");
    assert_eq!(LlmError::NoCompletion.message(), "no completion was returned");
    assert_eq!(
        LlmError::Backend { message: "401".to_string() }.message(),
        "the backend failed: 401"
    );
}
