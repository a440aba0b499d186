use gptcommit::llms::llm_client::LlmClient;
use gptcommit::llms::tester_foobar::FooBarClient;

#[test]
fn tester_foobar_test_basic() {
    let client = FooBarClient::new().unwrap();

    let result = client.completions("Hi there! ").unwrap();
    assert_eq!(result, "foo bar");
}
