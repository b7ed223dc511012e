use o_sovereign::api_manager::{masked_key, ApiProvider, CallCounts};

#[test]
fn test_masked_key_values() {
    assert_eq!(masked_key("sk-1234567890abcdef"), "sk-1...cdef");
    assert_eq!(masked_key("short"), "*****");
    assert_eq!(masked_key("12345678"), "********");
    assert_eq!(masked_key("123456789"), "1234...6789");
    assert_eq!(masked_key(""), "");
    // Bytes, not characters, are counted.
    assert_eq!(masked_key("é"), "**");
}

#[test]
fn providers_and_their_models() {
    let all = ApiProvider::all();
    assert_eq!(all.len(), 4);
    assert_eq!(all[0], ApiProvider::OpenAI);
    assert_eq!(ApiProvider::OpenAI.name(), "OpenAI");
    assert_eq!(ApiProvider::OpenAI.default_model(), "gpt-4");
    assert_eq!(ApiProvider::Gemini.default_model(), "gemini-pro");
    assert_eq!(ApiProvider::DeepSeek.pricing_info(), "$0.14-0.28/1M tokens (Coder)");
    assert_eq!(ApiProvider::Gemini.pricing_info(), "$0.50/1M tokens (Pro)");
}

#[test]
fn masked_key_cuts_non_ascii_keys_at_character_boundaries() {
    // "éé" takes four bytes at each end.
    assert_eq!(masked_key("éé-middle-éé"), "éé...éé");
    assert_eq!(masked_key("a€-long-key-x€"), "a€...x€");
}

#[test]
fn call_counts_add_up() {
    let mut c = CallCounts::new();
    c.record(true, 120);
    c.record(false, 500);
    c.record(true, 30);
    assert_eq!(c.total_calls, 3);
    assert_eq!(c.successful_calls, 2);
    assert_eq!(c.failed_calls, 1);
    assert_eq!(c.total_tokens, 150);
    assert_eq!(c.total_calls, c.successful_calls + c.failed_calls);
}
