use convorelay::dialogue::{
    classify_key_probe, extract_response, plan_request, require_api_key, KeyProbeError,
    OpenaiResponseError,
};
use convorelay::gate::humanizing_pause_seconds;
use convorelay::message::Message;
use convorelay::user::{Openai, OpenaiConfig, User};

#[test]
fn default_config_values() {
    let c = OpenaiConfig::default();
    assert!(c.api_key.is_none());
    assert_eq!(c.model, "gpt-3.5-turbo");
    assert!(c.prompt.is_none());
    assert_eq!(c.max_message_length, 4000);
    assert_eq!(c.max_total_tokens_spent, 1_000_000);
    assert_eq!(c.max_tokens, 300);
    assert_eq!(c.get_cache_duration(), 600);
    assert_eq!(c.get_char_limit(), 10_000);
}

#[test]
fn set_model_accepts_known_names_only() {
    let mut c = OpenaiConfig::default();
    assert!(c.set_model("gpt-4o".to_string()).is_ok());
    assert_eq!(c.get_model(), "gpt-4o");
    assert!(c.set_model("gpt-4-turbo".to_string()).is_ok());
    assert!(c.set_model("gpt-3.5-turbo".to_string()).is_ok());
    let err = c.set_model("gpt-5".to_string()).unwrap_err();
    assert_eq!(err, "Invalid model. Allowed values are: gpt-3.5-turbo, gpt-4-turbo, gpt-4o");
    assert_eq!(c.get_model(), "gpt-3.5-turbo");
}

#[test]
fn set_prompt_bounds_its_length() {
    let mut c = OpenaiConfig::default();
    assert!(c.set_prompt("be nice".to_string()).is_ok());
    assert_eq!(c.get_prompt(), Some("be nice"));
    assert!(c.set_prompt("p".repeat(4000)).is_ok());
    let err = c.set_prompt("p".repeat(4001)).unwrap_err();
    assert_eq!(err, "Prompt is too long. Maximum length is 4000 characters");
    assert_eq!(c.get_prompt().unwrap().len(), 4000);
}

#[test]
fn set_max_message_length_bounds_its_value() {
    let mut c = OpenaiConfig::default();
    assert!(c.set_max_message_length(100).is_ok());
    assert_eq!(c.get_max_message_length(), 100);
    let err = c.set_max_message_length(4001).unwrap_err();
    assert_eq!(err, "Max message length is too long. Maximum is 4000");
    assert_eq!(c.get_max_message_length(), 100);
}

#[test]
fn plain_setters_replace_their_values() {
    let mut c = OpenaiConfig::default();
    c.set_max_total_tokens_spent(42);
    assert_eq!(c.get_max_total_tokens_spent(), 42);
    c.set_max_tokens(512);
    assert_eq!(c.get_max_tokens(), 512);
}

#[test]
fn cache_duration_override_respects_the_hour_bound() {
    let mut c = OpenaiConfig::default();
    let err = c.set_cache_duration(3_601).unwrap_err();
    assert_eq!(err, "Maximum duration is 3,600 seconds");
    assert_eq!(c.get_cache_duration(), 600);
    // the named maximum itself is accepted
    assert!(c.set_cache_duration(3_600).is_ok());
    assert_eq!(c.get_cache_duration(), 3_600);
}

#[test]
fn char_limit_override_respects_its_bound() {
    let mut c = OpenaiConfig::default();
    let err = c.set_char_limit(10_001).unwrap_err();
    assert_eq!(err, "Maximum limit is 10,000 symbols");
    assert_eq!(c.get_char_limit(), 10_000);
    // a lowered budget can be set back to the default, the maximum itself
    assert!(c.set_char_limit(9_999).is_ok());
    assert_eq!(c.get_char_limit(), 9_999);
    assert!(c.set_char_limit(10_000).is_ok());
    assert_eq!(c.get_char_limit(), 10_000);
}

#[test]
fn overrides_keep_each_other() {
    let mut c = OpenaiConfig::default();
    assert!(c.set_cache_duration(120).is_ok());
    assert!(c.set_char_limit(500).is_ok());
    assert_eq!(c.get_cache_duration(), 120);
    assert_eq!(c.get_char_limit(), 500);
    assert!(c.set_cache_duration(60).is_ok());
    assert_eq!(c.get_char_limit(), 500);
}

#[test]
fn get_manager_applies_overrides() {
    let mut c = OpenaiConfig::default();
    assert!(c.set_cache_duration(120).is_ok());
    assert!(c.set_char_limit(500).is_ok());
    let m = c.get_manager();
    assert_eq!(m.cache_duration, 120);
    assert_eq!(m.char_limit, 500);
    let d = OpenaiConfig::default().get_manager();
    assert_eq!(d.cache_duration, 600);
    assert_eq!(d.char_limit, 10_000);
}

#[test]
fn api_key_is_masked_for_display() {
    let mut c = OpenaiConfig::default();
    assert!(c.get_api_key().is_none());
    assert!(c.set_api_key("sk-1234567890".to_string(), Ok(true)).is_ok());
    assert_eq!(c.get_api_key(), Some("...67890".to_string()));
    assert_eq!(c.get_real_api_key(), Some("sk-1234567890".to_string()));
    assert!(c.set_api_key("abc".to_string(), Ok(true)).is_ok());
    assert_eq!(c.get_api_key(), Some("abc".to_string()));
}

#[test]
fn rejected_probe_leaves_key_unset() {
    let mut c = OpenaiConfig::default();
    let err = c.set_api_key("sk-bad".to_string(), Ok(false)).unwrap_err();
    assert_eq!(err, "Invalid API key");
    assert!(c.get_real_api_key().is_none());
    let err = c
        .set_api_key("sk-unknown".to_string(), Err("timeout".to_string()))
        .unwrap_err();
    assert_eq!(err, "Failed check API key");
    assert!(c.get_real_api_key().is_none());
}

#[test]
fn user_getters_expose_record_fields() {
    let openai = Openai::default().with_spent_tokens(7);
    let u = User::new(12, "biz-1".to_string(), openai);
    assert_eq!(u.get_id(), 12);
    assert_eq!(u.get_openai_spent_tokens(), 7);
    assert_eq!(u.get_config().get_max_tokens(), 300);
}

#[test]
fn plan_request_prepends_the_system_prompt() {
    let msgs = vec![Message::new("user", "hi"), Message::new("assistant", "hello")];
    let planned = plan_request(Some("be brief"), msgs);
    assert_eq!(planned.len(), 3);
    assert_eq!(planned[0].role, "system");
    assert_eq!(planned[0].content, "be brief");
    assert_eq!(planned[1].role, "user");
    assert_eq!(planned[2].role, "assistant");
}

#[test]
fn plan_request_without_prompt_is_the_window() {
    let msgs = vec![Message::new("user", "hi")];
    let planned = plan_request(None, msgs);
    assert_eq!(planned.len(), 1);
    assert_eq!(planned[0].role, "user");
    assert_eq!(planned[0].content, "hi");
}

#[test]
fn extract_response_reads_reply_and_usage() {
    let r = extract_response(Some("sure".to_string()), Some(42)).unwrap();
    assert_eq!(r.message, "sure");
    assert_eq!(r.tokens_spent, 42);
}

#[test]
fn extract_response_defaults_missing_usage_to_zero() {
    let r = extract_response(Some("sure".to_string()), None).unwrap();
    assert_eq!(r.tokens_spent, 0);
}

#[test]
fn extract_response_without_choices_is_an_error() {
    match extract_response(None, Some(5)) {
        Err(OpenaiResponseError::Message(m)) => assert_eq!(m, "No answer"),
        other => panic!("unexpected outcome: {other:?}"),
    }
}

#[test]
fn missing_credential_fails_before_any_call() {
    match require_api_key(None) {
        Err(OpenaiResponseError::Message(m)) => assert_eq!(m, "I don't know what to answer"),
        other => panic!("unexpected outcome: {other:?}"),
    }
    assert_eq!(require_api_key(Some("sk-x".to_string())).unwrap(), "sk-x");
}

#[test]
fn classify_key_probe_outcomes() {
    assert_eq!(classify_key_probe(Ok(())), Ok(true));
    let rejected = KeyProbeError::Api("Incorrect API key provided: sk-xyz".to_string());
    assert_eq!(classify_key_probe(Err(rejected)), Ok(false));
    let other_api = KeyProbeError::Api("Rate limit reached".to_string());
    assert_eq!(classify_key_probe(Err(other_api)), Err("Rate limit reached".to_string()));
    let transport = KeyProbeError::Other("connection refused".to_string());
    assert_eq!(classify_key_probe(Err(transport)), Err("connection refused".to_string()));
}

#[test]
fn humanizing_pause_stays_in_range() {
    for _ in 0..20 {
        let p = humanizing_pause_seconds(2, 5);
        assert!((2..=5).contains(&p));
    }
    assert_eq!(humanizing_pause_seconds(3, 3), 3);
    let swapped = humanizing_pause_seconds(9, 4);
    assert!((4..=9).contains(&swapped));
}
