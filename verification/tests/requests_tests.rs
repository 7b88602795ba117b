use platinenmachergpt::config::{parse_i32, parse_usize, setting_i32, setting_usize, RawSettings, ServerConfig};
use platinenmachergpt::requests::{
    admission_fits_check, budget_fits_check, chat_prompt, handle_callback, plan_chat,
    plan_max_tokens, plan_prompt, CallState, Message, RequestError, TokenOptions,
};

fn config() -> ServerConfig {
    ServerConfig {
        model_path: "/srv/models".to_string(),
        max_context_len: 512,
        max_new_tokens_default: 128,
        max_new_tokens_limit: 256,
        max_prompt_length: 2048,
    }
}

fn msg(role: &str, content: &str) -> Message {
    Message { role: role.to_string(), content: content.to_string() }
}

#[test]
fn parse_i32_reads_decimal_numbers() {
    assert_eq!(parse_i32("512"), Some(512));
    assert_eq!(parse_i32("+7"), Some(7));
    assert_eq!(parse_i32("-12"), Some(-12));
    assert_eq!(parse_i32("0007"), Some(7));
    assert_eq!(parse_i32("2147483647"), Some(i32::MAX));
    assert_eq!(parse_i32("-2147483648"), Some(i32::MIN));
    assert_eq!(parse_i32("2147483648"), None);
    assert_eq!(parse_i32("-2147483649"), None);
    assert_eq!(parse_i32(""), None);
    assert_eq!(parse_i32("+"), None);
    assert_eq!(parse_i32("-"), None);
    assert_eq!(parse_i32(" 5"), None);
    assert_eq!(parse_i32("5a"), None);
}

#[test]
fn parse_usize_reads_unsigned_numbers() {
    assert_eq!(parse_usize("2048"), Some(2048));
    assert_eq!(parse_usize("+1"), Some(1));
    assert_eq!(parse_usize("-1"), None);
    assert_eq!(parse_usize("-0"), None);
    assert_eq!(parse_usize(&usize::MAX.to_string()), Some(usize::MAX));
    assert_eq!(parse_usize("99999999999999999999999"), None);
    for s in ["", "x", "1 ", "+", "１"] {
        assert_eq!(parse_usize(s), s.parse::<usize>().ok());
    }
}

#[test]
fn parsing_agrees_with_std() {
    for s in ["0", "-0", "+0", "12", "-2147483648", "2147483647", "99999999999", "1_000", "٣"] {
        assert_eq!(parse_i32(s), s.parse::<i32>().ok(), "{s}");
    }
}

#[test]
fn settings_fall_back_to_defaults() {
    assert_eq!(setting_i32(&None, 512), 512);
    assert_eq!(setting_i32(&Some("1024".to_string()), 512), 1024);
    assert_eq!(setting_i32(&Some("lots".to_string()), 512), 512);
    assert_eq!(setting_usize(&Some("4096".to_string()), 2048), 4096);
    assert_eq!(setting_usize(&Some("-4".to_string()), 2048), 2048);
}

#[test]
fn config_from_settings_uses_defaults() {
    let raw = RawSettings {
        model_path: None,
        max_context_len: None,
        max_new_tokens_default: Some("oops".to_string()),
        max_new_tokens_limit: Some("300".to_string()),
        max_prompt_length: None,
    };
    let cfg = ServerConfig::from_settings(&raw);
    assert_eq!(cfg.model_path, "/path/to/your/model.rkllm");
    assert_eq!(cfg.max_context_len, 512);
    assert_eq!(cfg.max_new_tokens_default, 128);
    assert_eq!(cfg.max_new_tokens_limit, 300);
    assert_eq!(cfg.max_prompt_length, 2048);
}

#[test]
fn status_codes() {
    assert_eq!(RequestError::ModelNotFound.status_code(), 404);
    assert_eq!(RequestError::PromptTooLong.status_code(), 400);
    assert_eq!(RequestError::ContextExceeded.status_code(), 400);
    assert_eq!(RequestError::InferenceFailed.status_code(), 500);
}

#[test]
fn token_budget_defaults_and_caps() {
    let cfg = config();
    assert_eq!(plan_max_tokens(40, &None, &cfg), Ok(128));
    let ask = Some(TokenOptions { max_tokens: Some(1000), top_k: None });
    assert_eq!(plan_max_tokens(40, &ask, &cfg), Ok(256));
    let small = Some(TokenOptions { max_tokens: Some(10), top_k: None });
    assert_eq!(plan_max_tokens(40, &small, &cfg), Ok(10));
}

#[test]
fn token_budget_shrinks_to_fit_context() {
    let cfg = config();
    // 1600 bytes is an estimated 400 prompt tokens; 512 - 400 = 112 are left.
    assert_eq!(plan_max_tokens(1600, &None, &cfg), Ok(112));
    // 2048 bytes: 512 tokens, nothing left.
    assert_eq!(plan_max_tokens(2048, &None, &cfg), Err(RequestError::ContextExceeded));
    assert!(budget_fits_check(2048, &None, &cfg));
}

#[test]
fn budget_overflow_is_detected() {
    let mut cfg = config();
    cfg.max_new_tokens_limit = i32::MAX;
    let ask = Some(TokenOptions { max_tokens: Some(i32::MAX), top_k: None });
    assert!(!budget_fits_check(40, &ask, &cfg));
    assert!(budget_fits_check(0, &ask, &cfg));
}

#[test]
fn admission_checks_model_then_length_then_budget() {
    let cfg = config();
    let long = "x".repeat(3000);
    assert!(admission_fits_check(false, &long, &None, &cfg));
    assert_eq!(plan_prompt(None, long.clone(), &None, &cfg), Err(RequestError::ModelNotFound));
    assert_eq!(
        plan_prompt(Some("/m.rkllm".to_string()), long, &None, &cfg),
        Err(RequestError::PromptTooLong)
    );
    let full = "y".repeat(2048);
    assert_eq!(
        plan_prompt(Some("/m.rkllm".to_string()), full, &None, &cfg),
        Err(RequestError::ContextExceeded)
    );
    let opts = Some(TokenOptions { max_tokens: Some(64), top_k: Some(7) });
    let plan = plan_prompt(Some("/m.rkllm".to_string()), "Hello there".to_string(), &opts, &cfg)
        .unwrap();
    assert_eq!(plan.model_path, "/m.rkllm");
    assert_eq!(plan.prompt, "Hello there");
    assert_eq!(plan.max_tokens, 64);
    assert_eq!(plan.top_k, 7);
    assert_eq!(plan.max_context_len, 512);
    let plain = plan_prompt(Some("/m.rkllm".to_string()), "Hi".to_string(), &None, &cfg).unwrap();
    assert_eq!(plain.top_k, 40);
}

#[test]
fn prompt_length_counts_bytes() {
    let mut cfg = config();
    cfg.max_prompt_length = 4;
    // Three characters, seven bytes.
    assert_eq!(
        plan_prompt(Some("/m".to_string()), "éé€".to_string(), &None, &cfg),
        Err(RequestError::PromptTooLong)
    );
    assert!(plan_prompt(Some("/m".to_string()), "éé".to_string(), &None, &cfg).is_ok());
}

#[test]
fn chat_prompt_joins_contents_with_blank_lines() {
    let messages = vec![
        msg("system", "You are a helpful assistant."),
        msg("user", "Hello"),
        msg("tool", "odd role"),
        msg("assistant", "Hi!"),
    ];
    assert_eq!(
        chat_prompt(&messages),
        "You are a helpful assistant.\n\nHello\n\nodd role\n\nHi!"
    );
    assert_eq!(chat_prompt(&vec![]), "");
    assert_eq!(chat_prompt(&vec![msg("user", "only")]), "only");
}

#[test]
fn plan_chat_uses_the_joined_prompt() {
    let cfg = config();
    let messages = vec![msg("user", "What is 2+2?"), msg("assistant", "4")];
    let plan = plan_chat(Some("/m.rkllm".to_string()), &messages, &None, &cfg).unwrap();
    assert_eq!(plan.prompt, "What is 2+2?\n\n4");
    assert_eq!(plan_chat(None, &messages, &None, &cfg), Err(RequestError::ModelNotFound));
}

#[test]
fn callbacks_collect_the_reply() {
    let mut reply = String::new();
    handle_callback(&mut reply, CallState::Normal, Some("Hello"));
    handle_callback(&mut reply, CallState::Waiting, Some("ignored"));
    handle_callback(&mut reply, CallState::Normal, None);
    handle_callback(&mut reply, CallState::Normal, Some(", world"));
    handle_callback(&mut reply, CallState::LastHiddenLayer, Some("ignored"));
    handle_callback(&mut reply, CallState::Finish, None);
    assert_eq!(reply, "Hello, world");
    handle_callback(&mut reply, CallState::Error, None);
    assert_eq!(reply, "Hello, worldError occurred during generation");
}

#[test]
fn chat_prompt_ignores_roles() {
    let a = vec![msg("system", "Be kind."), msg("user", "Hi")];
    let b = vec![msg("user", "Be kind."), msg("narrator", "Hi")];
    assert_eq!(chat_prompt(&a), chat_prompt(&b));
}

#[test]
fn reply_buffer_only_grows() {
    let steps = [
        (CallState::Normal, Some("The")),
        (CallState::Waiting, None),
        (CallState::Normal, Some(" answer")),
        (CallState::Error, None),
        (CallState::Finish, None),
    ];
    let mut reply = String::new();
    let mut before = reply.clone();
    for (state, text) in steps {
        handle_callback(&mut reply, state, text);
        assert!(reply.starts_with(&before));
        before = reply.clone();
    }
    assert_eq!(reply, "The answerError occurred during generation");
}

#[test]
fn chat_is_admitted_like_generate() {
    let cfg = config();
    let messages = vec![msg("system", "Be brief."), msg("user", "Hi")];
    let prompt = chat_prompt(&messages);
    let opts = Some(TokenOptions { max_tokens: Some(64), top_k: Some(5) });
    let chat = plan_chat(Some("/m.rkllm".to_string()), &messages, &opts, &cfg);
    let generate = plan_prompt(Some("/m.rkllm".to_string()), prompt.clone(), &opts, &cfg);
    assert_eq!(chat, generate);
    assert_eq!(plan_chat(None, &messages, &opts, &cfg), plan_prompt(None, prompt, &opts, &cfg));
}
