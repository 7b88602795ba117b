use platinenmachergpt::catalog::{
    model_digest, model_info_at, not_found_message, now_rfc3339, rkllm_details,
    running_model_info_at, running_models_response, running_models_response_at, server_version,
    show_for_lookup, show_response, show_response_at, tags_response, tags_response_at, ModelEntry,
};
use platinenmachergpt::clean::{clean_response_content, finish_reply, response_cleaner, strip_reasoning};
use platinenmachergpt::clock::{read_clock, rfc3339_after, unix_time_secs, ClockReading};
use platinenmachergpt::ids::{completion_id_from, completion_id_from_random_bytes, new_completion_id};
use platinenmachergpt::replies::{
    chat_content, chat_request_from_openai, chat_response, chat_response_at, generate_response,
    openai_response, openai_response_at, InferenceOutcome, OpenAIMessage,
};
use platinenmachergpt::requests::{chat_prompt, RequestError, TokenOptions};
use platinenmachergpt::text::{join_strings, trim_str};

fn outcome(text: &str) -> InferenceOutcome {
    InferenceOutcome {
        text: text.to_string(),
        load_duration: 1_000,
        prompt_eval_duration: 2_000,
        total_duration: 10_000,
    }
}

const FALLBACK: &str = "I understand your request. How can I help you?";

#[test]
fn version_is_fixed() {
    assert_eq!(server_version(), "0.9.6");
}

#[test]
fn trim_removes_unicode_white_space() {
    assert_eq!(trim_str("\u{a0} hi there \u{2003}\n"), "hi there");
    assert_eq!(trim_str(" \t\n"), "");
    assert_eq!(trim_str("x"), "x");
    for s in ["  a b  ", "\u{85}z\u{205f}", "\u{200b}zero-width\u{200b}"] {
        assert_eq!(trim_str(s), s.trim());
    }
}

#[test]
fn join_strings_puts_separator_between() {
    let parts = vec!["a".to_string(), "".to_string(), "c".to_string()];
    assert_eq!(join_strings(&parts, ", "), "a, , c");
    assert_eq!(join_strings(&vec![], ", "), "");
}

#[test]
fn digest_is_the_hex_byte_sum() {
    // l + l + a + m + a + 3 = 108 + 108 + 97 + 109 + 97 + 51 = 570 = 0x23a
    let expected = format!("sha256:{}23a", "0".repeat(61));
    assert_eq!(model_digest("llama3"), expected);
    assert_eq!(model_digest(""), format!("sha256:{}", "0".repeat(64)));
    let d = model_digest("deepseek-r1");
    assert_eq!(d.len(), 71);
    assert!(d[7..].chars().all(|c| c.is_ascii_hexdigit() && !c.is_ascii_uppercase()));
    // Permuting the name keeps the byte sum and so the digest.
    assert_eq!(model_digest("ab"), model_digest("ba"));
}

#[test]
fn details_describe_rkllm_models() {
    let d = rkllm_details();
    assert_eq!(d.parent_model, "");
    assert_eq!(d.format, "rkllm");
    assert_eq!(d.family, "rkllm");
    assert_eq!(d.families, Some(vec!["rkllm".to_string()]));
    assert_eq!(d.parameter_size, "unknown");
    assert_eq!(d.quantization_level, "unknown");
}

#[test]
fn model_info_fields() {
    let info = model_info_at("gemma", 1234, "2025-01-01T00:00:00+00:00".to_string());
    assert_eq!(info.name, "gemma");
    assert_eq!(info.model, "gemma");
    assert_eq!(info.size, 1234);
    assert_eq!(info.modified_at, "2025-01-01T00:00:00+00:00");
    assert_eq!(info.digest, model_digest("gemma"));
}

#[test]
fn tags_use_zero_for_unknown_sizes() {
    let entries = vec![
        ModelEntry { name: "a".to_string(), size: Some(10) },
        ModelEntry { name: "b".to_string(), size: None },
    ];
    let tags = tags_response(&entries).unwrap();
    assert_eq!(tags.models.len(), 2);
    assert_eq!(tags.models[0].name, "a");
    assert_eq!(tags.models[0].size, 10);
    assert_eq!(tags.models[1].name, "b");
    assert_eq!(tags.models[1].size, 0);
    assert!(tags.models[0].modified_at.ends_with("+00:00"));
    assert_eq!(tags.models[0].modified_at, tags.models[1].modified_at);
}

#[test]
fn tags_are_stamped_with_the_reading() {
    let entries = vec![ModelEntry { name: "a".to_string(), size: Some(3) }];
    let epoch = ClockReading { secs: 0, nanos: 0 };
    let tags = tags_response_at(&entries, epoch).unwrap();
    assert_eq!(tags.models[0].modified_at, "1970-01-01T00:00:00+00:00");
    let far = ClockReading { secs: u64::MAX, nanos: 0 };
    assert_eq!(tags_response_at(&entries, far), None);
    assert_eq!(tags_response_at(&vec![], far).unwrap().models.len(), 0);
    assert_eq!(tags_response(&vec![]).unwrap().models.len(), 0);
}

#[test]
fn running_models_expire_five_minutes_after_the_reading() {
    let entries = vec![
        ModelEntry { name: "a".to_string(), size: Some(1) },
        ModelEntry { name: "b".to_string(), size: Some(2) },
    ];
    let now = ClockReading { secs: 1_700_000_000, nanos: 0 };
    let r = running_models_response_at(&entries, now).unwrap();
    assert_eq!(r.models.len(), 2);
    assert_eq!(r.models[0].expires_at, "2023-11-14T22:18:20+00:00");
    assert_eq!(r.models[1].expires_at, "2023-11-14T22:18:20+00:00");
    let half = ClockReading { secs: 1_700_000_000, nanos: 500_000_000 };
    let r = running_models_response_at(&entries, half).unwrap();
    assert_eq!(r.models[0].expires_at, "2023-11-14T22:18:20.500+00:00");
    let far = ClockReading { secs: u64::MAX, nanos: 0 };
    assert_eq!(running_models_response_at(&entries, far), None);
    let unsized_only = vec![ModelEntry { name: "c".to_string(), size: None }];
    assert_eq!(running_models_response_at(&unsized_only, far).unwrap().models.len(), 0);
}

#[test]
fn running_models_are_among_the_listed_ones() {
    let entries = vec![
        ModelEntry { name: "a".to_string(), size: Some(5) },
        ModelEntry { name: "b".to_string(), size: None },
        ModelEntry { name: "c".to_string(), size: Some(9) },
    ];
    let now = ClockReading { secs: 86_400, nanos: 0 };
    let tags = tags_response_at(&entries, now).unwrap();
    let running = running_models_response_at(&entries, now).unwrap();
    for m in &running.models {
        let t = tags.models.iter().find(|t| t.name == m.name).unwrap();
        assert_eq!(t.size, m.size);
        assert_eq!(t.digest, m.digest);
    }
    assert_eq!(running.models.len(), 2);
}

#[test]
fn running_models_are_the_measured_ones() {
    let entries = vec![
        ModelEntry { name: "a".to_string(), size: None },
        ModelEntry { name: "b".to_string(), size: Some(42) },
    ];
    let running = running_models_response(&entries).unwrap();
    assert_eq!(running.models.len(), 1);
    assert_eq!(running.models[0].name, "b");
    assert_eq!(running.models[0].model, "b");
    assert_eq!(running.models[0].size, 42);
    assert_eq!(running.models[0].size_vram, 42);
    assert!(running.models[0].expires_at.ends_with("+00:00"));
    let one = running_model_info_at("c", 7, "later".to_string());
    assert_eq!(one.expires_at, "later");
    assert_eq!(one.digest, model_digest("c"));
}

#[test]
fn show_response_fields() {
    let r = show_response_at("llama3", 99, "t".to_string());
    assert_eq!(r.modelfile, "FROM llama3\nPARAMETER temperature 0.8\nPARAMETER top_p 0.9");
    assert_eq!(r.parameters, "temperature 0.8\ntop_p 0.9\ntop_k 40\nrepeat_penalty 1.1");
    assert_eq!(
        r.template,
        "{{ if .System }}System: {{ .System }}\n\n{{ end }}{{ if .Prompt }}User: {{ .Prompt }}\n\nAssistant: {{ end }}"
    );
    assert_eq!(r.model_info.size, 99);
    assert_eq!(r.model_info.name, "llama3");
    assert_eq!(r.capabilities, vec!["completion".to_string(), "chat".to_string()]);
    assert!(show_response("x", 0).unwrap().model_info.modified_at.len() >= 25);
}

#[test]
fn not_found_message_names_the_endpoint() {
    assert_eq!(not_found_message("/api/invalid"), "Endpoint '/api/invalid' not found");
}

#[test]
fn clock_readings_have_the_promised_shape() {
    let now = now_rfc3339().unwrap();
    assert!(now.len() >= 25 && now.ends_with("+00:00"));
    assert!(unix_time_secs().unwrap() > 1_600_000_000);
    assert!(read_clock().unwrap().nanos < 1_000_000_000);
}

#[test]
fn readings_render_as_rfc3339() {
    let epoch = ClockReading { secs: 0, nanos: 0 };
    assert_eq!(rfc3339_after(epoch, 0).unwrap(), "1970-01-01T00:00:00+00:00");
    assert_eq!(rfc3339_after(epoch, 300).unwrap(), "1970-01-01T00:05:00+00:00");
    assert_eq!(rfc3339_after(epoch, -1).unwrap(), "1969-12-31T23:59:59+00:00");
    let odd = ClockReading { secs: 0, nanos: 123_456_789 };
    assert_eq!(rfc3339_after(odd, 0).unwrap(), "1970-01-01T00:00:00.123456789+00:00");
    assert_eq!(rfc3339_after(ClockReading { secs: u64::MAX, nanos: 0 }, 0), None);
}

#[test]
fn completion_ids() {
    assert_eq!(
        completion_id_from("123e4567-e89b-12d3-a456-426614174000"),
        "chatcmpl-123e4567e89b12d3a456426614174000"
    );
    let id = new_completion_id().unwrap();
    assert_eq!(id.len(), 41);
    assert!(id.starts_with("chatcmpl-"));
    assert!(id[9..].chars().all(|c| c.is_ascii_hexdigit() && !c.is_ascii_uppercase()));
    assert_eq!(&id[21..22], "4");
    assert_ne!(new_completion_id().unwrap(), id);
    assert_eq!(
        completion_id_from_random_bytes([0u8; 16]),
        "chatcmpl-00000000000040008000000000000000"
    );
    assert_eq!(
        completion_id_from_random_bytes([0xffu8; 16]),
        "chatcmpl-ffffffffffff4fffbfffffffffffffff"
    );
}

#[test]
fn reasoning_sections_are_removed() {
    let cleaner = response_cleaner().unwrap();
    assert_eq!(
        strip_reasoning(&cleaner, "<think>plan\nmore</think>Answer: Paris"),
        "Answer: Paris"
    );
    assert_eq!(
        strip_reasoning(&cleaner, "Start <THINK >a</think > end <think>unfinished"),
        "Start  end "
    );
    assert_eq!(strip_reasoning(&cleaner, "a\n\n\n\nb"), "a\n\nb");
    assert_eq!(strip_reasoning(&cleaner, "a\n \n\t\nb"), "a\n\nb");
}

#[test]
fn cleaned_reply_examples() {
    assert_eq!(
        clean_response_content("<think>hmm</think>\n  The capital of France is Paris.  ").unwrap(),
        "The capital of France is Paris."
    );
    assert_eq!(clean_response_content("<think>only thoughts").unwrap(), FALLBACK);
    assert_eq!(clean_response_content("Short").unwrap(), FALLBACK);
    assert_eq!(clean_response_content("").unwrap(), FALLBACK);
}

#[test]
fn finish_reply_counts_bytes() {
    assert_eq!(finish_reply("  123456789  "), FALLBACK);
    assert_eq!(finish_reply(" 1234567890 "), "1234567890");
    // Five characters, ten bytes.
    assert_eq!(finish_reply("ééééé"), "ééééé");
}

#[test]
fn generate_response_fields() {
    let r = generate_response("llama3", "Hello, how are you?", &outcome(" Fine, thanks. "));
    assert_eq!(r.model, "llama3");
    assert_eq!(r.response, " Fine, thanks. ");
    assert!(r.done);
    assert_eq!(r.done_reason, Some("stop".to_string()));
    assert_eq!(r.stats.total_duration, Some(10_000));
    assert_eq!(r.stats.load_duration, Some(1_000));
    assert_eq!(r.stats.prompt_eval_duration, Some(2_000));
    assert_eq!(r.stats.eval_duration, Some(7_000));
    assert_eq!(r.stats.prompt_eval_count, Some(4));
    assert_eq!(r.stats.eval_count, Some(3));
}

#[test]
fn chat_content_trims_or_apologizes() {
    assert_eq!(chat_content("  Hello!\n"), "Hello!");
    assert_eq!(
        chat_content(" \n "),
        "I apologize, but I couldn't generate a response. Please try again."
    );
}

#[test]
fn chat_response_fields() {
    let r = chat_response_at("m", "What is 2+2?", &outcome("  4  "), "then".to_string());
    assert_eq!(r.model, "m");
    assert_eq!(r.created_at, "then");
    assert_eq!(r.message.role, "assistant");
    assert_eq!(r.message.content, "4");
    assert!(r.done);
    assert_eq!(r.done_reason, Some("stop".to_string()));
    assert_eq!(r.stats.prompt_eval_count, Some(3));
    assert_eq!(r.stats.eval_count, Some(1));
    let now = chat_response("m", "q", &outcome("a")).unwrap();
    assert!(now.created_at.ends_with("+00:00"));
}

#[test]
fn openai_request_conversion() {
    let messages = vec![
        OpenAIMessage { role: "system".to_string(), content: "Be brief.".to_string() },
        OpenAIMessage { role: "user".to_string(), content: "Hi".to_string() },
    ];
    let r = chat_request_from_openai("gpt", &messages, Some(false), Some(50));
    assert_eq!(r.model, "gpt");
    assert_eq!(r.messages.len(), 2);
    assert_eq!(r.messages[1].role, "user");
    assert_eq!(r.messages[1].content, "Hi");
    assert_eq!(r.stream, Some(false));
    assert_eq!(r.options, Some(TokenOptions { max_tokens: Some(50), top_k: None }));
}

#[test]
fn openai_response_fields() {
    let chat = chat_response_at(
        "m",
        "a prompt of twenty b",
        &outcome("<think>x</think>The answer is forty-two."),
        "t".to_string(),
    );
    let r = openai_response_at("m", &chat, "clean".to_string(), "chatcmpl-1".to_string(), 77);
    assert_eq!(r.id, "chatcmpl-1");
    assert_eq!(r.object, "chat.completion");
    assert_eq!(r.created, 77);
    assert_eq!(r.model, "m");
    assert_eq!(r.choices.len(), 1);
    assert_eq!(r.choices[0].index, 0);
    assert_eq!(r.choices[0].message.role, "assistant");
    assert_eq!(r.choices[0].message.content, "clean");
    assert_eq!(r.choices[0].finish_reason, "stop");
    assert_eq!(r.usage.prompt_tokens, 5);
    assert_eq!(r.usage.completion_tokens, 10);
    assert_eq!(r.usage.total_tokens, 15);

    let full = openai_response("m", &chat).unwrap();
    assert_eq!(full.choices[0].message.content, "The answer is forty-two.");
    assert!(full.id.starts_with("chatcmpl-"));
    assert_eq!(full.id.len(), 41);
    assert!(full.created > 1_600_000_000);
}

#[test]
fn trimming_twice_is_trimming_once() {
    for s in ["  a  ", "\u{2028}\u{2029}", "b\u{a0}", ""] {
        let once = trim_str(s);
        assert_eq!(trim_str(&once), once);
    }
}

#[test]
fn running_models_without_measured_files_is_empty() {
    let entries = vec![ModelEntry { name: "a".to_string(), size: None }];
    assert_eq!(running_models_response(&entries).unwrap().models.len(), 0);
    assert_eq!(running_models_response(&vec![]).unwrap().models.len(), 0);
}

#[test]
fn chat_answers_like_generate() {
    let o = outcome("  Paris.  ");
    let g = generate_response("m", "Capital of France?", &o);
    let c = chat_response_at("m", "Capital of France?", &o, "t".to_string());
    assert_eq!(c.model, g.model);
    assert_eq!(c.stats, g.stats);
    assert_eq!(c.message.content, chat_content(&g.response));
    assert_eq!(c.done_reason, g.done_reason);
}

#[test]
fn openai_request_gives_the_chat_prompt() {
    let messages = vec![
        OpenAIMessage { role: "system".to_string(), content: "Be brief.".to_string() },
        OpenAIMessage { role: "user".to_string(), content: "Hi".to_string() },
    ];
    let r = chat_request_from_openai("gpt", &messages, None, None);
    assert_eq!(chat_prompt(&r.messages), "Be brief.\n\nHi");
    assert_eq!(r.options, Some(TokenOptions { max_tokens: None, top_k: None }));
}

#[test]
fn show_refuses_missing_models() {
    assert_eq!(show_for_lookup("x", false, Some(3)), Err(RequestError::ModelNotFound));
    let shown = show_for_lookup("x", true, None).unwrap().unwrap();
    assert_eq!(shown.model_info.size, 0);
    assert_eq!(shown.model_info.name, "x");
    let sized = show_for_lookup("y", true, Some(12)).unwrap().unwrap();
    assert_eq!(sized.model_info.size, 12);
}

#[test]
fn running_models_fill_the_list_when_measured() {
    let entries = vec![ModelEntry { name: "m".to_string(), size: Some(4) }];
    let r = running_models_response(&entries).unwrap();
    assert_eq!(r.models.len(), 1);
}
