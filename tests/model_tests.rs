use llm_gateway::model::{
    format_llama3_chat, no_model_chunk, ChatMessage, ModelManager, ModelName, StreamProgress,
};
use llm_gateway::error::AppError;

#[test]
fn test_model_name_from_str() {
    assert_eq!(ModelName::from_str("llama-3.2-1b-instruct"), Some(ModelName::Llama32_1B));
    assert_eq!(ModelName::from_str("llama3.2-1b"), Some(ModelName::Llama32_1B));
    assert_eq!(ModelName::from_str("invalid"), None);
}

#[test]
fn test_llama3_chat_format() {
    let messages = vec![ChatMessage { role: "user".into(), content: "Hi!".into() }];
    let prompt = format_llama3_chat(&messages);
    assert!(prompt.starts_with("<|begin_of_text|>"));
    assert!(prompt.contains("You are a helpful assistant."));
    assert!(prompt.contains("Hi!"));
}

#[test]
fn model_name_mixed_case_alias() {
    assert_eq!(ModelName::from_str("LLaMA32_1B"), ModelName::from_str("llama-3.2-1b-instruct"));
    assert_eq!(ModelName::from_str("Llama3.2-3B"), Some(ModelName::Llama32_3B));
    assert_eq!(ModelName::from_str("LLAMA-3.2-3B-INSTRUCT"), Some(ModelName::Llama32_3B));
    assert_eq!(ModelName::from_str("gpt-4"), None);
    assert_eq!(ModelName::from_str(""), None);
}

#[test]
fn model_name_from_lowercase_is_exact() {
    assert_eq!(ModelName::from_lowercase("llama32-3b"), Some(ModelName::Llama32_3B));
    assert_eq!(ModelName::from_lowercase("LLAMA32-3B"), None);
}

#[test]
fn model_facts() {
    assert_eq!(ModelName::available_models(), vec!["llama-3.2-1b-instruct", "llama-3.2-3b-instruct"]);
    assert_eq!(ModelName::Llama32_1B.max_seq_len(), 4096);
    assert_eq!(ModelName::Llama32_3B.display_name(), "Llama-3.2-3B-Instruct");
    assert_eq!(ModelName::default(), ModelName::Llama32_1B);
    assert_eq!(ModelName::Llama32_3B.description(), "Llama 3.2 3B Instruct - 平衡性能与资源 (~8GB)");
}

#[test]
fn chat_format_exact_text() {
    let messages = vec![
        ChatMessage { role: "system".into(), content: "Be brief.".into() },
        ChatMessage { role: "user".into(), content: "Hi".into() },
        ChatMessage { role: "assistant".into(), content: "Hello".into() },
        ChatMessage { role: "tool".into(), content: "x".into() },
    ];
    let prompt = format_llama3_chat(&messages);
    let expected = "<|begin_of_text|>\
<|start_header_id|>system<|end_header_id|>\n\nBe brief.<|eot_id|>\
<|start_header_id|>user<|end_header_id|>\n\nHi<|eot_id|>\
<|start_header_id|>assistant<|end_header_id|>\n\nHello<|eot_id|>\
<|start_header_id|>user<|end_header_id|>\n\nx<|eot_id|>\
<|start_header_id|>assistant<|end_header_id|>\n\n";
    assert_eq!(prompt, expected);
}

#[test]
fn chat_format_empty_gets_default_system() {
    let prompt = format_llama3_chat(&[]);
    assert_eq!(
        prompt,
        "<|begin_of_text|><|start_header_id|>system<|end_header_id|>\n\nYou are a helpful assistant.<|eot_id|><|start_header_id|>assistant<|end_header_id|>\n\n"
    );
}

#[test]
fn switch_to_same_model_is_noop() {
    let mut m = ModelManager::new(7u32);
    assert!(!m.begin_switch(ModelName::Llama32_1B));
    assert_eq!(m.loaded_model(), Some(&7));
    assert_eq!(m.current_model(), ModelName::Llama32_1B);
}

#[test]
fn switch_releases_then_loads() {
    let mut m = ModelManager::new(1u32);
    assert!(m.begin_switch(ModelName::Llama32_3B));
    assert!(!m.is_loaded());
    assert_eq!(m.current_model(), ModelName::Llama32_1B);
    assert!(m.finish_switch(ModelName::Llama32_3B, Ok(3)).is_ok());
    assert_eq!(m.current_model(), ModelName::Llama32_3B);
    assert_eq!(m.loaded_model(), Some(&3));
    let listed = m.list_models();
    assert!(!listed[0].loaded);
    assert!(listed[1].loaded);
    assert_eq!(listed[1].name, "llama-3.2-3b-instruct");
}

#[test]
fn failed_load_leaves_nothing_loaded() {
    let mut m = ModelManager::new(1u32);
    assert!(m.begin_switch(ModelName::Llama32_3B));
    let r = m.finish_switch(ModelName::Llama32_3B, Err("no weights".to_string()));
    match r {
        Err(AppError::ModelNotLoaded(msg)) => assert_eq!(msg, "no weights"),
        other => panic!("unexpected {:?}", other),
    }
    assert!(!m.is_loaded());
    assert_eq!(m.current_model(), ModelName::Llama32_1B);
    assert!(m.list_models().iter().all(|i| !i.loaded));
}

#[test]
fn ensure_model_resolves_and_rejects() {
    let mut m = ModelManager::new(0u8);
    assert_eq!(m.ensure_model("LLAMA32-1B").unwrap(), None);
    assert!(m.is_loaded());
    match m.ensure_model("mystery") {
        Err(AppError::InvalidRequest(msg)) => assert_eq!(msg, "Unknown model: mystery"),
        other => panic!("unexpected {:?}", other),
    }
    assert!(m.is_loaded());
    assert_eq!(m.ensure_model("llama32_3b").unwrap(), Some(ModelName::Llama32_3B));
    assert!(!m.is_loaded());
}

#[test]
fn stream_progress_length_limit() {
    let mut p = StreamProgress::new(2);
    let c1 = p.on_token("Hel".to_string());
    assert_eq!(c1.generated_text, "Hel");
    assert!(!c1.is_finished);
    assert!(c1.finish_reason.is_none());
    assert!(p.wants_more());
    let c2 = p.on_token("lo".to_string());
    assert_eq!(c2.token_text, "lo");
    assert_eq!(c2.generated_text, "Hello");
    assert!(c2.is_finished);
    assert_eq!(c2.finish_reason.as_deref(), Some("length"));
    assert!(!p.wants_more());
    assert!(p.closing_chunk().is_none());
}

#[test]
fn one_token_budget_gives_one_finished_chunk() {
    let mut p = StreamProgress::new(1);
    let c = p.on_token("x".to_string());
    assert!(c.is_finished);
    assert!(!p.wants_more());
    assert!(p.closing_chunk().is_none());
}

#[test]
fn zero_token_budget_closes_once() {
    let mut p = StreamProgress::new(0);
    assert!(!p.wants_more());
    let last = p.closing_chunk().unwrap();
    assert!(last.is_finished);
    assert_eq!(last.generated_text, "");
    assert_eq!(last.finish_reason.as_deref(), Some("length"));
    assert!(p.closing_chunk().is_none());
}

#[test]
fn stream_progress_stop() {
    let mut p = StreamProgress::new(5);
    p.on_token("a".to_string());
    let stop = p.on_stop();
    assert!(stop.is_finished);
    assert_eq!(stop.generated_text, "a");
    assert_eq!(stop.finish_reason.as_deref(), Some("stop"));
    assert!(!p.wants_more());
    assert!(p.closing_chunk().is_none());
}

#[test]
fn no_model_chunk_reports_error() {
    let c = no_model_chunk();
    assert!(c.is_finished);
    assert_eq!(c.token_text, "Error: No model loaded");
    assert_eq!(c.finish_reason.as_deref(), Some("error"));
}

#[test]
fn error_status_codes() {
    assert_eq!(AppError::ModelNotLoaded(String::new()).status_code(), 503);
    assert_eq!(AppError::InvalidRequest(String::new()).status_code(), 400);
    assert_eq!(AppError::GenerationFailed(String::new()).status_code(), 500);
    assert_eq!(AppError::TokenizationError(String::new()).status_code(), 400);
    assert_eq!(AppError::NotFound("x".to_string()).status_code(), 400);
    assert_eq!(AppError::NotFound("x".to_string()).message(), "x");
}
