use llm_gateway::file_parser::{new_file_cache, store_upload};
use llm_gateway::handler::{
    begin_stream, error_frame, finish_stream, get_session, healthy, inference_reply, prepare_stream,
    remove_session, sse_frame, sync_session, template_messages, StreamMessage,
};
use llm_gateway::model::ModelName;
use llm_gateway::mistral_runner::{download_url, gguf_model, model_path, MODEL_DIR};
use llm_gateway::session::{new_session_manager, ChatMessage, MessageRole, SessionHelper};
use llm_gateway::types::SyncSessionRequest;

#[test]
fn prepare_consumes_uploads_before_prompt() {
    let mut sessions = new_session_manager();
    let mut files = new_file_cache();
    store_upload(&mut files, "notes.txt".into(), "txt".into(), "hello".into(), 5).unwrap();
    let p = prepare_stream(&mut sessions, &mut files, Some("s1".to_string()), "Summarise".to_string());
    assert_eq!(p.session_id, "s1");
    assert_eq!(p.messages.len(), 2);
    assert!(p.messages[0].content.contains("notes.txt"));
    assert_eq!(p.messages[1].content, "Summarise");
    assert_eq!(p.file_context.as_deref(), Some(p.messages[0].content.as_str()));
    assert_eq!(files.len(), 0);
    let stored = SessionHelper::get(&sessions, "s1").unwrap();
    assert_eq!(stored.messages.len(), 2);

    let again = prepare_stream(&mut sessions, &mut files, Some("s1".to_string()), "More".to_string());
    assert!(again.file_context.is_none());
    assert_eq!(again.messages.len(), 3);
}

#[test]
fn prepare_without_id_makes_one() {
    let mut sessions = new_session_manager();
    let mut files = new_file_cache();
    let p = prepare_stream(&mut sessions, &mut files, None, "Hi".to_string());
    assert!(!p.session_id.is_empty());
    assert!(sessions.contains_key(&p.session_id));
}

#[test]
fn finish_stores_reply_only_when_non_empty() {
    let mut sessions = new_session_manager();
    let mut files = new_file_cache();
    prepare_stream(&mut sessions, &mut files, Some("s".to_string()), "Q".to_string());
    finish_stream(&mut sessions, "s", String::new());
    assert_eq!(SessionHelper::get(&sessions, "s").unwrap().messages.len(), 1);
    finish_stream(&mut sessions, "s", "Answer".to_string());
    let s = SessionHelper::get(&sessions, "s").unwrap();
    assert_eq!(s.messages.len(), 2);
    assert_eq!(s.messages[1].role, MessageRole::Assistant);
    assert_eq!(s.messages[1].content, "Answer");
}

#[test]
fn frames_of_worker_messages() {
    let done = sse_frame(&StreamMessage::Done);
    assert!(done.event.is_none());
    assert_eq!(done.data, "[DONE]");

    let info = sse_frame(&StreamMessage::Session("abc".into()));
    assert_eq!(info.event.as_deref(), Some("session"));
    assert_eq!(info.data, "{\"session_id\":\"abc\",\"type\":\"session_info\"}");

    let token = sse_frame(&StreamMessage::Token("hi \"there\"\n\u{1}".into()));
    assert!(token.event.is_none());
    assert_eq!(token.data, "{\"content\":\"hi \\\"there\\\"\\n\\u0001\"}");
}

#[test]
fn control_words_as_tokens_stay_content() {
    let done_word = sse_frame(&StreamMessage::Token("[DONE]".into()));
    assert!(done_word.event.is_none());
    assert_eq!(done_word.data, "{\"content\":\"[DONE]\"}");
    let marker = sse_frame(&StreamMessage::Token("__SESSION__:x".into()));
    assert!(marker.event.is_none());
    assert_eq!(marker.data, "{\"content\":\"__SESSION__:x\"}");
}

#[test]
fn session_endpoints() {
    let mut sessions = new_session_manager();
    let missing = get_session(&sessions, "nope".to_string());
    assert!(!missing.exists);
    assert!(missing.messages.is_empty());
    assert_eq!(remove_session(&mut sessions, "nope".to_string()).unwrap_err().session_id, "nope");

    let req = SyncSessionRequest {
        session_id: "c".to_string(),
        messages: vec![
            ChatMessage { role: MessageRole::User, content: "Q".into() },
            ChatMessage { role: MessageRole::Assistant, content: "A".into() },
        ],
    };
    let r = sync_session(&mut sessions, req);
    assert!(r.synced);
    assert_eq!(r.message_count, 2);
    let got = get_session(&sessions, "c".to_string());
    assert!(got.exists);
    assert_eq!(got.messages.len(), 2);
    let removed = remove_session(&mut sessions, "c".to_string()).unwrap();
    assert!(removed.cleared);
    assert!(!get_session(&sessions, "c".to_string()).exists);
}

#[test]
fn health_and_plain_replies() {
    let h = healthy();
    assert!(h.is_healthy);
    assert_eq!(h.status, "OK");
    assert_eq!(inference_reply(None).text, "Inference failed");
    assert_eq!(inference_reply(Some("t".into())).text, "t");
}

#[test]
fn runner_model_table() {
    let (repo, file) = gguf_model("qwen").unwrap();
    assert_eq!(repo, "bartowski/Qwen2.5-3B-Instruct-GGUF");
    assert_eq!(model_path(MODEL_DIR, file), "models/Qwen2.5-3B-Instruct-Q4_K_M.gguf");
    assert_eq!(
        download_url(repo, file),
        "https://huggingface.co/bartowski/Qwen2.5-3B-Instruct-GGUF/resolve/main/Qwen2.5-3B-Instruct-Q4_K_M.gguf"
    );
    assert!(gguf_model("QWEN").is_none());
}

#[test]
fn unknown_model_touches_nothing() {
    let mut sessions = new_session_manager();
    let mut files = new_file_cache();
    store_upload(&mut files, "a.txt".into(), "txt".into(), "a".into(), 1).unwrap();
    for name in ["no-such-model", "qwen"] {
        let r = begin_stream(&mut sessions, &mut files, name, Some("s".into()), "Q".into());
        match r {
            Err(llm_gateway::error::AppError::InvalidRequest(msg)) => {
                assert_eq!(msg, format!("Unknown model: {}", name))
            }
            _ => panic!("expected a refusal"),
        }
        assert!(sessions.is_empty());
        assert_eq!(files.len(), 1);
    }

    let (model, ok) =
        begin_stream(&mut sessions, &mut files, "Llama-3.2-1B-Instruct", Some("s".into()), "Q".into())
            .unwrap();
    assert_eq!(model, ModelName::Llama32_1B);
    assert_eq!(ok.session_id, "s");
    assert_eq!(ok.messages.len(), 2);
    assert_eq!(files.len(), 0);
}

#[test]
fn error_frame_is_named() {
    let f = error_frame("bad \"x\"");
    assert_eq!(f.event.as_deref(), Some("error"));
    assert_eq!(f.data, "{\"error\":\"bad \\\"x\\\"\"}");
}

#[test]
fn history_for_the_template() {
    let msgs = vec![
        ChatMessage { role: MessageRole::System, content: "S".into() },
        ChatMessage { role: MessageRole::User, content: "Q".into() },
        ChatMessage { role: MessageRole::Assistant, content: "A".into() },
    ];
    let t = template_messages(&msgs);
    let roles: Vec<&str> = t.iter().map(|m| m.role.as_str()).collect();
    assert_eq!(roles, vec!["system", "user", "assistant"]);
    assert_eq!(t[2].content, "A");
}
