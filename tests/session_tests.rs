use llm_gateway::session::{
    new_session_manager, ChatMessage, MessageRole, Session, SessionConfig, SessionHelper,
};

fn msg(role: MessageRole, content: &str) -> ChatMessage {
    ChatMessage { role, content: content.to_string() }
}

#[test]
fn test_session_config_default() {
    let config = SessionConfig::default();
    assert_eq!(config.max_turns, 10);
    assert!(config.system_prompt.is_none());
}

#[test]
fn test_session_config_custom() {
    let config = SessionConfig {
        max_turns: 5,
        system_prompt: Some("You are a helpful assistant.".to_string()),
    };
    assert_eq!(config.max_turns, 5);
    assert_eq!(config.system_prompt, Some("You are a helpful assistant.".to_string()));
}

#[test]
fn test_session_new_without_system_prompt() {
    let config = SessionConfig { max_turns: 10, system_prompt: None };
    let session = Session::new("test-id".to_string(), config);

    assert_eq!(session.id, "test-id");
    assert!(session.messages.is_empty());
}

#[test]
fn test_session_new_with_system_prompt() {
    let config = SessionConfig { max_turns: 10, system_prompt: Some("System prompt".to_string()) };
    let session = Session::new("test-id".to_string(), config);

    assert_eq!(session.id, "test-id");
    assert_eq!(session.messages.len(), 1);
    assert_eq!(session.messages[0].role, MessageRole::System);
    assert_eq!(session.messages[0].content, "System prompt");
}

#[test]
fn test_add_user_message() {
    let config = SessionConfig::default();
    let mut session = Session::new("test".to_string(), config);

    session.add_user_message("Hello".to_string());

    assert_eq!(session.messages.len(), 1);
    assert_eq!(session.messages[0].role, MessageRole::User);
    assert_eq!(session.messages[0].content, "Hello");
}

#[test]
fn test_add_assistant_message() {
    let config = SessionConfig::default();
    let mut session = Session::new("test".to_string(), config);

    session.add_assistant_message("Hi there!".to_string());

    assert_eq!(session.messages.len(), 1);
    assert_eq!(session.messages[0].role, MessageRole::Assistant);
    assert_eq!(session.messages[0].content, "Hi there!");
}

#[test]
fn test_add_multiple_messages() {
    let config = SessionConfig::default();
    let mut session = Session::new("test".to_string(), config);

    session.add_user_message("Question 1".to_string());
    session.add_assistant_message("Answer 1".to_string());
    session.add_user_message("Question 2".to_string());
    session.add_assistant_message("Answer 2".to_string());

    assert_eq!(session.messages.len(), 4);
    assert_eq!(session.messages[0].role, MessageRole::User);
    assert_eq!(session.messages[1].role, MessageRole::Assistant);
    assert_eq!(session.messages[2].role, MessageRole::User);
    assert_eq!(session.messages[3].role, MessageRole::Assistant);
}

#[test]
fn test_add_messages_with_system_prompt() {
    let config = SessionConfig { max_turns: 10, system_prompt: Some("System".to_string()) };
    let mut session = Session::new("test".to_string(), config);

    session.add_user_message("Hello".to_string());
    session.add_assistant_message("Hi".to_string());

    assert_eq!(session.messages.len(), 3);
    assert_eq!(session.messages[0].role, MessageRole::System);
    assert_eq!(session.messages[1].role, MessageRole::User);
    assert_eq!(session.messages[2].role, MessageRole::Assistant);
}

#[test]
fn test_trim_history_under_limit() {
    let config = SessionConfig { max_turns: 3, system_prompt: None };
    let mut session = Session::new("test".to_string(), config);

    session.add_user_message("Q1".to_string());
    session.add_assistant_message("A1".to_string());
    session.add_user_message("Q2".to_string());
    session.add_assistant_message("A2".to_string());

    assert_eq!(session.messages.len(), 4);
}

#[test]
fn test_trim_history_at_limit() {
    let config = SessionConfig { max_turns: 2, system_prompt: None };
    let mut session = Session::new("test".to_string(), config);

    session.add_user_message("Q1".to_string());
    session.add_assistant_message("A1".to_string());
    session.add_user_message("Q2".to_string());
    session.add_assistant_message("A2".to_string());

    assert_eq!(session.messages.len(), 4);
}

#[test]
fn test_trim_history_over_limit() {
    let config = SessionConfig { max_turns: 2, system_prompt: None };
    let mut session = Session::new("test".to_string(), config);

    session.add_user_message("Q1".to_string());
    session.add_assistant_message("A1".to_string());
    session.add_user_message("Q2".to_string());
    session.add_assistant_message("A2".to_string());
    session.add_user_message("Q3".to_string());
    session.add_assistant_message("A3".to_string());

    assert_eq!(session.messages.len(), 4);
    assert_eq!(session.messages[0].content, "Q2");
    assert_eq!(session.messages[1].content, "A2");
    assert_eq!(session.messages[2].content, "Q3");
    assert_eq!(session.messages[3].content, "A3");
}

#[test]
fn test_trim_history_preserves_system_prompt() {
    let config = SessionConfig { max_turns: 2, system_prompt: Some("System".to_string()) };
    let mut session = Session::new("test".to_string(), config);

    session.add_user_message("Q1".to_string());
    session.add_assistant_message("A1".to_string());
    session.add_user_message("Q2".to_string());
    session.add_assistant_message("A2".to_string());
    session.add_user_message("Q3".to_string());
    session.add_assistant_message("A3".to_string());

    assert_eq!(session.messages.len(), 5);
    assert_eq!(session.messages[0].role, MessageRole::System);
    assert_eq!(session.messages[0].content, "System");
    assert_eq!(session.messages[1].content, "Q2");
    assert_eq!(session.messages[4].content, "A3");
}

#[test]
fn test_trim_history_single_turn() {
    let config = SessionConfig { max_turns: 1, system_prompt: None };
    let mut session = Session::new("test".to_string(), config);

    session.add_user_message("Q1".to_string());
    session.add_assistant_message("A1".to_string());
    session.add_user_message("Q2".to_string());
    session.add_assistant_message("A2".to_string());
    session.add_user_message("Q3".to_string());
    session.add_assistant_message("A3".to_string());

    assert_eq!(session.messages.len(), 2);
    assert_eq!(session.messages[0].content, "Q3");
    assert_eq!(session.messages[1].content, "A3");
}

#[test]
fn test_clear_without_system_prompt() {
    let config = SessionConfig::default();
    let mut session = Session::new("test".to_string(), config);

    session.add_user_message("Q1".to_string());
    session.add_assistant_message("A1".to_string());
    session.clear();

    assert!(session.messages.is_empty());
}

#[test]
fn test_clear_with_system_prompt() {
    let config = SessionConfig { max_turns: 10, system_prompt: Some("System prompt".to_string()) };
    let mut session = Session::new("test".to_string(), config);

    session.add_user_message("Q1".to_string());
    session.add_assistant_message("A1".to_string());
    session.clear();

    assert_eq!(session.messages.len(), 1);
    assert_eq!(session.messages[0].role, MessageRole::System);
    assert_eq!(session.messages[0].content, "System prompt");
}

#[test]
fn test_get_messages() {
    let config = SessionConfig::default();
    let mut session = Session::new("test".to_string(), config);

    session.add_user_message("Hello".to_string());
    session.add_assistant_message("Hi".to_string());

    let messages = session.get_messages();
    assert_eq!(messages.len(), 2);
    assert_eq!(messages[0].content, "Hello");
    assert_eq!(messages[1].content, "Hi");
}

#[test]
fn test_new_session_manager() {
    let manager = new_session_manager();
    assert!(manager.is_empty());
}

#[test]
fn test_helper_get_or_create_new_session() {
    let mut manager = new_session_manager();
    let config = SessionConfig::default();

    let session = SessionHelper::get_or_create(&mut manager, "session-1", config);

    assert_eq!(session.id, "session-1");
    assert!(session.messages.is_empty());
}

#[test]
fn test_helper_get_or_create_existing_session() {
    let mut manager = new_session_manager();
    let config = SessionConfig::default();

    let mut session = SessionHelper::get_or_create(&mut manager, "session-1", config.clone());
    session.add_user_message("Hello".to_string());
    SessionHelper::update(&mut manager, session);

    let session = SessionHelper::get_or_create(&mut manager, "session-1", config);

    assert_eq!(session.id, "session-1");
    assert_eq!(session.messages.len(), 1);
    assert_eq!(session.messages[0].content, "Hello");
}

#[test]
fn test_helper_update() {
    let mut manager = new_session_manager();
    let config = SessionConfig::default();

    let mut session = Session::new("session-1".to_string(), config);
    session.add_user_message("Test".to_string());

    SessionHelper::update(&mut manager, session);

    assert!(manager.contains_key("session-1"));
    assert_eq!(manager.get("session-1").unwrap().messages.len(), 1);
}

#[test]
fn test_helper_remove() {
    let mut manager = new_session_manager();
    let config = SessionConfig::default();

    let session = SessionHelper::get_or_create(&mut manager, "session-1", config);
    SessionHelper::update(&mut manager, session);

    SessionHelper::remove(&mut manager, "session-1");

    assert!(!manager.contains_key("session-1"));
}

#[test]
fn test_helper_remove_nonexistent() {
    let mut manager = new_session_manager();

    SessionHelper::remove(&mut manager, "nonexistent");

    assert!(manager.is_empty());
}

#[test]
fn test_multiple_sessions() {
    let mut manager = new_session_manager();
    let config = SessionConfig::default();

    let mut session1 = SessionHelper::get_or_create(&mut manager, "session-1", config.clone());
    let mut session2 = SessionHelper::get_or_create(&mut manager, "session-2", config.clone());

    session1.add_user_message("Hello from 1".to_string());
    session2.add_user_message("Hello from 2".to_string());

    SessionHelper::update(&mut manager, session1);
    SessionHelper::update(&mut manager, session2);

    assert_eq!(manager.len(), 2);
    assert_eq!(manager.get("session-1").unwrap().messages[0].content, "Hello from 1");
    assert_eq!(manager.get("session-2").unwrap().messages[0].content, "Hello from 2");
}

#[test]
fn test_message_role_equality() {
    assert_eq!(MessageRole::User, MessageRole::User);
    assert_eq!(MessageRole::Assistant, MessageRole::Assistant);
    assert_eq!(MessageRole::System, MessageRole::System);
    assert_ne!(MessageRole::User, MessageRole::Assistant);
}

#[test]
fn test_empty_message_content() {
    let config = SessionConfig::default();
    let mut session = Session::new("test".to_string(), config);

    session.add_user_message("".to_string());

    assert_eq!(session.messages.len(), 1);
    assert_eq!(session.messages[0].content, "");
}

#[test]
fn test_long_message_content() {
    let config = SessionConfig::default();
    let mut session = Session::new("test".to_string(), config);

    let long_content = "a".repeat(10000);
    session.add_user_message(long_content.clone());

    assert_eq!(session.messages.len(), 1);
    assert_eq!(session.messages[0].content, long_content);
}

#[test]
fn test_max_turns_zero() {
    let config = SessionConfig { max_turns: 0, system_prompt: None };
    let mut session = Session::new("test".to_string(), config);

    session.add_user_message("Q1".to_string());
    session.add_assistant_message("A1".to_string());

    assert!(session.messages.is_empty());
}

fn non_system(session: &Session) -> usize {
    session.messages.iter().filter(|m| m.role != MessageRole::System).count()
}

#[test]
fn turn_bound_holds_after_every_append() {
    let config = SessionConfig { max_turns: 2, system_prompt: Some("S".to_string()) };
    let mut session = Session::new("bound".to_string(), config);
    for i in 0..9 {
        if i % 2 == 0 {
            session.add_user_message(format!("Q{}", i));
        } else {
            session.add_assistant_message(format!("A{}", i));
        }
        let n = non_system(&session);
        assert!(n <= 2 * 2 + n % 2);
        if n % 2 == 0 {
            assert!(n <= 4);
        }
        assert_eq!(session.messages[0].role, MessageRole::System);
        assert_eq!(session.messages[0].content, "S");
        assert_eq!(
            session.messages.iter().filter(|m| m.role == MessageRole::System).count(),
            1
        );
    }
}

#[test]
fn odd_trailing_message_is_kept_until_paired() {
    let config = SessionConfig { max_turns: 1, system_prompt: None };
    let mut session = Session::new("odd".to_string(), config);
    session.add_user_message("Q1".to_string());
    session.add_assistant_message("A1".to_string());
    session.add_user_message("Q2".to_string());
    assert_eq!(session.messages.len(), 3);
    session.add_assistant_message("A2".to_string());
    assert_eq!(session.messages.len(), 2);
    assert_eq!(session.messages[0].content, "Q2");
}

#[test]
fn scenario_system_prompt_two_turns() {
    let config = SessionConfig { max_turns: 2, system_prompt: Some("S".to_string()) };
    let mut session = Session::new("b".to_string(), config);
    for (q, a) in [("Q1", "A1"), ("Q2", "A2"), ("Q3", "A3")] {
        session.add_user_message(q.to_string());
        session.add_assistant_message(a.to_string());
    }
    let contents: Vec<&str> = session.messages.iter().map(|m| m.content.as_str()).collect();
    assert_eq!(contents, vec!["S", "Q2", "A2", "Q3", "A3"]);
}

#[test]
fn clear_counts_by_prompt() {
    let mut with = Session::new(
        "w".to_string(),
        SessionConfig { max_turns: 3, system_prompt: Some("S".to_string()) },
    );
    with.add_user_message("Q".to_string());
    with.clear();
    assert_eq!(with.messages.len(), 1);
    with.clear();
    assert_eq!(with.messages.len(), 1);

    let mut without = Session::new("n".to_string(), SessionConfig::default());
    without.add_user_message("Q".to_string());
    without.clear();
    assert_eq!(without.messages.len(), 0);
}

#[test]
fn get_or_create_twice_gives_same_snapshot() {
    let mut manager = new_session_manager();
    let first = SessionHelper::get_or_create(&mut manager, "same", SessionConfig::default());
    let second = SessionHelper::get_or_create(
        &mut manager,
        "same",
        SessionConfig { max_turns: 1, system_prompt: Some("other".to_string()) },
    );
    assert_eq!(manager.len(), 1);
    assert_eq!(first.id, second.id);
    assert_eq!(first.messages.len(), second.messages.len());
    assert_eq!(second.config.max_turns, 10);
    assert!(second.config.system_prompt.is_none());
}

#[test]
fn sync_then_get_round_trip() {
    let mut manager = new_session_manager();
    let msgs = vec![
        msg(MessageRole::User, "Q1"),
        msg(MessageRole::Assistant, "A1"),
        msg(MessageRole::User, "Q2"),
        msg(MessageRole::Assistant, "A2"),
    ];
    let config = SessionConfig { max_turns: 1, system_prompt: None };
    let synced = SessionHelper::sync_messages(&mut manager, "s", msgs, config);
    assert_eq!(synced.messages.len(), 2);
    let got = SessionHelper::get(&manager, "s").unwrap();
    let contents: Vec<&str> = got.messages.iter().map(|m| m.content.as_str()).collect();
    assert_eq!(contents, vec!["Q2", "A2"]);
    assert_eq!(got.config.max_turns, 1);
}

#[test]
fn get_missing_session_is_none() {
    let manager = new_session_manager();
    assert!(SessionHelper::get(&manager, "missing").is_none());
}

#[test]
fn remove_reports_presence() {
    let mut manager = new_session_manager();
    SessionHelper::get_or_create(&mut manager, "x", SessionConfig::default());
    assert!(SessionHelper::remove(&mut manager, "x"));
    assert!(!SessionHelper::remove(&mut manager, "x"));
}

#[test]
fn clear_history_keeps_system_message() {
    let mut manager = new_session_manager();
    let config = SessionConfig { max_turns: 5, system_prompt: Some("S".to_string()) };
    let mut s = SessionHelper::get_or_create(&mut manager, "c", config);
    s.add_user_message("Q".to_string());
    SessionHelper::update(&mut manager, s);
    SessionHelper::clear_history(&mut manager, "c");
    SessionHelper::clear_history(&mut manager, "absent");
    let got = SessionHelper::get(&manager, "c").unwrap();
    assert_eq!(got.messages.len(), 1);
    assert_eq!(got.messages[0].content, "S");
    assert_eq!(manager.len(), 1);
}

#[test]
fn several_leading_system_messages_keep_the_bound() {
    let mut manager = new_session_manager();
    let msgs = vec![
        msg(MessageRole::System, "S1"),
        msg(MessageRole::System, "S2"),
        msg(MessageRole::User, "Q1"),
        msg(MessageRole::Assistant, "A1"),
    ];
    let config = SessionConfig { max_turns: 1, system_prompt: None };
    let mut s = SessionHelper::sync_messages(&mut manager, "m", msgs, config);
    s.add_user_message("Q2".to_string());
    assert_eq!(non_system(&s), 3);
    s.add_assistant_message("A2".to_string());
    let contents: Vec<&str> = s.messages.iter().map(|m| m.content.as_str()).collect();
    assert_eq!(contents, vec!["S1", "S2", "Q2", "A2"]);
    assert_eq!(non_system(&s), 2);
}
