use nexacode_core::actions::{Action, Message, MessageAction, MessageRole, Mode};

#[test]
fn test_message_creation() {
    let msg = Message::user("Hello");
    assert_eq!(msg.role, MessageRole::User);
    assert_eq!(msg.content, "Hello");
    assert!(msg.timestamp > 0);
    assert!(msg.metadata.is_none());
    assert!(msg.id.starts_with("msg_"));
}

#[test]
fn test_message_with_metadata() {
    let mut fields = serde_json::Map::new();
    fields.insert("tool".to_string(), serde_json::Value::String("read_file".to_string()));
    let metadata = serde_json::Value::Object(fields);
    let msg = Message::tool("file contents").with_metadata(metadata.clone());
    assert_eq!(msg.role, MessageRole::Tool);
    assert_eq!(msg.metadata, Some(metadata));
}

#[test]
fn test_action_helpers() {
    let action = Action::user_message("test");
    match action {
        Action::Message(MessageAction::AddMessage(msg)) => {
            assert_eq!(msg.role, MessageRole::User);
            assert_eq!(msg.content, "test");
        }
        _ => panic!("Expected MessageAction::AddMessage"),
    }
}

#[test]
fn test_mode_display() {
    assert_eq!(Mode::Normal.to_display_string(), "NORMAL");
    assert_eq!(Mode::Input.to_display_string(), "INPUT");
    assert_eq!(Mode::Command.to_display_string(), "COMMAND");
    assert_eq!(Mode::Search.to_display_string(), "SEARCH");
}

#[test]
fn role_labels() {
    assert_eq!(MessageRole::User.to_display_string(), "User");
    assert_eq!(MessageRole::Assistant.to_display_string(), "Assistant");
    assert_eq!(MessageRole::System.to_display_string(), "System");
    assert_eq!(MessageRole::Tool.to_display_string(), "Tool");
}

#[test]
fn message_builders_set_fields() {
    let m = Message::assistant("hi").with_id("custom").with_timestamp(42);
    assert_eq!(m.id, "custom");
    assert_eq!(m.timestamp, 42);
    assert_eq!(m.role, MessageRole::Assistant);
    assert_eq!(Message::system("s").role, MessageRole::System);
}

#[test]
fn generated_ids_have_prefixes_and_differ() {
    let a = nexacode_core::actions::generate_message_id();
    let b = nexacode_core::actions::generate_message_id();
    assert!(a.starts_with("msg_"));
    assert_ne!(a, b);
    let s = nexacode_core::actions::generate_session_id();
    assert!(s.starts_with("sess_"));
}

#[test]
fn timestamps_are_after_the_epoch() {
    assert!(nexacode_core::actions::now_timestamp() > 1_600_000_000_000);
}

#[test]
fn whitespace_test_agrees_with_the_standard_library() {
    for u in 0u32..=0x10FFFF {
        if let Some(c) = char::from_u32(u) {
            assert_eq!(nexacode_core::text::char_is_whitespace(c), c.is_whitespace(), "{:x}", u);
        }
    }
}
