use nexacode_core::agent::{stream_pieces, state_change, AgentEvent, AgentStateEnum};

#[test]
fn test_agent_state_display() {
    assert_eq!(AgentStateEnum::Idle.to_display_string(), "Idle");
    assert_eq!(AgentStateEnum::Thinking.to_display_string(), "Thinking");
    assert_eq!(AgentStateEnum::ExecutingTool.to_display_string(), "Executing Tool");
    assert_eq!(AgentStateEnum::StreamingResponse.to_display_string(), "Streaming");
    assert_eq!(AgentStateEnum::Error.to_display_string(), "Error");
}

#[test]
fn default_agent_state_is_idle() {
    assert_eq!(AgentStateEnum::default(), AgentStateEnum::Idle);
}

#[test]
fn only_a_real_change_is_reported() {
    assert!(state_change(AgentStateEnum::Idle, AgentStateEnum::Idle).is_none());
    match state_change(AgentStateEnum::Idle, AgentStateEnum::Thinking) {
        Some(AgentEvent::StateChanged(s)) => assert_eq!(s, AgentStateEnum::Thinking),
        _ => panic!("expected a state change"),
    }
}

#[test]
fn replies_stream_word_by_word() {
    let (pieces, complete) = stream_pieces("  hello   big\nworld ");
    assert_eq!(pieces, vec!["hello ".to_string(), "big ".to_string(), "world ".to_string()]);
    assert_eq!(complete, "hello big world");
    let (none, empty) = stream_pieces("   ");
    assert!(none.is_empty());
    assert_eq!(empty, "");
}
