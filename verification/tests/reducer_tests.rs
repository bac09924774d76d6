use nexacode_core::actions::{
    Action, CommandAction, InputAction, MessageAction, Mode, NavigationAction, SessionAction, UiAction,
};
use nexacode_core::reducer::reduce;
use nexacode_core::reducers::{State, Theme};

#[test]
fn test_state_default() {
    let state = State::new();
    assert!(state.messages.is_empty());
    assert!(state.input.is_empty());
    assert_eq!(state.cursor_pos, 0);
    assert_eq!(state.mode, Mode::Input);
    assert!(!state.should_quit);
}

#[test]
fn test_add_message() {
    let state = State::new();
    let action = Action::user_message("Hello");
    let new_state = reduce(state, &action);

    assert_eq!(new_state.messages.len(), 1);
    assert_eq!(new_state.messages[0].content, "Hello");
}

#[test]
fn test_input_navigation() {
    let state = State::new();
    let actions = vec![Action::insert_char('a'), Action::insert_char('b'), Action::insert_char('c')];
    let state = actions.iter().fold(state, |s, a| reduce(s, a));

    assert_eq!(state.input, "abc");
    assert_eq!(state.cursor_pos, 3);

    let state = reduce(state, &Action::Input(InputAction::MoveCursorLeft));
    assert_eq!(state.cursor_pos, 2);

    let state = reduce(state, &Action::delete_char());
    assert_eq!(state.input, "ac");
    assert_eq!(state.cursor_pos, 1);
}

#[test]
fn test_search() {
    let state = State::new();
    let state = reduce(state, &Action::user_message("Hello World"));
    let state = reduce(state, &Action::user_message("Hello Rust"));
    let state = reduce(state, &Action::assistant_message("Hello AI"));

    let state = reduce(state, &Action::search("Hello"));
    assert_eq!(state.search_results.len(), 3);
    assert_eq!(state.current_match_index, Some(0));

    let state = reduce(state, &Action::next_match());
    assert_eq!(state.current_match_index, Some(1));

    let state = reduce(state, &Action::prev_match());
    assert_eq!(state.current_match_index, Some(0));
}

#[test]
fn test_session_management() {
    let state = State::new();
    let session_id = state.current_session.id.clone();

    let state = reduce(state, &Action::user_message("Test"));
    assert_eq!(state.messages.len(), 1);

    let state = reduce(state, &Action::Session(SessionAction::NewSession));
    assert_ne!(state.current_session.id, session_id);
    assert!(state.messages.is_empty());
}

#[test]
fn test_command_history() {
    let state = State::new();

    let state = reduce(state, &Action::Command(CommandAction::AddCommand("q".to_string())));
    let state = reduce(state, &Action::Command(CommandAction::AddCommand("help".to_string())));

    assert_eq!(state.command_history.len(), 2);

    let state = reduce(state, &Action::Command(CommandAction::CommandHistoryUp));
    assert_eq!(state.input, "help");
}

#[test]
fn test_delete_word_backward() {
    let state = State::new();
    let state = reduce(state, &Action::Input(InputAction::SetInput("hello world test".to_string())));
    let state = reduce(state, &Action::Input(InputAction::MoveCursorEnd));
    let state = reduce(state, &Action::Input(InputAction::DeleteWordBackward));
    assert_eq!(state.input, "hello world ");
}

#[test]
fn test_theme_toggle() {
    let state = State::new();
    assert_eq!(state.theme, Theme::Light);

    let state = reduce(state, &Action::toggle_theme());
    assert_eq!(state.theme, Theme::Dark);

    let state = reduce(state, &Action::toggle_theme());
    assert_eq!(state.theme, Theme::Light);
}

#[test]
fn test_mode_change() {
    let state = State::new();
    assert_eq!(state.mode, Mode::Input);

    let state = reduce(state, &Action::set_mode(Mode::Normal));
    assert_eq!(state.mode, Mode::Normal);

    let state = reduce(state, &Action::set_mode(Mode::Command));
    assert_eq!(state.mode, Mode::Command);
}

#[test]
fn test_batch_actions() {
    let state = State::new();
    let action = Action::batch(vec![Action::insert_char('a'), Action::insert_char('b'), Action::insert_char('c')]);
    let state = reduce(state, &action);

    assert_eq!(state.input, "abc");
}

#[test]
fn multibyte_characters_move_the_cursor_by_their_width() {
    let state = State::new();
    let state = reduce(state, &Action::insert_char('é'));
    let state = reduce(state, &Action::insert_char('€'));
    assert_eq!(state.input, "é€");
    assert_eq!(state.cursor_pos, 5);
    let state = reduce(state, &Action::Input(InputAction::MoveCursorLeft));
    assert_eq!(state.cursor_pos, 2);
    let state = reduce(state, &Action::Input(InputAction::DeleteCharForward));
    assert_eq!(state.input, "é");
    assert_eq!(state.cursor_pos, 2);
}

#[test]
fn word_moves_and_forward_word_delete() {
    let state = State::new();
    let state = reduce(state, &Action::Input(InputAction::SetInput("one two  three".to_string())));
    assert_eq!(state.cursor_pos, 14);
    let state = reduce(state, &Action::Input(InputAction::MoveCursorWordLeft));
    assert_eq!(state.cursor_pos, 9);
    let state = reduce(state, &Action::Input(InputAction::MoveCursorStart));
    let state = reduce(state, &Action::Input(InputAction::MoveCursorWordRight));
    assert_eq!(state.cursor_pos, 4);
    let state = reduce(state, &Action::Input(InputAction::DeleteWordForward));
    assert_eq!(state.input, "one three");
}

#[test]
fn submit_input_records_history_and_history_navigation() {
    let state = State::new();
    let state = reduce(state, &Action::Input(InputAction::SetInput("first".to_string())));
    let state = reduce(state, &Action::submit_input());
    assert_eq!(state.input_history, vec!["first".to_string()]);
    let state = reduce(state, &Action::Input(InputAction::SetInput("draft".to_string())));
    let state = reduce(state, &Action::Input(InputAction::HistoryUp));
    assert_eq!(state.input, "first");
    assert_eq!(state.input_history_index, Some(0));
    let state = reduce(state, &Action::Input(InputAction::HistoryDown));
    assert_eq!(state.input, "draft");
    assert_eq!(state.input_history_index, None);
}

#[test]
fn blank_input_is_not_recorded() {
    let state = State::new();
    let state = reduce(state, &Action::Input(InputAction::SetInput("   ".to_string())));
    let state = reduce(state, &Action::submit_input());
    assert!(state.input_history.is_empty());
}

#[test]
fn scrolling_stays_within_the_messages() {
    let mut state = State::new();
    for t in ["a", "b", "c"] {
        state = reduce(state, &Action::user_message(t));
    }
    assert_eq!(state.scroll_offset, 2);
    let state = reduce(state, &Action::scroll_up(5));
    assert_eq!(state.scroll_offset, 0);
    let state = reduce(state, &Action::scroll_down(10));
    assert_eq!(state.scroll_offset, 2);
    let state = reduce(state, &Action::Navigation(NavigationAction::ScrollToMessage(1)));
    assert_eq!(state.scroll_offset, 1);
    let state = reduce(state, &Action::Navigation(NavigationAction::ScrollToMessage(9)));
    assert_eq!(state.scroll_offset, 1);
}

#[test]
fn delete_and_edit_messages() {
    let state = State::new();
    let state = reduce(state, &Action::user_message("one"));
    let state = reduce(state, &Action::user_message("two"));
    let id = state.messages[1].id.clone();
    let state = reduce(state, &Action::Message(MessageAction::EditMessageById { id: id.clone(), content: "zwei".to_string() }));
    assert_eq!(state.messages[1].content, "zwei");
    assert_eq!(state.current_session.messages[1].content, "zwei");
    let state = reduce(state, &Action::delete_message(0));
    assert_eq!(state.messages.len(), 1);
    let state = reduce(state, &Action::Message(MessageAction::DeleteMessageById(id)));
    assert!(state.messages.is_empty());
    let state = reduce(state, &Action::delete_message(3));
    assert!(state.messages.is_empty());
}

#[test]
fn case_insensitive_search_finds_every_occurrence() {
    let state = State::new();
    let state = reduce(state, &Action::user_message("abc ABC abc"));
    let state = reduce(state, &Action::search("abc"));
    assert_eq!(state.search_results.len(), 3);
    assert_eq!(state.search_results[1].start, 4);
    assert_eq!(state.search_results[1].end, 7);
    let state = reduce(state, &Action::Search(nexacode_core::actions::SearchAction::ToggleCaseSensitive));
    assert_eq!(state.search_results.len(), 2);
    let state = reduce(state, &Action::search(""));
    assert_eq!(state.search_query, None);
    assert!(state.search_results.is_empty());
}

#[test]
fn next_match_wraps_around() {
    let state = State::new();
    let state = reduce(state, &Action::user_message("x"));
    let state = reduce(state, &Action::user_message("x"));
    let state = reduce(state, &Action::search("x"));
    let state = reduce(state, &Action::next_match());
    let state = reduce(state, &Action::next_match());
    assert_eq!(state.current_match_index, Some(0));
    let state = reduce(state, &Action::prev_match());
    assert_eq!(state.current_match_index, Some(1));
}

#[test]
fn sessions_switch_save_delete_and_list() {
    let state = State::new();
    let first = state.current_session.id.clone();
    let state = reduce(state, &Action::user_message("in first"));
    let state = reduce(state, &Action::save_session());
    assert_eq!(state.status_message.as_deref(), Some("Session saved"));
    let state = reduce(state, &Action::new_session_with_name("second"));
    assert_eq!(state.current_session.name.as_deref(), Some("second"));
    assert_eq!(state.status_message.as_deref(), Some("New session created"));
    let state = reduce(state, &Action::Session(SessionAction::ListSessions));
    assert_eq!(state.status_message.as_deref(), Some("2 sessions available"));
    let state = reduce(state, &Action::Session(SessionAction::SwitchSession(first.clone())));
    assert_eq!(state.current_session.id, first);
    assert_eq!(state.messages.len(), 1);
    let state = reduce(state, &Action::Session(SessionAction::RenameSession("renamed".to_string())));
    assert_eq!(state.current_session.name.as_deref(), Some("renamed"));
    let one = State::new();
    let only = one.current_session.id.clone();
    let one = reduce(one, &Action::Session(SessionAction::DeleteSession(only)));
    assert_eq!(one.status_message.as_deref(), Some("Cannot delete the last session"));
    assert!(one.status_is_error);
}

#[test]
fn command_history_skips_repeats_and_keeps_one_hundred() {
    let mut state = State::new();
    state = reduce(state, &Action::add_command("same"));
    state = reduce(state, &Action::add_command("same"));
    assert_eq!(state.command_history.len(), 1);
    for i in 0..150 {
        state = reduce(state, &Action::add_command(&format!("c{}", i)));
    }
    assert_eq!(state.command_history.len(), 100);
    assert_eq!(state.command_history[0], "c50");
    let state = reduce(state, &Action::Command(CommandAction::ClearCommandHistory));
    assert!(state.command_history.is_empty());
}

#[test]
fn ui_actions_set_flags() {
    let state = State::new();
    let state = reduce(state, &Action::toggle_help());
    assert!(state.show_help);
    let state = reduce(state, &Action::hide_help());
    assert!(!state.show_help);
    let state = reduce(state, &Action::show_status("saved", false));
    assert_eq!(state.status_message.as_deref(), Some("saved"));
    let state = reduce(state, &Action::clear_status());
    assert_eq!(state.status_message, None);
    let state = reduce(state, &Action::Ui(UiAction::SetTheme(true)));
    assert_eq!(state.theme, Theme::Dark);
    let state = reduce(state, &Action::quit());
    assert!(state.should_quit);
}

#[test]
fn accessors_read_the_state() {
    let state = State::new();
    assert!(!state.has_messages());
    assert!(state.is_input_mode());
    assert!(state.is_input_empty());
    let state = reduce(state, &Action::user_message("hello there"));
    assert_eq!(state.message_count(), 1);
    let id = state.messages[0].id.clone();
    assert_eq!(state.find_message_by_id(&id).map(|(i, _)| i), Some(0));
    assert!(state.find_message_by_id("nope").is_none());
    assert_eq!(state.last_message().map(|m| m.content.clone()), Some("hello there".to_string()));
    let state = reduce(state, &Action::search("there"));
    assert!(state.is_searching());
    assert_eq!(state.match_count(), 1);
    assert_eq!(state.current_match().map(|m| m.start), Some(6));
    assert!(!state.is_agent_busy());
}

#[test]
fn insert_then_delete_restores_the_line() {
    let state = State::new();
    let state = reduce(state, &Action::Input(InputAction::SetInput("añb".to_string())));
    let state = reduce(state, &Action::Input(InputAction::MoveCursorLeft));
    let before = (state.input.clone(), state.cursor_pos);
    let state = reduce(state, &Action::insert_char('€'));
    let state = reduce(state, &Action::delete_char());
    assert_eq!((state.input.clone(), state.cursor_pos), before);
    let state = reduce(state, &Action::Input(InputAction::MoveCursorLeft));
    let state = reduce(state, &Action::Input(InputAction::MoveCursorRight));
    assert_eq!(state.cursor_pos, before.1);
}

#[test]
fn history_up_then_down_restores_the_draft() {
    let state = State::new();
    let state = reduce(state, &Action::Input(InputAction::SetInput("sent".to_string())));
    let state = reduce(state, &Action::submit_input());
    let state = reduce(state, &Action::Input(InputAction::SetInput("draft".to_string())));
    let state = reduce(state, &Action::Input(InputAction::HistoryUp));
    let state = reduce(state, &Action::Input(InputAction::HistoryDown));
    assert_eq!(state.input, "draft");
}

#[test]
fn a_batch_is_its_actions_in_order() {
    let seq = State::new();
    let seq = reduce(seq, &Action::insert_char('x'));
    let seq = reduce(seq, &Action::toggle_theme());
    let seq = reduce(seq, &Action::set_mode(Mode::Normal));
    let batch = reduce(
        State::new(),
        &Action::batch(vec![Action::insert_char('x'), Action::toggle_theme(), Action::set_mode(Mode::Normal)]),
    );
    assert_eq!(batch.input, seq.input);
    assert_eq!(batch.theme, seq.theme);
    assert_eq!(batch.mode, seq.mode);
    let nested = reduce(
        State::new(),
        &Action::batch(vec![Action::batch(vec![Action::insert_char('x')]), Action::batch(vec![])]),
    );
    assert_eq!(nested.input, "x");
}

#[test]
fn new_sessions_get_identifiers_nobody_has() {
    let mut state = State::new();
    for _ in 0..20 {
        state = reduce(state, &Action::new_session());
    }
    assert_eq!(state.sessions.len(), 21);
    for i in 0..state.sessions.len() {
        assert!(state.sessions[i].id.starts_with("sess_"));
        for j in (i + 1)..state.sessions.len() {
            assert_ne!(state.sessions[i].id, state.sessions[j].id);
        }
    }
    assert_eq!(state.current_session.id, state.sessions[20].id);
}

#[test]
fn search_matches_come_in_order_and_apart() {
    let state = State::new();
    let state = reduce(state, &Action::user_message("aaaa"));
    let state = reduce(state, &Action::user_message("xaax"));
    let state = reduce(state, &Action::search("aa"));
    let r = &state.search_results;
    assert_eq!(r.len(), 3);
    assert_eq!((r[0].message_index, r[0].start, r[0].end), (0, 0, 2));
    assert_eq!((r[1].message_index, r[1].start, r[1].end), (0, 2, 4));
    assert_eq!((r[2].message_index, r[2].start, r[2].end), (1, 1, 3));
}

#[test]
fn next_then_previous_match_gives_back_the_match() {
    let state = State::new();
    let state = reduce(state, &Action::user_message("ab ab ab"));
    let state = reduce(state, &Action::search("ab"));
    let state = reduce(state, &Action::next_match());
    let state = reduce(state, &Action::next_match());
    assert_eq!(state.current_match_index, Some(2));
    let state = reduce(state, &Action::next_match());
    assert_eq!(state.current_match_index, Some(0));
    let state = reduce(state, &Action::prev_match());
    assert_eq!(state.current_match_index, Some(2));
    let state = reduce(state, &Action::next_match());
    assert_eq!(state.current_match_index, Some(0));
}

#[test]
fn history_up_then_down_gives_back_the_line_with_the_cursor_at_its_end() {
    let mut state = State::new();
    for c in "héllo".chars() {
        state = reduce(state, &Action::insert_char(c));
    }
    state = reduce(state, &Action::submit_input());
    state = reduce(state, &Action::Input(InputAction::ClearInput));
    for c in "ñu".chars() {
        state = reduce(state, &Action::insert_char(c));
    }
    let state = reduce(state, &Action::Input(InputAction::HistoryUp));
    assert_eq!(state.input, "héllo");
    assert_eq!(state.cursor_pos, 6);
    assert_eq!(state.input_history_index, Some(0));
    let state = reduce(state, &Action::Input(InputAction::HistoryDown));
    assert_eq!(state.input, "ñu");
    assert_eq!(state.cursor_pos, 3);
    assert_eq!(state.input_history_index, None);
}
