use std::sync::atomic::{AtomicUsize, Ordering};
use std::sync::Arc;
use nexacode_core::actions::{Action, Mode, MessageRole};
use nexacode_core::event::{
    execute_command, handle_colon_command, handle_key_event, Key, KeyInput, Modifiers,
};
use nexacode_core::reducers::Theme;
use nexacode_core::store::Store;

fn key(modifiers: Modifiers, code: Key) -> KeyInput {
    KeyInput { modifiers, code }
}

fn typed(store: &mut Store, text: &str) {
    for c in text.chars() {
        assert!(handle_key_event(store, key(Modifiers::Plain, Key::Char(c))));
    }
}

#[test]
fn normal_mode_keys() {
    let mut store = Store::new();
    store.dispatch(Action::set_mode(Mode::Normal));
    assert!(handle_key_event(&mut store, key(Modifiers::Plain, Key::Char('t'))));
    assert_eq!(store.state().theme, Theme::Dark);
    assert!(handle_key_event(&mut store, key(Modifiers::Plain, Key::Char('u'))));
    assert_eq!(store.state().theme, Theme::Light);
    assert!(!handle_key_event(&mut store, key(Modifiers::Plain, Key::Char('z'))));
    assert!(handle_key_event(&mut store, key(Modifiers::Plain, Key::Char(':'))));
    assert_eq!(store.state().mode, Mode::Command);
}

#[test]
fn input_mode_sends_a_message_and_the_placeholder() {
    let mut store = Store::new();
    typed(&mut store, "hi");
    assert!(handle_key_event(&mut store, key(Modifiers::Plain, Key::Enter)));
    let s = store.state();
    assert_eq!(s.messages.len(), 2);
    assert_eq!(s.messages[0].role, MessageRole::User);
    assert_eq!(s.messages[0].content, "hi");
    assert_eq!(s.messages[1].role, MessageRole::Assistant);
    assert_eq!(
        s.messages[1].content,
        "I received your message. This is a placeholder response.\nIn the future, this will be connected to an LLM."
    );
}

#[test]
fn blank_line_sends_nothing_and_editing_keys_work() {
    let mut store = Store::new();
    typed(&mut store, "  ");
    assert!(handle_key_event(&mut store, key(Modifiers::Plain, Key::Enter)));
    assert!(store.state().messages.is_empty());
    assert!(handle_key_event(&mut store, key(Modifiers::Control, Key::Char('u'))));
    assert_eq!(store.state().input, "");
    typed(&mut store, "ab");
    assert!(handle_key_event(&mut store, key(Modifiers::Plain, Key::Backspace)));
    assert_eq!(store.state().input, "a");
    assert!(handle_key_event(&mut store, key(Modifiers::Plain, Key::Esc)));
    assert_eq!(store.state().mode, Mode::Normal);
}

#[test]
fn command_mode_runs_commands() {
    let mut store = Store::new();
    store.dispatch(Action::set_mode(Mode::Command));
    typed(&mut store, "theme");
    assert!(handle_key_event(&mut store, key(Modifiers::Plain, Key::Enter)));
    let s = store.state();
    assert_eq!(s.theme, Theme::Dark);
    assert_eq!(s.mode, Mode::Normal);
    assert_eq!(s.input, "");
    assert_eq!(s.command_history, vec!["theme".to_string()]);
}

#[test]
fn commands_with_arguments_and_unknown_commands() {
    let mut store = Store::new();
    execute_command(&mut store, "new  my   project");
    assert_eq!(store.state().current_session.name.as_deref(), Some("my project"));
    execute_command(&mut store, "bogus x");
    assert_eq!(store.state().status_message.as_deref(), Some("Unknown command: bogus"));
    assert!(store.state().status_is_error);
    execute_command(&mut store, "search");
    assert_eq!(store.state().status_message.as_deref(), Some("Usage: :search <query>"));
    execute_command(&mut store, "case");
    assert!(store.state().case_sensitive);
    assert_eq!(store.state().status_message.as_deref(), Some("Case sensitive search enabled"));
    execute_command(&mut store, "q");
    assert!(store.state().should_quit);
}

#[test]
fn search_mode_searches_while_typing() {
    let mut store = Store::new();
    store.dispatch(Action::user_message("alpha beta"));
    store.dispatch(Action::set_mode(Mode::Search));
    typed(&mut store, "be");
    assert_eq!(store.state().search_results.len(), 1);
    assert!(handle_key_event(&mut store, key(Modifiers::Plain, Key::Enter)));
    assert_eq!(store.state().mode, Mode::Normal);
    assert_eq!(store.state().input, "");
    assert_eq!(store.state().search_query.as_deref(), Some("be"));
}

#[test]
fn colon_commands() {
    let mut store = Store::new();
    handle_colon_command(&mut store, "::theme ");
    assert_eq!(store.state().theme, Theme::Dark);
    handle_colon_command(&mut store, ":what");
    assert_eq!(store.state().status_message.as_deref(), Some("Unknown command: what"));
}

#[test]
fn program_command_mode_runs_colon_commands() {
    let mut store = Store::new();
    store.dispatch(Action::set_mode(Mode::Command));
    for c in ":theme".chars() {
        nexacode_core::program_keys::handle_command_mode(&mut store, key(Modifiers::Plain, Key::Char(c)));
    }
    nexacode_core::program_keys::handle_command_mode(&mut store, key(Modifiers::Plain, Key::Enter));
    assert_eq!(store.state().theme, Theme::Dark);
    assert_eq!(store.state().mode, Mode::Normal);
    assert_eq!(store.state().input, "");
}

#[test]
fn program_search_and_normal_modes() {
    let mut store = Store::new();
    store.dispatch(Action::user_message("find me"));
    store.dispatch(Action::set_mode(Mode::Search));
    for c in "me".chars() {
        nexacode_core::program_keys::handle_search_mode(&mut store, key(Modifiers::Plain, Key::Char(c)));
    }
    assert!(store.state().search_results.is_empty());
    nexacode_core::program_keys::handle_search_mode(&mut store, key(Modifiers::Plain, Key::Enter));
    assert_eq!(store.state().search_results.len(), 1);
    assert_eq!(store.state().mode, Mode::Normal);
    nexacode_core::program_keys::handle_normal_mode(&mut store, key(Modifiers::Plain, Key::Char('q')));
    assert!(store.state().should_quit);
}

#[test]
fn an_unbound_key_calls_no_subscriber_and_a_bound_one_calls_each_once() {
    let mut store = Store::new();
    store.dispatch(Action::set_mode(Mode::Normal));
    let calls = Arc::new(AtomicUsize::new(0));
    let c = calls.clone();
    store.subscribe(Arc::new(move |_: &nexacode_core::reducers::State, _: &Action| {
        c.fetch_add(1, Ordering::SeqCst);
    }));
    assert!(!handle_key_event(&mut store, key(Modifiers::Plain, Key::Char('z'))));
    assert_eq!(calls.load(Ordering::SeqCst), 0);
    assert!(handle_key_event(&mut store, key(Modifiers::Plain, Key::Char('t'))));
    assert_eq!(calls.load(Ordering::SeqCst), 1);
}

#[test]
fn enter_works_on_a_store_with_a_long_command_history() {
    let mut state = nexacode_core::reducers::State::new();
    for i in 0..150 {
        state.command_history.push(format!("cmd{}", i % 2));
    }
    let mut store = Store::with_state(state);
    typed(&mut store, "hello");
    assert!(handle_key_event(&mut store, key(Modifiers::Plain, Key::Enter)));
    assert_eq!(store.state().messages.len(), 2);
    assert_eq!(store.state().messages[0].content, "hello");
}
