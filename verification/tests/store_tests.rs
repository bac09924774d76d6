use std::sync::atomic::{AtomicUsize, Ordering};
use std::sync::Arc;

use nexacode_core::actions::{Action, Mode, UiAction};
use nexacode_core::reducers::{State, Theme};
use nexacode_core::store::{should_record_to_history, Store};

#[test]
fn test_store_dispatch() {
    let mut store = Store::new();

    store.dispatch(Action::user_message("Hello"));
    assert_eq!(store.state().messages.len(), 1);

    store.dispatch(Action::user_message("World"));
    assert_eq!(store.state().messages.len(), 2);
}

#[test]
fn test_store_subscribe() {
    let mut store = Store::new();
    let call_count = Arc::new(AtomicUsize::new(0));
    let call_count_clone = call_count.clone();

    let _id = store.subscribe(Arc::new(move |_: &State, _: &Action| {
        call_count_clone.fetch_add(1, Ordering::SeqCst);
    }));

    store.dispatch(Action::user_message("Test"));
    assert_eq!(call_count.load(Ordering::SeqCst), 1);

    store.dispatch(Action::user_message("Test2"));
    assert_eq!(call_count.load(Ordering::SeqCst), 2);
}

#[test]
fn test_store_unsubscribe() {
    let mut store = Store::new();
    let call_count = Arc::new(AtomicUsize::new(0));
    let call_count_clone = call_count.clone();

    let id = store.subscribe(Arc::new(move |_: &State, _: &Action| {
        call_count_clone.fetch_add(1, Ordering::SeqCst);
    }));

    store.dispatch(Action::user_message("Test"));
    assert_eq!(call_count.load(Ordering::SeqCst), 1);

    store.unsubscribe(id);
    store.dispatch(Action::user_message("Test2"));
    assert_eq!(call_count.load(Ordering::SeqCst), 1);
}

#[test]
fn test_store_undo_redo() {
    let mut store = Store::new();

    store.dispatch(Action::user_message("First"));
    store.dispatch(Action::user_message("Second"));

    assert_eq!(store.state().messages.len(), 2);

    store.dispatch(Action::Undo);
    assert_eq!(store.state().messages.len(), 1);
    assert_eq!(store.state().messages[0].content, "First");

    store.dispatch(Action::Redo);
    assert_eq!(store.state().messages.len(), 2);
    assert_eq!(store.state().messages[1].content, "Second");
}

#[test]
fn test_store_batch() {
    let mut store = Store::new();

    store.dispatch_batch(vec![Action::insert_char('a'), Action::insert_char('b'), Action::insert_char('c')]);

    assert_eq!(store.state().input, "abc");

    store.dispatch(Action::Undo);
    assert_eq!(store.state().input, "");
}

#[test]
fn actions_that_are_not_recorded_cannot_be_undone() {
    let mut store = Store::new();
    store.dispatch(Action::insert_char('x'));
    assert!(!store.can_undo());
    store.dispatch(Action::Undo);
    assert_eq!(store.state().input, "x");
}

#[test]
fn undo_then_redo_gives_back_the_state() {
    let mut store = Store::new();
    store.dispatch(Action::toggle_theme());
    assert_eq!(store.state().theme, Theme::Dark);
    store.dispatch(Action::Undo);
    assert_eq!(store.state().theme, Theme::Light);
    assert_eq!(store.redo_count(), 1);
    store.dispatch(Action::Redo);
    assert_eq!(store.state().theme, Theme::Dark);
    assert_eq!(store.undo_count(), 1);
    assert_eq!(store.redo_count(), 0);
}

#[test]
fn recording_a_new_action_forgets_redo() {
    let mut store = Store::new();
    store.dispatch(Action::set_mode(Mode::Normal));
    store.dispatch(Action::Undo);
    assert!(store.can_redo());
    store.dispatch(Action::set_mode(Mode::Command));
    assert!(!store.can_redo());
    store.clear_history();
    assert!(!store.can_undo());
}

#[test]
fn recording_rules() {
    assert!(should_record_to_history(&Action::user_message("m")));
    assert!(should_record_to_history(&Action::toggle_theme()));
    assert!(!should_record_to_history(&Action::Ui(UiAction::Quit)));
    assert!(!should_record_to_history(&Action::insert_char('a')));
    assert!(!should_record_to_history(&Action::Undo));
    assert!(should_record_to_history(&Action::batch(vec![Action::insert_char('a'), Action::toggle_theme()])));
    assert!(!should_record_to_history(&Action::batch(vec![Action::insert_char('a')])));
}

#[test]
fn without_history_records_nothing_and_restores_the_setting() {
    let mut store = Store::new();
    let n = store.without_history(|s: &mut Store| {
        s.dispatch(Action::user_message("quiet"));
        s.state().messages.len()
    });
    assert_eq!(n, 1);
    assert!(!store.can_undo());
    assert!(store.is_recording());
    store.dispatch(Action::user_message("loud"));
    assert!(store.can_undo());
}

#[test]
fn batch_is_told_once_and_empty_batch_does_nothing() {
    let mut store = Store::new();
    let calls = Arc::new(AtomicUsize::new(0));
    let c = calls.clone();
    store.subscribe(Arc::new(move |_: &State, _: &Action| {
        c.fetch_add(1, Ordering::SeqCst);
    }));
    store.dispatch_batch(vec![Action::insert_char('a'), Action::insert_char('b')]);
    assert_eq!(calls.load(Ordering::SeqCst), 1);
    store.dispatch_batch(Vec::new());
    assert_eq!(calls.load(Ordering::SeqCst), 1);
    assert_eq!(store.undo_count(), 1);
    store.clear_subscribers();
    store.dispatch(Action::toggle_theme());
    assert_eq!(calls.load(Ordering::SeqCst), 1);
}

#[test]
fn with_state_starts_from_the_given_state() {
    let store = Store::with_state(State::dark());
    assert_eq!(store.get_state().theme, Theme::Dark);
    assert!(!store.can_undo());
}

#[test]
fn subscribers_are_called_in_order_with_the_new_state_and_the_action() {
    let mut store = Store::new();
    let seen = Arc::new(std::sync::Mutex::new(Vec::new()));
    let a = seen.clone();
    store.subscribe(Arc::new(move |s: &State, act: &Action| {
        a.lock().unwrap().push((1, s.theme, matches!(act, Action::Undo)));
    }));
    let b = seen.clone();
    store.subscribe(Arc::new(move |s: &State, act: &Action| {
        b.lock().unwrap().push((2, s.theme, matches!(act, Action::Undo)));
    }));
    store.dispatch(Action::Undo);
    assert!(seen.lock().unwrap().is_empty());
    store.dispatch(Action::toggle_theme());
    store.dispatch(Action::Undo);
    store.dispatch(Action::Redo);
    store.dispatch(Action::Redo);
    let log = seen.lock().unwrap().clone();
    assert_eq!(
        log,
        vec![
            (1, Theme::Dark, false),
            (2, Theme::Dark, false),
            (1, Theme::Light, true),
            (2, Theme::Light, true),
            (1, Theme::Dark, false),
            (2, Theme::Dark, false),
        ]
    );
}
