use nexacode_core::history::{History, HistoryConfig};
use nexacode_core::reducers::State;

#[test]
fn test_history_push() {
    let mut history = History::new(10);
    let state1 = State::new();
    let state2 = State::new();

    history.push(state1);
    assert!(history.can_undo());
    assert!(!history.can_redo());

    history.push(state2);
    assert_eq!(history.undo_count(), 2);
}

#[test]
fn test_history_undo_redo() {
    let mut history = History::new(10);

    let state0 = State::new();
    let mut state1 = State::new();
    state1.input = "a".to_string();
    let mut state2 = State::new();
    state2.input = "ab".to_string();

    history.push(state0.clone());
    history.push(state1.clone());

    let undone = history.undo(state2.clone());
    assert!(undone.is_some());
    assert_eq!(undone.unwrap().input, "a");

    assert!(history.can_redo());

    let redone = history.redo(state0);
    assert!(redone.is_some());
    assert_eq!(redone.unwrap().input, "ab");
}

#[test]
fn test_history_max_size() {
    let mut history = History::new(3);

    for i in 0..5 {
        let mut state = State::new();
        state.input = format!("state{}", i);
        history.push(state);
    }

    assert_eq!(history.undo_count(), 3);
}

#[test]
fn test_history_clear_future_on_push() {
    let mut history = History::new(10);

    let state0 = State::new();
    let mut state1 = State::new();
    state1.input = "a".to_string();
    let mut state2 = State::new();
    state2.input = "ab".to_string();
    let mut state3 = State::new();
    state3.input = "c".to_string();

    history.push(state0);
    history.push(state1.clone());

    let undone = history.undo(state2.clone());
    assert!(undone.is_some());
    assert!(history.can_redo());

    history.push(state3);
    assert!(!history.can_redo());
}

#[test]
fn oldest_snapshot_goes_when_full() {
    let mut history = History::new(2);
    for i in 0..3 {
        let mut s = State::new();
        s.input = format!("s{}", i);
        history.push(s);
    }
    let current = State::new();
    let a = history.undo(current).unwrap();
    assert_eq!(a.input, "s2");
    let b = history.undo(a).unwrap();
    assert_eq!(b.input, "s1");
    assert!(history.undo(b).is_none());
}

#[test]
fn a_limit_of_zero_keeps_one_snapshot() {
    let mut history = History::new(0);
    history.push(State::new());
    history.push(State::new());
    assert_eq!(history.undo_count(), 1);
}

#[test]
fn clear_and_emptiness() {
    let mut history = History::default();
    assert!(history.is_empty());
    history.push(State::new());
    let _ = history.undo(State::new());
    assert_eq!(history.redo_count(), 1);
    assert!(!history.is_empty());
    history.clear();
    assert!(history.is_empty());
    assert!(history.redo(State::new()).is_none());
}

#[test]
fn history_config_default_tracks() {
    let c = HistoryConfig::default();
    assert!(c.track);
    assert_eq!(c.skip_count, 0);
}
