//! What each key does in each mode: keys become actions dispatched to the store.
use vstd::prelude::*;
use crate::actions::{
    adds_fresh_message, Action, CommandAction, InputAction, MessageRole, Mode, NavigationAction,
    SearchAction, SessionAction, UiAction,
};
use crate::invariants::{lemma_leaf_can_reduce, law_wf_accepts, scroll_fits};
use crate::reducer::{is_blank, state_fits};
use crate::reducers::StateView;
use crate::store::{
    dispatch_step, dispatches, lemma_dispatches_none, lemma_dispatches_push, store_ok,
    store_wf, Store, StoreView,
};
use crate::transitions::{all_space, input_next, lemma_leaf_result};
use crate::text::same_text;
use crate::words::{join, join_from, split_words, trim, trimmed, words};

verus! {

/// A key, as the handlers tell keys apart.
#[derive(Debug, Clone, Copy, PartialEq, Eq, Structural)]
pub enum Key {
    Char(char),
    Enter,
    Esc,
    Backspace,
    Delete,
    Left,
    Right,
    Up,
    Down,
    Home,
    End,
    Tab,
    /// Any other key.
    Other,
}

/// The modifier keys held with a key: none, exactly one of three, or any
/// other combination.
#[derive(Debug, Clone, Copy, PartialEq, Eq, Structural)]
pub enum Modifiers {
    Plain,
    Control,
    Shift,
    Alt,
    Other,
}

/// A key press.
#[derive(Debug, Clone, Copy, PartialEq, Eq, Structural)]
pub struct KeyInput {
    pub modifiers: Modifiers,
    pub code: Key,
}

/// The action a key dispatches in normal mode, if any.
pub open spec fn normal_action(k: KeyInput) -> Option<Action> {
    match (k.modifiers, k.code) {
        (Modifiers::Control, Key::Char('c')) => Some(Action::Ui(UiAction::Quit)),
        (Modifiers::Plain, Key::Char('q')) => Some(Action::Ui(UiAction::Quit)),
        (Modifiers::Plain, Key::Char('i')) => Some(Action::Ui(UiAction::SetMode(Mode::Input))),
        (Modifiers::Plain, Key::Char('a')) => Some(Action::Ui(UiAction::SetMode(Mode::Input))),
        (Modifiers::Plain, Key::Char(':')) => Some(Action::Ui(UiAction::SetMode(Mode::Command))),
        (Modifiers::Plain, Key::Char('/')) => Some(Action::Ui(UiAction::SetMode(Mode::Search))),
        (Modifiers::Plain, Key::Char('t')) => Some(Action::Ui(UiAction::ToggleTheme)),
        (Modifiers::Control, Key::Char('t')) => Some(Action::Ui(UiAction::ToggleTheme)),
        (Modifiers::Plain, Key::Char('j')) => Some(Action::Navigation(NavigationAction::ScrollDown(1))),
        (Modifiers::Plain, Key::Down) => Some(Action::Navigation(NavigationAction::ScrollDown(1))),
        (Modifiers::Plain, Key::Char('k')) => Some(Action::Navigation(NavigationAction::ScrollUp(1))),
        (Modifiers::Plain, Key::Up) => Some(Action::Navigation(NavigationAction::ScrollUp(1))),
        (Modifiers::Plain, Key::Char('g')) => Some(Action::Navigation(NavigationAction::ScrollToTop)),
        (Modifiers::Plain, Key::Char('G')) => Some(Action::Navigation(NavigationAction::ScrollToBottom)),
        (Modifiers::Plain, Key::Char('u')) => Some(Action::Undo),
        (Modifiers::Control, Key::Char('r')) => Some(Action::Redo),
        (Modifiers::Shift, Key::Char('?')) => Some(Action::Ui(UiAction::ToggleHelp)),
        (Modifiers::Plain, Key::Char('h')) => Some(Action::Ui(UiAction::ToggleHelp)),
        (Modifiers::Plain, Key::Char('n')) => Some(Action::Search(SearchAction::NextMatch)),
        (Modifiers::Shift, Key::Char('N')) => Some(Action::Search(SearchAction::PrevMatch)),
        (Modifiers::Plain, Key::Char(' ')) => Some(Action::Ui(UiAction::SetMode(Mode::Input))),
        (Modifiers::Plain, Key::Enter) => Some(Action::Ui(UiAction::SetMode(Mode::Input))),
        _ => None,
    }
}

/// Dispatches one action that is not a batch; a store on which every action
/// can run accepts it.
pub(crate) fn dispatch_one(store: &mut Store, action: Action)
    requires
        store_wf(old(store)@),
        store_ok(old(store)@),
        !(action is Batch),
        scroll_fits(old(store)@.state, action),
    ensures
        store_wf(final(store)@),
        store_ok(final(store)@),
        dispatch_step(old(store)@, action, final(store)@),
{
    state_fits(store.state());
    proof {
        law_wf_accepts(store@.state, action);
        lemma_leaf_can_reduce(store@.state, action);
    }
    store.dispatch(action);
}

/// Dispatches one more action of a sequence that started at `s0`.
pub(crate) fn send(store: &mut Store, action: Action, Ghost(s0): Ghost<StoreView>, Ghost(acts): Ghost<Seq<Action>>)
    requires
        store_wf(old(store)@),
        store_ok(old(store)@),
        !(action is Batch),
        scroll_fits(old(store)@.state, action),
        dispatches(s0, acts, old(store)@),
    ensures
        store_wf(final(store)@),
        store_ok(final(store)@),
        dispatch_step(old(store)@, action, final(store)@),
        dispatches(s0, acts.push(action), final(store)@),
{
    let ghost a = action;
    let ghost before = store@;
    dispatch_one(store, action);
    proof {
        lemma_dispatches_push(s0, acts, before, a, store@);
    }
}

/// Handles a key in normal mode: navigation and switching modes. Returns
/// whether the key did something; a key with no binding changes nothing and
/// calls no subscriber.
pub fn handle_normal_mode(store: &mut Store, key: KeyInput) -> (handled: bool)
    requires
        store_wf(old(store)@),
        store_ok(old(store)@),
    ensures
        store_wf(final(store)@),
        store_ok(final(store)@),
        match normal_action(key) {
            Some(a) => handled && dispatch_step(old(store)@, a, final(store)@),
            None => !handled && final(store)@ == old(store)@,
        },
        key == (KeyInput { modifiers: Modifiers::Plain, code: Key::Char('G') }) ==> handled
            && final(store)@.state.scroll_offset == crate::laws::bottom_offset(old(store)@.state.messages.len()),
        key == (KeyInput { modifiers: Modifiers::Plain, code: Key::Char('g') }) ==> handled
            && final(store)@.state.scroll_offset == 0,
{
    state_fits(store.state());
    let ghost s0 = store@;
    let action = match (key.modifiers, key.code) {
        (Modifiers::Control, Key::Char('c')) => Action::quit(),
        (Modifiers::Plain, Key::Char('q')) => Action::quit(),
        (Modifiers::Plain, Key::Char('i')) | (Modifiers::Plain, Key::Char('a')) => Action::set_mode(Mode::Input),
        (Modifiers::Plain, Key::Char(':')) => Action::set_mode(Mode::Command),
        (Modifiers::Plain, Key::Char('/')) => Action::set_mode(Mode::Search),
        (Modifiers::Plain, Key::Char('t')) | (Modifiers::Control, Key::Char('t')) => Action::toggle_theme(),
        (Modifiers::Plain, Key::Char('j')) | (Modifiers::Plain, Key::Down) => Action::scroll_down(1),
        (Modifiers::Plain, Key::Char('k')) | (Modifiers::Plain, Key::Up) => Action::scroll_up(1),
        (Modifiers::Plain, Key::Char('g')) => Action::scroll_to_top(),
        (Modifiers::Plain, Key::Char('G')) => Action::scroll_to_bottom(),
        (Modifiers::Plain, Key::Char('u')) => Action::Undo,
        (Modifiers::Control, Key::Char('r')) => Action::Redo,
        (Modifiers::Shift, Key::Char('?')) => Action::toggle_help(),
        (Modifiers::Plain, Key::Char('h')) => Action::toggle_help(),
        (Modifiers::Plain, Key::Char('n')) => Action::next_match(),
        (Modifiers::Shift, Key::Char('N')) => Action::prev_match(),
        (Modifiers::Plain, Key::Char(' ')) | (Modifiers::Plain, Key::Enter) => Action::set_mode(Mode::Input),
        _ => {
            return false;
        },
    };
    assert(normal_action(key) == Some(action));
    dispatch_one(store, action);
    proof {
        if key == (KeyInput { modifiers: Modifiers::Plain, code: Key::Char('G') }) {
            crate::laws::law_g_keys(s0, store@, false);
        }
        if key == (KeyInput { modifiers: Modifiers::Plain, code: Key::Char('g') }) {
            crate::laws::law_g_keys(s0, store@, true);
        }
    }
    true
}

/// The reply added after each message while no model answers.
pub open spec fn placeholder_reply() -> Seq<char> {
    "I received your message. This is a placeholder response.\nIn the future, this will be connected to an LLM."@
}

/// The single action a key dispatches in input mode, for the keys that
/// dispatch exactly one action whatever the state.
pub open spec fn input_key_action(k: KeyInput) -> Option<Action> {
    match (k.modifiers, k.code) {
        (Modifiers::Control, Key::Char('c')) => Some(Action::Ui(UiAction::Quit)),
        (Modifiers::Plain, Key::Esc) => Some(Action::Ui(UiAction::SetMode(Mode::Normal))),
        (Modifiers::Plain, Key::Enter) => None,
        (Modifiers::Control, Key::Char('t')) => Some(Action::Ui(UiAction::ToggleTheme)),
        (Modifiers::Plain, Key::Char(c)) => Some(Action::Input(InputAction::InsertChar(c))),
        (Modifiers::Control, Key::Char('a')) => Some(Action::Input(InputAction::MoveCursorStart)),
        (Modifiers::Control, Key::Char('e')) => Some(Action::Input(InputAction::MoveCursorEnd)),
        (Modifiers::Control, Key::Char('w')) => Some(Action::Input(InputAction::DeleteWordBackward)),
        (Modifiers::Control, Key::Char('u')) => Some(Action::Input(InputAction::ClearInput)),
        (Modifiers::Control, Key::Char('k')) => Some(Action::Input(InputAction::DeleteWordForward)),
        (Modifiers::Plain, Key::Backspace) => Some(Action::Input(InputAction::DeleteChar)),
        (Modifiers::Plain, Key::Delete) => Some(Action::Input(InputAction::DeleteCharForward)),
        (Modifiers::Plain, Key::Left) => Some(Action::Input(InputAction::MoveCursorLeft)),
        (Modifiers::Plain, Key::Right) => Some(Action::Input(InputAction::MoveCursorRight)),
        (Modifiers::Plain, Key::Home) => Some(Action::Input(InputAction::MoveCursorStart)),
        (Modifiers::Plain, Key::End) => Some(Action::Input(InputAction::MoveCursorEnd)),
        (Modifiers::Control, Key::Left) => Some(Action::Input(InputAction::MoveCursorWordLeft)),
        (Modifiers::Alt, Key::Left) => Some(Action::Input(InputAction::MoveCursorWordLeft)),
        (Modifiers::Control, Key::Right) => Some(Action::Input(InputAction::MoveCursorWordRight)),
        (Modifiers::Alt, Key::Right) => Some(Action::Input(InputAction::MoveCursorWordRight)),
        _ => None,
    }
}

/// What a key dispatches in input mode, from state `s`: the keys of
/// `input_key_action`; Enter sends a non-blank line as a user message followed
/// by the placeholder reply; Up and Down scroll when the line is empty and walk
/// the input history otherwise.
pub open spec fn input_mode_acts(s: StateView, k: KeyInput, acts: Seq<Action>) -> bool {
    match (k.modifiers, k.code) {
        (Modifiers::Plain, Key::Enter) => if all_space(s.input) {
            acts.len() == 0
        } else {
            &&& acts.len() == 2
            &&& adds_fresh_message(acts[0], MessageRole::User, s.input)
            &&& adds_fresh_message(acts[1], MessageRole::Assistant, placeholder_reply())
        },
        (Modifiers::Plain, Key::Up) => acts == seq![
            if s.input.len() == 0 {
                Action::Navigation(NavigationAction::ScrollUp(1))
            } else {
                Action::Input(InputAction::HistoryUp)
            },
        ],
        (Modifiers::Plain, Key::Down) => acts == seq![
            if s.input.len() == 0 {
                Action::Navigation(NavigationAction::ScrollDown(1))
            } else {
                Action::Input(InputAction::HistoryDown)
            },
        ],
        _ => match input_key_action(k) {
            Some(a) => acts == seq![a],
            None => acts.len() == 0,
        },
    }
}

/// Whether a key does something in input mode.
pub open spec fn input_mode_handles(k: KeyInput) -> bool {
    ||| input_key_action(k) is Some
    ||| k == (KeyInput { modifiers: Modifiers::Plain, code: Key::Enter })
    ||| k == (KeyInput { modifiers: Modifiers::Plain, code: Key::Up })
    ||| k == (KeyInput { modifiers: Modifiers::Plain, code: Key::Down })
}

/// Handles a key in input mode: editing the line and sending it. Returns
/// whether the key did something.
pub fn handle_input_mode(store: &mut Store, key: KeyInput) -> (handled: bool)
    requires
        store_wf(old(store)@),
        store_ok(old(store)@),
    ensures
        store_wf(final(store)@),
        store_ok(final(store)@),
        handled == input_mode_handles(key),
        exists|acts: Seq<Action>| #[trigger] dispatches(old(store)@, acts, final(store)@)
            && input_mode_acts(old(store)@.state, key, acts),
{
    let ghost s0 = store@;
    proof {
        lemma_dispatches_none(s0);
    }
    let single = match (key.modifiers, key.code) {
        (Modifiers::Control, Key::Char('c')) => Action::quit(),
        (Modifiers::Plain, Key::Esc) => Action::set_mode(Mode::Normal),
        (Modifiers::Plain, Key::Enter) => {
            let content = store.state().input.clone();
            if !is_blank(content.as_str()) {
                let first = Action::user_message(content.as_str());
                let ghost g1 = first;
                send(store, first, Ghost(s0), Ghost(Seq::empty()));
                let second = Action::assistant_message(
                    "I received your message. This is a placeholder response.\nIn the future, this will be connected to an LLM.",
                );
                let ghost g2 = second;
                let ghost acts1 = seq![g1];
                send(store, second, Ghost(s0), Ghost(acts1));
                proof {
                    reveal_strlit("I received your message. This is a placeholder response.\nIn the future, this will be connected to an LLM.");
                    assert(Seq::<Action>::empty().push(g1) =~= seq![g1]);
                    assert(seq![g1].push(g2) =~= seq![g1, g2]);
                    assert(dispatches(s0, seq![g1, g2], store@));
                }
            } else {
                assert(dispatches(s0, Seq::empty(), store@));
            }
            return true;
        },
        (Modifiers::Control, Key::Char('t')) => Action::toggle_theme(),
        (Modifiers::Plain, Key::Char(c)) => Action::insert_char(c),
        (Modifiers::Control, Key::Char('a')) => Action::Input(InputAction::MoveCursorStart),
        (Modifiers::Control, Key::Char('e')) => Action::Input(InputAction::MoveCursorEnd),
        (Modifiers::Control, Key::Char('w')) => Action::Input(InputAction::DeleteWordBackward),
        (Modifiers::Control, Key::Char('u')) => Action::Input(InputAction::ClearInput),
        (Modifiers::Control, Key::Char('k')) => Action::Input(InputAction::DeleteWordForward),
        (Modifiers::Plain, Key::Backspace) => Action::delete_char(),
        (Modifiers::Plain, Key::Delete) => Action::Input(InputAction::DeleteCharForward),
        (Modifiers::Plain, Key::Left) => Action::Input(InputAction::MoveCursorLeft),
        (Modifiers::Plain, Key::Right) => Action::Input(InputAction::MoveCursorRight),
        (Modifiers::Plain, Key::Home) => Action::Input(InputAction::MoveCursorStart),
        (Modifiers::Plain, Key::End) => Action::Input(InputAction::MoveCursorEnd),
        (Modifiers::Plain, Key::Up) => if store.state().input.as_str().is_empty() {
            Action::scroll_up(1)
        } else {
            Action::Input(InputAction::HistoryUp)
        },
        (Modifiers::Plain, Key::Down) => if store.state().input.as_str().is_empty() {
            Action::scroll_down(1)
        } else {
            Action::Input(InputAction::HistoryDown)
        },
        (Modifiers::Control, Key::Left) | (Modifiers::Alt, Key::Left) => Action::Input(InputAction::MoveCursorWordLeft),
        (Modifiers::Control, Key::Right) | (Modifiers::Alt, Key::Right) => Action::Input(InputAction::MoveCursorWordRight),
        _ => {
            assert(dispatches(s0, Seq::empty(), store@));
            return false;
        },
    };
    let ghost g = single;
    send(store, single, Ghost(s0), Ghost(Seq::empty()));
    proof {
        assert(Seq::<Action>::empty().push(g) =~= seq![g]);
        assert(dispatches(s0, seq![g], store@));
    }
    true
}

/// `a` shows `m` as a status message.
pub open spec fn is_status(a: Action, m: Seq<char>, e: bool) -> bool {
    a matches Action::Ui(UiAction::ShowStatus { message, is_error }) && message@ == m && is_error == e
}

/// `a` searches for `q`.
pub open spec fn is_search(a: Action, q: Seq<char>) -> bool {
    a matches Action::Search(SearchAction::Search(x)) && x@ == q
}

/// `a` records `c` in the command history.
pub open spec fn is_add_command(a: Action, c: Seq<char>) -> bool {
    a matches Action::Command(CommandAction::AddCommand(x)) && x@ == c
}

/// `a` creates a session named `n`.
pub open spec fn is_new_named(a: Action, n: Seq<char>) -> bool {
    a matches Action::Session(SessionAction::NewSessionWithName(x)) && x@ == n
}

/// What a command word dispatches, with its arguments, where `cs` tells
/// whether search was case sensitive before.
pub open spec fn command_body_acts(cs: bool, cmd: Seq<char>, args: Seq<Seq<char>>, acts: Seq<Action>) -> bool {
    if cmd == "q"@ || cmd == "quit"@ || cmd == "exit"@ {
        acts == seq![Action::Ui(UiAction::Quit)]
    } else if cmd == "h"@ || cmd == "help"@ || cmd == "?"@ {
        acts == seq![Action::Ui(UiAction::ShowHelp)]
    } else if cmd == "clear"@ || cmd == "cls"@ {
        &&& acts.len() == 2
        &&& acts[0] == Action::Message(crate::actions::MessageAction::ClearMessages)
        &&& is_status(acts[1], "Messages cleared"@, false)
    } else if cmd == "theme"@ || cmd == "th"@ {
        acts == seq![Action::Ui(UiAction::ToggleTheme)]
    } else if cmd == "new"@ || cmd == "newsession"@ {
        if args.len() == 0 {
            acts == seq![Action::Session(SessionAction::NewSession)]
        } else {
            acts.len() == 1 && is_new_named(acts[0], join(args, " "@))
        }
    } else if cmd == "save"@ || cmd == "w"@ {
        acts == seq![Action::Session(SessionAction::SaveSession)]
    } else if cmd == "sessions"@ || cmd == "ls"@ {
        acts == seq![Action::Session(SessionAction::ListSessions)]
    } else if cmd == "search"@ || cmd == "find"@ || cmd == "/"@ {
        if args.len() == 0 {
            acts.len() == 1 && is_status(acts[0], "Usage: :search <query>"@, true)
        } else {
            &&& acts.len() == 2
            &&& is_search(acts[0], join(args, " "@))
            &&& acts[1] == Action::Ui(UiAction::SetMode(Mode::Normal))
        }
    } else if cmd == "undo"@ || cmd == "u"@ {
        acts == seq![Action::Undo]
    } else if cmd == "redo"@ || cmd == "r"@ {
        acts == seq![Action::Redo]
    } else if cmd == "case"@ || cmd == "ic"@ {
        &&& acts.len() == 2
        &&& acts[0] == Action::Search(SearchAction::ToggleCaseSensitive)
        &&& is_status(
            acts[1],
            if !cs { "Case sensitive search enabled"@ } else { "Case insensitive search enabled"@ },
            false,
        )
    } else {
        acts.len() == 1 && is_status(acts[0], "Unknown command: "@ + cmd, true)
    }
}

/// What running `command` from state `s` dispatches: the command is recorded;
/// a command with a word then runs its first word with the rest as arguments,
/// clears the line and returns to normal mode.
pub open spec fn command_acts(s: StateView, command: Seq<char>, acts: Seq<Action>) -> bool {
    let ws = words(command);
    if ws.len() == 0 {
        acts.len() == 1 && is_add_command(acts[0], command)
    } else {
        &&& acts.len() >= 3
        &&& is_add_command(acts[0], command)
        &&& command_body_acts(s.case_sensitive, ws[0], ws.skip(1), acts.subrange(1, acts.len() - 2))
        &&& acts[acts.len() - 2] == Action::Input(InputAction::ClearInput)
        &&& acts.last() == Action::Ui(UiAction::SetMode(Mode::Normal))
    }
}

/// Dispatches what a command word does.
fn run_command_word(
    store: &mut Store,
    cmd: &str,
    parts: &Vec<String>,
    Ghost(s0): Ghost<StoreView>,
    Ghost(acts0): Ghost<Seq<Action>>,
) -> (body: Ghost<Seq<Action>>)
    requires
        store_wf(old(store)@),
        store_ok(old(store)@),
        dispatches(s0, acts0, old(store)@),
        parts@.len() >= 1,
    ensures
        store_wf(final(store)@),
        store_ok(final(store)@),
        dispatches(s0, acts0 + body@, final(store)@),
        command_body_acts(
            old(store)@.state.case_sensitive,
            cmd@,
            crate::reducers::texts_view(parts@).skip(1),
            body@,
        ),
{
    let ghost args = crate::reducers::texts_view(parts@).skip(1);
    let ghost start = store@;
    assert(acts0 + Seq::<Action>::empty() =~= acts0);
    if same_text(cmd, "q") || same_text(cmd, "quit") || same_text(cmd, "exit") {
        let a = Action::quit();
        let ghost g = a;
        send(store, a, Ghost(s0), Ghost(acts0));
        assert(acts0.push(g) =~= acts0 + seq![g]);
        let ghost r = seq![g];
        Ghost(r)
    } else if same_text(cmd, "h") || same_text(cmd, "help") || same_text(cmd, "?") {
        let a = Action::show_help();
        let ghost g = a;
        send(store, a, Ghost(s0), Ghost(acts0));
        assert(acts0.push(g) =~= acts0 + seq![g]);
        let ghost r = seq![g];
        Ghost(r)
    } else if same_text(cmd, "clear") || same_text(cmd, "cls") {
        let a = Action::clear_messages();
        let ghost g = a;
        send(store, a, Ghost(s0), Ghost(acts0));
        let b = Action::show_status("Messages cleared", false);
        let ghost h = b;
        let ghost acts1 = acts0.push(g);
        send(store, b, Ghost(s0), Ghost(acts1));
        assert(acts1.push(h) =~= acts0 + seq![g, h]);
        let ghost r = seq![g, h];
        Ghost(r)
    } else if same_text(cmd, "theme") || same_text(cmd, "th") {
        let a = Action::toggle_theme();
        let ghost g = a;
        send(store, a, Ghost(s0), Ghost(acts0));
        assert(acts0.push(g) =~= acts0 + seq![g]);
        let ghost r = seq![g];
        Ghost(r)
    } else if same_text(cmd, "new") || same_text(cmd, "newsession") {
        let a = if parts.len() == 1 {
            Action::new_session()
        } else {
            let name = join_from(parts, 1, " ");
            Action::new_session_with_name(name.as_str())
        };
        let ghost g = a;
        send(store, a, Ghost(s0), Ghost(acts0));
        assert(acts0.push(g) =~= acts0 + seq![g]);
        let ghost r = seq![g];
        Ghost(r)
    } else if same_text(cmd, "save") || same_text(cmd, "w") {
        let a = Action::save_session();
        let ghost g = a;
        send(store, a, Ghost(s0), Ghost(acts0));
        assert(acts0.push(g) =~= acts0 + seq![g]);
        let ghost r = seq![g];
        Ghost(r)
    } else if same_text(cmd, "sessions") || same_text(cmd, "ls") {
        let a = Action::Session(SessionAction::ListSessions);
        let ghost g = a;
        send(store, a, Ghost(s0), Ghost(acts0));
        assert(acts0.push(g) =~= acts0 + seq![g]);
        let ghost r = seq![g];
        Ghost(r)
    } else if same_text(cmd, "search") || same_text(cmd, "find") || same_text(cmd, "/") {
        if parts.len() == 1 {
            let a = Action::show_status("Usage: :search <query>", true);
            let ghost g = a;
            send(store, a, Ghost(s0), Ghost(acts0));
            assert(acts0.push(g) =~= acts0 + seq![g]);
            let ghost r = seq![g];
            Ghost(r)
        } else {
            let query = join_from(parts, 1, " ");
            let a = Action::search(query.as_str());
            let ghost g = a;
            send(store, a, Ghost(s0), Ghost(acts0));
            let b = Action::set_mode(Mode::Normal);
            let ghost h = b;
            let ghost acts1 = acts0.push(g);
            send(store, b, Ghost(s0), Ghost(acts1));
            assert(acts1.push(h) =~= acts0 + seq![g, h]);
            let ghost r = seq![g, h];
            Ghost(r)
        }
    } else if same_text(cmd, "undo") || same_text(cmd, "u") {
        send(store, Action::Undo, Ghost(s0), Ghost(acts0));
        assert(acts0.push(Action::Undo) =~= acts0 + seq![Action::Undo]);
        let ghost r = seq![Action::Undo];
        Ghost(r)
    } else if same_text(cmd, "redo") || same_text(cmd, "r") {
        send(store, Action::Redo, Ghost(s0), Ghost(acts0));
        assert(acts0.push(Action::Redo) =~= acts0 + seq![Action::Redo]);
        let ghost r = seq![Action::Redo];
        Ghost(r)
    } else if same_text(cmd, "case") || same_text(cmd, "ic") {
        let a = Action::Search(SearchAction::ToggleCaseSensitive);
        let ghost g = a;
        send(store, a, Ghost(s0), Ghost(acts0));
        proof {
            lemma_leaf_result(start.state, g, store@.state);
        }
        let b = if store.state().case_sensitive {
            Action::show_status("Case sensitive search enabled", false)
        } else {
            Action::show_status("Case insensitive search enabled", false)
        };
        let ghost h = b;
        let ghost acts1 = acts0.push(g);
        send(store, b, Ghost(s0), Ghost(acts1));
        assert(acts1.push(h) =~= acts0 + seq![g, h]);
        let ghost r = seq![g, h];
        Ghost(r)
    } else {
        let mut text = String::from_str("Unknown command: ");
        crate::text::push_str(&mut text, cmd);
        let a = Action::show_status(text.as_str(), true);
        let ghost g = a;
        send(store, a, Ghost(s0), Ghost(acts0));
        assert(acts0.push(g) =~= acts0 + seq![g]);
        let ghost r = seq![g];
        Ghost(r)
    }
}

/// Runs a command line typed in command mode: records it in the command
/// history, then runs its first word with the rest as arguments.
pub fn execute_command(store: &mut Store, command: &str)
    requires
        store_wf(old(store)@),
        store_ok(old(store)@),
    ensures
        store_wf(final(store)@),
        store_ok(final(store)@),
        exists|acts: Seq<Action>| #[trigger] dispatches(old(store)@, acts, final(store)@)
            && command_acts(old(store)@.state, command@, acts),
{
    let ghost s0 = store@;
    proof {
        lemma_dispatches_none(s0);
    }
    let a = Action::add_command(command);
    let ghost g = a;
    send(store, a, Ghost(s0), Ghost(Seq::empty()));
    let ghost acts0 = seq![g];
    proof {
        assert(Seq::<Action>::empty().push(g) =~= acts0);
        lemma_leaf_result(s0.state, g, store@.state);
    }
    let parts = split_words(command);
    if parts.len() == 0 {
        assert(dispatches(s0, acts0, store@) && command_acts(s0.state, command@, acts0));
        return ;
    }
    let cmd = parts[0].as_str();
    let body = run_command_word(store, cmd, &parts, Ghost(s0), Ghost(acts0));
    let c1 = Action::Input(InputAction::ClearInput);
    let ghost acts1 = acts0 + body@;
    send(store, c1, Ghost(s0), Ghost(acts1));
    let c2 = Action::set_mode(Mode::Normal);
    let ghost h = c2;
    let ghost acts2 = acts1.push(Action::Input(InputAction::ClearInput));
    send(store, c2, Ghost(s0), Ghost(acts2));
    proof {
        let all = acts2.push(h);
        assert(all.subrange(1, all.len() - 2) =~= body@);
        assert(dispatches(s0, all, store@) && command_acts(s0.state, command@, all));
    }
}

/// What a key dispatches in command mode, from state `s`.
pub open spec fn command_mode_acts(s: StateView, k: KeyInput, acts: Seq<Action>) -> bool {
    match (k.modifiers, k.code) {
        (Modifiers::Plain, Key::Esc) => acts == seq![
            Action::Input(InputAction::ClearInput),
            Action::Ui(UiAction::SetMode(Mode::Normal)),
        ],
        (Modifiers::Plain, Key::Enter) => command_acts(s, trimmed(s.input), acts),
        (Modifiers::Plain, Key::Char(c)) => acts == seq![Action::Input(InputAction::InsertChar(c))],
        (Modifiers::Plain, Key::Backspace) => if input_next(s, InputAction::DeleteChar).input.len() == 0 {
            acts == seq![
                Action::Input(InputAction::DeleteChar),
                Action::Ui(UiAction::SetMode(Mode::Normal)),
            ]
        } else {
            acts == seq![Action::Input(InputAction::DeleteChar)]
        },
        (Modifiers::Plain, Key::Up) => acts == seq![Action::Command(CommandAction::CommandHistoryUp)],
        (Modifiers::Plain, Key::Down) => acts == seq![Action::Command(CommandAction::CommandHistoryDown)],
        _ => acts.len() == 0,
    }
}

/// Whether a key does something in command mode (Tab is taken and does nothing yet).
pub open spec fn command_mode_handles(k: KeyInput) -> bool {
    k.modifiers == Modifiers::Plain && (k.code is Esc || k.code is Enter || k.code is Char
        || k.code is Backspace || k.code is Up || k.code is Down || k.code is Tab)
}

/// Handles a key in command mode: typing a command and running it. Returns
/// whether the key did something.
pub fn handle_command_mode(store: &mut Store, key: KeyInput) -> (handled: bool)
    requires
        store_wf(old(store)@),
        store_ok(old(store)@),
    ensures
        store_wf(final(store)@),
        store_ok(final(store)@),
        handled == command_mode_handles(key),
        exists|acts: Seq<Action>| #[trigger] dispatches(old(store)@, acts, final(store)@)
            && command_mode_acts(old(store)@.state, key, acts),
{
    let ghost s0 = store@;
    proof {
        lemma_dispatches_none(s0);
    }
    match (key.modifiers, key.code) {
        (Modifiers::Plain, Key::Esc) => {
            let a = Action::Input(InputAction::ClearInput);
            send(store, a, Ghost(s0), Ghost(Seq::empty()));
            let ghost acts1 = seq![Action::Input(InputAction::ClearInput)];
            assert(Seq::<Action>::empty().push(Action::Input(InputAction::ClearInput)) =~= acts1);
            let b = Action::set_mode(Mode::Normal);
            send(store, b, Ghost(s0), Ghost(acts1));
            proof {
                let all = seq![Action::Input(InputAction::ClearInput), Action::Ui(UiAction::SetMode(Mode::Normal))];
                assert(acts1.push(Action::Ui(UiAction::SetMode(Mode::Normal))) =~= all);
                assert(dispatches(s0, all, store@));
            }
            true
        },
        (Modifiers::Plain, Key::Enter) => {
            let command = trim(store.state().input.as_str());
            execute_command(store, command.as_str());
            true
        },
        (Modifiers::Plain, Key::Char(c)) => {
            let a = Action::insert_char(c);
            let ghost g = a;
            send(store, a, Ghost(s0), Ghost(Seq::empty()));
            proof {
                assert(Seq::<Action>::empty().push(g) =~= seq![g]);
                assert(dispatches(s0, seq![g], store@));
            }
            true
        },
        (Modifiers::Plain, Key::Backspace) => {
            let a = Action::delete_char();
            let ghost g = a;
            send(store, a, Ghost(s0), Ghost(Seq::empty()));
            proof {
                assert(Seq::<Action>::empty().push(g) =~= seq![g]);
                lemma_leaf_result(s0.state, g, store@.state);
            }
            if store.state().input.as_str().is_empty() {
                let b = Action::set_mode(Mode::Normal);
                let ghost h = b;
                let ghost acts1 = seq![g];
                send(store, b, Ghost(s0), Ghost(acts1));
                proof {
                    assert(acts1.push(h) =~= seq![g, h]);
                    assert(dispatches(s0, seq![g, h], store@));
                }
            } else {
                assert(dispatches(s0, seq![g], store@));
            }
            true
        },
        (Modifiers::Plain, Key::Up) => {
            let a = Action::Command(CommandAction::CommandHistoryUp);
            let ghost g = a;
            send(store, a, Ghost(s0), Ghost(Seq::empty()));
            proof {
                assert(Seq::<Action>::empty().push(g) =~= seq![g]);
                assert(dispatches(s0, seq![g], store@));
            }
            true
        },
        (Modifiers::Plain, Key::Down) => {
            let a = Action::Command(CommandAction::CommandHistoryDown);
            let ghost g = a;
            send(store, a, Ghost(s0), Ghost(Seq::empty()));
            proof {
                assert(Seq::<Action>::empty().push(g) =~= seq![g]);
                assert(dispatches(s0, seq![g], store@));
            }
            true
        },
        (Modifiers::Plain, Key::Tab) => {
            assert(dispatches(s0, Seq::empty(), store@));
            true
        },
        _ => {
            assert(dispatches(s0, Seq::empty(), store@));
            false
        },
    }
}

/// What a key dispatches in search mode, from state `s`.
pub open spec fn search_mode_acts(s: StateView, k: KeyInput, acts: Seq<Action>) -> bool {
    match (k.modifiers, k.code) {
        (Modifiers::Plain, Key::Esc) => acts == seq![
            Action::Input(InputAction::ClearInput),
            Action::Search(SearchAction::ClearSearch),
            Action::Ui(UiAction::SetMode(Mode::Normal)),
        ],
        (Modifiers::Plain, Key::Enter) => {
            let q = trimmed(s.input);
            if q.len() > 0 {
                &&& acts.len() == 3
                &&& is_search(acts[0], q)
                &&& acts[1] == Action::Input(InputAction::ClearInput)
                &&& acts[2] == Action::Ui(UiAction::SetMode(Mode::Normal))
            } else {
                acts == seq![
                    Action::Input(InputAction::ClearInput),
                    Action::Ui(UiAction::SetMode(Mode::Normal)),
                ]
            }
        },
        (Modifiers::Plain, Key::Char(c)) => {
            let t = input_next(s, InputAction::InsertChar(c)).input;
            if t.len() > 0 {
                acts.len() == 2 && acts[0] == Action::Input(InputAction::InsertChar(c)) && is_search(acts[1], t)
            } else {
                acts == seq![Action::Input(InputAction::InsertChar(c))]
            }
        },
        (Modifiers::Plain, Key::Backspace) => {
            let t = input_next(s, InputAction::DeleteChar).input;
            if t.len() == 0 {
                acts == seq![
                    Action::Input(InputAction::DeleteChar),
                    Action::Search(SearchAction::ClearSearch),
                    Action::Ui(UiAction::SetMode(Mode::Normal)),
                ]
            } else {
                acts.len() == 2 && acts[0] == Action::Input(InputAction::DeleteChar) && is_search(acts[1], t)
            }
        },
        _ => acts.len() == 0,
    }
}

/// Whether a key does something in search mode.
pub open spec fn search_mode_handles(k: KeyInput) -> bool {
    k.modifiers == Modifiers::Plain && (k.code is Esc || k.code is Enter || k.code is Char || k.code is Backspace)
}

/// Handles a key in search mode: typing a query, which searches as it is
/// typed. Returns whether the key did something.
pub fn handle_search_mode(store: &mut Store, key: KeyInput) -> (handled: bool)
    requires
        store_wf(old(store)@),
        store_ok(old(store)@),
    ensures
        store_wf(final(store)@),
        store_ok(final(store)@),
        handled == search_mode_handles(key),
        exists|acts: Seq<Action>| #[trigger] dispatches(old(store)@, acts, final(store)@)
            && search_mode_acts(old(store)@.state, key, acts),
{
    let ghost s0 = store@;
    proof {
        lemma_dispatches_none(s0);
    }
    let ghost clear = Action::Input(InputAction::ClearInput);
    let ghost normal = Action::Ui(UiAction::SetMode(Mode::Normal));
    let ghost unsearch = Action::Search(SearchAction::ClearSearch);
    match (key.modifiers, key.code) {
        (Modifiers::Plain, Key::Esc) => {
            send(store, Action::Input(InputAction::ClearInput), Ghost(s0), Ghost(Seq::empty()));
            let ghost acts1 = seq![clear];
            assert(Seq::<Action>::empty().push(clear) =~= acts1);
            send(store, Action::clear_search(), Ghost(s0), Ghost(acts1));
            let ghost acts2 = seq![clear, unsearch];
            assert(acts1.push(unsearch) =~= acts2);
            send(store, Action::set_mode(Mode::Normal), Ghost(s0), Ghost(acts2));
            proof {
                assert(acts2.push(normal) =~= seq![clear, unsearch, normal]);
                assert(dispatches(s0, seq![clear, unsearch, normal], store@));
            }
            true
        },
        (Modifiers::Plain, Key::Enter) => {
            let query = trim(store.state().input.as_str());
            let ghost mut acts: Seq<Action> = Seq::empty();
            if !query.as_str().is_empty() {
                let a = Action::search(query.as_str());
                let ghost g = a;
                send(store, a, Ghost(s0), Ghost(acts));
                proof {
                    acts = acts.push(g);
                }
            }
            send(store, Action::Input(InputAction::ClearInput), Ghost(s0), Ghost(acts));
            proof {
                acts = acts.push(clear);
            }
            send(store, Action::set_mode(Mode::Normal), Ghost(s0), Ghost(acts));
            proof {
                acts = acts.push(normal);
                assert(dispatches(s0, acts, store@));
                if query@.len() == 0 {
                    assert(acts =~= seq![clear, normal]);
                }
            }
            true
        },
        (Modifiers::Plain, Key::Char(c)) => {
            let a = Action::insert_char(c);
            let ghost g = a;
            send(store, a, Ghost(s0), Ghost(Seq::empty()));
            let ghost acts1 = seq![g];
            proof {
                assert(Seq::<Action>::empty().push(g) =~= acts1);
                lemma_leaf_result(s0.state, g, store@.state);
            }
            let query = store.state().input.clone();
            if !query.as_str().is_empty() {
                let b = Action::Search(SearchAction::Search(query));
                let ghost h = b;
                send(store, b, Ghost(s0), Ghost(acts1));
                proof {
                    assert(acts1.push(h) =~= seq![g, h]);
                    assert(dispatches(s0, seq![g, h], store@));
                }
            } else {
                assert(dispatches(s0, acts1, store@));
            }
            true
        },
        (Modifiers::Plain, Key::Backspace) => {
            let a = Action::delete_char();
            let ghost g = a;
            send(store, a, Ghost(s0), Ghost(Seq::empty()));
            let ghost acts1 = seq![g];
            proof {
                assert(Seq::<Action>::empty().push(g) =~= acts1);
                lemma_leaf_result(s0.state, g, store@.state);
            }
            let query = store.state().input.clone();
            if query.as_str().is_empty() {
                send(store, Action::clear_search(), Ghost(s0), Ghost(acts1));
                let ghost acts2 = seq![g, unsearch];
                assert(acts1.push(unsearch) =~= acts2);
                send(store, Action::set_mode(Mode::Normal), Ghost(s0), Ghost(acts2));
                proof {
                    assert(acts2.push(normal) =~= seq![g, unsearch, normal]);
                    assert(dispatches(s0, seq![g, unsearch, normal], store@));
                }
            } else {
                let b = Action::Search(SearchAction::Search(query));
                let ghost h = b;
                send(store, b, Ghost(s0), Ghost(acts1));
                proof {
                    assert(acts1.push(h) =~= seq![g, h]);
                    assert(dispatches(s0, seq![g, h], store@));
                }
            }
            true
        },
        _ => {
            assert(dispatches(s0, Seq::empty(), store@));
            false
        },
    }
}

/// `s` without its leading colons.
pub open spec fn strip_colons(s: Seq<char>) -> Seq<char>
    decreases s.len(),
{
    if s.len() > 0 && s[0] == ':' {
        strip_colons(s.drop_first())
    } else {
        s
    }
}

/// `s` without its leading colons (`str::trim_start_matches(':')`).
fn trim_colons(s: &str) -> (r: String)
    ensures
        r@ == strip_colons(s@),
{
    let v = crate::text::chars_of(s);
    let mut i: usize = 0;
    assert(v@.skip(0) =~= v@);
    while i < v.len() && v[i] == ':'
        invariant
            v@ == s@,
            i <= v@.len(),
            strip_colons(s@) == strip_colons(v@.skip(i as int)),
        decreases v@.len() - i,
    {
        assert(v@.skip(i as int).drop_first() =~= v@.skip(i + 1));
        i = i + 1;
    }
    let mut out: Vec<char> = Vec::new();
    let mut k: usize = i;
    while k < v.len()
        invariant
            v@ == s@,
            i <= k <= v@.len(),
            out@ =~= v@.subrange(i as int, k as int),
        decreases v@.len() - k,
    {
        out.push(v[k]);
        k = k + 1;
    }
    assert(out@ =~= v@.skip(i as int));
    crate::text::string_of(&out)
}

/// What a colon command dispatches: quit, help, clear, theme, or an error
/// status for anything else.
pub open spec fn colon_acts(cmd: Seq<char>, acts: Seq<Action>) -> bool {
    let c = trimmed(strip_colons(cmd));
    if c == "q"@ || c == "quit"@ || c == "exit"@ {
        acts == seq![Action::Ui(UiAction::Quit)]
    } else if c == "h"@ || c == "help"@ {
        acts == seq![Action::Ui(UiAction::ToggleHelp)]
    } else if c == "clear"@ {
        acts == seq![Action::Message(crate::actions::MessageAction::ClearMessages)]
    } else if c == "theme"@ {
        acts == seq![Action::Ui(UiAction::ToggleTheme)]
    } else {
        acts.len() == 1 && is_status(acts[0], "Unknown command: "@ + c, true)
    }
}

/// Runs a colon command: leading colons and surrounding whitespace are ignored.
pub fn handle_colon_command(store: &mut Store, cmd: &str)
    requires
        store_wf(old(store)@),
        store_ok(old(store)@),
    ensures
        store_wf(final(store)@),
        store_ok(final(store)@),
        exists|acts: Seq<Action>| #[trigger] dispatches(old(store)@, acts, final(store)@)
            && colon_acts(cmd@, acts),
{
    let ghost s0 = store@;
    proof {
        lemma_dispatches_none(s0);
    }
    let stripped = trim_colons(cmd);
    let c = trim(stripped.as_str());
    let a = if same_text(c.as_str(), "q") || same_text(c.as_str(), "quit") || same_text(c.as_str(), "exit") {
        Action::quit()
    } else if same_text(c.as_str(), "h") || same_text(c.as_str(), "help") {
        Action::toggle_help()
    } else if same_text(c.as_str(), "clear") {
        Action::clear_messages()
    } else if same_text(c.as_str(), "theme") {
        Action::toggle_theme()
    } else {
        let mut text = String::from_str("Unknown command: ");
        crate::text::push_str(&mut text, c.as_str());
        Action::show_status(text.as_str(), true)
    };
    let ghost g = a;
    send(store, a, Ghost(s0), Ghost(Seq::empty()));
    proof {
        assert(Seq::<Action>::empty().push(g) =~= seq![g]);
        assert(dispatches(s0, seq![g], store@));
    }
}

/// Handles a key by the current mode. Returns whether the key did something.
pub fn handle_key_event(store: &mut Store, key: KeyInput) -> (handled: bool)
    requires
        store_wf(old(store)@),
        store_ok(old(store)@),
    ensures
        store_wf(final(store)@),
        store_ok(final(store)@),
        old(store)@.state.mode == Mode::Normal ==> match normal_action(key) {
            Some(a) => handled && dispatch_step(old(store)@, a, final(store)@),
            None => !handled && final(store)@ == old(store)@,
        },
        old(store)@.state.mode == Mode::Input ==> handled == input_mode_handles(key) && exists|
            acts: Seq<Action>,
        | #[trigger] dispatches(old(store)@, acts, final(store)@) && input_mode_acts(old(store)@.state, key, acts),
        old(store)@.state.mode == Mode::Command ==> handled == command_mode_handles(key) && exists|
            acts: Seq<Action>,
        | #[trigger] dispatches(old(store)@, acts, final(store)@) && command_mode_acts(old(store)@.state, key, acts),
        old(store)@.state.mode == Mode::Search ==> handled == search_mode_handles(key) && exists|
            acts: Seq<Action>,
        | #[trigger] dispatches(old(store)@, acts, final(store)@) && search_mode_acts(old(store)@.state, key, acts),
{
    match store.state().mode {
        Mode::Normal => handle_normal_mode(store, key),
        Mode::Input => handle_input_mode(store, key),
        Mode::Command => handle_command_mode(store, key),
        Mode::Search => handle_search_mode(store, key),
    }
}

} // verus!
