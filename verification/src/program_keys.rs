//! The key bindings of the terminal program in normal, command and search
//! mode: a smaller set than the event handler's, where Enter in command mode
//! runs a colon command.
use vstd::prelude::*;
use crate::actions::{Action, InputAction, Mode, NavigationAction, SearchAction, UiAction};
use crate::event::{
    colon_acts, dispatch_one, handle_colon_command, is_search, send, Key, KeyInput, Modifiers,
};
use crate::reducers::StateView;
use crate::store::{
    dispatch_step, dispatches, lemma_dispatches_none, store_ok, store_wf, Store, StoreView,
};

verus! {

/// The action a key dispatches in the program's normal mode, if any.
pub open spec fn program_normal_action(k: KeyInput) -> Option<Action> {
    match (k.modifiers, k.code) {
        (Modifiers::Control, Key::Char('c')) => Some(Action::Ui(UiAction::Quit)),
        (Modifiers::Plain, Key::Char('q')) => Some(Action::Ui(UiAction::Quit)),
        (Modifiers::Plain, Key::Char('i')) => Some(Action::Ui(UiAction::SetMode(Mode::Input))),
        (Modifiers::Plain, Key::Char('a')) => Some(Action::Ui(UiAction::SetMode(Mode::Input))),
        (Modifiers::Plain, Key::Char(':')) => Some(Action::Ui(UiAction::SetMode(Mode::Command))),
        (Modifiers::Plain, Key::Char('/')) => Some(Action::Ui(UiAction::SetMode(Mode::Search))),
        (Modifiers::Plain, Key::Char('t')) => Some(Action::Ui(UiAction::ToggleTheme)),
        (Modifiers::Control, Key::Char('t')) => Some(Action::Ui(UiAction::ToggleTheme)),
        (Modifiers::Plain, Key::Char('j')) => Some(Action::Navigation(NavigationAction::ScrollDown(1))),
        (Modifiers::Plain, Key::Down) => Some(Action::Navigation(NavigationAction::ScrollDown(1))),
        (Modifiers::Plain, Key::Char('k')) => Some(Action::Navigation(NavigationAction::ScrollUp(1))),
        (Modifiers::Plain, Key::Up) => Some(Action::Navigation(NavigationAction::ScrollUp(1))),
        (Modifiers::Plain, Key::Char('g')) => Some(Action::Navigation(NavigationAction::ScrollToTop)),
        (Modifiers::Plain, Key::Char('G')) => Some(Action::Navigation(NavigationAction::ScrollToBottom)),
        (Modifiers::Plain, Key::Char('h')) => Some(Action::Ui(UiAction::ToggleHelp)),
        (Modifiers::Shift, Key::Char('?')) => Some(Action::Ui(UiAction::ToggleHelp)),
        (Modifiers::Plain, Key::Char(' ')) => Some(Action::Ui(UiAction::SetMode(Mode::Input))),
        (Modifiers::Plain, Key::Enter) => Some(Action::Ui(UiAction::SetMode(Mode::Input))),
        _ => None,
    }
}

/// Handles a key in the program's normal mode.
pub fn handle_normal_mode(store: &mut Store, key: KeyInput)
    requires
        store_wf(old(store)@),
        store_ok(old(store)@),
    ensures
        store_wf(final(store)@),
        store_ok(final(store)@),
        match program_normal_action(key) {
            Some(a) => dispatch_step(old(store)@, a, final(store)@),
            None => final(store)@ == old(store)@,
        },
{
    let action = match (key.modifiers, key.code) {
        (Modifiers::Control, Key::Char('c')) => Action::quit(),
        (Modifiers::Plain, Key::Char('q')) => Action::quit(),
        (Modifiers::Plain, Key::Char('i')) | (Modifiers::Plain, Key::Char('a')) => Action::set_mode(Mode::Input),
        (Modifiers::Plain, Key::Char(':')) => Action::set_mode(Mode::Command),
        (Modifiers::Plain, Key::Char('/')) => Action::set_mode(Mode::Search),
        (Modifiers::Plain, Key::Char('t')) | (Modifiers::Control, Key::Char('t')) => Action::toggle_theme(),
        (Modifiers::Plain, Key::Char('j')) | (Modifiers::Plain, Key::Down) => Action::scroll_down(1),
        (Modifiers::Plain, Key::Char('k')) | (Modifiers::Plain, Key::Up) => Action::scroll_up(1),
        (Modifiers::Plain, Key::Char('g')) => Action::scroll_to_top(),
        (Modifiers::Plain, Key::Char('G')) => Action::scroll_to_bottom(),
        (Modifiers::Plain, Key::Char('h')) => Action::toggle_help(),
        (Modifiers::Shift, Key::Char('?')) => Action::toggle_help(),
        (Modifiers::Plain, Key::Char(' ')) | (Modifiers::Plain, Key::Enter) => Action::set_mode(Mode::Input),
        _ => {
            return ;
        },
    };
    assert(program_normal_action(key) == Some(action));
    dispatch_one(store, action);
}

/// What a key dispatches in the program's command mode, from state `s`:
/// Enter clears the line, returns to normal mode and runs the line as a
/// colon command.
pub open spec fn program_command_acts(s: StateView, k: KeyInput, acts: Seq<Action>) -> bool {
    match (k.modifiers, k.code) {
        (Modifiers::Control, Key::Char('c')) => acts == seq![Action::Ui(UiAction::Quit)],
        (Modifiers::Plain, Key::Esc) => acts == seq![Action::Ui(UiAction::SetMode(Mode::Normal))],
        (Modifiers::Plain, Key::Enter) => {
            &&& acts.len() >= 2
            &&& acts[0] == Action::Input(InputAction::ClearInput)
            &&& acts[1] == Action::Ui(UiAction::SetMode(Mode::Normal))
            &&& colon_acts(s.input, acts.skip(2))
        },
        (Modifiers::Plain, Key::Char(c)) => acts == seq![Action::Input(InputAction::InsertChar(c))],
        (Modifiers::Plain, Key::Backspace) => acts == seq![Action::Input(InputAction::DeleteChar)],
        _ => acts.len() == 0,
    }
}

/// Handles a key in the program's command mode.
pub fn handle_command_mode(store: &mut Store, key: KeyInput)
    requires
        store_wf(old(store)@),
        store_ok(old(store)@),
    ensures
        store_wf(final(store)@),
        store_ok(final(store)@),
        exists|acts: Seq<Action>| #[trigger] dispatches(old(store)@, acts, final(store)@)
            && program_command_acts(old(store)@.state, key, acts),
{
    let ghost s0 = store@;
    proof {
        lemma_dispatches_none(s0);
    }
    let single = match (key.modifiers, key.code) {
        (Modifiers::Control, Key::Char('c')) => Action::quit(),
        (Modifiers::Plain, Key::Esc) => Action::set_mode(Mode::Normal),
        (Modifiers::Plain, Key::Enter) => {
            let content = store.state().input.clone();
            let clear = Action::Input(InputAction::ClearInput);
            send(store, clear, Ghost(s0), Ghost(Seq::empty()));
            let ghost c = Action::Input(InputAction::ClearInput);
            let ghost acts1 = seq![c];
            assert(Seq::<Action>::empty().push(c) =~= acts1);
            let normal = Action::set_mode(Mode::Normal);
            let ghost n = normal;
            send(store, normal, Ghost(s0), Ghost(acts1));
            let ghost acts2 = seq![c, n];
            assert(acts1.push(n) =~= acts2);
            let ghost mid = store@;
            handle_colon_command(store, content.as_str());
            proof {
                let rest = choose|acts: Seq<Action>| #[trigger] dispatches(mid, acts, store@) && colon_acts(content@, acts);
                lemma_dispatches_concat(s0, acts2, mid, rest, store@);
                assert((acts2 + rest).skip(2) =~= rest);
                assert(dispatches(s0, acts2 + rest, store@));
            }
            return ;
        },
        (Modifiers::Plain, Key::Char(c)) => Action::insert_char(c),
        (Modifiers::Plain, Key::Backspace) => Action::delete_char(),
        _ => {
            assert(dispatches(s0, Seq::empty(), store@));
            return ;
        },
    };
    let ghost g = single;
    send(store, single, Ghost(s0), Ghost(Seq::empty()));
    proof {
        assert(Seq::<Action>::empty().push(g) =~= seq![g]);
        assert(dispatches(s0, seq![g], store@));
    }
}

/// What a key dispatches in the program's search mode, from state `s`.
pub open spec fn program_search_acts(s: StateView, k: KeyInput, acts: Seq<Action>) -> bool {
    match (k.modifiers, k.code) {
        (Modifiers::Control, Key::Char('c')) => acts == seq![Action::Ui(UiAction::Quit)],
        (Modifiers::Plain, Key::Esc) => acts == seq![
            Action::Search(SearchAction::ClearSearch),
            Action::Ui(UiAction::SetMode(Mode::Normal)),
        ],
        (Modifiers::Plain, Key::Enter) => if s.input.len() > 0 {
            &&& acts.len() == 3
            &&& is_search(acts[0], s.input)
            &&& acts[1] == Action::Input(InputAction::ClearInput)
            &&& acts[2] == Action::Ui(UiAction::SetMode(Mode::Normal))
        } else {
            acts == seq![Action::Input(InputAction::ClearInput), Action::Ui(UiAction::SetMode(Mode::Normal))]
        },
        (Modifiers::Plain, Key::Char(c)) => acts == seq![Action::Input(InputAction::InsertChar(c))],
        (Modifiers::Plain, Key::Backspace) => acts == seq![Action::Input(InputAction::DeleteChar)],
        _ => acts.len() == 0,
    }
}

/// Handles a key in the program's search mode.
pub fn handle_search_mode(store: &mut Store, key: KeyInput)
    requires
        store_wf(old(store)@),
        store_ok(old(store)@),
    ensures
        store_wf(final(store)@),
        store_ok(final(store)@),
        exists|acts: Seq<Action>| #[trigger] dispatches(old(store)@, acts, final(store)@)
            && program_search_acts(old(store)@.state, key, acts),
{
    let ghost s0 = store@;
    proof {
        lemma_dispatches_none(s0);
    }
    let ghost clear = Action::Input(InputAction::ClearInput);
    let ghost normal = Action::Ui(UiAction::SetMode(Mode::Normal));
    let ghost unsearch = Action::Search(SearchAction::ClearSearch);
    let single = match (key.modifiers, key.code) {
        (Modifiers::Control, Key::Char('c')) => Action::quit(),
        (Modifiers::Plain, Key::Esc) => {
            send(store, Action::clear_search(), Ghost(s0), Ghost(Seq::empty()));
            let ghost acts1 = seq![unsearch];
            assert(Seq::<Action>::empty().push(unsearch) =~= acts1);
            send(store, Action::set_mode(Mode::Normal), Ghost(s0), Ghost(acts1));
            proof {
                assert(acts1.push(normal) =~= seq![unsearch, normal]);
                assert(dispatches(s0, seq![unsearch, normal], store@));
            }
            return ;
        },
        (Modifiers::Plain, Key::Enter) => {
            let query = store.state().input.clone();
            let ghost mut acts: Seq<Action> = Seq::empty();
            if !query.as_str().is_empty() {
                let a = Action::search(query.as_str());
                let ghost g = a;
                send(store, a, Ghost(s0), Ghost(acts));
                proof {
                    acts = acts.push(g);
                }
            }
            send(store, Action::Input(InputAction::ClearInput), Ghost(s0), Ghost(acts));
            proof {
                acts = acts.push(clear);
            }
            send(store, Action::set_mode(Mode::Normal), Ghost(s0), Ghost(acts));
            proof {
                acts = acts.push(normal);
                assert(dispatches(s0, acts, store@));
                if query@.len() == 0 {
                    assert(acts =~= seq![clear, normal]);
                }
            }
            return ;
        },
        (Modifiers::Plain, Key::Char(c)) => Action::insert_char(c),
        (Modifiers::Plain, Key::Backspace) => Action::delete_char(),
        _ => {
            assert(dispatches(s0, Seq::empty(), store@));
            return ;
        },
    };
    let ghost g = single;
    send(store, single, Ghost(s0), Ghost(Seq::empty()));
    proof {
        assert(Seq::<Action>::empty().push(g) =~= seq![g]);
        assert(dispatches(s0, seq![g], store@));
    }
}

/// Dispatching one list after another.
proof fn lemma_dispatches_concat(
    s: StoreView,
    a1: Seq<Action>,
    m: StoreView,
    a2: Seq<Action>,
    r: StoreView,
)
    requires
        dispatches(s, a1, m),
        dispatches(m, a2, r),
    ensures
        dispatches(s, a1 + a2, r),
    decreases a2.len(),
{
    if a2.len() == 0 {
        assert(a1 + a2 =~= a1);
        let sts = choose|sts: Seq<StoreView>| #[trigger] crate::store::dispatch_runs(m, a2, sts) && sts.last() == r;
        assert(sts.len() == 1);
    } else {
        let sts = choose|sts: Seq<StoreView>| #[trigger] crate::store::dispatch_runs(m, a2, sts) && sts.last() == r;
        let k = a2.len() - 1;
        let before = sts[k];
        let init = a2.drop_last();
        let sts0 = sts.take(k + 1);
        assert forall|i: int| 0 <= i < init.len() implies dispatch_step(sts0[i], #[trigger] init[i], sts0[i + 1]) by {
            assert(dispatch_step(sts[i], a2[i], sts[i + 1]));
        }
        assert(crate::store::dispatch_runs(m, init, sts0));
        lemma_dispatches_concat(s, a1, m, init, before);
        assert(dispatch_step(sts[k], a2[k], sts[k + 1]));
        crate::store::lemma_dispatches_push(s, a1 + init, before, a2.last(), r);
        assert((a1 + init).push(a2.last()) =~= a1 + a2);
    }
}

} // verus!
