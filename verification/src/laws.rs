//! Properties that relate several operations: batches, undo and redo, the
//! theme switch, input history and search steps, sessions and subscriptions.
use vstd::prelude::*;
use crate::actions::{
    Action, InputAction, MessageAction, Mode, NavigationAction, SearchAction, SessionAction, UiAction,
};
use crate::event::{command_body_acts, normal_action, Key, KeyInput, Modifiers};
use crate::view::{footer_lines, has_hit, header_lines, message_area, message_block, message_blocks, Tone};
use crate::history::pushed_past;
use crate::invariants::sessions_distinct;
use crate::reducers::{lemma_session_index, session_index, SessionView, StateView};
use crate::store::{
    dispatch_runs, dispatch_step, dispatches, notices, records, without_id, StoreView, SubscriberId,
};
use crate::text::byte_len;
use crate::transitions::{
    flatten, flatten_all, input_next, leaf_step, lemma_runs_concat, lemma_runs_prefix, reduces_to,
    lemma_leaf_result, lemma_message_index, message_index, navigation_next, runs, search_next,
    session_step, ui_next,
};

verus! {

/// The states that applying `acts` in order to `s` can lead to.
pub open spec fn batch_runs(s: StateView, acts: Seq<Action>, r: StateView) -> bool {
    exists|sts: Seq<StateView>| #[trigger] runs(s, flatten_all(acts), sts) && sts.last() == r
}

/// Splitting a run of two lists of actions after the first.
proof fn lemma_runs_split(s: StateView, l1: Seq<Action>, l2: Seq<Action>, sts: Seq<StateView>)
    requires
        runs(s, l1 + l2, sts),
    ensures
        runs(s, l1, sts.take(l1.len() as int + 1)),
        runs(sts[l1.len() as int], l2, sts.skip(l1.len() as int)),
        sts.take(l1.len() as int + 1).last() == sts[l1.len() as int],
        sts.skip(l1.len() as int).last() == sts.last(),
{
    let n = l1.len() as int;
    let l = l1 + l2;
    assert(l.take(n) =~= l1);
    lemma_runs_prefix(s, l, sts, n);
    let t = sts.skip(n);
    assert forall|i: int| 0 <= i < l2.len() implies leaf_step(t[i], #[trigger] l2[i], t[i + 1]) by {
        assert(l[n + i] == l2[i]);
        assert(leaf_step(sts[n + i], l[n + i], sts[n + i + 1]));
    }
}

/// A batch is the list of its actions, applied in order.
pub proof fn law_batch_is_its_actions(s: StateView, a: Action, r: StateView)
    requires
        a is Batch,
    ensures
        reduces_to(s, a, r) == batch_runs(s, a->Batch_0@, r),
{
    assert(flatten(a) == flatten_all(a->Batch_0@));
}

/// An empty batch changes nothing.
pub proof fn law_empty_batch(s: StateView, r: StateView)
    ensures
        batch_runs(s, Seq::empty(), r) == (r == s),
{
    assert(flatten_all(Seq::<Action>::empty()) =~= Seq::<Action>::empty());
    if r == s {
        assert(runs(s, flatten_all(Seq::<Action>::empty()), seq![s]));
    }
}

/// A batch applies its actions one after another: applying `acts` followed
/// by `a` is applying `acts`, then `a` to where they led.
pub proof fn law_batch_in_order(s: StateView, acts: Seq<Action>, a: Action, r: StateView)
    ensures
        batch_runs(s, acts.push(a), r) == exists|m: StateView| #[trigger]
            batch_runs(s, acts, m) && reduces_to(m, a, r),
{
    let all = acts.push(a);
    assert(all.drop_last() =~= acts);
    let l1 = flatten_all(acts);
    let l2 = flatten(a);
    assert(flatten_all(all) == l1 + l2);
    if batch_runs(s, all, r) {
        let sts = choose|sts: Seq<StateView>| #[trigger] runs(s, flatten_all(all), sts) && sts.last() == r;
        lemma_runs_split(s, l1, l2, sts);
        let m = sts[l1.len() as int];
        assert(batch_runs(s, acts, m));
        assert(reduces_to(m, a, r));
    }
    if exists|m: StateView| #[trigger] batch_runs(s, acts, m) && reduces_to(m, a, r) {
        let m = choose|m: StateView| #[trigger] batch_runs(s, acts, m) && reduces_to(m, a, r);
        let sts1 = choose|sts: Seq<StateView>| #[trigger] runs(s, flatten_all(acts), sts) && sts.last() == m;
        let sts2 = choose|sts: Seq<StateView>| #[trigger] runs(m, flatten(a), sts) && sts.last() == r;
        lemma_runs_concat(s, l1, sts1, l2, sts2);
        assert(runs(s, flatten_all(all), sts1 + sts2.drop_first()));
    }
}

/// Switching the theme twice gives back the state.
pub proof fn law_toggle_theme_twice(s: StateView)
    ensures
        ui_next(ui_next(s, UiAction::ToggleTheme), UiAction::ToggleTheme) == s,
{
    assert(ui_next(ui_next(s, UiAction::ToggleTheme), UiAction::ToggleTheme) =~= s);
}

/// Undo right after a recorded action gives back the state before it, and
/// keeps the state after it to redo.
pub proof fn law_undo_after_dispatch(s: StoreView, a: Action, m: StoreView, r: StoreView)
    requires
        !(a is Undo),
        !(a is Redo),
        s.record_history,
        records(a),
        dispatch_step(s, a, m),
        dispatch_step(m, Action::Undo, r),
    ensures
        r.state == s.state,
        r.history.future.len() > 0,
        r.history.future[0] == m.state,
{
    let p = pushed_past(s.history.past, s.state, s.history.max_size);
    assert(m.history.past == p);
    assert(p.len() > 0 && p.last() == s.state);
}

/// Redo right after an undo gives back the store as it was; the subscribers
/// were told of both moves.
pub proof fn law_redo_after_undo(s: StoreView, m: StoreView, r: StoreView)
    requires
        s.history.past.len() > 0,
        dispatch_step(s, Action::Undo, m),
        dispatch_step(m, Action::Redo, r),
    ensures
        r == (StoreView { calls: r.calls, ..s }),
        r.calls == s.calls + notices(s.subscriber_ids, m.state, Action::Undo)
            + notices(s.subscriber_ids, s.state, Action::Redo),
{
    assert(r.history.past =~= s.history.past);
    assert(r.history.future =~= s.history.future);
    assert(r =~= StoreView { calls: r.calls, ..s });
}

/// Undo right after a redo gives back the store as it was; the subscribers
/// were told of both moves.
pub proof fn law_undo_after_redo(s: StoreView, m: StoreView, r: StoreView)
    requires
        s.history.future.len() > 0,
        dispatch_step(s, Action::Redo, m),
        dispatch_step(m, Action::Undo, r),
    ensures
        r == (StoreView { calls: r.calls, ..s }),
        r.calls == s.calls + notices(s.subscriber_ids, m.state, Action::Redo)
            + notices(s.subscriber_ids, s.state, Action::Undo),
{
    assert(r.history.past =~= s.history.past);
    assert(r.history.future =~= s.history.future);
    assert(r =~= StoreView { calls: r.calls, ..s });
}

/// Undo and redo with nothing to move to leave the store as it is, and call
/// no subscriber.
pub proof fn law_nothing_to_move(s: StoreView, r: StoreView)
    ensures
        s.history.past.len() == 0 && dispatch_step(s, Action::Undo, r) ==> r == s,
        s.history.future.len() == 0 && dispatch_step(s, Action::Redo, r) ==> r == s,
{
}

/// A recorded action forgets what could be redone; an action that is not
/// recorded leaves the history as it is.
pub proof fn law_recording(s: StoreView, a: Action, r: StoreView)
    requires
        !(a is Undo),
        !(a is Redo),
        dispatch_step(s, a, r),
    ensures
        s.record_history && records(a) ==> r.history.future.len() == 0,
        !(s.record_history && records(a)) ==> r.history == s.history,
{
}

/// Walking up the input history shows its latest line with the cursor at
/// its end; walking back down past the end gives back the line that was
/// being typed, with the cursor at its end.
pub proof fn law_history_up_down(s: StateView)
    requires
        0 < s.input_history.len() <= usize::MAX,
        s.input_history_index is None,
        byte_len(s.input) <= usize::MAX,
        byte_len(s.input_history.last()) <= usize::MAX,
    ensures
        input_next(s, InputAction::HistoryUp).input == s.input_history.last(),
        input_next(s, InputAction::HistoryUp).input_history_index == Some((s.input_history.len() - 1) as usize),
        input_next(s, InputAction::HistoryUp).cursor_pos == byte_len(s.input_history.last()),
        input_next(input_next(s, InputAction::HistoryUp), InputAction::HistoryDown).input == s.input,
        input_next(input_next(s, InputAction::HistoryUp), InputAction::HistoryDown).input_history_index is None,
        input_next(input_next(s, InputAction::HistoryUp), InputAction::HistoryDown).cursor_pos == byte_len(s.input),
{
}

/// Stepping to the next search match and back to the previous one gives back
/// the match that was current, and the scroll position at it; so does the
/// reverse.
pub proof fn law_next_then_prev_match(s: StateView)
    requires
        0 < s.search_results.len() <= usize::MAX,
        s.current_match_index matches Some(c) && c < s.search_results.len(),
    ensures
        search_next(search_next(s, SearchAction::NextMatch), SearchAction::PrevMatch).current_match_index
            == s.current_match_index,
        search_next(search_next(s, SearchAction::NextMatch), SearchAction::PrevMatch).scroll_offset
            == s.search_results[s.current_match_index->Some_0 as int].message_index,
        search_next(search_next(s, SearchAction::PrevMatch), SearchAction::NextMatch).current_match_index
            == s.current_match_index,
        search_next(search_next(s, SearchAction::PrevMatch), SearchAction::NextMatch).scroll_offset
            == s.search_results[s.current_match_index->Some_0 as int].message_index,
{
    let n = s.search_results.len() as int;
    let c = s.current_match_index->Some_0 as int;
    if c + 1 < n {
        assert((c + 1) % n == c + 1) by (nonlinear_arith)
            requires 0 <= c + 1 < n;
    } else {
        assert((c + 1) % n == 0) by (nonlinear_arith)
            requires c + 1 == n, n > 0;
    }
    let p = if c == 0 { n - 1 } else { c - 1 };
    if p + 1 < n {
        assert((p + 1) % n == p + 1) by (nonlinear_arith)
            requires 0 <= p + 1 < n;
    } else {
        assert((p + 1) % n == 0) by (nonlinear_arith)
            requires p + 1 == n, n > 0;
    }
}

/// The messages shown are the messages of the session being worked on: where
/// they are before an action, they still are after it.
pub proof fn law_messages_mirror_session(s: StateView, a: Action, r: StateView)
    requires
        s.messages == s.current_session.messages,
        leaf_step(s, a, r),
    ensures
        r.messages == r.current_session.messages,
{
}

/// A new session is stored beside the others, none of which is replaced, and
/// its identifier differs from the one worked on before (short of `u64::MAX`
/// stored sessions).
pub proof fn law_new_session_keeps_stored(s: StateView, a: SessionAction, r: StateView)
    requires
        a is NewSession || a is NewSessionWithName,
        s.sessions.len() < u64::MAX,
        session_step(s, a, r),
    ensures
        r.sessions == s.sessions.push(r.current_session),
        r.current_session.id != s.current_session.id,
{
}

/// With no search results, stepping to the next or previous match changes
/// nothing.
pub proof fn law_no_results_no_step(s: StateView)
    requires
        s.search_results.len() == 0,
    ensures
        search_next(s, SearchAction::NextMatch) == s,
        search_next(s, SearchAction::PrevMatch) == s,
{
}

/// Two results agree on what an action draws from the clock and from the
/// identifier source: the session worked on's identifier and times, and the
/// messages' timestamps.
pub open spec fn same_draws(r1: StateView, r2: StateView) -> bool {
    &&& r1.current_session.id == r2.current_session.id
    &&& r1.current_session.created_at == r2.current_session.created_at
    &&& r1.current_session.modified_at == r2.current_session.modified_at
    &&& r1.messages.len() == r2.messages.len()
    &&& forall|i: int| 0 <= i < r1.messages.len() ==> #[trigger] r1.messages[i].timestamp == r2.messages[i].timestamp
}

/// Reducing is a function of the state and the action, but for the clock
/// readings and the fresh session identifiers it draws: two results of the
/// same action on the same state that agree on those are equal.
pub proof fn law_leaf_determined(s: StateView, a: Action, r1: StateView, r2: StateView)
    requires
        leaf_step(s, a, r1),
        leaf_step(s, a, r2),
        same_draws(r1, r2),
    ensures
        r1 == r2,
{
    match a {
        Action::Message(m) => {
            let cur = s.current_session.messages;
            match m {
                MessageAction::EditMessage { index, content } => {
                    if index < cur.len() {
                        assert(r1.messages[index as int].timestamp == r2.messages[index as int].timestamp);
                    }
                },
                MessageAction::EditMessageById { id, content } => {
                    if let Some(p) = message_index(cur, id@) {
                        lemma_message_index(cur, id@);
                        assert(r1.messages[p].timestamp == r2.messages[p].timestamp);
                    }
                },
                _ => {},
            }
            assert(r1.messages =~= r2.messages);
            assert(r1.current_session =~= r2.current_session);
            assert(r1 =~= r2);
        },
        Action::Session(x) => {
            assert(r1.current_session =~= r2.current_session);
            assert(r1 =~= r2);
        },
        _ => {},
    }
}

/// A session stored under `v[i]`'s identifier is found.
proof fn lemma_found(v: Seq<SessionView>, id: Seq<char>, i: int)
    requires
        0 <= i < v.len(),
        v[i].id == id,
    ensures
        session_index(v, id) is Some,
{
    lemma_session_index(v, id);
}

/// The session being worked on stays stored: where its identifier is among
/// the stored sessions, the identifier of the session being worked on after
/// any session action is among them too.
pub proof fn law_current_session_stored(s: StateView, a: SessionAction, r: StateView)
    requires
        session_index(s.sessions, s.current_session.id) is Some,
        session_step(s, a, r),
    ensures
        session_index(r.sessions, r.current_session.id) is Some,
{
    let v = s.sessions;
    let cur = s.current_session;
    lemma_session_index(v, cur.id);
    let k = session_index(v, cur.id)->Some_0;
    match a {
        SessionAction::NewSession | SessionAction::NewSessionWithName(_) | SessionAction::SaveSession => {
            let x = r.current_session;
            lemma_session_index(v, x.id);
            match session_index(v, x.id) {
                Some(i) => lemma_found(v.update(i, x), x.id, i),
                None => lemma_found(v.push(x), x.id, v.len() as int),
            }
        },
        SessionAction::SwitchSession(id) => {
            lemma_session_index(v, id@);
            if let Some(p) = session_index(v, id@) {
                match session_index(v, cur.id) {
                    Some(i) => lemma_found(v.update(i, cur), v[p].id, p),
                    None => lemma_found(v.push(cur), v[p].id, p),
                }
            }
        },
        SessionAction::DeleteSession(id) => {
            if v.len() > 1 {
                lemma_session_index(v, id@);
                let rest = crate::reducers::remove_session(v, id@);
                if cur.id == id@ {
                    if rest.len() > 0 {
                        lemma_found(rest, rest[0].id, 0);
                    }
                } else {
                    match session_index(v, id@) {
                        Some(i) => {
                            let j = if k < i { k } else { k - 1 };
                            assert(rest[j] == v[k]);
                            lemma_found(rest, cur.id, j);
                        },
                        None => {},
                    }
                }
            }
        },
        SessionAction::LoadSession(id) => {
            lemma_session_index(v, id@);
            if let Some(p) = session_index(v, id@) {
                lemma_found(v, v[p].id, p);
            }
        },
        _ => {},
    }
}

/// Deleting a session, where there are at least two, leaves no session
/// under its identifier and keeps every other stored session.
pub proof fn law_delete_session(s: StateView, id: String, r: StateView)
    requires
        sessions_distinct(s.sessions),
        s.sessions.len() >= 2,
        session_step(s, SessionAction::DeleteSession(id), r),
    ensures
        session_index(r.sessions, id@) is None,
        forall|j: int| 0 <= j < s.sessions.len() && s.sessions[j].id != id@
            ==> r.sessions.contains(#[trigger] s.sessions[j]),
{
    let v = s.sessions;
    lemma_session_index(v, id@);
    let rest = crate::reducers::remove_session(v, id@);
    assert(r.sessions == rest);
    match session_index(v, id@) {
        Some(i) => {
            assert forall|j: int| 0 <= j < rest.len() implies rest[j].id != id@ by {
                let k = if j < i { j } else { j + 1 };
                assert(rest[j] == v[k]);
            }
            assert forall|j: int| 0 <= j < v.len() && v[j].id != id@ implies rest.contains(#[trigger] v[j]) by {
                let k = if j < i { j } else { j - 1 };
                assert(rest[k] == v[j]);
            }
        },
        None => {},
    }
    lemma_session_index(rest, id@);
}

/// A subscription that was removed is not called again: telling the
/// remaining subscriptions calls none under its handle, and calls each of
/// the others.
pub proof fn law_unsubscribed_not_called(ids: Seq<SubscriberId>, id: SubscriberId, st: StateView, a: Action)
    ensures
        forall|k: int| 0 <= k < notices(without_id(ids, id), st, a).len()
            ==> (#[trigger] notices(without_id(ids, id), st, a)[k]).0 != id,
        forall|j: int| 0 <= j < ids.len() && ids[j] != id
            ==> notices(without_id(ids, id), st, a).contains((#[trigger] ids[j], st, a)),
    decreases ids.len(),
{
    let w = without_id(ids, id);
    let n = notices(w, st, a);
    if ids.len() > 0 {
        let d = ids.drop_last();
        law_unsubscribed_not_called(d, id, st, a);
        let wd = without_id(d, id);
        let nd = notices(wd, st, a);
        if ids.last() == id {
            assert(w == wd);
            assert forall|j: int| 0 <= j < ids.len() && ids[j] != id implies n.contains((#[trigger] ids[j], st, a)) by {
                assert(ids[j] == d[j]);
            }
        } else {
            assert(w == wd.push(ids.last()));
            assert(n =~= nd.push((ids.last(), st, a)));
            assert forall|j: int| 0 <= j < ids.len() && ids[j] != id implies n.contains((#[trigger] ids[j], st, a)) by {
                if j < d.len() {
                    assert(ids[j] == d[j]);
                    assert(nd.contains((d[j], st, a)));
                    let q = choose|q: int| 0 <= q < nd.len() && nd[q] == (d[j], st, a);
                    assert(n[q] == nd[q]);
                } else {
                    assert(n[n.len() - 1] == (ids[j], st, a));
                }
            }
        }
    }
}

/// The offset of the last message, or 0 when there is none.
pub open spec fn bottom_offset(n: nat) -> int {
    if n == 0 { 0 } else { n - 1 }
}

/// Scrolling to the bottom goes to the last message, as far as any scroll
/// down can go, and reaches the same place as scrolling down past the end;
/// nothing else changes.
pub proof fn law_scroll_to_bottom(s: StateView, k: usize)
    requires
        s.messages.len() <= usize::MAX,
    ensures
        navigation_next(s, NavigationAction::ScrollToBottom).scroll_offset == bottom_offset(s.messages.len()),
        navigation_next(s, NavigationAction::ScrollToBottom)
            == (StateView { scroll_offset: navigation_next(s, NavigationAction::ScrollToBottom).scroll_offset, ..s }),
        navigation_next(s, NavigationAction::ScrollDown(k)).scroll_offset
            <= navigation_next(s, NavigationAction::ScrollToBottom).scroll_offset,
        s.scroll_offset + k >= s.messages.len() ==> navigation_next(s, NavigationAction::ScrollDown(k)).scroll_offset
            == navigation_next(s, NavigationAction::ScrollToBottom).scroll_offset,
        navigation_next(s, NavigationAction::ScrollToTop).scroll_offset == 0,
{
}

/// In normal mode the plain key `G` scrolls to the last message and the
/// plain key `g` to the first, leaving the history and the rest of the state.
pub proof fn law_g_keys(s: StoreView, r: StoreView, up: bool)
    requires
        s.state.messages.len() <= usize::MAX,
        dispatch_step(
            s,
            normal_action(KeyInput { modifiers: Modifiers::Plain, code: Key::Char(if up { 'g' } else { 'G' }) })->Some_0,
            r,
        ),
    ensures
        r.state.scroll_offset == if up { 0 } else { bottom_offset(s.state.messages.len()) },
        r.state == (StateView { scroll_offset: r.state.scroll_offset, ..s.state }),
        r.history == s.history,
{
    let k = KeyInput { modifiers: Modifiers::Plain, code: Key::Char(if up { 'g' } else { 'G' }) };
    let a = normal_action(k)->Some_0;
    if up {
        assert(a == Action::Navigation(NavigationAction::ScrollToTop));
    } else {
        assert(a == Action::Navigation(NavigationAction::ScrollToBottom));
    }
    lemma_leaf_result(s.state, a, r.state);
}

/// A plain key press.
pub open spec fn plain(c: char) -> KeyInput {
    KeyInput { modifiers: Modifiers::Plain, code: Key::Char(c) }
}

/// A key pressed with Control.
pub open spec fn ctrl(c: char) -> KeyInput {
    KeyInput { modifiers: Modifiers::Control, code: Key::Char(c) }
}

/// What each bound key does in normal mode: `q` and Ctrl+C quit; `i`, `a`,
/// Space and Enter go to input mode, `:` to command mode and `/` to search
/// mode; `t` and Ctrl+T switch the theme; `j`/Down and `k`/Up scroll by one
/// message within the list; `u` undoes and Ctrl+R redoes; `h` and `?` show or
/// hide help; `n` and `N` step to the next and previous search match.
pub proof fn law_normal_keys(s: StoreView, key: KeyInput, r: StoreView)
    requires
        s.state.messages.len() <= usize::MAX,
        normal_action(key) is Some,
        dispatch_step(s, normal_action(key)->Some_0, r),
    ensures
        key == plain('q') || key == ctrl('c') ==> r.state.should_quit,
        key == plain('i') || key == plain('a') || key == plain(' ')
            || key == (KeyInput { modifiers: Modifiers::Plain, code: Key::Enter }) ==> r.state.mode == Mode::Input,
        key == plain(':') ==> r.state.mode == Mode::Command,
        key == plain('/') ==> r.state.mode == Mode::Search,
        key == plain('t') || key == ctrl('t') ==> r.state.theme != s.state.theme,
        key == plain('j') || key == (KeyInput { modifiers: Modifiers::Plain, code: Key::Down })
            ==> r.state.scroll_offset == if s.state.scroll_offset + 1 <= bottom_offset(s.state.messages.len()) {
                s.state.scroll_offset + 1
            } else {
                bottom_offset(s.state.messages.len())
            },
        key == plain('k') || key == (KeyInput { modifiers: Modifiers::Plain, code: Key::Up })
            ==> r.state.scroll_offset == if s.state.scroll_offset >= 1 { s.state.scroll_offset - 1 } else { 0 },
        key == plain('u') && s.history.past.len() > 0 ==> r.state == s.history.past.last()
            && r.history.future[0] == s.state,
        key == ctrl('r') && s.history.future.len() > 0 ==> r.state == s.history.future[0]
            && r.history.past.last() == s.state,
        (key == plain('u') && s.history.past.len() == 0) || (key == ctrl('r') && s.history.future.len() == 0) ==> r == s,
        key == plain('h') || key == (KeyInput { modifiers: Modifiers::Shift, code: Key::Char('?') })
            ==> r.state.show_help == !s.state.show_help,
        key == plain('n') && s.state.search_results.len() > 0 ==> r.state.current_match_index == Some(
            (((match s.state.current_match_index { Some(c) => c as int, None => 0 }) + 1)
                % (s.state.search_results.len() as int)) as usize,
        ),
        key == (KeyInput { modifiers: Modifiers::Shift, code: Key::Char('N') }) && s.state.search_results.len() > 0
            ==> r.state.current_match_index == Some(
            (match s.state.current_match_index {
                Some(c) => if c == 0 { s.state.search_results.len() - 1 } else { c - 1 },
                None => s.state.search_results.len() - 1,
            }) as usize,
        ),
{
    let a = normal_action(key)->Some_0;
    if !(a is Undo) && !(a is Redo) {
        lemma_leaf_result(s.state, a, r.state);
    }
}

/// A search that finds something selects its first match and scrolls to
/// the message of that match; stepping to the next or previous match scrolls
/// to the message of the match it selects.
pub proof fn law_search_shows_current_match(s: StateView, x: SearchAction)
    requires
        x is NextMatch || x is PrevMatch || (x matches SearchAction::Search(q) && q@.len() > 0),
        s.current_match_index matches Some(c) ==> c < s.search_results.len(),
        s.search_results.len() <= usize::MAX,
        search_next(s, x).search_results.len() > 0,
    ensures
        search_next(s, x).current_match_index matches Some(c) && c < search_next(s, x).search_results.len()
            && search_next(s, x).scroll_offset == search_next(s, x).search_results[c as int].message_index,
        x is Search ==> search_next(s, x).current_match_index == Some(0usize),
{
    let n = s.search_results.len() as int;
    if !(x is Search) {
        let cur: int = match s.current_match_index {
            Some(c) => c as int,
            None => 0,
        };
        assert(0 <= (cur + 1) % n < n) by (nonlinear_arith)
            requires n > 0;
    }
}

/// The undo command takes the store back to the state before the last
/// recorded change, which becomes the next state to redo; the redo command
/// takes it forward again. With nothing to move to, neither changes anything.
pub proof fn law_undo_redo_commands(
    s: StoreView,
    cs: bool,
    cmd: Seq<char>,
    args: Seq<Seq<char>>,
    acts: Seq<Action>,
    r: StoreView,
)
    requires
        cmd == "undo"@ || cmd == "u"@ || cmd == "redo"@ || cmd == "r"@,
        command_body_acts(cs, cmd, args, acts),
        dispatches(s, acts, r),
    ensures
        (cmd == "undo"@ || cmd == "u"@) && s.history.past.len() > 0 ==> {
            &&& r.state == s.history.past.last()
            &&& r.history.past == s.history.past.drop_last()
            &&& r.history.future == seq![s.state] + s.history.future
        },
        (cmd == "redo"@ || cmd == "r"@) && s.history.future.len() > 0 ==> {
            &&& r.state == s.history.future[0]
            &&& r.history.past == s.history.past.push(s.state)
            &&& r.history.future == s.history.future.drop_first()
        },
        (cmd == "undo"@ || cmd == "u"@) && s.history.past.len() == 0 ==> r == s,
        (cmd == "redo"@ || cmd == "r"@) && s.history.future.len() == 0 ==> r == s,
{
    reveal_strlit("q");
    reveal_strlit("quit");
    reveal_strlit("exit");
    reveal_strlit("h");
    reveal_strlit("help");
    reveal_strlit("?");
    reveal_strlit("clear");
    reveal_strlit("cls");
    reveal_strlit("theme");
    reveal_strlit("th");
    reveal_strlit("new");
    reveal_strlit("newsession");
    reveal_strlit("save");
    reveal_strlit("w");
    reveal_strlit("sessions");
    reveal_strlit("ls");
    reveal_strlit("search");
    reveal_strlit("find");
    reveal_strlit("/");
    reveal_strlit("undo");
    reveal_strlit("u");
    reveal_strlit("redo");
    reveal_strlit("r");
    let undo = cmd == "undo"@ || cmd == "u"@;
    assert(cmd.len() != "q"@.len() || cmd[0] != "q"@[0]);
    assert(cmd.len() != "quit"@.len() || cmd[0] != "quit"@[0]);
    assert(cmd.len() != "exit"@.len() || cmd[0] != "exit"@[0]);
    assert(cmd.len() != "h"@.len() || cmd[0] != "h"@[0]);
    assert(cmd.len() != "help"@.len() || cmd[0] != "help"@[0]);
    assert(cmd.len() != "?"@.len() || cmd[0] != "?"@[0]);
    assert(cmd.len() != "clear"@.len() || cmd[0] != "clear"@[0]);
    assert(cmd.len() != "cls"@.len() || cmd[0] != "cls"@[0]);
    assert(cmd.len() != "theme"@.len() || cmd[0] != "theme"@[0]);
    assert(cmd.len() != "th"@.len() || cmd[0] != "th"@[0]);
    assert(cmd.len() != "new"@.len() || cmd[0] != "new"@[0]);
    assert(cmd.len() != "newsession"@.len() || cmd[0] != "newsession"@[0]);
    assert(cmd.len() != "save"@.len() || cmd[0] != "save"@[0]);
    assert(cmd.len() != "w"@.len() || cmd[0] != "w"@[0]);
    assert(cmd.len() != "sessions"@.len() || cmd[0] != "sessions"@[0]);
    assert(cmd.len() != "ls"@.len() || cmd[0] != "ls"@[0]);
    assert(cmd.len() != "search"@.len() || cmd[0] != "search"@[0]);
    assert(cmd.len() != "find"@.len() || cmd[0] != "find"@[0]);
    assert(cmd.len() != "/"@.len() || cmd[0] != "/"@[0]);
    if undo {
        assert(acts == seq![Action::Undo]);
    } else {
        assert(cmd.len() != "undo"@.len() || cmd[0] != "undo"@[0]);
        assert(cmd.len() != "u"@.len() || cmd[0] != "u"@[0]);
        assert(acts == seq![Action::Redo]);
    }
    let sts = choose|sts: Seq<StoreView>| #[trigger] dispatch_runs(s, acts, sts) && sts.last() == r;
    assert(dispatch_step(sts[0], acts[0], sts[1]));
}

/// A message's content is highlighted exactly when a search is on and one of
/// its matches is in that message: then every content line shows its text as
/// a highlight; otherwise no piece of the message's lines is highlighted and
/// each content line is one plain piece.
pub proof fn law_highlight_only_hits(s: StateView, i: int)
    requires
        0 <= i < s.messages.len(),
    ensures
        forall|j: int, k: int|
            0 <= j < message_block(s, i).len() && 0 <= k < message_block(s, i)[j].len()
                && #[trigger] message_block(s, i)[j][k].tone == Tone::Highlight
                ==> (exists|m: int| 0 <= m < s.search_results.len() && #[trigger] s.search_results[m].message_index == i) && s.search_query is Some,
        (exists|m: int| 0 <= m < s.search_results.len() && #[trigger] s.search_results[m].message_index == i) && s.search_query is Some ==> forall|j: int|
            1 <= j < message_block(s, i).len() - 1 ==> (#[trigger] message_block(s, i)[j]).len() == 2
                && message_block(s, i)[j][1].tone == Tone::Highlight,
        !((exists|m: int| 0 <= m < s.search_results.len() && #[trigger] s.search_results[m].message_index == i) && s.search_query is Some) ==> forall|j: int|
            1 <= j < message_block(s, i).len() - 1 ==> (#[trigger] message_block(s, i)[j]).len() == 1
                && message_block(s, i)[j][0].tone == Tone::Plain,
{
    let b = message_block(s, i);
    let hl = has_hit(s.search_results, i) && s.search_query is Some;
    assert(has_hit(s.search_results, i) == exists|m: int| 0 <= m < s.search_results.len() && #[trigger] s.search_results[m].message_index == i);
    let m = s.messages[i];
    let lines = crate::llm::text_lines(m.content);
    let c = crate::view::content_lines(lines, hl);
    assert(b == seq![crate::view::role_heading(m.role)] + c + seq![Seq::<crate::view::SpanView>::empty()]);
    assert forall|j: int, k: int|
        0 <= j < b.len() && 0 <= k < b[j].len() && #[trigger] b[j][k].tone == Tone::Highlight implies hl by {
        if 1 <= j < b.len() - 1 {
            assert(b[j] == c[j - 1]);
            assert(c[j - 1] == crate::view::content_line(lines[j - 1], hl));
        } else if j == 0 {
            assert(b[0] == crate::view::role_heading(m.role));
        }
    }
    assert forall|j: int| 1 <= j < b.len() - 1 implies #[trigger] b[j] == crate::view::content_line(lines[j - 1], hl) by {
        assert(b[j] == c[j - 1]);
    }
}

/// No piece of the first `n` message blocks is highlighted when no search
/// result is shown.
proof fn lemma_blocks_plain(s: StateView, n: int)
    requires
        0 <= n <= s.messages.len(),
        !(s.search_query is Some && s.search_results.len() > 0),
    ensures
        forall|j: int, k: int| 0 <= j < message_blocks(s, n).len() && 0 <= k < message_blocks(s, n)[j].len()
            ==> (#[trigger] message_blocks(s, n)[j][k]).tone != Tone::Highlight,
    decreases n,
{
    if n > 0 {
        lemma_blocks_plain(s, n - 1);
        law_highlight_only_hits(s, n - 1);
        let a = message_blocks(s, n - 1);
        let b = message_block(s, n - 1);
        assert(message_blocks(s, n) == a + b);
        assert forall|j: int, k: int| 0 <= j < (a + b).len() && 0 <= k < (a + b)[j].len()
            implies (#[trigger] (a + b)[j][k]).tone != Tone::Highlight by {
            if j >= a.len() {
                assert((a + b)[j] == b[j - a.len()]);
            } else {
                assert((a + b)[j] == a[j]);
            }
        }
    }
}

/// Without a search that found something, nothing on the chat screen is
/// highlighted.
pub proof fn law_no_highlight_without_hits(s: StateView)
    requires
        !(s.search_query is Some && s.search_results.len() > 0),
    ensures
        forall|j: int, k: int| 0 <= j < message_area(s).len() && 0 <= k < message_area(s)[j].len()
            ==> (#[trigger] message_area(s)[j][k]).tone != Tone::Highlight,
{
    lemma_blocks_plain(s, s.messages.len() as int);
    let h = header_lines(s.mode);
    let body = if s.messages.len() == 0 {
        seq![seq![crate::view::sv("  What do you want to build?"@, Tone::Secondary, false)]]
    } else {
        message_blocks(s, s.messages.len() as int)
    };
    let f = footer_lines(s);
    assert(message_area(s) == h + body + f);
    assert forall|j: int, k: int| 0 <= j < (h + body + f).len() && 0 <= k < (h + body + f)[j].len()
        implies (#[trigger] (h + body + f)[j][k]).tone != Tone::Highlight by {
        if j < h.len() {
            assert((h + body + f)[j] == h[j]);
        } else if j < h.len() + body.len() {
            assert((h + body + f)[j] == body[j - h.len()]);
        } else {
            assert((h + body + f)[j] == f[j - h.len() - body.len()]);
        }
    }
}

} // verus!
