//! What each action does to the state, as relations between the state
//! before and after. Values read from the clock (modification times, edit
//! times) and fresh session identifiers are taken from the state after, so
//! that every other field is determined.
use vstd::prelude::*;
use crate::actions::{
    Action, CommandAction, FocusTarget, InputAction, MessageAction, MessageView, Mode,
    NavigationAction, SearchAction, SessionAction, UiAction,
};
use crate::input::{is_line_edit, line_edit, line_edit_pre};
use crate::reducers::{
    is_fresh_session, remove_session, session_index, upsert_session, SessionView, StateView, Theme,
};
use crate::search::{search_spec, SearchMatch};
use crate::text::{byte_len, decimal, is_white_space};

verus! {

/// `n - 1`, or 0 when `n` is 0.
pub open spec fn last_index(n: nat) -> usize {
    if n == 0 {
        0
    } else {
        (n - 1) as usize
    }
}

/// Whether every character is whitespace (the trimmed text is empty).
pub open spec fn all_space(s: Seq<char>) -> bool {
    forall|i: int| 0 <= i < s.len() ==> is_white_space(#[trigger] s[i])
}

/// The first index of a message with identifier `id`.
pub open spec fn message_index(v: Seq<MessageView>, id: Seq<char>) -> Option<int>
    decreases v.len(),
{
    if v.len() == 0 {
        None
    } else {
        match message_index(v.drop_last(), id) {
            Some(i) => Some(i),
            None => if v.last().id == id {
                Some(v.len() - 1)
            } else {
                None
            },
        }
    }
}

/// What the first index of a message is.
pub proof fn lemma_message_index(v: Seq<MessageView>, id: Seq<char>)
    ensures
        message_index(v, id) matches Some(i) ==> 0 <= i < v.len() && v[i].id == id && forall|j: int|
            0 <= j < i ==> v[j].id != id,
        message_index(v, id) is None ==> forall|j: int| 0 <= j < v.len() ==> v[j].id != id,
    decreases v.len(),
{
    if v.len() > 0 {
        let w = v.drop_last();
        lemma_message_index(w, id);
        assert forall|j: int| 0 <= j < w.len() implies w[j] == v[j] by {}
    }
}

/// The first index of a matching message is determined by where the first match is.
pub proof fn lemma_message_index_at(v: Seq<MessageView>, id: Seq<char>, i: int)
    requires
        0 <= i < v.len(),
        v[i].id == id,
        forall|j: int| 0 <= j < i ==> v[j].id != id,
    ensures
        message_index(v, id) == Some(i),
{
    lemma_message_index(v, id);
}

/// The state with the active session's messages replaced (and mirrored in
/// `messages`), modified at time `t`.
pub open spec fn with_session_messages(s: StateView, msgs: Seq<MessageView>, t: u64) -> StateView {
    StateView {
        current_session: SessionView { messages: msgs, modified_at: t, ..s.current_session },
        messages: msgs,
        ..s
    }
}

/// The state with the search cleared.
pub open spec fn without_search(s: StateView) -> StateView {
    StateView {
        search_query: None,
        search_results: Seq::empty(),
        current_match_index: None,
        ..s
    }
}

/// A message with new content edited at time `t`.
pub open spec fn edited(m: MessageView, content: Seq<char>, t: u64) -> MessageView {
    MessageView { content, timestamp: t, ..m }
}

/// Message actions.
pub open spec fn message_step(s: StateView, a: MessageAction, r: StateView) -> bool {
    let cur = s.current_session.messages;
    let t = r.current_session.modified_at;
    match a {
        MessageAction::AddMessage(m) => {
            let msgs = cur.push(m@);
            r == StateView { scroll_offset: last_index(msgs.len()), ..with_session_messages(s, msgs, t) }
        },
        MessageAction::ClearMessages => r == StateView {
            scroll_offset: 0,
            ..without_search(with_session_messages(s, Seq::empty(), t))
        },
        MessageAction::DeleteMessage(i) => if i < cur.len() {
            let msgs = cur.remove(i as int);
            let scroll = if s.scroll_offset >= msgs.len() {
                last_index(msgs.len())
            } else {
                s.scroll_offset
            };
            r == StateView { scroll_offset: scroll, ..with_session_messages(s, msgs, t) }
        } else {
            r == s
        },
        MessageAction::DeleteMessageById(id) => match message_index(cur, id@) {
            Some(p) => r == with_session_messages(s, cur.remove(p), t),
            None => r == s,
        },
        MessageAction::EditMessage { index, content } => {
            let msgs = if index < cur.len() {
                cur.update(index as int, edited(cur[index as int], content@, r.messages[index as int].timestamp))
            } else {
                cur
            };
            r == with_session_messages(s, msgs, t)
        },
        MessageAction::EditMessageById { id, content } => {
            let msgs = match message_index(cur, id@) {
                Some(p) => cur.update(p, edited(cur[p], content@, r.messages[p].timestamp)),
                None => cur,
            };
            r == with_session_messages(s, msgs, t)
        },
    }
}

/// The input line set to `text` with the cursor at its end.
pub open spec fn with_line(s: StateView, text: Seq<char>) -> StateView {
    StateView { input: text, cursor_pos: byte_len(text) as usize, ..s }
}

/// Input actions.
pub open spec fn input_next(s: StateView, a: InputAction) -> StateView {
    let h = s.input_history;
    match a {
        InputAction::SubmitInput => if !all_space(s.input) {
            StateView {
                input_history: h.push(s.input),
                input_history_index: None,
                saved_input: Seq::empty(),
                ..s
            }
        } else {
            s
        },
        InputAction::HistoryUp => if h.len() == 0 {
            s
        } else {
            let saved = if s.input_history_index is None {
                s.input
            } else {
                s.saved_input
            };
            let cur: int = match s.input_history_index {
                Some(i) => i as int,
                None => h.len() as int,
            };
            if cur > 0 {
                StateView {
                    saved_input: saved,
                    input_history_index: Some((cur - 1) as usize),
                    ..with_line(s, h[cur - 1])
                }
            } else {
                StateView { saved_input: saved, ..s }
            }
        },
        InputAction::HistoryDown => match s.input_history_index {
            None => s,
            Some(i) => if i + 1 >= h.len() {
                StateView { input_history_index: None, ..with_line(s, s.saved_input) }
            } else {
                StateView { input_history_index: Some((i + 1) as usize), ..with_line(s, h[i + 1]) }
            },
        },
        _ => {
            let (text, cursor) = line_edit(s.input, s.cursor_pos as int, a);
            StateView { input: text, cursor_pos: cursor as usize, ..s }
        },
    }
}

/// Navigation actions.
pub open spec fn navigation_next(s: StateView, a: NavigationAction) -> StateView {
    let n = s.messages.len();
    match a {
        NavigationAction::ScrollUp(k) => StateView {
            scroll_offset: if s.scroll_offset >= k { (s.scroll_offset - k) as usize } else { 0 },
            ..s
        },
        NavigationAction::ScrollDown(k) => {
            let target = s.scroll_offset + k;
            let max = last_index(n);
            StateView { scroll_offset: if target <= max { target as usize } else { max }, ..s }
        },
        NavigationAction::ScrollToTop => StateView { scroll_offset: 0, ..s },
        NavigationAction::ScrollToBottom => StateView { scroll_offset: last_index(n), ..s },
        NavigationAction::ScrollToMessage(i) => if i < n {
            StateView { scroll_offset: i, ..s }
        } else {
            s
        },
        NavigationAction::ScrollToMessageById(id) => match message_index(s.messages, id@) {
            Some(p) => StateView { scroll_offset: p as usize, ..s },
            None => s,
        },
        NavigationAction::NavigateBack => StateView { mode: Mode::Normal, ..s },
    }
}

/// Interface actions.
pub open spec fn ui_next(s: StateView, a: UiAction) -> StateView {
    match a {
        UiAction::ToggleTheme => StateView {
            theme: match s.theme {
                Theme::Light => Theme::Dark,
                Theme::Dark => Theme::Light,
            },
            ..s
        },
        UiAction::SetTheme(dark) => StateView { theme: if dark { Theme::Dark } else { Theme::Light }, ..s },
        UiAction::SetAgentState(x) => StateView { agent_state: x, ..s },
        UiAction::SetMode(m) => StateView { mode: m, ..s },
        UiAction::Quit => StateView { should_quit: true, ..s },
        UiAction::ShowHelp => StateView { show_help: true, focus: FocusTarget::HelpOverlay, ..s },
        UiAction::HideHelp => StateView { show_help: false, focus: FocusTarget::Input, ..s },
        UiAction::ToggleHelp => StateView {
            show_help: !s.show_help,
            focus: if !s.show_help { FocusTarget::HelpOverlay } else { FocusTarget::Input },
            ..s
        },
        UiAction::SetFocus(f) => StateView { focus: f, ..s },
        UiAction::ShowStatus { message, is_error } => StateView {
            status_message: Some(message@),
            status_is_error: is_error,
            ..s
        },
        UiAction::ClearStatus => StateView { status_message: None, status_is_error: false, ..s },
    }
}

/// `Some(0)` when there are results, `None` otherwise.
pub open spec fn first_match(results: Seq<SearchMatch>) -> Option<usize> {
    if results.len() == 0 {
        None
    } else {
        Some(0)
    }
}

/// Search actions.
pub open spec fn search_next(s: StateView, a: SearchAction) -> StateView {
    let res = s.search_results;
    match a {
        SearchAction::Search(q) => if q@.len() == 0 {
            without_search(s)
        } else {
            let found = search_spec(s.messages, q@, s.case_sensitive);
            StateView {
                search_query: Some(q@),
                search_results: found,
                current_match_index: first_match(found),
                scroll_offset: if found.len() > 0 { found[0].message_index } else { s.scroll_offset },
                ..s
            }
        },
        SearchAction::ClearSearch => without_search(s),
        SearchAction::NextMatch => if res.len() == 0 {
            s
        } else {
            let cur: int = match s.current_match_index {
                Some(c) => c as int,
                None => 0,
            };
            let next = (cur + 1) % (res.len() as int);
            StateView {
                current_match_index: Some(next as usize),
                scroll_offset: res[next].message_index,
                ..s
            }
        },
        SearchAction::PrevMatch => if res.len() == 0 {
            s
        } else {
            let cur: int = match s.current_match_index {
                Some(c) => c as int,
                None => 0,
            };
            let prev = if cur == 0 { res.len() - 1 } else { cur - 1 };
            StateView {
                current_match_index: Some(prev as usize),
                scroll_offset: if prev < res.len() { res[prev].message_index } else { s.scroll_offset },
                ..s
            }
        },
        SearchAction::ToggleCaseSensitive => {
            let cs = !s.case_sensitive;
            match s.search_query {
                Some(q) => {
                    let found = search_spec(s.messages, q, cs);
                    StateView {
                        case_sensitive: cs,
                        search_results: found,
                        current_match_index: first_match(found),
                        ..s
                    }
                },
                None => StateView { case_sensitive: cs, ..s },
            }
        },
    }
}

/// The active session replaced by `sess` (whose messages become the list).
pub open spec fn switched_to(s: StateView, sess: SessionView, scroll: usize) -> StateView {
    StateView {
        current_session: sess,
        messages: sess.messages,
        scroll_offset: scroll,
        ..s
    }
}

/// A new session's identifier is neither the current session's nor a stored
/// session's (always so short of `u64::MAX` stored sessions).
pub open spec fn fresh_among(s: StateView, ns: SessionView) -> bool {
    s.sessions.len() < u64::MAX ==> ns.id != s.current_session.id && session_index(s.sessions, ns.id) is None
}

/// Session actions.
pub open spec fn session_step(s: StateView, a: SessionAction, r: StateView) -> bool {
    let ns = r.current_session;
    match a {
        SessionAction::NewSession => {
            &&& is_fresh_session(ns, None)
            &&& fresh_among(s, ns)
            &&& r == StateView {
                sessions: upsert_session(s.sessions, ns),
                status_message: Some("New session created"@),
                status_is_error: false,
                ..without_search(switched_to(s, ns, 0))
            }
        },
        SessionAction::NewSessionWithName(name) => {
            &&& is_fresh_session(ns, Some(name@))
            &&& fresh_among(s, ns)
            &&& r == StateView {
                sessions: upsert_session(s.sessions, ns),
                status_message: Some("New session created"@),
                status_is_error: false,
                ..switched_to(s, ns, 0)
            }
        },
        SessionAction::SwitchSession(id) => match session_index(s.sessions, id@) {
            Some(p) => {
                let sess = s.sessions[p];
                r == StateView {
                    sessions: upsert_session(s.sessions, s.current_session),
                    ..without_search(switched_to(s, sess, last_index(sess.messages.len())))
                }
            },
            None => r == s,
        },
        SessionAction::DeleteSession(id) => if s.sessions.len() <= 1 {
            r == StateView {
                status_message: Some("Cannot delete the last session"@),
                status_is_error: true,
                ..s
            }
        } else {
            let rest = remove_session(s.sessions, id@);
            if s.current_session.id == id@ && rest.len() > 0 {
                r == StateView { sessions: rest, ..switched_to(s, rest[0], 0) }
            } else {
                r == StateView { sessions: rest, ..s }
            }
        },
        SessionAction::RenameSession(name) => r == StateView {
            current_session: SessionView {
                name: Some(name@),
                modified_at: ns.modified_at,
                ..s.current_session
            },
            ..s
        },
        SessionAction::SaveSession => r == StateView {
            sessions: upsert_session(s.sessions, s.current_session),
            status_message: Some("Session saved"@),
            status_is_error: false,
            ..s
        },
        SessionAction::LoadSession(id) => match session_index(s.sessions, id@) {
            Some(p) => {
                let sess = s.sessions[p];
                r == switched_to(s, sess, last_index(sess.messages.len()))
            },
            None => r == s,
        },
        SessionAction::ListSessions => r == StateView {
            status_message: Some(decimal(s.sessions.len()) + " sessions available"@),
            status_is_error: false,
            ..s
        },
    }
}

/// The largest number of commands kept.
pub open spec fn command_history_limit() -> nat {
    100
}

/// Command actions.
pub open spec fn command_next(s: StateView, a: CommandAction) -> StateView {
    let h = s.command_history;
    match a {
        CommandAction::AddCommand(cmd) => if h.len() > 0 && h.last() == cmd@ {
            s
        } else {
            let h2 = h.push(cmd@);
            StateView {
                command_history: if h2.len() > command_history_limit() { h2.drop_first() } else { h2 },
                ..s
            }
        },
        CommandAction::CommandHistoryUp => if h.len() == 0 {
            s
        } else {
            let saved = if s.command_history_index is None {
                s.input
            } else {
                s.saved_command
            };
            let cur: int = match s.command_history_index {
                Some(i) => i as int,
                None => h.len() as int,
            };
            if cur > 0 {
                StateView {
                    saved_command: saved,
                    command_history_index: Some((cur - 1) as usize),
                    ..with_line(s, h[cur - 1])
                }
            } else {
                StateView { saved_command: saved, ..s }
            }
        },
        CommandAction::CommandHistoryDown => match s.command_history_index {
            None => s,
            Some(i) => if i + 1 >= h.len() {
                StateView { command_history_index: None, ..with_line(s, s.saved_command) }
            } else {
                StateView { command_history_index: Some((i + 1) as usize), ..with_line(s, h[i + 1]) }
            },
        },
        CommandAction::ClearCommandHistory => StateView {
            command_history: Seq::empty(),
            command_history_index: None,
            saved_command: Seq::empty(),
            ..s
        },
    }
}

/// One action that is not a batch: `r` is a possible state after applying it to `s`.
pub open spec fn leaf_step(s: StateView, a: Action, r: StateView) -> bool {
    match a {
        Action::Message(m) => message_step(s, m, r),
        Action::Input(i) => r == input_next(s, i),
        Action::Navigation(n) => r == navigation_next(s, n),
        Action::Ui(u) => r == ui_next(s, u),
        Action::Search(x) => r == search_next(s, x),
        Action::Session(x) => session_step(s, x, r),
        Action::Command(c) => r == command_next(s, c),
        Action::Undo => r == s,
        Action::Redo => r == s,
        Action::Batch(_) => r == s,
    }
}

/// The actions that are not batches, in the order in which `a` applies them.
pub open spec fn flatten(a: Action) -> Seq<Action>
    decreases a,
{
    match a {
        Action::Batch(v) => flatten_all(v@),
        _ => seq![a],
    }
}

/// The actions that are not batches, in the order in which `acts` applies them.
pub open spec fn flatten_all(acts: Seq<Action>) -> Seq<Action>
    decreases acts,
{
    if acts.len() == 0 {
        Seq::empty()
    } else {
        flatten_all(acts.drop_last()) + flatten(acts.last())
    }
}

/// `sts` lists the states that applying `leaves` in order to `s` passes through.
pub open spec fn runs(s: StateView, leaves: Seq<Action>, sts: Seq<StateView>) -> bool {
    &&& sts.len() == leaves.len() + 1
    &&& sts[0] == s
    &&& forall|i: int| 0 <= i < leaves.len() ==> leaf_step(sts[i], #[trigger] leaves[i], sts[i + 1])
}

/// `r` is a possible state after applying `a` to `s`; a batch applies its
/// actions in order.
pub open spec fn reduces_to(s: StateView, a: Action, r: StateView) -> bool {
    exists|sts: Seq<StateView>| #[trigger] runs(s, flatten(a), sts) && sts.last() == r
}

/// When an input action can be applied.
pub open spec fn input_can(s: StateView, i: InputAction) -> bool {
    if is_line_edit(i) {
        line_edit_pre(s.input, s.cursor_pos as int, i)
    } else {
        match i {
            InputAction::HistoryUp => s.input_history.len() == 0 || (s.input_history_index matches Some(
                k,
            ) ==> k <= s.input_history.len()),
            InputAction::HistoryDown => s.input_history_index matches Some(k) ==> k < usize::MAX,
            _ => true,
        }
    }
}

/// When a navigation action can be applied.
pub open spec fn navigation_can(s: StateView, n: NavigationAction) -> bool {
    match n {
        NavigationAction::ScrollDown(k) => s.scroll_offset + k <= usize::MAX,
        _ => true,
    }
}

/// When a search action can be applied.
pub open spec fn search_can(s: StateView, x: SearchAction) -> bool {
    match x {
        SearchAction::NextMatch => s.search_results.len() > 0 ==> (s.current_match_index matches Some(c)
            ==> c < usize::MAX),
        SearchAction::ToggleCaseSensitive => s.search_query matches Some(q) ==> q.len() > 0,
        _ => true,
    }
}

/// When a command action can be applied.
pub open spec fn command_can(s: StateView, c: CommandAction) -> bool {
    match c {
        CommandAction::CommandHistoryUp => s.command_history.len() == 0 || (
        s.command_history_index matches Some(k) ==> k <= s.command_history.len()),
        CommandAction::CommandHistoryDown => s.command_history_index matches Some(k) ==> k < usize::MAX,
        _ => true,
    }
}

/// When one action that is not a batch can be applied without a panic or an endless loop.
pub open spec fn leaf_can(s: StateView, a: Action) -> bool {
    match a {
        Action::Input(i) => input_can(s, i),
        Action::Navigation(n) => navigation_can(s, n),
        Action::Search(x) => search_can(s, x),
        Action::Command(c) => command_can(s, c),
        _ => true,
    }
}

/// When the actions of `l` can be applied in order, starting from `s`,
/// without a panic or an endless loop: each can be applied to every state
/// that the ones before it can lead to.
pub open spec fn leaves_can(s: StateView, l: Seq<Action>) -> bool {
    forall|k: int, sts: Seq<StateView>|
        0 <= k < l.len() && #[trigger] runs(s, l.take(k), sts) ==> leaf_can(sts.last(), l[k])
}

/// When `a` can be applied to `s` without a panic or an endless loop.
pub open spec fn can_reduce(s: StateView, a: Action) -> bool {
    leaves_can(s, flatten(a))
}

/// Running two lists of actions one after the other.
pub proof fn lemma_runs_concat(
    s: StateView,
    l1: Seq<Action>,
    sts1: Seq<StateView>,
    l2: Seq<Action>,
    sts2: Seq<StateView>,
)
    requires
        runs(s, l1, sts1),
        runs(sts1.last(), l2, sts2),
    ensures
        runs(s, l1 + l2, sts1 + sts2.drop_first()),
        (sts1 + sts2.drop_first()).last() == sts2.last(),
{
    let l = l1 + l2;
    let sts = sts1 + sts2.drop_first();
    assert forall|i: int| 0 <= i < l.len() implies leaf_step(sts[i], #[trigger] l[i], sts[i + 1]) by {
        if i < l1.len() {
            assert(l[i] == l1[i]);
            assert(sts[i] == sts1[i]);
            if i + 1 < sts1.len() {
                assert(sts[i + 1] == sts1[i + 1]);
            } else {
                assert(sts[i + 1] == sts2[1]);
                assert(sts1[i + 1] == sts1.last());
                assert(sts2[0] == sts1.last());
                assert(leaf_step(sts2[0], l2[0], sts2[1]));
            }
        } else {
            let j = i - l1.len();
            assert(l[i] == l2[j]);
            assert(leaf_step(sts2[j], l2[j], sts2[j + 1]));
            if j == 0 {
                assert(sts[i] == sts1.last());
            } else {
                assert(sts[i] == sts2[j]);
            }
            assert(sts[i + 1] == sts2[j + 1]);
        }
    }
    if sts2.len() == 1 {
        assert(sts.last() == sts1.last());
    }
}

/// Running a prefix of a list of actions.
pub proof fn lemma_runs_prefix(s: StateView, l: Seq<Action>, sts: Seq<StateView>, k: int)
    requires
        runs(s, l, sts),
        0 <= k <= l.len(),
    ensures
        runs(s, l.take(k), sts.take(k + 1)),
        sts.take(k + 1).last() == sts[k],
{
    let t = sts.take(k + 1);
    assert forall|i: int| 0 <= i < k implies leaf_step(t[i], #[trigger] l.take(k)[i], t[i + 1]) by {
        assert(leaf_step(sts[i], l[i], sts[i + 1]));
    }
}

/// Flattening a longer prefix of a batch adds the next action's leaves.
pub proof fn lemma_flatten_take(v: Seq<Action>, i: int)
    requires
        0 <= i < v.len(),
    ensures
        flatten_all(v.take(i + 1)) == flatten_all(v.take(i)) + flatten(v[i]),
{
    let t = v.take(i + 1);
    assert(t.drop_last() =~= v.take(i));
}

/// The leaves of a prefix of a batch are a prefix of the batch's leaves.
pub proof fn lemma_flatten_prefix(v: Seq<Action>, i: int)
    requires
        0 <= i <= v.len(),
    ensures
        flatten_all(v.take(i)).len() <= flatten_all(v).len(),
        flatten_all(v).take(flatten_all(v.take(i)).len() as int) == flatten_all(v.take(i)),
    decreases v.len(),
{
    if i == v.len() {
        assert(v.take(i) =~= v);
        assert(flatten_all(v).take(flatten_all(v).len() as int) =~= flatten_all(v));
    } else {
        let w = v.drop_last();
        lemma_flatten_prefix(w, i);
        assert(w.take(i) =~= v.take(i));
        let p = flatten_all(v.take(i));
        let fw = flatten_all(w);
        let f = flatten_all(v);
        assert(f == fw + flatten(v.last()));
        assert(f.take(p.len() as int) =~= fw.take(p.len() as int));
    }
}

/// A leaf's one step is a run.
pub proof fn lemma_leaf_reduces(s: StateView, a: Action, r: StateView)
    requires
        !(a is Batch),
        leaf_step(s, a, r),
    ensures
        reduces_to(s, a, r),
{
    let sts = seq![s, r];
    assert(flatten(a) == seq![a]);
    assert(runs(s, flatten(a), sts));
    assert(sts.last() == r);
}

/// What `can_reduce` asks of a leaf.
pub proof fn lemma_leaf_can(s: StateView, a: Action)
    requires
        !(a is Batch),
        can_reduce(s, a),
    ensures
        leaf_can(s, a),
{
    let sts = seq![s];
    assert(flatten(a) == seq![a]);
    assert(flatten(a).take(0) =~= Seq::<Action>::empty());
    assert(runs(s, flatten(a).take(0), sts));
}

/// The condition of the `i`-th action of a batch, once the earlier ones have run.
pub proof fn lemma_batch_can(s0: StateView, v: Seq<Action>, i: int, sts: Seq<StateView>)
    requires
        0 <= i < v.len(),
        leaves_can(s0, flatten_all(v)),
        runs(s0, flatten_all(v.take(i)), sts),
    ensures
        can_reduce(sts.last(), v[i]),
{
    let p = flatten_all(v.take(i));
    let fa = flatten(v[i]);
    let f = flatten_all(v);
    lemma_flatten_take(v, i);
    lemma_flatten_prefix(v, i + 1);
    let p2 = p + fa;
    assert(f.take(p2.len() as int) == p2);
    assert forall|k: int, sts2: Seq<StateView>|
        0 <= k < fa.len() && #[trigger] runs(sts.last(), fa.take(k), sts2) implies leaf_can(
        sts2.last(),
        fa[k],
    ) by {
        lemma_runs_concat(s0, p, sts, fa.take(k), sts2);
        let kk = p.len() + k;
        assert forall|j: int| 0 <= j < kk implies f[j] == p2[j] by {
            assert(f.take(p2.len() as int)[j] == f[j]);
        }
        assert(f.take(kk) =~= p + fa.take(k));
        assert(f.take(p2.len() as int)[kk] == f[kk]);
        assert(f[kk] == fa[k]);
        assert(runs(s0, f.take(kk), sts + sts2.drop_first()));
    }
}

/// Extending a run of a batch by one more action.
pub proof fn lemma_batch_step(
    s0: StateView,
    v: Seq<Action>,
    i: int,
    sts: Seq<StateView>,
    after: StateView,
) -> (sts2: Seq<StateView>)
    requires
        0 <= i < v.len(),
        runs(s0, flatten_all(v.take(i)), sts),
        reduces_to(sts.last(), v[i], after),
    ensures
        runs(s0, flatten_all(v.take(i + 1)), sts2),
        sts2.last() == after,
{
    let before = sts.last();
    let w = choose|w: Seq<StateView>| #[trigger] runs(before, flatten(v[i]), w) && w.last() == after;
    lemma_runs_concat(s0, flatten_all(v.take(i)), sts, flatten(v[i]), w);
    lemma_flatten_take(v, i);
    sts + w.drop_first()
}

/// The state after an action that is not a batch is one step from the state before.
pub proof fn lemma_leaf_result(s: StateView, a: Action, r: StateView)
    requires
        !(a is Batch),
        reduces_to(s, a, r),
    ensures
        leaf_step(s, a, r),
{
    assert(flatten(a) == seq![a]);
    let sts = choose|sts: Seq<StateView>| #[trigger] runs(s, flatten(a), sts) && sts.last() == r;
    assert(leaf_step(sts[0], flatten(a)[0], sts[1]));
}

} // verus!
