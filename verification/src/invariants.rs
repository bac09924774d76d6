//! The invariant of the state: what every action keeps, and what lets every
//! action run.
use vstd::prelude::*;
use crate::actions::{
    Action, CommandAction, InputAction, MessageAction, NavigationAction, SearchAction, SessionAction,
    UiAction,
};
use crate::input::{
    byte_pos, char_pos, is_boundary, is_line_edit, lemma_skip_back_bounds, line_edit,
    line_edit_pre, skip_space_back, skip_space_fwd, skip_word_fwd,
    word_end_after, word_start_before,
};
use crate::reducers::{
    initial_state, lemma_session_index, remove_session, session_index, upsert_session,
    SessionView, StateView, Theme,
};
use crate::actions::MessageView;
use crate::search::{
    first_occurrence, lemma_first_occurrence, SearchMatch, matches_from, matches_upto, search_pattern,
    search_spec, searched_text,
};
use crate::text::{byte_len, lemma_byte_len_take_mono, lemma_byte_len_take_step};
use crate::transitions::{
    can_reduce, command_history_limit, command_next, flatten, input_can, input_next, leaf_can, leaf_step,
    lemma_message_index, message_step, navigation_next, runs, search_next, session_step, ui_next, with_line,
};

verus! {

/// The lengths that a state held in memory has: each fits in `usize`.
pub open spec fn fits(s: StateView) -> bool {
    &&& byte_len(s.input) <= usize::MAX
    &&& s.input_history.len() <= usize::MAX
    &&& s.command_history.len() <= usize::MAX
    &&& s.search_results.len() <= usize::MAX
    &&& s.messages.len() <= usize::MAX
}

/// No two stored sessions share an identifier.
pub open spec fn sessions_distinct(v: Seq<SessionView>) -> bool {
    forall|i: int, j: int| 0 <= i < j < v.len() ==> #[trigger] v[i].id != #[trigger] v[j].id
}

/// No command follows an equal one.
pub open spec fn no_repeats(h: Seq<Seq<char>>) -> bool {
    forall|i: int, j: int| 0 <= i && j == i + 1 && j < h.len() ==> #[trigger] h[i] != #[trigger] h[j]
}

/// What lets every action run on a state, without a panic or an endless
/// loop, and keeps holding after each: the cursor on a character boundary,
/// the history and match positions in range, a non-empty search query, and
/// scroll positions (the current one, and those a match scrolls to) below the
/// largest `usize`, so that scrolling down by one cannot overflow.
pub open spec fn state_ok(s: StateView) -> bool {
    &&& is_boundary(s.input, s.cursor_pos as int)
    &&& (s.input_history_index matches Some(k) ==> k < s.input_history.len())
    &&& (s.command_history_index matches Some(k) ==> k < s.command_history.len())
    &&& (s.current_match_index matches Some(c) ==> c < s.search_results.len())
    &&& (s.search_query matches Some(q) ==> q.len() > 0)
    &&& s.scroll_offset < usize::MAX
    &&& forall|i: int| 0 <= i < s.search_results.len() ==> #[trigger] s.search_results[i].message_index < usize::MAX
}

/// The invariant of the state: it can run every action, the messages shown
/// are the current session's, the command history holds at most 100 commands
/// with no command right after an equal one, and no two stored sessions
/// share an identifier.
pub open spec fn state_wf(s: StateView) -> bool {
    &&& state_ok(s)
    &&& s.messages == s.current_session.messages
    &&& s.command_history.len() <= 100
    &&& no_repeats(s.command_history)
    &&& sessions_distinct(s.sessions)
}

/// The one argument bound that the state cannot give: scrolling down must not
/// pass the largest `usize`.
pub open spec fn scroll_fits(s: StateView, a: Action) -> bool {
    a matches Action::Navigation(NavigationAction::ScrollDown(k)) ==> s.scroll_offset + k <= usize::MAX
}

/// A byte offset at which a prefix ends is a boundary no later than the end.
proof fn lemma_boundary_at(t: Seq<char>, j: int)
    requires
        0 <= j <= t.len(),
    ensures
        is_boundary(t, byte_len(t.take(j)) as int),
        byte_len(t.take(j)) <= byte_len(t),
{
    lemma_byte_len_take_mono(t, j, t.len() as int);
    assert(t.take(t.len() as int) =~= t);
}

/// The character index at a boundary.
proof fn lemma_char_pos(s: Seq<char>, cursor: int)
    requires
        is_boundary(s, cursor),
    ensures
        0 <= char_pos(s, cursor) <= s.len(),
        byte_len(s.take(char_pos(s, cursor))) == cursor,
        cursor > 0 ==> char_pos(s, cursor) > 0,
        cursor < byte_len(s) ==> char_pos(s, cursor) < s.len(),
{
    let k = char_pos(s, cursor);
    assert(s.take(0) =~= Seq::<char>::empty());
    assert(s.take(s.len() as int) =~= s);
}

/// Forward skips stay between where they start and the end.
proof fn lemma_skip_fwd_bounds(s: Seq<char>, pos: int)
    requires
        0 <= pos <= s.len(),
    ensures
        pos <= skip_word_fwd(s, pos) <= s.len(),
        pos <= skip_space_fwd(s, pos) <= s.len(),
    decreases s.len() - pos,
{
    if pos < s.len() {
        lemma_skip_fwd_bounds(s, pos + 1);
    }
}

/// Where a backward word step from index `k` stops.
proof fn lemma_word_start_bounds(s: Seq<char>, k: int)
    requires
        0 < k <= s.len(),
    ensures
        0 <= word_start_before(s, k) <= k - 1,
{
    lemma_skip_back_bounds(s, k - 1);
    let p = skip_space_back(s, k - 1);
    lemma_skip_back_bounds(s, p);
}

/// Where a forward word step from index `k` stops.
proof fn lemma_word_end_bounds(s: Seq<char>, k: int)
    requires
        0 <= k <= s.len(),
    ensures
        k <= word_end_after(s, k) <= s.len(),
{
    lemma_skip_fwd_bounds(s, k);
    lemma_skip_fwd_bounds(s, skip_word_fwd(s, k));
}

/// A line edit from a boundary can run, and leaves the cursor on a boundary
/// of the new line.
pub proof fn law_line_edit_keeps_boundary(s: Seq<char>, cursor: int, a: InputAction)
    requires
        is_line_edit(a),
        is_boundary(s, cursor),
    ensures
        line_edit_pre(s, cursor, a),
        is_boundary(line_edit(s, cursor, a).0, line_edit(s, cursor, a).1),
        0 <= line_edit(s, cursor, a).1 <= byte_len(line_edit(s, cursor, a).0),
{
    let k = char_pos(s, cursor);
    lemma_char_pos(s, cursor);
    lemma_boundary_at(s, k);
    let (t, c) = line_edit(s, cursor, a);
    match a {
        InputAction::InsertChar(ch) => {
            assert(t.take(k) =~= s.take(k));
            assert(t[k] == ch);
            lemma_byte_len_take_step(t, k);
            lemma_boundary_at(t, k + 1);
        },
        InputAction::DeleteChar => if cursor > 0 {
            assert(t.take(k - 1) =~= s.take(k - 1));
            lemma_boundary_at(t, k - 1);
        },
        InputAction::DeleteCharForward => if cursor < byte_len(s) {
            assert(t.take(k) =~= s.take(k));
            lemma_boundary_at(t, k);
        },
        InputAction::DeleteWordBackward => if cursor > 0 {
            lemma_word_start_bounds(s, k);
            let p = word_start_before(s, k);
            let p = if p > 0 { p + 1 } else { p };
            assert(t.take(p) =~= s.take(p));
            lemma_boundary_at(t, p);
        },
        InputAction::DeleteWordForward => {
            lemma_word_end_bounds(s, k);
            assert(t.take(k) =~= s.take(k));
            lemma_boundary_at(t, k);
        },
        InputAction::MoveCursorLeft => if cursor > 0 {
            lemma_boundary_at(s, k - 1);
        },
        InputAction::MoveCursorRight => if cursor < byte_len(s) {
            lemma_boundary_at(s, k + 1);
        },
        InputAction::MoveCursorStart => {
            lemma_boundary_at(s, 0);
            assert(s.take(0) =~= Seq::<char>::empty());
        },
        InputAction::MoveCursorEnd => {
            lemma_boundary_at(s, s.len() as int);
            assert(s.take(s.len() as int) =~= s);
        },
        InputAction::MoveCursorWordLeft => if k != 0 {
            lemma_word_start_bounds(s, k);
            let p = word_start_before(s, k);
            if p > 0 {
                lemma_boundary_at(s, p + 1);
            } else {
                lemma_boundary_at(s, 0);
                assert(s.take(0) =~= Seq::<char>::empty());
            }
        },
        InputAction::MoveCursorWordRight => if k < s.len() {
            lemma_word_end_bounds(s, k);
            lemma_boundary_at(s, word_end_after(s, k));
        },
        InputAction::ClearInput => {
            lemma_boundary_at(t, 0);
            assert(t.take(0) =~= Seq::<char>::empty());
        },
        InputAction::SetInput(x) => {
            lemma_boundary_at(t, t.len() as int);
            assert(t.take(t.len() as int) =~= t);
        },
        _ => {},
    }
}

/// Deleting backwards right after inserting a character gives back the
/// line and the cursor.
pub proof fn law_insert_then_delete(s: Seq<char>, cursor: int, c: char)
    requires
        is_boundary(s, cursor),
    ensures
        ({
            let (t, c1) = line_edit(s, cursor, InputAction::InsertChar(c));
            line_edit(t, c1, InputAction::DeleteChar) == (s, cursor)
        }),
{
    let k = char_pos(s, cursor);
    lemma_char_pos(s, cursor);
    let (t, c1) = line_edit(s, cursor, InputAction::InsertChar(c));
    law_line_edit_keeps_boundary(s, cursor, InputAction::InsertChar(c));
    assert(t.take(k) =~= s.take(k));
    assert(t[k] == c);
    lemma_byte_len_take_step(t, k);
    let j = char_pos(t, c1);
    lemma_char_pos(t, c1);
    crate::text::lemma_byte_len_take_injective(t, j, k + 1);
    assert(t.take(k) + t.skip(k + 1) =~= s);
}

/// Moving the cursor right right after moving it left gives it back, when
/// it was not at the start.
pub proof fn law_left_then_right(s: Seq<char>, cursor: int)
    requires
        is_boundary(s, cursor),
        cursor > 0,
    ensures
        ({
            let (t, c1) = line_edit(s, cursor, InputAction::MoveCursorLeft);
            line_edit(t, c1, InputAction::MoveCursorRight) == (s, cursor)
        }),
{
    let k = char_pos(s, cursor);
    lemma_char_pos(s, cursor);
    let (t, c1) = line_edit(s, cursor, InputAction::MoveCursorLeft);
    lemma_boundary_at(s, k - 1);
    let j = char_pos(s, c1);
    lemma_char_pos(s, c1);
    crate::text::lemma_byte_len_take_injective(s, j, k - 1);
    lemma_byte_len_take_mono(s, k - 1, k);
    lemma_boundary_at(s, k);
}

/// Recording a session keeps the identifiers distinct.
pub proof fn lemma_upsert_distinct(v: Seq<SessionView>, x: SessionView)
    requires
        sessions_distinct(v),
    ensures
        sessions_distinct(upsert_session(v, x)),
{
    lemma_session_index(v, x.id);
    let w = upsert_session(v, x);
    match session_index(v, x.id) {
        Some(i) => {
            assert forall|j: int| 0 <= j < v.len() implies #[trigger] w[j].id == v[j].id by {}
        },
        None => {
            assert forall|j: int| 0 <= j < v.len() implies #[trigger] w[j] == v[j] by {}
        },
    }
}

/// Removing a session keeps the identifiers distinct.
pub proof fn lemma_remove_distinct(v: Seq<SessionView>, id: Seq<char>)
    requires
        sessions_distinct(v),
    ensures
        sessions_distinct(remove_session(v, id)),
        remove_session(v, id).len() <= v.len(),
{
    lemma_session_index(v, id);
    match session_index(v, id) {
        Some(i) => {
            let w = v.remove(i);
            assert forall|a: int, b: int| 0 <= a < b < w.len() implies #[trigger] w[a].id != #[trigger] w[b].id by {
                let a1 = if a < i { a } else { a + 1 };
                let b1 = if b < i { b } else { b + 1 };
                assert(w[a] == v[a1]);
                assert(w[b] == v[b1]);
            }
        },
        None => {},
    }
}

/// The state of a fresh application is well formed.
pub proof fn law_initial_wf(sess: SessionView, theme: Theme)
    requires
        sess.messages.len() == 0,
    ensures
        state_wf(initial_state(sess, theme)),
{
    let s = initial_state(sess, theme);
    lemma_boundary_at(s.input, 0);
    assert(s.input.take(0) =~= Seq::<char>::empty());
    assert(s.messages =~= sess.messages);
}

/// Every match found in one message names that message.
proof fn lemma_matches_from_index(text: Seq<char>, pat: Seq<char>, from: int, msg: usize)
    ensures
        forall|i: int| 0 <= i < matches_from(text, pat, from, msg).len()
            ==> #[trigger] matches_from(text, pat, from, msg)[i].message_index == msg,
    decreases text.len() - from,
{
    if !(pat.len() == 0 || from < 0) {
        match first_occurrence(text, pat, from) {
            None => {},
            Some(p) => {
                lemma_first_occurrence(text, pat, from);
                lemma_matches_from_index(text, pat, p + pat.len(), msg);
                let head = seq![
                    SearchMatch {
                        message_index: msg,
                        start: byte_pos(text, p) as usize,
                        end: (byte_pos(text, p) + byte_len(pat)) as usize,
                    },
                ];
                let tail = matches_from(text, pat, p + pat.len(), msg);
                assert(matches_from(text, pat, from, msg) == head + tail);
                assert forall|i: int| 0 <= i < (head + tail).len() implies #[trigger] (head + tail)[i].message_index == msg by {
                    if i > 0 {
                        assert((head + tail)[i] == tail[i - 1]);
                    }
                }
            },
        }
    }
}

/// Every match found in the first `n` messages names one of them.
proof fn lemma_matches_upto_index(msgs: Seq<MessageView>, pat: Seq<char>, cs: bool, n: int)
    requires
        0 <= n <= msgs.len(),
        msgs.len() <= usize::MAX,
    ensures
        forall|i: int| 0 <= i < matches_upto(msgs, pat, cs, n).len()
            ==> #[trigger] matches_upto(msgs, pat, cs, n)[i].message_index < n,
    decreases n,
{
    if n > 0 {
        lemma_matches_upto_index(msgs, pat, cs, n - 1);
        lemma_matches_from_index(searched_text(msgs[n - 1], cs), pat, 0, (n - 1) as usize);
        let a = matches_upto(msgs, pat, cs, n - 1);
        let b = matches_from(searched_text(msgs[n - 1], cs), pat, 0, (n - 1) as usize);
        assert forall|i: int| 0 <= i < (a + b).len() implies #[trigger] (a + b)[i].message_index < n by {
            if i >= a.len() {
                assert((a + b)[i] == b[i - a.len()]);
            }
        }
    }
}

/// Every match of a search names a message of the list.
pub proof fn law_search_indices(msgs: Seq<MessageView>, query: Seq<char>, cs: bool)
    requires
        msgs.len() <= usize::MAX,
    ensures
        forall|i: int| 0 <= i < search_spec(msgs, query, cs).len()
            ==> #[trigger] search_spec(msgs, query, cs)[i].message_index < msgs.len(),
{
    lemma_matches_upto_index(msgs, search_pattern(query, cs), cs, msgs.len() as int);
}

/// Setting the line to `text` with the cursor at its end leaves the cursor on a boundary.
proof fn lemma_with_line(s: StateView, text: Seq<char>)
    requires
        byte_len(text) <= usize::MAX,
    ensures
        is_boundary(with_line(s, text).input, with_line(s, text).cursor_pos as int),
{
    lemma_boundary_at(text, text.len() as int);
    assert(text.take(text.len() as int) =~= text);
}

/// Input actions keep the invariant.
proof fn lemma_input_wf(s: StateView, a: InputAction)
    requires
        state_ok(s),
        fits(input_next(s, a)),
    ensures
        state_ok(input_next(s, a)),
        state_wf(s) ==> state_wf(input_next(s, a)),
{
    let r = input_next(s, a);
    let h = s.input_history;
    match a {
        InputAction::SubmitInput => {},
        InputAction::HistoryUp => if h.len() > 0 {
            let cur: int = match s.input_history_index {
                Some(i) => i as int,
                None => h.len() as int,
            };
            if cur > 0 {
                lemma_with_line(s, h[cur - 1]);
            }
        },
        InputAction::HistoryDown => match s.input_history_index {
            None => {},
            Some(i) => if i + 1 >= h.len() {
                lemma_with_line(s, s.saved_input);
            } else {
                lemma_with_line(s, h[i + 1]);
            },
        },
        _ => {
            law_line_edit_keeps_boundary(s.input, s.cursor_pos as int, a);
        },
    }
}

/// Every input action can run on a line whose cursor is on a character
/// boundary and whose input-history position is in range, and leaves both so;
/// the lengths are those of values held in memory.
pub proof fn law_input_keeps_line(s: StateView, a: InputAction)
    requires
        is_boundary(s.input, s.cursor_pos as int),
        s.input_history_index matches Some(k) ==> k < s.input_history.len(),
        fits(s),
        fits(input_next(s, a)),
    ensures
        input_can(s, a),
        is_boundary(input_next(s, a).input, input_next(s, a).cursor_pos as int),
        input_next(s, a).input_history_index matches Some(k) ==> k < input_next(s, a).input_history.len(),
{
    let h = s.input_history;
    match a {
        InputAction::SubmitInput => {},
        InputAction::HistoryUp => if h.len() > 0 {
            let cur: int = match s.input_history_index {
                Some(i) => i as int,
                None => h.len() as int,
            };
            if cur > 0 {
                lemma_with_line(s, h[cur - 1]);
            }
        },
        InputAction::HistoryDown => match s.input_history_index {
            None => {},
            Some(i) => if i + 1 >= h.len() {
                lemma_with_line(s, s.saved_input);
            } else {
                lemma_with_line(s, h[i + 1]);
            },
        },
        _ => {
            law_line_edit_keeps_boundary(s.input, s.cursor_pos as int, a);
        },
    }
}

/// Message actions keep the invariant.
proof fn lemma_message_wf(s: StateView, a: MessageAction, r: StateView)
    requires
        state_ok(s),
        message_step(s, a, r),
        fits(r),
    ensures
        state_ok(r),
        state_wf(s) ==> state_wf(r),
{
}

/// Search actions keep the invariant.
proof fn lemma_search_wf(s: StateView, a: SearchAction)
    requires
        state_ok(s),
        fits(search_next(s, a)),
    ensures
        state_ok(search_next(s, a)),
        state_wf(s) ==> state_wf(search_next(s, a)),
{
    match a {
        SearchAction::Search(q) => law_search_indices(s.messages, q@, s.case_sensitive),
        SearchAction::ToggleCaseSensitive => match s.search_query {
            Some(q) => law_search_indices(s.messages, q, !s.case_sensitive),
            None => {},
        },
        _ => {},
    }
}

/// Session actions keep the invariant.
proof fn lemma_session_wf(s: StateView, a: SessionAction, r: StateView)
    requires
        state_ok(s),
        session_step(s, a, r),
        fits(r),
    ensures
        state_ok(r),
        state_wf(s) ==> state_wf(r),
{
    match a {
        SessionAction::NewSession => if sessions_distinct(s.sessions) {
            lemma_upsert_distinct(s.sessions, r.current_session)
        },
        SessionAction::NewSessionWithName(_) => if sessions_distinct(s.sessions) {
            lemma_upsert_distinct(s.sessions, r.current_session)
        },
        SessionAction::SwitchSession(_) => if sessions_distinct(s.sessions) {
            lemma_upsert_distinct(s.sessions, s.current_session)
        },
        SessionAction::DeleteSession(id) => if sessions_distinct(s.sessions) {
            lemma_remove_distinct(s.sessions, id@)
        },
        SessionAction::SaveSession => if sessions_distinct(s.sessions) {
            lemma_upsert_distinct(s.sessions, s.current_session)
        },
        _ => {},
    }
}

/// Command actions keep the invariant.
proof fn lemma_command_wf(s: StateView, a: CommandAction)
    requires
        state_ok(s),
        fits(command_next(s, a)),
    ensures
        state_ok(command_next(s, a)),
        state_wf(s) ==> state_wf(command_next(s, a)),
{
    let h = s.command_history;
    match a {
        CommandAction::AddCommand(cmd) => if !(h.len() > 0 && h.last() == cmd@) && no_repeats(h) {
            let h2 = h.push(cmd@);
            let h3 = if h2.len() > command_history_limit() { h2.drop_first() } else { h2 };
            assert forall|i: int, j: int| 0 <= i && j == i + 1 && j < h3.len() implies #[trigger] h3[i] != #[trigger] h3[j] by {
                if h2.len() > command_history_limit() {
                    assert(h3[i] == h2[i + 1] && h3[j] == h2[j + 1]);
                    if j + 1 < h.len() {
                        assert(h[i + 1] != h[j + 1]);
                    }
                } else if j < h.len() {
                    assert(h[i] != h[j]);
                }
            }
        },
        CommandAction::CommandHistoryUp => if h.len() > 0 {
            let cur: int = match s.command_history_index {
                Some(i) => i as int,
                None => h.len() as int,
            };
            if cur > 0 {
                lemma_with_line(s, h[cur - 1]);
            }
        },
        CommandAction::CommandHistoryDown => match s.command_history_index {
            None => {},
            Some(i) => if i + 1 >= h.len() {
                lemma_with_line(s, s.saved_command);
            } else {
                lemma_with_line(s, h[i + 1]);
            },
        },
        CommandAction::ClearCommandHistory => {},
    }
}

/// Navigation actions keep the invariant.
proof fn lemma_navigation_wf(s: StateView, a: NavigationAction)
    requires
        state_ok(s),
        fits(s),
    ensures
        state_ok(navigation_next(s, a)),
        state_wf(s) ==> state_wf(navigation_next(s, a)),
{
    match a {
        NavigationAction::ScrollToMessageById(id) => lemma_message_index(s.messages, id@),
        _ => {},
    }
}

/// Interface actions keep the invariant.
proof fn lemma_ui_wf(s: StateView, a: UiAction)
    requires
        state_ok(s),
    ensures
        state_ok(ui_next(s, a)),
        state_wf(s) ==> state_wf(ui_next(s, a)),
{
}

/// Every action that is not a batch keeps what lets every action run, and
/// keeps the invariant.
pub proof fn law_leaf_keeps_wf(s: StateView, a: Action, r: StateView)
    requires
        state_ok(s),
        leaf_step(s, a, r),
        fits(r),
    ensures
        state_ok(r),
        state_wf(s) ==> state_wf(r),
{
    match a {
        Action::Message(m) => lemma_message_wf(s, m, r),
        Action::Input(i) => lemma_input_wf(s, i),
        Action::Navigation(n) => lemma_navigation_wf(s, n),
        Action::Ui(u) => lemma_ui_wf(s, u),
        Action::Search(x) => lemma_search_wf(s, x),
        Action::Session(x) => lemma_session_wf(s, x, r),
        Action::Command(c) => lemma_command_wf(s, c),
        _ => {},
    }
}

/// A state on which actions can run accepts every action that is not a
/// batch, but for a scroll past the largest `usize`.
pub proof fn law_wf_accepts(s: StateView, a: Action)
    requires
        state_ok(s),
        fits(s),
        scroll_fits(s, a),
    ensures
        leaf_can(s, a),
{
    match a {
        Action::Input(i) => if is_line_edit(i) {
            law_line_edit_keeps_boundary(s.input, s.cursor_pos as int, i);
        },
        _ => {},
    }
}

/// An action that is not a batch can be applied where `leaf_can` holds.
pub proof fn lemma_leaf_can_reduce(s: StateView, a: Action)
    requires
        !(a is Batch),
        leaf_can(s, a),
    ensures
        can_reduce(s, a),
{
    assert(flatten(a) == seq![a]);
    assert forall|k: int, sts: Seq<StateView>|
        0 <= k < flatten(a).len() && #[trigger] runs(s, flatten(a).take(k), sts) implies leaf_can(
        sts.last(),
        flatten(a)[k],
    ) by {
        assert(k == 0);
        assert(sts.len() == 1);
    }
}

} // verus!
