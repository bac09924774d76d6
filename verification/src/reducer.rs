//! The reducer: applies an action to the state.
use vstd::prelude::*;
use crate::actions::{
    msgs_view, now_timestamp, Action, AgentState, CommandAction, FocusTarget, InputAction, Message,
    MessageAction, MessageView, Mode, NavigationAction, SearchAction, SessionAction, UiAction,
};
use crate::input::{byte_len_fits, edit_line};
use crate::invariants::{fits, law_leaf_keeps_wf, state_ok, state_wf};
use crate::reducers::{
    copy_messages, drop_session, find_session, fresh_session_id, store_session, texts_view, Session,
    State, StateView, Theme,
};
use crate::search::{search_messages, SearchMatch};
use crate::text::{
    byte_len, char_is_whitespace, chars_of, is_white_space, push_str, same_text, u64_to_decimal,
};
use crate::transitions::{
    all_space, can_reduce, command_can, command_next, edited, flatten, flatten_all, input_can,
    input_next, last_index, leaves_can, lemma_batch_can, lemma_batch_step, lemma_leaf_can,
    lemma_leaf_reduces, lemma_message_index, lemma_message_index_at, message_index, message_step,
    navigation_can, navigation_next, reduces_to, runs, search_can, search_next, session_step,
    switched_to, ui_next, with_line, with_session_messages, without_search,
};

verus! {

broadcast use vstd::seq::group_seq_axioms;

/// Copies the active session's messages into the message list.
fn sync_messages(state: &mut State)
    ensures
        final(state)@ == (StateView { messages: old(state)@.current_session.messages, ..old(state)@ }),
{
    state.messages = copy_messages(&state.current_session.messages);
    assert(final(state)@ =~= (StateView { messages: old(state)@.current_session.messages, ..old(state)@ }));
}

/// Finds the first message with identifier `id`.
fn find_message(v: &Vec<Message>, id: &str) -> (r: Option<usize>)
    ensures
        r matches Some(k) ==> message_index(msgs_view(v@), id@) == Some(k as int),
        r is None ==> message_index(msgs_view(v@), id@) is None,
        r matches Some(i) ==> i < v@.len(),
{
    let ghost mv = msgs_view(v@);
    proof {
        lemma_message_index(mv, id@);
    }
    let mut i: usize = 0;
    while i < v.len()
        invariant
            mv == msgs_view(v@),
            i <= v@.len(),
            forall|j: int| 0 <= j < i ==> mv[j].id != id@,
        decreases v@.len() - i,
    {
        if same_text(v[i].id.as_str(), id) {
            assert(mv[i as int].id == id@);
            proof {
                lemma_message_index_at(mv, id@, i as int);
            }
            return Some(i);
        }
        i = i + 1;
    }
    None
}

impl State {
    /// Whether there is a message.
    pub fn has_messages(&self) -> (b: bool)
        ensures
            b == (self@.messages.len() > 0),
    {
        self.messages.len() > 0
    }

    /// The number of messages.
    pub fn message_count(&self) -> (n: usize)
        ensures
            n == self@.messages.len(),
    {
        self.messages.len()
    }

    /// The last message, if any.
    pub fn last_message(&self) -> (r: Option<&Message>)
        ensures
            self@.messages.len() == 0 ==> r is None,
            self@.messages.len() > 0 ==> (r matches Some(m) && m@ == self@.messages.last()),
    {
        if self.messages.len() == 0 {
            None
        } else {
            Some(&self.messages[self.messages.len() - 1])
        }
    }

    /// The position and the first message with identifier `id`, if any.
    pub fn find_message_by_id(&self, id: &str) -> (r: Option<(usize, &Message)>)
        ensures
            match message_index(self@.messages, id@) {
                Some(i) => r matches Some((k, m)) && k == i && m@ == self@.messages[i],
                None => r is None,
            },
    {
        match find_message(&self.messages, id) {
            Some(i) => Some((i, &self.messages[i])),
            None => None,
        }
    }

    /// Whether the input line holds only whitespace.
    pub fn is_input_empty(&self) -> (b: bool)
        ensures
            b == all_space(self@.input),
    {
        is_blank(self.input.as_str())
    }

    /// The input line.
    pub fn input_content(&self) -> (r: &str)
        ensures
            r@ == self@.input,
    {
        self.input.as_str()
    }

    /// Whether the agent is doing something.
    pub fn is_agent_busy(&self) -> (b: bool)
        ensures
            b == (self@.agent_state != AgentState::Idle),
    {
        self.agent_state != AgentState::Idle
    }

    /// Whether the state is in input mode.
    pub fn is_input_mode(&self) -> (b: bool)
        ensures
            b == (self@.mode == Mode::Input),
    {
        self.mode == Mode::Input
    }

    /// Whether the state is in command mode.
    pub fn is_command_mode(&self) -> (b: bool)
        ensures
            b == (self@.mode == Mode::Command),
    {
        self.mode == Mode::Command
    }

    /// Whether the state is in search mode.
    pub fn is_search_mode(&self) -> (b: bool)
        ensures
            b == (self@.mode == Mode::Search),
    {
        self.mode == Mode::Search
    }

    /// Whether the state is in normal mode.
    pub fn is_normal_mode(&self) -> (b: bool)
        ensures
            b == (self@.mode == Mode::Normal),
    {
        self.mode == Mode::Normal
    }

    /// Whether a search is active and found something.
    pub fn is_searching(&self) -> (b: bool)
        ensures
            b == (self@.search_query is Some && self@.search_results.len() > 0),
    {
        self.search_query.is_some() && self.search_results.len() > 0
    }

    /// The selected match, if there is one.
    pub fn current_match(&self) -> (r: Option<&SearchMatch>)
        ensures
            match self@.current_match_index {
                Some(i) => if i < self@.search_results.len() {
                    r == Some(&self@.search_results[i as int])
                } else {
                    r is None
                },
                None => r is None,
            },
    {
        match self.current_match_index {
            Some(i) => if i < self.search_results.len() {
                Some(&self.search_results[i])
            } else {
                None
            },
            None => None,
        }
    }

    /// The number of matches.
    pub fn match_count(&self) -> (n: usize)
        ensures
            n == self@.search_results.len(),
    {
        self.search_results.len()
    }
}

/// `n - 1`, or 0 when `n` is 0.
fn last_index_of(n: usize) -> (r: usize)
    ensures
        r == last_index(n as nat),
{
    if n == 0 {
        0
    } else {
        n - 1
    }
}

/// Touches the active session and mirrors its messages.
fn touch_and_sync(state: &mut State)
    ensures
        final(state)@ == with_session_messages(
            old(state)@,
            old(state)@.current_session.messages,
            final(state)@.current_session.modified_at,
        ),
{
    state.current_session.touch();
    sync_messages(state);
    assert(final(state)@ =~= with_session_messages(
        old(state)@,
        old(state)@.current_session.messages,
        final(state)@.current_session.modified_at,
    ));
}

/// The message list after editing the message at `index` (if there is one).
fn edit_at(state: &mut State, index: usize, content: &String) -> (t: u64)
    ensures
        index < old(state)@.current_session.messages.len() ==> final(state)@ == (StateView {
            current_session: crate::reducers::SessionView {
                messages: old(state)@.current_session.messages.update(
                    index as int,
                    edited(old(state)@.current_session.messages[index as int], content@, t),
                ),
                ..old(state)@.current_session
            },
            ..old(state)@
        }),
        index >= old(state)@.current_session.messages.len() ==> final(state)@ == old(state)@,
{
    if index < state.current_session.messages.len() {
        let mut msg = state.current_session.messages[index].duplicate();
        msg.content = content.clone();
        msg.timestamp = now_timestamp();
        let t = msg.timestamp;
        state.current_session.messages.set(index, msg);
        assert(msgs_view(state.current_session.messages@) =~= old(state)@.current_session.messages.update(
            index as int,
            edited(old(state)@.current_session.messages[index as int], content@, t),
        ));
        assert(state@ =~= (StateView {
            current_session: crate::reducers::SessionView {
                messages: old(state)@.current_session.messages.update(
                    index as int,
                    edited(old(state)@.current_session.messages[index as int], content@, t),
                ),
                ..old(state)@.current_session
            },
            ..old(state)@
        }));
        t
    } else {
        0
    }
}

fn add_message(state: State, message: &Message) -> (r: State)
    ensures
        message_step(state@, MessageAction::AddMessage(*message), r@),
{
    let mut state = state;
    let ghost s = state@;
    state.current_session.messages.push(message.duplicate());
    assert(msgs_view(state.current_session.messages@) =~= s.current_session.messages.push(message@));
    touch_and_sync(&mut state);
    state.scroll_offset = last_index_of(state.messages.len());
    assert(state@ =~= StateView {
        scroll_offset: last_index(s.current_session.messages.push(message@).len()),
        ..with_session_messages(s, s.current_session.messages.push(message@), state@.current_session.modified_at)
    });
    state
}

fn clear_messages(state: State) -> (r: State)
    ensures
        message_step(state@, MessageAction::ClearMessages, r@),
{
    let mut state = state;
    let ghost s = state@;
    state.current_session.messages = Vec::new();
    assert(msgs_view(state.current_session.messages@) =~= Seq::<MessageView>::empty());
    touch_and_sync(&mut state);
    state.scroll_offset = 0;
    state.search_query = None;
    state.search_results = Vec::new();
    state.current_match_index = None;
    assert(state@ =~= StateView {
        scroll_offset: 0,
        ..without_search(with_session_messages(s, Seq::empty(), state@.current_session.modified_at))
    });
    state
}

fn delete_message_at(state: State, index: usize) -> (r: State)
    ensures
        message_step(state@, MessageAction::DeleteMessage(index), r@),
{
    let mut state = state;
    let ghost s = state@;
    if index < state.current_session.messages.len() {
        state.current_session.messages.remove(index);
        assert(msgs_view(state.current_session.messages@) =~= s.current_session.messages.remove(index as int));
        touch_and_sync(&mut state);
        if state.scroll_offset >= state.messages.len() {
            state.scroll_offset = last_index_of(state.messages.len());
        }
    }
    state
}

fn delete_message_with_id(state: State, id: &String) -> (r: State)
    ensures
        message_step(state@, MessageAction::DeleteMessageById(*id), r@),
{
    let mut state = state;
    let ghost s = state@;
    proof {
        lemma_message_index(s.current_session.messages, id@);
    }
    match find_message(&state.current_session.messages, id.as_str()) {
        Some(pos) => {
            assert(message_index(s.current_session.messages, id@) == Some(pos as int));
            state.current_session.messages.remove(pos);
            assert(msgs_view(state.current_session.messages@) =~= s.current_session.messages.remove(pos as int));
            touch_and_sync(&mut state);
        },
        None => {
            assert(message_index(s.current_session.messages, id@) is None);
        },
    }
    state
}

fn edit_message_at(state: State, index: usize, content: &String) -> (r: State)
    ensures
        message_step(state@, MessageAction::EditMessage { index, content: *content }, r@),
{
    let mut state = state;
    let ghost s = state@;
    let _t = edit_at(&mut state, index, content);
    touch_and_sync(&mut state);
    state
}

fn edit_message_with_id(state: State, id: &String, content: &String) -> (r: State)
    ensures
        message_step(state@, MessageAction::EditMessageById { id: *id, content: *content }, r@),
{
    let mut state = state;
    let ghost s = state@;
    proof {
        lemma_message_index(s.current_session.messages, id@);
    }
    match find_message(&state.current_session.messages, id.as_str()) {
        Some(pos) => {
            assert(message_index(s.current_session.messages, id@) == Some(pos as int));
            let _t = edit_at(&mut state, pos, content);
        },
        None => {
            assert(message_index(s.current_session.messages, id@) is None);
        },
    }
    touch_and_sync(&mut state);
    state
}

/// Applies a message action.
fn reduce_message(state: State, action: &MessageAction) -> (r: State)
    ensures
        message_step(state@, *action, r@),
{
    match action {
        MessageAction::AddMessage(message) => add_message(state, message),
        MessageAction::ClearMessages => clear_messages(state),
        MessageAction::DeleteMessage(index) => delete_message_at(state, *index),
        MessageAction::DeleteMessageById(id) => delete_message_with_id(state, id),
        MessageAction::EditMessage { index, content } => edit_message_at(state, *index, content),
        MessageAction::EditMessageById { id, content } => edit_message_with_id(state, id, content),
    }
}


/// Whether every character of `s` is whitespace.
pub fn is_blank(s: &str) -> (r: bool)
    ensures
        r == all_space(s@),
{
    let chars = chars_of(s);
    let mut i: usize = 0;
    while i < chars.len()
        invariant
            chars@ == s@,
            i <= chars@.len(),
            forall|j: int| 0 <= j < i ==> is_white_space(#[trigger] chars@[j]),
        decreases chars@.len() - i,
    {
        if !char_is_whitespace(chars[i]) {
            return false;
        }
        i = i + 1;
    }
    true
}

/// Byte length of `s`.
fn line_len(s: &String) -> (n: usize)
    ensures
        n == byte_len(s@),
{
    crate::input::byte_len_fits(s.as_str());
    let chars = chars_of(s.as_str());
    proof {
        assert(chars@.take(chars@.len() as int) =~= chars@);
    }
    crate::input::prefix_bytes(&chars, chars.len())
}

/// Sets the input line to `text` with the cursor at its end.
fn set_line(state: &mut State, text: String)
    ensures
        final(state)@ == with_line(old(state)@, text@),
{
    let n = line_len(&text);
    state.input = text;
    state.cursor_pos = n;
    assert(final(state)@ =~= with_line(old(state)@, text@));
}

fn submit_input(state: State) -> (r: State)
    ensures
        r@ == input_next(state@, InputAction::SubmitInput),
{
    let mut state = state;
    let ghost s = state@;
    if !is_blank(state.input.as_str()) {
        let line = state.input.clone();
        state.input_history.push(line);
        assert(texts_view(state.input_history@) =~= s.input_history.push(s.input));
        state.input_history_index = None;
        state.saved_input = String::new();
        assert(state@ =~= input_next(s, InputAction::SubmitInput));
    }
    state
}

fn input_history_up(state: State) -> (r: State)
    requires
        input_can(state@, InputAction::HistoryUp),
    ensures
        r@ == input_next(state@, InputAction::HistoryUp),
{
    let mut state = state;
    let ghost s = state@;
    if state.input_history.len() == 0 {
        return state;
    }
    if state.input_history_index.is_none() {
        state.saved_input = state.input.clone();
    }
    let len = state.input_history.len();
    let current = match state.input_history_index {
        Some(i) => i,
        None => len,
    };
    if current > 0 {
        let new_index = current - 1;
        state.input_history_index = Some(new_index);
        let line = state.input_history[new_index].clone();
        set_line(&mut state, line);
    }
    assert(state@ =~= input_next(s, InputAction::HistoryUp));
    state
}

fn input_history_down(state: State) -> (r: State)
    requires
        input_can(state@, InputAction::HistoryDown),
    ensures
        r@ == input_next(state@, InputAction::HistoryDown),
{
    let mut state = state;
    let ghost s = state@;
    match state.input_history_index {
        None => {},
        Some(index) => {
            if index + 1 >= state.input_history.len() {
                state.input_history_index = None;
                let line = state.saved_input.clone();
                set_line(&mut state, line);
            } else {
                let new_index = index + 1;
                state.input_history_index = Some(new_index);
                let line = state.input_history[new_index].clone();
                set_line(&mut state, line);
            }
            assert(state@ =~= input_next(s, InputAction::HistoryDown));
        },
    }
    state
}

/// Applies an input action.
fn reduce_input(state: State, action: &InputAction) -> (r: State)
    requires
        input_can(state@, *action),
    ensures
        r@ == input_next(state@, *action),
{
    match action {
        InputAction::SubmitInput => submit_input(state),
        InputAction::HistoryUp => input_history_up(state),
        InputAction::HistoryDown => input_history_down(state),
        _ => {
            let mut state = state;
            let ghost s = state@;
            let (text, cursor) = edit_line(&state.input, state.cursor_pos, action);
            state.input = text;
            state.cursor_pos = cursor;
            assert(state@ =~= input_next(s, *action));
            state
        },
    }
}

/// Applies a navigation action.
fn reduce_navigation(state: State, action: &NavigationAction) -> (r: State)
    requires
        navigation_can(state@, *action),
    ensures
        r@ == navigation_next(state@, *action),
{
    let mut state = state;
    let ghost s = state@;
    match action {
        NavigationAction::ScrollUp(n) => {
            state.scroll_offset = if state.scroll_offset >= *n { state.scroll_offset - *n } else { 0 };
        },
        NavigationAction::ScrollDown(n) => {
            let max_scroll = last_index_of(state.messages.len());
            let target = state.scroll_offset + *n;
            state.scroll_offset = if target <= max_scroll { target } else { max_scroll };
        },
        NavigationAction::ScrollToTop => {
            state.scroll_offset = 0;
        },
        NavigationAction::ScrollToBottom => {
            state.scroll_offset = last_index_of(state.messages.len());
        },
        NavigationAction::ScrollToMessage(index) => {
            if *index < state.messages.len() {
                state.scroll_offset = *index;
            }
        },
        NavigationAction::ScrollToMessageById(id) => {
            match find_message(&state.messages, id.as_str()) {
                Some(index) => {
                    state.scroll_offset = index;
                },
                None => {},
            }
        },
        NavigationAction::NavigateBack => {
            state.mode = Mode::Normal;
        },
    }
    assert(state@ =~= navigation_next(s, *action));
    state
}

/// Applies an interface action.
fn reduce_ui(state: State, action: &UiAction) -> (r: State)
    ensures
        r@ == ui_next(state@, *action),
{
    let mut state = state;
    let ghost s = state@;
    match action {
        UiAction::ToggleTheme => {
            state.theme = match state.theme {
                Theme::Light => Theme::Dark,
                Theme::Dark => Theme::Light,
            };
        },
        UiAction::SetTheme(dark) => {
            state.theme = if *dark { Theme::Dark } else { Theme::Light };
        },
        UiAction::SetAgentState(agent_state) => {
            state.agent_state = *agent_state;
        },
        UiAction::SetMode(mode) => {
            state.mode = *mode;
        },
        UiAction::Quit => {
            state.should_quit = true;
        },
        UiAction::ShowHelp => {
            state.show_help = true;
            state.focus = FocusTarget::HelpOverlay;
        },
        UiAction::HideHelp => {
            state.show_help = false;
            state.focus = FocusTarget::Input;
        },
        UiAction::ToggleHelp => {
            state.show_help = !state.show_help;
            state.focus = if state.show_help { FocusTarget::HelpOverlay } else { FocusTarget::Input };
        },
        UiAction::SetFocus(target) => {
            state.focus = *target;
        },
        UiAction::ShowStatus { message, is_error } => {
            state.status_message = Some(message.clone());
            state.status_is_error = *is_error;
        },
        UiAction::ClearStatus => {
            state.status_message = None;
            state.status_is_error = false;
        },
    }
    assert(state@ =~= ui_next(s, *action));
    state
}

/// Applies a search action.
fn reduce_search(state: State, action: &SearchAction) -> (r: State)
    requires
        search_can(state@, *action),
    ensures
        r@ == search_next(state@, *action),
{
    let mut state = state;
    let ghost s = state@;
    match action {
        SearchAction::Search(query) => {
            if query.as_str().unicode_len() == 0 {
                state.search_query = None;
                state.search_results = Vec::new();
                state.current_match_index = None;
            } else {
                let found = search_messages(&state.messages, query.as_str(), state.case_sensitive);
                state.search_query = Some(query.clone());
                state.search_results = found;
                state.current_match_index = if state.search_results.len() == 0 { None } else { Some(0) };
                if state.search_results.len() > 0 {
                    state.scroll_offset = state.search_results[0].message_index;
                }
            }
        },
        SearchAction::ClearSearch => {
            state.search_query = None;
            state.search_results = Vec::new();
            state.current_match_index = None;
        },
        SearchAction::NextMatch => {
            if state.search_results.len() > 0 {
                let current = match state.current_match_index {
                    Some(c) => c,
                    None => 0,
                };
                let next = (current + 1) % state.search_results.len();
                state.current_match_index = Some(next);
                state.scroll_offset = state.search_results[next].message_index;
            }
        },
        SearchAction::PrevMatch => {
            if state.search_results.len() > 0 {
                let current = match state.current_match_index {
                    Some(c) => c,
                    None => 0,
                };
                let prev = if current == 0 { state.search_results.len() - 1 } else { current - 1 };
                state.current_match_index = Some(prev);
                if prev < state.search_results.len() {
                    state.scroll_offset = state.search_results[prev].message_index;
                }
            }
        },
        SearchAction::ToggleCaseSensitive => {
            state.case_sensitive = !state.case_sensitive;
            match &state.search_query {
                Some(query) => {
                    let found = search_messages(&state.messages, query.as_str(), state.case_sensitive);
                    state.search_results = found;
                    state.current_match_index = if state.search_results.len() == 0 { None } else { Some(0) };
                },
                None => {},
            }
        },
    }
    assert(state@ =~= search_next(s, *action));
    state
}


/// Makes `sess` the active session with its messages listed.
fn switch_to(state: &mut State, sess: Session, scroll_to_end: bool)
    ensures
        final(state)@ == switched_to(
            old(state)@,
            sess@,
            if scroll_to_end { last_index(sess@.messages.len()) } else { 0 },
        ),
{
    state.current_session = sess;
    sync_messages(state);
    state.scroll_offset = if scroll_to_end { last_index_of(state.messages.len()) } else { 0 };
    assert(final(state)@ =~= switched_to(
        old(state)@,
        sess@,
        if scroll_to_end { last_index(sess@.messages.len()) } else { 0 },
    ));
}

fn clear_search(state: &mut State)
    ensures
        final(state)@ == without_search(old(state)@),
{
    state.search_query = None;
    state.search_results = Vec::new();
    state.current_match_index = None;
    assert(final(state)@ =~= without_search(old(state)@));
}

fn new_session(state: State, name: Option<&String>) -> (r: State)
    ensures
        name is None ==> session_step(state@, SessionAction::NewSession, r@),
        name matches Some(n) ==> session_step(state@, SessionAction::NewSessionWithName(*n), r@),
{
    let mut state = state;
    let ghost s = state@;
    let now = now_timestamp();
    let session = Session {
        id: fresh_session_id(&state.sessions, &state.current_session),
        name: match name {
            None => None,
            Some(n) => Some(n.clone()),
        },
        created_at: now,
        modified_at: now,
        messages: Vec::new(),
    };
    let ghost ns = session@;
    store_session(&mut state.sessions, session.duplicate());
    switch_to(&mut state, session, false);
    if name.is_none() {
        clear_search(&mut state);
    }
    state.status_message = Some(String::from_str("New session created"));
    state.status_is_error = false;
    state
}

fn switch_session(state: State, id: &String, save_current: bool) -> (r: State)
    ensures
        save_current ==> session_step(state@, SessionAction::SwitchSession(*id), r@),
        !save_current ==> session_step(state@, SessionAction::LoadSession(*id), r@),
{
    let mut state = state;
    let ghost s = state@;
    match find_session(&state.sessions, id.as_str()) {
        Some(p) => {
            let sess = state.sessions[p].duplicate();
            if save_current {
                let cur = state.current_session.duplicate();
                store_session(&mut state.sessions, cur);
            }
            switch_to(&mut state, sess, true);
            if save_current {
                clear_search(&mut state);
            }
        },
        None => {},
    }
    state
}

fn delete_session(state: State, id: &String) -> (r: State)
    ensures
        session_step(state@, SessionAction::DeleteSession(*id), r@),
{
    let mut state = state;
    let ghost s = state@;
    if state.sessions.len() <= 1 {
        state.status_message = Some(String::from_str("Cannot delete the last session"));
        state.status_is_error = true;
        return state;
    }
    drop_session(&mut state.sessions, id.as_str());
    if same_text(state.current_session.id.as_str(), id.as_str()) && state.sessions.len() > 0 {
        let first = state.sessions[0].duplicate();
        switch_to(&mut state, first, false);
    }
    state
}

fn rename_session(state: State, name: &String) -> (r: State)
    ensures
        session_step(state@, SessionAction::RenameSession(*name), r@),
{
    let mut state = state;
    let ghost s = state@;
    state.current_session.name = Some(name.clone());
    state.current_session.touch();
    assert(state@ =~= StateView {
        current_session: crate::reducers::SessionView {
            name: Some(name@),
            modified_at: state@.current_session.modified_at,
            ..s.current_session
        },
        ..s
    });
    state
}

fn save_session(state: State) -> (r: State)
    ensures
        session_step(state@, SessionAction::SaveSession, r@),
{
    let mut state = state;
    let cur = state.current_session.duplicate();
    store_session(&mut state.sessions, cur);
    state.status_message = Some(String::from_str("Session saved"));
    state.status_is_error = false;
    state
}

fn list_sessions(state: State) -> (r: State)
    ensures
        session_step(state@, SessionAction::ListSessions, r@),
{
    let mut state = state;
    let ghost s = state@;
    let count = state.sessions.len();
    let mut text = u64_to_decimal(count as u64);
    push_str(&mut text, " sessions available");
    state.status_message = Some(text);
    state.status_is_error = false;
    assert(state@ =~= StateView {
        status_message: Some(crate::text::decimal(s.sessions.len()) + " sessions available"@),
        status_is_error: false,
        ..s
    });
    state
}

/// Applies a session action.
fn reduce_session(state: State, action: &SessionAction) -> (r: State)
    ensures
        session_step(state@, *action, r@),
{
    match action {
        SessionAction::NewSession => new_session(state, None),
        SessionAction::NewSessionWithName(name) => new_session(state, Some(name)),
        SessionAction::SwitchSession(id) => switch_session(state, id, true),
        SessionAction::DeleteSession(id) => delete_session(state, id),
        SessionAction::RenameSession(name) => rename_session(state, name),
        SessionAction::SaveSession => save_session(state),
        SessionAction::LoadSession(id) => switch_session(state, id, false),
        SessionAction::ListSessions => list_sessions(state),
    }
}

fn add_command(state: State, cmd: &String) -> (r: State)
    ensures
        r@ == command_next(state@, CommandAction::AddCommand(*cmd)),
{
    let mut state = state;
    let ghost s = state@;
    let n = state.command_history.len();
    if n > 0 && same_text(state.command_history[n - 1].as_str(), cmd.as_str()) {
        return state;
    }
    state.command_history.push(cmd.clone());
    assert(texts_view(state.command_history@) =~= s.command_history.push(cmd@));
    if state.command_history.len() > 100 {
        state.command_history.remove(0);
        assert(texts_view(state.command_history@) =~= s.command_history.push(cmd@).drop_first());
    }
    assert(state@ =~= command_next(s, CommandAction::AddCommand(*cmd)));
    state
}

fn command_history_up(state: State) -> (r: State)
    requires
        command_can(state@, CommandAction::CommandHistoryUp),
    ensures
        r@ == command_next(state@, CommandAction::CommandHistoryUp),
{
    let mut state = state;
    let ghost s = state@;
    if state.command_history.len() == 0 {
        return state;
    }
    if state.command_history_index.is_none() {
        state.saved_command = state.input.clone();
    }
    let len = state.command_history.len();
    let current = match state.command_history_index {
        Some(i) => i,
        None => len,
    };
    if current > 0 {
        let new_index = current - 1;
        state.command_history_index = Some(new_index);
        let line = state.command_history[new_index].clone();
        set_line(&mut state, line);
    }
    assert(state@ =~= command_next(s, CommandAction::CommandHistoryUp));
    state
}

fn command_history_down(state: State) -> (r: State)
    requires
        command_can(state@, CommandAction::CommandHistoryDown),
    ensures
        r@ == command_next(state@, CommandAction::CommandHistoryDown),
{
    let mut state = state;
    let ghost s = state@;
    match state.command_history_index {
        None => {},
        Some(index) => {
            if index + 1 >= state.command_history.len() {
                state.command_history_index = None;
                let line = state.saved_command.clone();
                set_line(&mut state, line);
            } else {
                let new_index = index + 1;
                state.command_history_index = Some(new_index);
                let line = state.command_history[new_index].clone();
                set_line(&mut state, line);
            }
            assert(state@ =~= command_next(s, CommandAction::CommandHistoryDown));
        },
    }
    state
}

/// Applies a command action.
fn reduce_command(state: State, action: &CommandAction) -> (r: State)
    requires
        command_can(state@, *action),
    ensures
        r@ == command_next(state@, *action),
{
    match action {
        CommandAction::AddCommand(cmd) => add_command(state, cmd),
        CommandAction::CommandHistoryUp => command_history_up(state),
        CommandAction::CommandHistoryDown => command_history_down(state),
        CommandAction::ClearCommandHistory => {
            let mut state = state;
            let ghost s = state@;
            state.command_history = Vec::new();
            state.command_history_index = None;
            state.saved_command = String::new();
            assert(state@ =~= command_next(s, *action));
            state
        },
    }
}

/// The lengths of a state in memory fit in `usize`.
pub(crate) fn state_fits(st: &State)
    ensures
        fits(st@),
{
    byte_len_fits(st.input.as_str());
    let _n1 = st.input_history.len();
    let _n2 = st.command_history.len();
    let _n3 = st.search_results.len();
    let _n4 = st.messages.len();
}

/// Applies `action` to `state`. Undo and redo leave the state as it is: the
/// store handles them.
pub fn reduce(state: State, action: &Action) -> (r: State)
    requires
        can_reduce(state@, *action),
    ensures
        reduces_to(state@, *action, r@),
        state_ok(state@) ==> state_ok(r@),
        state_wf(state@) ==> state_wf(r@),
    decreases action,
{
    let ghost s = state@;
    proof {
        if !(action is Batch) {
            lemma_leaf_can(s, *action);
        }
    }
    match action {
        Action::Message(a) => {
            let r = reduce_message(state, a);
            state_fits(&r);
            proof {
                lemma_leaf_reduces(s, *action, r@);
                if state_ok(s) {
                    law_leaf_keeps_wf(s, *action, r@);
                }
            }
            r
        },
        Action::Input(a) => {
            let r = reduce_input(state, a);
            state_fits(&r);
            proof {
                lemma_leaf_reduces(s, *action, r@);
                if state_ok(s) {
                    law_leaf_keeps_wf(s, *action, r@);
                }
            }
            r
        },
        Action::Navigation(a) => {
            let r = reduce_navigation(state, a);
            state_fits(&r);
            proof {
                lemma_leaf_reduces(s, *action, r@);
                if state_ok(s) {
                    law_leaf_keeps_wf(s, *action, r@);
                }
            }
            r
        },
        Action::Ui(a) => {
            let r = reduce_ui(state, a);
            state_fits(&r);
            proof {
                lemma_leaf_reduces(s, *action, r@);
                if state_ok(s) {
                    law_leaf_keeps_wf(s, *action, r@);
                }
            }
            r
        },
        Action::Search(a) => {
            let r = reduce_search(state, a);
            state_fits(&r);
            proof {
                lemma_leaf_reduces(s, *action, r@);
                if state_ok(s) {
                    law_leaf_keeps_wf(s, *action, r@);
                }
            }
            r
        },
        Action::Session(a) => {
            let r = reduce_session(state, a);
            state_fits(&r);
            proof {
                lemma_leaf_reduces(s, *action, r@);
                if state_ok(s) {
                    law_leaf_keeps_wf(s, *action, r@);
                }
            }
            r
        },
        Action::Command(a) => {
            let r = reduce_command(state, a);
            state_fits(&r);
            proof {
                lemma_leaf_reduces(s, *action, r@);
                if state_ok(s) {
                    law_leaf_keeps_wf(s, *action, r@);
                }
            }
            r
        },
        Action::Undo => {
            proof { lemma_leaf_reduces(s, *action, s); }
            state
        },
        Action::Redo => {
            proof { lemma_leaf_reduces(s, *action, s); }
            state
        },
        Action::Batch(actions) => {
            let mut state = state;
            let ghost mut sts: Seq<StateView> = seq![s];
            let mut i: usize = 0;
            proof {
                assert(actions@.take(0) =~= Seq::<Action>::empty());
                assert(flatten(*action) == flatten_all(actions@));
            }
            while i < actions.len()
                invariant
                    *action == Action::Batch(*actions),
                    i <= actions@.len(),
                    leaves_can(s, flatten_all(actions@)),
                    runs(s, flatten_all(actions@.take(i as int)), sts),
                    sts.last() == state@,
                    state_ok(s) ==> state_ok(state@),
                    state_wf(s) ==> state_wf(state@),
                decreases actions@.len() - i,
            {
                proof {
                    lemma_batch_can(s, actions@, i as int, sts);
                }
                assert(decreases_to!(*action => action->Batch_0));
                state = reduce(state, &actions[i]);
                proof {
                    sts = lemma_batch_step(s, actions@, i as int, sts, state@);
                }
                i = i + 1;
            }
            proof {
                assert(actions@.take(actions@.len() as int) =~= actions@);
                assert(flatten(*action) == flatten_all(actions@));
            }
            state
        },
    }
}

} // verus!
