//! The application state and its sessions, with their models.
use vstd::prelude::*;
use crate::actions::{
    format_id, fresh_hasher_state, generate_session_id, hash_unit, id_text, is_id_with_prefix,
    lemma_id_text_injective, msgs_view, now_timestamp, session_id_prefix, AgentState, FocusTarget,
    Message, MessageView, Mode, Timestamp,
};
use crate::text::same_text;
use crate::search::SearchMatch;

verus! {

broadcast use vstd::seq::group_seq_axioms;

/// Color theme.
#[derive(Debug, Clone, Copy, PartialEq, Eq, Structural)]
pub enum Theme {
    Light,
    Dark,
}

impl Default for Theme {
    fn default() -> (r: Self)
        ensures
            r == Theme::Light,
    {
        Theme::Light
    }
}

/// A conversation session.
#[derive(Debug, Clone)]
pub struct Session {
    /// Unique session identifier.
    pub id: String,
    /// Optional name.
    pub name: Option<String>,
    /// Creation time.
    pub created_at: Timestamp,
    /// Last modification time.
    pub modified_at: Timestamp,
    /// Messages of the session.
    pub messages: Vec<Message>,
}

/// The text of an optional string, if there is one.
pub open spec fn opt_text(o: Option<String>) -> Option<Seq<char>> {
    match o {
        Some(s) => Some(s@),
        None => None,
    }
}

/// Model of a session.
#[verifier::ext_equal]
pub struct SessionView {
    pub id: Seq<char>,
    pub name: Option<Seq<char>>,
    pub created_at: Timestamp,
    pub modified_at: Timestamp,
    pub messages: Seq<MessageView>,
}

impl View for Session {
    type V = SessionView;

    open spec fn view(&self) -> SessionView {
        SessionView {
            id: self.id@,
            name: opt_text(self.name),
            created_at: self.created_at,
            modified_at: self.modified_at,
            messages: msgs_view(self.messages@),
        }
    }
}

/// Models of a sequence of sessions.
pub open spec fn sessions_view(v: Seq<Session>) -> Seq<SessionView> {
    v.map_values(|s: Session| s@)
}

/// Models of a sequence of strings.
pub open spec fn texts_view(v: Seq<String>) -> Seq<Seq<char>> {
    v.map_values(|s: String| s@)
}

/// A session just created: fresh identifier, no name unless given, no messages,
/// modified when created.
pub open spec fn is_fresh_session(s: SessionView, name: Option<Seq<char>>) -> bool {
    &&& is_id_with_prefix(s.id, session_id_prefix())
    &&& s.name == name
    &&& s.messages.len() == 0
    &&& s.modified_at == s.created_at
}

/// A copy of `v`.
pub fn copy_messages(v: &Vec<Message>) -> (r: Vec<Message>)
    ensures
        msgs_view(r@) == msgs_view(v@),
{
    let mut r: Vec<Message> = Vec::new();
    let mut i: usize = 0;
    while i < v.len()
        invariant
            i <= v@.len(),
            msgs_view(r@) =~= msgs_view(v@.take(i as int)),
        decreases v@.len() - i,
    {
        let m = v[i].duplicate();
        let ghost prev = r@;
        r.push(m);
        assert(r@ == prev.push(m));
        assert(msgs_view(r@) =~= msgs_view(prev).push(m@));
        assert(v@.take(i + 1) =~= v@.take(i as int).push(v@[i as int]));
        assert(msgs_view(v@.take(i + 1)) =~= msgs_view(v@.take(i as int)).push(v@[i as int]@));
        i = i + 1;
    }
    assert(v@.take(v@.len() as int) =~= v@);
    r
}

/// A copy of an optional string.
pub fn copy_opt_text(o: &Option<String>) -> (r: Option<String>)
    ensures
        opt_text(r) == opt_text(*o),
{
    match o {
        Some(s) => Some(s.clone()),
        None => None,
    }
}

/// A copy of `v`.
pub fn copy_texts(v: &Vec<String>) -> (r: Vec<String>)
    ensures
        texts_view(r@) == texts_view(v@),
{
    let mut r: Vec<String> = Vec::new();
    let mut i: usize = 0;
    while i < v.len()
        invariant
            i <= v@.len(),
            texts_view(r@) =~= texts_view(v@.take(i as int)),
        decreases v@.len() - i,
    {
        let t = v[i].clone();
        let ghost prev = r@;
        r.push(t);
        assert(r@ == prev.push(t));
        assert(texts_view(r@) =~= texts_view(prev).push(t@));
        assert(v@.take(i + 1) =~= v@.take(i as int).push(v@[i as int]));
        assert(texts_view(v@.take(i + 1)) =~= texts_view(v@.take(i as int)).push(v@[i as int]@));
        i = i + 1;
    }
    assert(v@.take(v@.len() as int) =~= v@);
    r
}

impl Session {
    /// A new session with a fresh identifier, created now.
    pub fn new() -> (s: Session)
        ensures
            is_fresh_session(s@, None),
    {
        let now = now_timestamp();
        Session {
            id: generate_session_id(),
            name: None,
            created_at: now,
            modified_at: now,
            messages: Vec::new(),
        }
    }

    /// A new named session.
    pub fn with_name(name: &str) -> (s: Session)
        ensures
            is_fresh_session(s@, Some(name@)),
    {
        let mut s = Session::new();
        s.name = Some(String::from_str(name));
        s
    }

    /// Sets the modification time to now.
    pub fn touch(&mut self)
        ensures
            final(self)@ == (SessionView { modified_at: final(self)@.modified_at, ..old(self)@ }),
    {
        self.modified_at = now_timestamp();
    }

    /// A copy of the session.
    pub fn duplicate(&self) -> (s: Session)
        ensures
            s@ == self@,
    {
        Session {
            id: self.id.clone(),
            name: copy_opt_text(&self.name),
            created_at: self.created_at,
            modified_at: self.modified_at,
            messages: copy_messages(&self.messages),
        }
    }
}

impl Default for Session {
    fn default() -> (s: Self)
        ensures
            is_fresh_session(s@, None),
    {
        Session::new()
    }
}

/// The first index of a session with identifier `id`.
pub open spec fn session_index(v: Seq<SessionView>, id: Seq<char>) -> Option<int>
    decreases v.len(),
{
    if v.len() == 0 {
        None
    } else {
        match session_index(v.drop_last(), id) {
            Some(i) => Some(i),
            None => if v.last().id == id {
                Some(v.len() - 1)
            } else {
                None
            },
        }
    }
}

/// The sessions with `s` stored under its identifier: it replaces the session
/// with that identifier, or is added at the end.
pub open spec fn upsert_session(v: Seq<SessionView>, s: SessionView) -> Seq<SessionView> {
    match session_index(v, s.id) {
        Some(i) => v.update(i, s),
        None => v.push(s),
    }
}

/// The sessions without the one stored under `id`.
pub open spec fn remove_session(v: Seq<SessionView>, id: Seq<char>) -> Seq<SessionView> {
    match session_index(v, id) {
        Some(i) => v.remove(i),
        None => v,
    }
}

/// What the first index of a session is.
pub proof fn lemma_session_index(v: Seq<SessionView>, id: Seq<char>)
    ensures
        session_index(v, id) matches Some(i) ==> 0 <= i < v.len() && v[i].id == id && forall|j: int|
            0 <= j < i ==> v[j].id != id,
        session_index(v, id) is None ==> forall|j: int| 0 <= j < v.len() ==> v[j].id != id,
    decreases v.len(),
{
    if v.len() > 0 {
        let w = v.drop_last();
        lemma_session_index(w, id);
        assert forall|j: int| 0 <= j < w.len() implies w[j] == v[j] by {}
    }
}

/// The first index of a matching session is determined by where the first match is.
pub proof fn lemma_session_index_at(v: Seq<SessionView>, id: Seq<char>, i: int)
    requires
        0 <= i < v.len(),
        v[i].id == id,
        forall|j: int| 0 <= j < i ==> v[j].id != id,
    ensures
        session_index(v, id) == Some(i),
{
    lemma_session_index(v, id);
}

/// Finds the first session with identifier `id`.
pub fn find_session(v: &Vec<Session>, id: &str) -> (r: Option<usize>)
    ensures
        r matches Some(k) ==> session_index(sessions_view(v@), id@) == Some(k as int),
        r is None ==> session_index(sessions_view(v@), id@) is None,
        r matches Some(k) ==> k < v@.len(),
{
    let ghost sv = sessions_view(v@);
    proof {
        lemma_session_index(sv, id@);
    }
    let mut i: usize = 0;
    while i < v.len()
        invariant
            sv == sessions_view(v@),
            i <= v@.len(),
            forall|j: int| 0 <= j < i ==> sv[j].id != id@,
        decreases v@.len() - i,
    {
        if crate::text::same_text(v[i].id.as_str(), id) {
            assert(sv[i as int].id == id@);
            proof {
                lemma_session_index_at(sv, id@, i as int);
            }
            return Some(i);
        }
        i = i + 1;
    }
    None
}

/// Stores `s` under its identifier.
pub fn store_session(v: &mut Vec<Session>, s: Session)
    ensures
        sessions_view(final(v)@) == upsert_session(sessions_view(old(v)@), s@),
{
    let ghost sv = s@;
    proof {
        lemma_session_index(sessions_view(v@), s.id@);
    }
    match find_session(v, s.id.as_str()) {
        Some(i) => {
            v.set(i, s);
            assert(sessions_view(v@) =~= upsert_session(sessions_view(old(v)@), sv));
        },
        None => {
            v.push(s);
            assert(sessions_view(v@) =~= upsert_session(sessions_view(old(v)@), sv));
        },
    }
}

/// Removes the session stored under `id`.
pub fn drop_session(v: &mut Vec<Session>, id: &str)
    ensures
        sessions_view(final(v)@) == remove_session(sessions_view(old(v)@), id@),
{
    proof {
        lemma_session_index(sessions_view(v@), id@);
    }
    match find_session(v, id) {
        Some(i) => {
            v.remove(i);
            assert(sessions_view(v@) =~= remove_session(sessions_view(old(v)@), id@));
        },
        None => {},
    }
}


/// The central application state.
#[derive(Debug, Clone)]
pub struct State {
    /// The active session.
    pub current_session: Session,
    /// All stored sessions, each under its own identifier.
    pub sessions: Vec<Session>,
    /// The messages of the active session.
    pub messages: Vec<Message>,
    /// Earlier inputs, oldest first.
    pub input_history: Vec<String>,
    /// Position in the input history while navigating it.
    pub input_history_index: Option<usize>,
    /// The input line.
    pub input: String,
    /// Cursor as a byte offset into the input line.
    pub cursor_pos: usize,
    /// The input line saved when history navigation began.
    pub saved_input: String,
    /// Scroll position in the message list.
    pub scroll_offset: usize,
    /// The current search query.
    pub search_query: Option<String>,
    /// Matches of the current search.
    pub search_results: Vec<SearchMatch>,
    /// Selected match.
    pub current_match_index: Option<usize>,
    /// Whether search is case sensitive.
    pub case_sensitive: bool,
    /// Earlier commands, oldest first.
    pub command_history: Vec<String>,
    /// Position in the command history while navigating it.
    pub command_history_index: Option<usize>,
    /// The input line saved when command history navigation began.
    pub saved_command: String,
    /// Agent state.
    pub agent_state: AgentState,
    /// Current mode.
    pub mode: Mode,
    /// Current theme.
    pub theme: Theme,
    /// Whether the help overlay shows.
    pub show_help: bool,
    /// Focused element.
    pub focus: FocusTarget,
    /// Whether the application should quit.
    pub should_quit: bool,
    /// Status message.
    pub status_message: Option<String>,
    /// Whether the status message reports an error.
    pub status_is_error: bool,
}

/// Model of the state.
#[verifier::ext_equal]
pub struct StateView {
    pub current_session: SessionView,
    pub sessions: Seq<SessionView>,
    pub messages: Seq<MessageView>,
    pub input_history: Seq<Seq<char>>,
    pub input_history_index: Option<usize>,
    pub input: Seq<char>,
    pub cursor_pos: usize,
    pub saved_input: Seq<char>,
    pub scroll_offset: usize,
    pub search_query: Option<Seq<char>>,
    pub search_results: Seq<SearchMatch>,
    pub current_match_index: Option<usize>,
    pub case_sensitive: bool,
    pub command_history: Seq<Seq<char>>,
    pub command_history_index: Option<usize>,
    pub saved_command: Seq<char>,
    pub agent_state: AgentState,
    pub mode: Mode,
    pub theme: Theme,
    pub show_help: bool,
    pub focus: FocusTarget,
    pub should_quit: bool,
    pub status_message: Option<Seq<char>>,
    pub status_is_error: bool,
}

impl View for State {
    type V = StateView;

    open spec fn view(&self) -> StateView {
        StateView {
            current_session: self.current_session@,
            sessions: sessions_view(self.sessions@),
            messages: msgs_view(self.messages@),
            input_history: texts_view(self.input_history@),
            input_history_index: self.input_history_index,
            input: self.input@,
            cursor_pos: self.cursor_pos,
            saved_input: self.saved_input@,
            scroll_offset: self.scroll_offset,
            search_query: opt_text(self.search_query),
            search_results: self.search_results@,
            current_match_index: self.current_match_index,
            case_sensitive: self.case_sensitive,
            command_history: texts_view(self.command_history@),
            command_history_index: self.command_history_index,
            saved_command: self.saved_command@,
            agent_state: self.agent_state,
            mode: self.mode,
            theme: self.theme,
            show_help: self.show_help,
            focus: self.focus,
            should_quit: self.should_quit,
            status_message: opt_text(self.status_message),
            status_is_error: self.status_is_error,
        }
    }
}

/// The state of a fresh application around session `s`, with the given theme.
pub open spec fn initial_state(s: SessionView, theme: Theme) -> StateView {
    StateView {
        current_session: s,
        sessions: seq![s],
        messages: Seq::empty(),
        input_history: Seq::empty(),
        input_history_index: None,
        input: Seq::empty(),
        cursor_pos: 0,
        saved_input: Seq::empty(),
        scroll_offset: 0,
        search_query: None,
        search_results: Seq::empty(),
        current_match_index: None,
        case_sensitive: false,
        command_history: Seq::empty(),
        command_history_index: None,
        saved_command: Seq::empty(),
        agent_state: AgentState::Idle,
        mode: Mode::Input,
        theme,
        show_help: false,
        focus: FocusTarget::Input,
        should_quit: false,
        status_message: None,
        status_is_error: false,
    }
}

fn fresh_state(theme: Theme) -> (st: State)
    ensures
        st@ == initial_state(st@.current_session, theme),
        is_fresh_session(st@.current_session, None),
{
    let session = Session::new();
    let mut sessions: Vec<Session> = Vec::new();
    sessions.push(session.duplicate());
    let st = State {
        current_session: session,
        sessions,
        messages: Vec::new(),
        input_history: Vec::new(),
        input_history_index: None,
        input: String::new(),
        cursor_pos: 0,
        saved_input: String::new(),
        scroll_offset: 0,
        search_query: None,
        search_results: Vec::new(),
        current_match_index: None,
        case_sensitive: false,
        command_history: Vec::new(),
        command_history_index: None,
        saved_command: String::new(),
        agent_state: AgentState::Idle,
        mode: Mode::Input,
        theme,
        show_help: false,
        focus: FocusTarget::Input,
        should_quit: false,
        status_message: None,
        status_is_error: false,
    };
    assert(st@ =~= initial_state(st@.current_session, theme));
    st
}

impl Default for State {
    fn default() -> (st: Self)
        ensures
            st@ == initial_state(st@.current_session, Theme::Light),
            is_fresh_session(st@.current_session, None),
    {
        fresh_state(Theme::Light)
    }
}

impl State {
    /// A new state with one fresh session, in input mode, with the light theme.
    pub fn new() -> (st: State)
        ensures
            st@ == initial_state(st@.current_session, Theme::Light),
            is_fresh_session(st@.current_session, None),
    {
        fresh_state(Theme::Light)
    }

    /// A new state with the dark theme.
    pub fn dark() -> (st: State)
        ensures
            st@ == initial_state(st@.current_session, Theme::Dark),
            is_fresh_session(st@.current_session, None),
    {
        fresh_state(Theme::Dark)
    }

    /// A copy of the state.
    pub fn duplicate(&self) -> (st: State)
        ensures
            st@ == self@,
    {
        let mut sessions: Vec<Session> = Vec::new();
        let mut i: usize = 0;
        while i < self.sessions.len()
            invariant
                i <= self.sessions@.len(),
                sessions_view(sessions@) =~= sessions_view(self.sessions@.take(i as int)),
            decreases self.sessions@.len() - i,
        {
            let x = self.sessions[i].duplicate();
            let ghost prev = sessions@;
            sessions.push(x);
            assert(sessions_view(sessions@) =~= sessions_view(prev).push(x@));
            assert(self.sessions@.take(i + 1) =~= self.sessions@.take(i as int).push(self.sessions@[i as int]));
            assert(sessions_view(self.sessions@.take(i + 1)) =~= sessions_view(self.sessions@.take(i as int)).push(self.sessions@[i as int]@));
            i = i + 1;
        }
        assert(self.sessions@.take(self.sessions@.len() as int) =~= self.sessions@);
        let st = State {
            current_session: self.current_session.duplicate(),
            sessions,
            messages: copy_messages(&self.messages),
            input_history: copy_texts(&self.input_history),
            input_history_index: self.input_history_index,
            input: self.input.clone(),
            cursor_pos: self.cursor_pos,
            saved_input: self.saved_input.clone(),
            scroll_offset: self.scroll_offset,
            search_query: copy_opt_text(&self.search_query),
            search_results: copy_matches(&self.search_results),
            current_match_index: self.current_match_index,
            case_sensitive: self.case_sensitive,
            command_history: copy_texts(&self.command_history),
            command_history_index: self.command_history_index,
            saved_command: self.saved_command.clone(),
            agent_state: self.agent_state,
            mode: self.mode,
            theme: self.theme,
            show_help: self.show_help,
            focus: self.focus,
            should_quit: self.should_quit,
            status_message: copy_opt_text(&self.status_message),
            status_is_error: self.status_is_error,
        };
        assert(st@ =~= self@);
        st
    }
}

/// A copy of `v`.
pub fn copy_matches(v: &Vec<SearchMatch>) -> (r: Vec<SearchMatch>)
    ensures
        r@ == v@,
{
    let mut r: Vec<SearchMatch> = Vec::new();
    let mut i: usize = 0;
    while i < v.len()
        invariant
            i <= v@.len(),
            r@ =~= v@.take(i as int),
        decreases v@.len() - i,
    {
        let m = SearchMatch { message_index: v[i].message_index, start: v[i].start, end: v[i].end };
        r.push(m);
        i = i + 1;
        assert(r@ =~= v@.take(i as int));
    }
    assert(v@.take(v@.len() as int) =~= v@);
    r
}

/// The identifiers of the stored sessions, then the current session's.
pub open spec fn ids_in_use(v: Seq<SessionView>, cur: SessionView) -> Seq<Seq<char>> {
    v.map_values(|x: SessionView| x.id).push(cur.id)
}

/// The session identifier with number `n` moved up by `k`, wrapping past the
/// largest `u64`.
pub open spec fn candidate_id(t: u64, n: u64, k: u64) -> Seq<char> {
    id_text(session_id_prefix(), t, n.wrapping_add(k))
}

/// More distinct identifiers than there are in use cannot all be in use.
proof fn lemma_pigeonhole(cands: Seq<Seq<char>>, used: Seq<Seq<char>>)
    requires
        cands.no_duplicates(),
        forall|i: int| 0 <= i < cands.len() ==> used.contains(#[trigger] cands[i]),
    ensures
        cands.len() <= used.len(),
{
    broadcast use vstd::set::group_set_axioms, vstd::seq_lib::seq_to_set_is_finite;
    cands.unique_seq_to_set();
    used.lemma_cardinality_of_set();
    assert(cands.to_set().subset_of(used.to_set())) by {
        assert forall|x: Seq<char>| cands.to_set().contains(x) implies used.to_set().contains(x) by {
            let i = choose|i: int| 0 <= i < cands.len() && cands[i] == x;
            assert(used.contains(cands[i]));
        }
    }
    vstd::set_lib::lemma_len_subset(cands.to_set(), used.to_set());
}

/// The candidates numbered `0..=k` are all different.
proof fn lemma_candidates_distinct(t: u64, n: u64, k: u64)
    ensures
        Seq::new(k as nat + 1, |j: int| candidate_id(t, n, j as u64)).no_duplicates(),
{
    let c = Seq::new(k as nat + 1, |j: int| candidate_id(t, n, j as u64));
    assert forall|a: int, b: int| 0 <= a < c.len() && 0 <= b < c.len() && a != b implies c[a] != c[b] by {
        if c[a] == c[b] {
            lemma_id_text_injective(session_id_prefix(), t, n.wrapping_add(a as u64), n.wrapping_add(b as u64));
        }
    }
}

/// A session identifier `sess_<now>_<n>` that neither the current session
/// nor a stored one has: `n` starts from a newly seeded hasher state and is
/// stepped up (wrapping past the largest `u64`) until the identifier is free.
/// Such a number is always found unless there are `u64::MAX` stored sessions.
pub fn fresh_session_id(sessions: &Vec<Session>, current: &Session) -> (r: String)
    ensures
        is_id_with_prefix(r@, session_id_prefix()),
        sessions@.len() < u64::MAX ==> r@ != current@.id && session_index(sessions_view(sessions@), r@) is None,
{
    let seed = fresh_hasher_state();
    let n = hash_unit(&seed);
    let t = now_timestamp();
    let prefix = "sess_";
    proof {
        reveal_strlit("sess_");
    }
    assert(prefix@ =~= session_id_prefix());
    let ghost v = sessions_view(sessions@);
    let ghost used = ids_in_use(v, current@);
    let mut k: u64 = 0;
    loop
        invariant
            prefix@ == session_id_prefix(),
            v == sessions_view(sessions@),
            used == ids_in_use(v, current@),
            forall|j: u64| j < k ==> used.contains(#[trigger] candidate_id(t, n, j)),
        decreases u64::MAX - k,
    {
        let cand = format_id(prefix, t, n.wrapping_add(k));
        assert(cand@ == candidate_id(t, n, k));
        let same = same_text(cand.as_str(), current.id.as_str());
        let found = find_session(sessions, cand.as_str());
        if !same && found.is_none() {
            return cand;
        }
        proof {
            if same {
                assert(used[used.len() - 1] == cand@);
            } else {
                lemma_session_index(v, cand@);
                let p = found->Some_0 as int;
                assert(used[p] == v[p].id);
            }
            assert(used.contains(cand@));
        }
        if k == u64::MAX {
            proof {
                let c = Seq::new(k as nat + 1, |j: int| candidate_id(t, n, j as u64));
                lemma_candidates_distinct(t, n, k);
                assert forall|i: int| 0 <= i < c.len() implies used.contains(#[trigger] c[i]) by {
                    assert(c[i] == candidate_id(t, n, i as u64));
                }
                lemma_pigeonhole(c, used);
            }
            return cand;
        }
        k = k + 1;
    }
}

} // verus!
