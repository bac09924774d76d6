//! Actions: the only way to change the application state.
use vstd::prelude::*;
use crate::text::{decimal, push_char, push_decimal, push_str};
use std::collections::hash_map::RandomState;
use std::time::{Duration, SystemTime};

verus! {

/// Timestamp in milliseconds since the Unix epoch.
pub type Timestamp = u64;

/// `serde_json::Value`, carried through without a look inside.
#[verifier::external_type_specification]
#[verifier::external_body]
pub struct ExJsonValue(serde_json::Value);

/// `std::time::SystemTime`, carried through without a look inside.
#[verifier::external_type_specification]
#[verifier::external_body]
pub struct ExSystemTime(std::time::SystemTime);

/// `serde_json::Value`'s `Clone` is derived, so the clone equals the value cloned.
pub assume_specification[ <serde_json::Value as Clone>::clone ](v: &serde_json::Value) -> (r: serde_json::Value)
    ensures
        r == *v,
;

/// Calls `SystemTime::now`; the result depends on the clock, so nothing is stated.
#[verifier::external_body]
fn clock_now() -> SystemTime {
    SystemTime::now()
}

/// Calls `SystemTime::duration_since` with the Unix epoch; `None` where the
/// clock reads earlier than the epoch.
#[verifier::external_body]
fn elapsed_since_epoch(t: &SystemTime) -> Option<Duration> {
    match t.duration_since(SystemTime::UNIX_EPOCH) {
        Ok(d) => Some(d),
        Err(_) => None,
    }
}

/// Calls `Duration::as_millis`; nothing is stated of the result.
#[verifier::external_body]
fn whole_millis(d: &Duration) -> u128 {
    d.as_millis()
}

/// Calls `RandomState::new`, which seeds a fresh hasher state; nothing is stated.
#[verifier::external_body]
pub(crate) fn fresh_hasher_state() -> RandomState {
    RandomState::new()
}

/// Calls `BuildHasher::hash_one` on a unit value; hashers of different
/// `RandomState`s give different results with overwhelming probability.
/// Nothing is stated of the result.
#[verifier::external_body]
pub(crate) fn hash_unit(s: &RandomState) -> u64 {
    std::hash::BuildHasher::hash_one(s, ())
}

/// The timestamp for a clock reading: the milliseconds since the epoch
/// (truncated to 64 bits), or 0 where the clock reads before the epoch.
pub fn timestamp_from_millis(millis: Option<u128>) -> (t: Timestamp)
    ensures
        t == (match millis {
            Some(m) => m as u64,
            None => 0u64,
        }),
{
    match millis {
        Some(m) => m as u64,
        None => 0,
    }
}

/// Current time in milliseconds since the Unix epoch (0 if the clock reads
/// earlier than the epoch).
pub fn now_timestamp() -> (t: Timestamp) {
    let now = clock_now();
    let millis = match elapsed_since_epoch(&now) {
        Some(d) => Some(whole_millis(&d)),
        None => None,
    };
    timestamp_from_millis(millis)
}

/// The text of an identifier: `prefix`, the timestamp, `_`, the sequence value.
pub open spec fn id_text(prefix: Seq<char>, timestamp: u64, seq_value: u64) -> Seq<char> {
    prefix + decimal(timestamp as nat) + seq!['_'] + decimal(seq_value as nat)
}

/// Whether `id` has the shape `prefix<timestamp>_<number>`.
pub open spec fn is_id_with_prefix(id: Seq<char>, prefix: Seq<char>) -> bool {
    exists|t: u64, n: u64| id == id_text(prefix, t, n)
}

/// With the prefix and timestamp fixed, different numbers give different
/// identifiers.
pub proof fn lemma_id_text_injective(prefix: Seq<char>, timestamp: u64, a: u64, b: u64)
    requires
        id_text(prefix, timestamp, a) == id_text(prefix, timestamp, b),
    ensures
        a == b,
{
    let head = prefix + decimal(timestamp as nat) + seq!['_'];
    let ia = id_text(prefix, timestamp, a);
    let ib = id_text(prefix, timestamp, b);
    assert(ia.skip(head.len() as int) =~= decimal(a as nat));
    assert(ib.skip(head.len() as int) =~= decimal(b as nat));
    crate::text::lemma_decimal_injective(a as nat, b as nat);
}

/// Builds `prefix<timestamp>_<seq_value>`.
pub fn format_id(prefix: &str, timestamp: Timestamp, seq_value: u64) -> (r: String)
    ensures
        r@ == id_text(prefix@, timestamp, seq_value),
{
    let mut s = String::new();
    push_str(&mut s, prefix);
    push_decimal(&mut s, timestamp);
    push_char(&mut s, '_');
    push_decimal(&mut s, seq_value);
    assert(s@ =~= id_text(prefix@, timestamp, seq_value));
    s
}

/// The prefix of message identifiers.
pub open spec fn message_id_prefix() -> Seq<char> {
    seq!['m', 's', 'g', '_']
}

/// The prefix of session identifiers.
pub open spec fn session_id_prefix() -> Seq<char> {
    seq!['s', 'e', 's', 's', '_']
}

/// A fresh message identifier `msg_<now>_<n>`, where `n` comes from a newly
/// seeded hasher state.
pub fn generate_message_id() -> (r: String)
    ensures
        is_id_with_prefix(r@, message_id_prefix()),
{
    let seed = fresh_hasher_state();
    let n = hash_unit(&seed);
    let t = now_timestamp();
    let prefix = "msg_";
    proof {
        reveal_strlit("msg_");
    }
    assert(prefix@ =~= message_id_prefix());
    let r = format_id(prefix, t, n);
    assert(r@ == id_text(message_id_prefix(), t, n));
    r
}

/// A fresh session identifier `sess_<now>_<n>`, where `n` comes from a newly
/// seeded hasher state.
pub fn generate_session_id() -> (r: String)
    ensures
        is_id_with_prefix(r@, session_id_prefix()),
{
    let seed = fresh_hasher_state();
    let n = hash_unit(&seed);
    let t = now_timestamp();
    let prefix = "sess_";
    proof {
        reveal_strlit("sess_");
    }
    assert(prefix@ =~= session_id_prefix());
    let r = format_id(prefix, t, n);
    assert(r@ == id_text(session_id_prefix(), t, n));
    r
}


/// Role of a message's sender.
#[derive(Debug, Clone, Copy, PartialEq, Eq, Structural)]
pub enum MessageRole {
    User,
    Assistant,
    System,
    Tool,
}

impl Default for MessageRole {
    fn default() -> (r: Self)
        ensures
            r == MessageRole::User,
    {
        MessageRole::User
    }
}

/// Display name of a role.
pub open spec fn role_label(r: MessageRole) -> Seq<char> {
    match r {
        MessageRole::User => "User"@,
        MessageRole::Assistant => "Assistant"@,
        MessageRole::System => "System"@,
        MessageRole::Tool => "Tool"@,
    }
}

impl MessageRole {
    /// The role's display name.
    pub fn to_display_string(&self) -> (r: String)
        ensures
            r@ == role_label(*self),
    {
        match self {
            MessageRole::User => String::from_str("User"),
            MessageRole::Assistant => String::from_str("Assistant"),
            MessageRole::System => String::from_str("System"),
            MessageRole::Tool => String::from_str("Tool"),
        }
    }
}

/// A conversation message with metadata.
#[derive(Debug, Clone)]
pub struct Message {
    /// Unique message identifier.
    pub id: String,
    /// Role of the sender.
    pub role: MessageRole,
    /// Text of the message.
    pub content: String,
    /// Milliseconds since the Unix epoch.
    pub timestamp: Timestamp,
    /// Optional metadata for tool calls, attachments, and the like.
    pub metadata: Option<serde_json::Value>,
}

/// Mathematical model of a message.
pub struct MessageView {
    pub id: Seq<char>,
    pub role: MessageRole,
    pub content: Seq<char>,
    pub timestamp: Timestamp,
    pub metadata: Option<serde_json::Value>,
}

impl View for Message {
    type V = MessageView;

    open spec fn view(&self) -> MessageView {
        MessageView {
            id: self.id@,
            role: self.role,
            content: self.content@,
            timestamp: self.timestamp,
            metadata: self.metadata,
        }
    }
}

/// Models of a sequence of messages.
pub open spec fn msgs_view(v: Seq<Message>) -> Seq<MessageView> {
    v.map_values(|m: Message| m@)
}

impl Message {
    /// A new message with a fresh identifier and the current time.
    pub fn new(role: MessageRole, content: &str) -> (m: Message)
        ensures
            m.role == role,
            m.content@ == content@,
            m.metadata is None,
            is_id_with_prefix(m.id@, message_id_prefix()),
    {
        Message {
            id: generate_message_id(),
            role,
            content: String::from_str(content),
            timestamp: now_timestamp(),
            metadata: None,
        }
    }

    /// A new message from the user.
    pub fn user(content: &str) -> (m: Message)
        ensures
            m.role == MessageRole::User,
            m.content@ == content@,
            m.metadata is None,
            is_id_with_prefix(m.id@, message_id_prefix()),
    {
        Self::new(MessageRole::User, content)
    }

    /// A new message from the assistant.
    pub fn assistant(content: &str) -> (m: Message)
        ensures
            m.role == MessageRole::Assistant,
            m.content@ == content@,
            m.metadata is None,
            is_id_with_prefix(m.id@, message_id_prefix()),
    {
        Self::new(MessageRole::Assistant, content)
    }

    /// A new system message.
    pub fn system(content: &str) -> (m: Message)
        ensures
            m.role == MessageRole::System,
            m.content@ == content@,
            m.metadata is None,
            is_id_with_prefix(m.id@, message_id_prefix()),
    {
        Self::new(MessageRole::System, content)
    }

    /// A new tool message.
    pub fn tool(content: &str) -> (m: Message)
        ensures
            m.role == MessageRole::Tool,
            m.content@ == content@,
            m.metadata is None,
            is_id_with_prefix(m.id@, message_id_prefix()),
    {
        Self::new(MessageRole::Tool, content)
    }

    /// The message with the given metadata attached.
    pub fn with_metadata(self, metadata: serde_json::Value) -> (m: Message)
        ensures
            m@ == (MessageView { metadata: Some(metadata), ..self@ }),
    {
        let mut m = self;
        m.metadata = Some(metadata);
        m
    }

    /// The message with the given identifier.
    pub fn with_id(self, id: &str) -> (m: Message)
        ensures
            m@ == (MessageView { id: id@, ..self@ }),
    {
        let mut m = self;
        m.id = String::from_str(id);
        m
    }

    /// The message with the given timestamp.
    pub fn with_timestamp(self, timestamp: Timestamp) -> (m: Message)
        ensures
            m@ == (MessageView { timestamp, ..self@ }),
    {
        let mut m = self;
        m.timestamp = timestamp;
        m
    }

    /// A copy of the message.
    pub fn duplicate(&self) -> (m: Message)
        ensures
            m@ == self@,
    {
        Message {
            id: self.id.clone(),
            role: self.role,
            content: self.content.clone(),
            timestamp: self.timestamp,
            metadata: self.metadata.clone(),
        }
    }
}

/// Operational state of the agent.
#[derive(Debug, Clone, Copy, PartialEq, Eq, Structural)]
pub enum AgentState {
    Idle,
    Thinking,
    ExecutingTool,
    StreamingResponse,
    Error,
}

impl Default for AgentState {
    fn default() -> (r: Self)
        ensures
            r == AgentState::Idle,
    {
        AgentState::Idle
    }
}

/// Application mode.
#[derive(Debug, Clone, Copy, PartialEq, Eq, Structural)]
pub enum Mode {
    Normal,
    Input,
    Command,
    Search,
}

impl Default for Mode {
    fn default() -> (r: Self)
        ensures
            r == Mode::Input,
    {
        Mode::Input
    }
}

/// Display name of a mode.
pub open spec fn mode_label(m: Mode) -> Seq<char> {
    match m {
        Mode::Normal => "NORMAL"@,
        Mode::Input => "INPUT"@,
        Mode::Command => "COMMAND"@,
        Mode::Search => "SEARCH"@,
    }
}

impl Mode {
    /// The mode's display name.
    pub fn to_display_string(&self) -> (r: String)
        ensures
            r@ == mode_label(*self),
    {
        match self {
            Mode::Normal => String::from_str("NORMAL"),
            Mode::Input => String::from_str("INPUT"),
            Mode::Command => String::from_str("COMMAND"),
            Mode::Search => String::from_str("SEARCH"),
        }
    }
}

/// Actions on messages.
#[derive(Debug, Clone)]
pub enum MessageAction {
    /// Add a new message.
    AddMessage(Message),
    /// Remove all messages.
    ClearMessages,
    /// Delete the message at an index.
    DeleteMessage(usize),
    /// Delete the message with an identifier.
    DeleteMessageById(String),
    /// Replace the content of the message at an index.
    EditMessage { index: usize, content: String },
    /// Replace the content of the message with an identifier.
    EditMessageById { id: String, content: String },
}

/// Actions on the input line.
#[derive(Debug, Clone)]
pub enum InputAction {
    InsertChar(char),
    DeleteChar,
    DeleteCharForward,
    DeleteWordBackward,
    DeleteWordForward,
    MoveCursorLeft,
    MoveCursorRight,
    MoveCursorStart,
    MoveCursorEnd,
    MoveCursorWordLeft,
    MoveCursorWordRight,
    ClearInput,
    SetInput(String),
    SubmitInput,
    HistoryUp,
    HistoryDown,
}

/// Actions on scrolling and navigation.
#[derive(Debug, Clone)]
pub enum NavigationAction {
    ScrollUp(usize),
    ScrollDown(usize),
    ScrollToTop,
    ScrollToBottom,
    ScrollToMessage(usize),
    ScrollToMessageById(String),
    NavigateBack,
}

/// Focus targets in the interface.
#[derive(Debug, Clone, Copy, PartialEq, Eq, Structural)]
pub enum FocusTarget {
    Input,
    MessageList,
    Sidebar,
    HelpOverlay,
}

impl Default for FocusTarget {
    fn default() -> (r: Self)
        ensures
            r == FocusTarget::Input,
    {
        FocusTarget::Input
    }
}

/// Actions on the interface state.
#[derive(Debug, Clone)]
pub enum UiAction {
    ToggleTheme,
    /// Set the theme (true is dark).
    SetTheme(bool),
    SetAgentState(AgentState),
    SetMode(Mode),
    Quit,
    ShowHelp,
    HideHelp,
    ToggleHelp,
    SetFocus(FocusTarget),
    ShowStatus { message: String, is_error: bool },
    ClearStatus,
}

/// Actions on message search.
#[derive(Debug, Clone)]
pub enum SearchAction {
    Search(String),
    ClearSearch,
    NextMatch,
    PrevMatch,
    ToggleCaseSensitive,
}

/// Actions on sessions.
#[derive(Debug, Clone)]
pub enum SessionAction {
    NewSession,
    NewSessionWithName(String),
    SwitchSession(String),
    DeleteSession(String),
    RenameSession(String),
    SaveSession,
    LoadSession(String),
    ListSessions,
}

/// Actions on the command history.
#[derive(Debug, Clone)]
pub enum CommandAction {
    AddCommand(String),
    CommandHistoryUp,
    CommandHistoryDown,
    ClearCommandHistory,
}

/// Every state change the application knows.
#[derive(Debug)]
pub enum Action {
    Message(MessageAction),
    Input(InputAction),
    Navigation(NavigationAction),
    Ui(UiAction),
    Search(SearchAction),
    Session(SessionAction),
    Command(CommandAction),
    Undo,
    Redo,
    /// Several actions applied in order.
    Batch(Vec<Action>),
}


/// Whether `a` adds a fresh message with the given role and content.
pub open spec fn adds_fresh_message(a: Action, role: MessageRole, content: Seq<char>) -> bool {
    a matches Action::Message(MessageAction::AddMessage(m)) && m.role == role && m.content@ == content
        && m.metadata is None && is_id_with_prefix(m.id@, message_id_prefix())
}

impl Action {
    /// Adds a new message with the given role.
    pub fn add_message(role: MessageRole, content: &str) -> (a: Action)
        ensures
            adds_fresh_message(a, role, content@),
    {
        Action::Message(MessageAction::AddMessage(Message::new(role, content)))
    }

    /// Adds a new user message.
    pub fn user_message(content: &str) -> (a: Action)
        ensures
            adds_fresh_message(a, MessageRole::User, content@),
    {
        Action::Message(MessageAction::AddMessage(Message::user(content)))
    }

    /// Adds a new assistant message.
    pub fn assistant_message(content: &str) -> (a: Action)
        ensures
            adds_fresh_message(a, MessageRole::Assistant, content@),
    {
        Action::Message(MessageAction::AddMessage(Message::assistant(content)))
    }

    /// Adds a new system message.
    pub fn system_message(content: &str) -> (a: Action)
        ensures
            adds_fresh_message(a, MessageRole::System, content@),
    {
        Action::Message(MessageAction::AddMessage(Message::system(content)))
    }

    /// Removes every message.
    pub fn clear_messages() -> (a: Action)
        ensures
            a matches Action::Message(MessageAction::ClearMessages),
    {
        Action::Message(MessageAction::ClearMessages)
    }

    /// Deletes the message at `index`.
    pub fn delete_message(index: usize) -> (a: Action)
        ensures
            a matches Action::Message(MessageAction::DeleteMessage(i)) && i == index,
    {
        Action::Message(MessageAction::DeleteMessage(index))
    }

    /// Records the input line in the input history.
    pub fn submit_input() -> (a: Action)
        ensures
            a matches Action::Input(InputAction::SubmitInput),
    {
        Action::Input(InputAction::SubmitInput)
    }

    /// Inserts `c` at the cursor.
    pub fn insert_char(c: char) -> (a: Action)
        ensures
            a matches Action::Input(InputAction::InsertChar(d)) && d == c,
    {
        Action::Input(InputAction::InsertChar(c))
    }

    /// Deletes the character before the cursor.
    pub fn delete_char() -> (a: Action)
        ensures
            a matches Action::Input(InputAction::DeleteChar),
    {
        Action::Input(InputAction::DeleteChar)
    }

    /// Switches to `mode`.
    pub fn set_mode(mode: Mode) -> (a: Action)
        ensures
            a matches Action::Ui(UiAction::SetMode(m)) && m == mode,
    {
        Action::Ui(UiAction::SetMode(mode))
    }

    /// Sets the agent state shown.
    pub fn set_agent_state(state: AgentState) -> (a: Action)
        ensures
            a matches Action::Ui(UiAction::SetAgentState(s)) && s == state,
    {
        Action::Ui(UiAction::SetAgentState(state))
    }

    /// Switches between the light and dark theme.
    pub fn toggle_theme() -> (a: Action)
        ensures
            a matches Action::Ui(UiAction::ToggleTheme),
    {
        Action::Ui(UiAction::ToggleTheme)
    }

    /// Asks the application to quit.
    pub fn quit() -> (a: Action)
        ensures
            a matches Action::Ui(UiAction::Quit),
    {
        Action::Ui(UiAction::Quit)
    }

    /// Shows the help overlay.
    pub fn show_help() -> (a: Action)
        ensures
            a matches Action::Ui(UiAction::ShowHelp),
    {
        Action::Ui(UiAction::ShowHelp)
    }

    /// Hides the help overlay.
    pub fn hide_help() -> (a: Action)
        ensures
            a matches Action::Ui(UiAction::HideHelp),
    {
        Action::Ui(UiAction::HideHelp)
    }

    /// Shows or hides the help overlay.
    pub fn toggle_help() -> (a: Action)
        ensures
            a matches Action::Ui(UiAction::ToggleHelp),
    {
        Action::Ui(UiAction::ToggleHelp)
    }

    /// Scrolls up by `n` messages.
    pub fn scroll_up(n: usize) -> (a: Action)
        ensures
            a matches Action::Navigation(NavigationAction::ScrollUp(k)) && k == n,
    {
        Action::Navigation(NavigationAction::ScrollUp(n))
    }

    /// Scrolls down by `n` messages.
    pub fn scroll_down(n: usize) -> (a: Action)
        ensures
            a matches Action::Navigation(NavigationAction::ScrollDown(k)) && k == n,
    {
        Action::Navigation(NavigationAction::ScrollDown(n))
    }

    /// Scrolls to the last message.
    pub fn scroll_to_bottom() -> (a: Action)
        ensures
            a matches Action::Navigation(NavigationAction::ScrollToBottom),
    {
        Action::Navigation(NavigationAction::ScrollToBottom)
    }

    /// Scrolls to the first message.
    pub fn scroll_to_top() -> (a: Action)
        ensures
            a matches Action::Navigation(NavigationAction::ScrollToTop),
    {
        Action::Navigation(NavigationAction::ScrollToTop)
    }

    /// Searches the messages for `query`.
    pub fn search(query: &str) -> (a: Action)
        ensures
            a matches Action::Search(SearchAction::Search(q)) && q@ == query@,
    {
        Action::Search(SearchAction::Search(String::from_str(query)))
    }

    /// Ends the search.
    pub fn clear_search() -> (a: Action)
        ensures
            a matches Action::Search(SearchAction::ClearSearch),
    {
        Action::Search(SearchAction::ClearSearch)
    }

    /// Selects the next match.
    pub fn next_match() -> (a: Action)
        ensures
            a matches Action::Search(SearchAction::NextMatch),
    {
        Action::Search(SearchAction::NextMatch)
    }

    /// Selects the previous match.
    pub fn prev_match() -> (a: Action)
        ensures
            a matches Action::Search(SearchAction::PrevMatch),
    {
        Action::Search(SearchAction::PrevMatch)
    }

    /// Starts a new session.
    pub fn new_session() -> (a: Action)
        ensures
            a matches Action::Session(SessionAction::NewSession),
    {
        Action::Session(SessionAction::NewSession)
    }

    /// Starts a new session named `name`.
    pub fn new_session_with_name(name: &str) -> (a: Action)
        ensures
            a matches Action::Session(SessionAction::NewSessionWithName(n)) && n@ == name@,
    {
        Action::Session(SessionAction::NewSessionWithName(String::from_str(name)))
    }

    /// Stores the active session.
    pub fn save_session() -> (a: Action)
        ensures
            a matches Action::Session(SessionAction::SaveSession),
    {
        Action::Session(SessionAction::SaveSession)
    }

    /// Shows a status message.
    pub fn show_status(message: &str, is_error: bool) -> (a: Action)
        ensures
            a matches Action::Ui(UiAction::ShowStatus { message: m, is_error: e }) && m@ == message@
                && e == is_error,
    {
        Action::Ui(UiAction::ShowStatus { message: String::from_str(message), is_error })
    }

    /// Removes the status message.
    pub fn clear_status() -> (a: Action)
        ensures
            a matches Action::Ui(UiAction::ClearStatus),
    {
        Action::Ui(UiAction::ClearStatus)
    }

    /// Records `cmd` in the command history.
    pub fn add_command(cmd: &str) -> (a: Action)
        ensures
            a matches Action::Command(CommandAction::AddCommand(c)) && c@ == cmd@,
    {
        Action::Command(CommandAction::AddCommand(String::from_str(cmd)))
    }

    /// Applies `actions` in order.
    pub fn batch(actions: Vec<Action>) -> (a: Action)
        ensures
            a matches Action::Batch(v) && v@ == actions@,
    {
        Action::Batch(actions)
    }
}

} // verus!
