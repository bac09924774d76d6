//! Core of a terminal coding assistant: the application state, the actions
//! that change it and the reducer that applies them, undo and redo, the key
//! bindings, the text of the chat screen, and the wire formats of the
//! language-model providers.
pub mod text;
pub mod words;
pub mod actions;
pub mod input;
pub mod search;
pub mod reducers;
pub mod transitions;
pub mod invariants;
pub mod reducer;
pub mod history;
pub mod store;
pub mod laws;
pub mod event;
pub mod program_keys;
pub mod agent;
pub mod llm;
pub mod view;
pub mod theme;

pub use actions::{
    Action, AgentState, CommandAction, FocusTarget, InputAction, Message, MessageAction,
    MessageRole, Mode, NavigationAction, SearchAction, SessionAction, Timestamp, UiAction,
};
pub use history::History;
pub use reducer::reduce;
pub use reducers::{Session, State, Theme};
pub use search::SearchMatch;
pub use store::{Store, Subscriber, SubscriberId};
