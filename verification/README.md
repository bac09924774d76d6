# nexacode_core

The core of NexaCode, a terminal coding assistant, written in Verus: the
application state and the actions that change it, proved against
specifications.

## Layout

- `src/` — the verified library.
  - `actions.rs` — messages, modes, the actions, and identifier generation.
  - `reducers.rs`, `reducer.rs` — the state, its sessions, and the reducer
    that applies an action; `transitions.rs` states what each action does as a
    relation between the state before and after.
  - `input.rs`, `search.rs`, `text.rs`, `words.rs` — line editing on a UTF-8
    byte cursor, message search, and text helpers (trim, words, join).
  - `invariants.rs` — the invariant every action keeps, and what lets every
    action run.
  - `history.rs`, `store.rs` — undo and redo snapshots, and the store that
    dispatches actions and tells subscribers.
  - `laws.rs` — properties across operations: batches apply in order, undo
    and redo undo each other, the theme switch is an involution, the session
    worked on stays stored, removed subscriptions are not called, and an
    action's result is fixed by the state and the action up to the clock
    readings and fresh identifiers it draws.
  - The store's model holds the calls made to its subscribers, so every
    contract over it (the key handlers' too) says who is told of what.
  - `event.rs`, `program_keys.rs` — what each key does in each mode.
  - `view.rs`, `theme.rs` — the text of the chat screen and the color themes.
  - `agent.rs`, `llm.rs` — the agent's states and loop decisions, and the
    wire formats and reply handling of the model providers.
- `tests/` — tests of the library.
- `app/` — the terminal program: drawing with ratatui, keys from crossterm,
  and the HTTP client for the model servers.

## Undo

The store pushes the state it is about to leave before each recorded change,
and `History::undo` hands back the snapshot pushed last. So one undo returns
to the state just before the latest recorded change: after two recorded
messages, one undo leaves the first message in place, and after one recorded
batch it returns to the state before the batch.

## Identifiers

Message and session identifiers have the shape `msg_<millis>_<n>` and
`sess_<millis>_<n>`, with `n` taken from a newly seeded hasher. A new session's
number is stepped up until its identifier is neither the current session's nor
a stored session's, so creating a session never replaces a stored one.
