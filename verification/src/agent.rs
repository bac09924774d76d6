//! The agent's state machine: its states, the events it reports, and the
//! decisions of its reasoning loop.
use vstd::prelude::*;
use crate::text::push_str;
use crate::words::{split_words, trimmed, words};

verus! {

/// The states of the agent.
#[derive(Debug, Clone, Copy, PartialEq, Eq, Structural)]
pub enum AgentStateEnum {
    /// Waiting for user input.
    Idle,
    /// Waiting for the model.
    Thinking,
    /// Running a tool.
    ExecutingTool,
    /// Streaming a reply to the user.
    StreamingResponse,
    /// Stopped on an error.
    Error,
}

impl Default for AgentStateEnum {
    fn default() -> (s: Self)
        ensures
            s == AgentStateEnum::Idle,
    {
        AgentStateEnum::Idle
    }
}

/// The label of an agent state.
pub open spec fn agent_state_label(s: AgentStateEnum) -> Seq<char> {
    match s {
        AgentStateEnum::Idle => "Idle"@,
        AgentStateEnum::Thinking => "Thinking"@,
        AgentStateEnum::ExecutingTool => "Executing Tool"@,
        AgentStateEnum::StreamingResponse => "Streaming"@,
        AgentStateEnum::Error => "Error"@,
    }
}

impl AgentStateEnum {
    /// The state's label, as shown to the user.
    pub fn to_display_string(&self) -> (r: String)
        ensures
            r@ == agent_state_label(*self),
    {
        match self {
            AgentStateEnum::Idle => String::from_str("Idle"),
            AgentStateEnum::Thinking => String::from_str("Thinking"),
            AgentStateEnum::ExecutingTool => String::from_str("Executing Tool"),
            AgentStateEnum::StreamingResponse => String::from_str("Streaming"),
            AgentStateEnum::Error => String::from_str("Error"),
        }
    }
}

/// Events the agent reports.
#[derive(Debug, Clone)]
pub enum AgentEvent {
    /// The state changed.
    StateChanged(AgentStateEnum),
    /// A user message arrived.
    UserMessage(String),
    /// A piece of a streamed reply.
    ResponseChunk(String),
    /// The whole reply.
    ResponseComplete(String),
    /// A tool started.
    ToolExecutionStarted { name: String, arguments: serde_json::Value },
    /// A tool finished.
    ToolExecutionCompleted { name: String, result: serde_json::Value },
    /// Something failed.
    Error(String),
    /// Ready for input.
    Ready,
}

/// A tool that the model may call.
#[derive(Debug, Clone)]
pub struct ToolDefinition {
    pub name: String,
    pub description: String,
    pub parameters: serde_json::Value,
}

/// What a tool returned.
#[derive(Debug, Clone)]
pub struct ToolResult {
    pub tool_name: String,
    pub result: serde_json::Value,
    pub is_error: bool,
}

/// Events of a model's streamed reply.
#[derive(Debug, Clone)]
pub enum StreamEvent {
    /// Text.
    TextDelta(String),
    /// A tool call begins.
    ToolCallStart { name: String },
    /// A piece of a tool call's arguments.
    ToolCallChunk(String),
    /// The stream ended.
    Complete,
    /// The stream failed.
    Error(String),
}

/// What changing from state `current` to `next` reports: a state change
/// event, and only when the state differs.
pub fn state_change(current: AgentStateEnum, next: AgentStateEnum) -> (r: Option<AgentEvent>)
    ensures
        current == next ==> r is None,
        current != next ==> (r matches Some(AgentEvent::StateChanged(s)) && s == next),
{
    if current != next {
        Some(AgentEvent::StateChanged(next))
    } else {
        None
    }
}

/// The pieces a reply is streamed in: each word followed by a space.
pub open spec fn spaced_words(ws: Seq<Seq<char>>) -> Seq<Seq<char>> {
    ws.map_values(|w: Seq<char>| w + " "@)
}

/// The pieces concatenated.
pub open spec fn concat(ps: Seq<Seq<char>>) -> Seq<char>
    decreases ps.len(),
{
    if ps.len() == 0 {
        Seq::empty()
    } else {
        concat(ps.drop_last()) + ps.last()
    }
}

/// The pieces a reply is shown in, and the whole reply as it is reported at
/// the end: the pieces put together, without the surrounding whitespace.
pub fn stream_pieces(text: &str) -> (r: (Vec<String>, String))
    ensures
        crate::reducers::texts_view(r.0@) == spaced_words(words(text@)),
        r.1@ == trimmed(concat(spaced_words(words(text@)))),
{
    let ws = split_words(text);
    let ghost wv = crate::reducers::texts_view(ws@);
    let mut pieces: Vec<String> = Vec::new();
    let mut all = String::new();
    let mut i: usize = 0;
    while i < ws.len()
        invariant
            wv == crate::reducers::texts_view(ws@),
            wv == words(text@),
            i <= ws@.len(),
            crate::reducers::texts_view(pieces@) == spaced_words(wv.take(i as int)),
            all@ == concat(spaced_words(wv.take(i as int))),
        decreases ws@.len() - i,
    {
        let mut piece = ws[i].clone();
        push_str(&mut piece, " ");
        let ghost before = crate::reducers::texts_view(pieces@);
        push_str(&mut all, piece.as_str());
        pieces.push(piece);
        proof {
            assert(wv.take(i + 1).drop_last() =~= wv.take(i as int));
            assert(spaced_words(wv.take(i + 1)) =~= spaced_words(wv.take(i as int)).push(wv[i as int] + " "@));
            assert(crate::reducers::texts_view(pieces@) =~= before.push(wv[i as int] + " "@));
            let sp = spaced_words(wv.take(i + 1));
            assert(sp.drop_last() =~= spaced_words(wv.take(i as int)));
        }
        i = i + 1;
    }
    assert(wv.take(ws@.len() as int) =~= wv);
    let complete = crate::words::trim(all.as_str());
    (pieces, complete)
}

/// What the reasoning loop does with a model's reply.
pub enum LoopStep {
    /// Stream the reply to the user, record it as the assistant's message,
    /// become idle and return it.
    Finish { reply: String },
    /// Run the tool, record its result as a tool message, and ask the model
    /// again.
    RunTool { name: String, arguments: serde_json::Value },
    /// Stop in the error state and report the error.
    Fail { error: String },
}

/// The state the agent is in while it carries out a step.
pub open spec fn step_state(step: LoopStep) -> AgentStateEnum {
    match step {
        LoopStep::Finish { .. } => AgentStateEnum::StreamingResponse,
        LoopStep::RunTool { .. } => AgentStateEnum::ExecutingTool,
        LoopStep::Fail { .. } => AgentStateEnum::Error,
    }
}

/// The next step of the reasoning loop for a reply of the model: text ends
/// the loop, a tool call runs the tool and goes round again, an error stops it.
pub fn reasoning_step(response: crate::llm::LlmResponse) -> (r: (LoopStep, AgentStateEnum))
    ensures
        r.1 == step_state(r.0),
        match response {
            crate::llm::LlmResponse::Text(t) => r.0 matches LoopStep::Finish { reply } && reply == t,
            crate::llm::LlmResponse::ToolCall { name, arguments } => r.0 matches LoopStep::RunTool {
                name: n,
                arguments: a,
            } && n == name && a == arguments,
            crate::llm::LlmResponse::Error(e) => r.0 matches LoopStep::Fail { error } && error == e,
        },
{
    match response {
        crate::llm::LlmResponse::Text(t) => (LoopStep::Finish { reply: t }, AgentStateEnum::StreamingResponse),
        crate::llm::LlmResponse::ToolCall { name, arguments } => (
            LoopStep::RunTool { name, arguments },
            AgentStateEnum::ExecutingTool,
        ),
        crate::llm::LlmResponse::Error(e) => (LoopStep::Fail { error: e }, AgentStateEnum::Error),
    }
}

} // verus!
