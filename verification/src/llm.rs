//! Talking to language models: the wire formats of the two providers, the
//! requests built from a conversation, and what their replies mean.
use vstd::prelude::*;
use crate::agent::ToolDefinition;
use crate::text::{chars_of, push_str, same_text, string_of};

verus! {

/// A message of a conversation sent to a model.
#[derive(Debug, Clone)]
pub struct LlmMessage {
    pub role: String,
    pub content: String,
}

impl LlmMessage {
    /// A message with the given role and content.
    pub fn new(role: &str, content: &str) -> (m: LlmMessage)
        ensures
            m.role@ == role@,
            m.content@ == content@,
    {
        LlmMessage { role: String::from_str(role), content: String::from_str(content) }
    }
}

/// A model's reply.
#[derive(Debug, Clone)]
pub enum LlmResponse {
    /// Text.
    Text(String),
    /// A request to call a tool.
    ToolCall { name: String, arguments: serde_json::Value },
    /// An error.
    Error(String),
}

/// A message in the OpenAI format.
#[derive(Debug)]
pub struct OpenAIMessage {
    pub role: String,
    pub content: String,
}

/// A tool in the OpenAI format.
#[derive(Debug)]
pub struct OpenAITool {
    pub tool_type: String,
    pub function: OpenAIFunction,
}

/// A function in the OpenAI format.
#[derive(Debug)]
pub struct OpenAIFunction {
    pub name: String,
    pub description: String,
    pub parameters: serde_json::Value,
}

/// A reply in the OpenAI format.
#[derive(Debug)]
pub struct OpenAIResponse {
    pub choices: Vec<OpenAIChoice>,
}

/// One choice of an OpenAI reply.
#[derive(Debug)]
pub struct OpenAIChoice {
    pub message: OpenAIResponseMessage,
}

/// The message of an OpenAI choice.
#[derive(Debug)]
pub struct OpenAIResponseMessage {
    pub role: String,
    pub content: Option<String>,
    pub tool_calls: Vec<OpenAIToolCall>,
}

/// A tool call in an OpenAI reply.
#[derive(Debug)]
pub struct OpenAIToolCall {
    pub function: OpenAIToolCallFunction,
}

/// The function of an OpenAI tool call, with its arguments as JSON text.
#[derive(Debug)]
pub struct OpenAIToolCallFunction {
    pub name: String,
    pub arguments: String,
}

/// One event of an OpenAI stream.
#[derive(Debug)]
pub struct OpenAIStreamResponse {
    pub choices: Vec<OpenAIStreamChoice>,
}

/// One choice of an OpenAI stream event.
#[derive(Debug)]
pub struct OpenAIStreamChoice {
    pub delta: Option<OpenAIDelta>,
}

/// The new text of an OpenAI stream choice; some providers send the model's
/// reasoning apart from its answer.
#[derive(Debug)]
pub struct OpenAIDelta {
    pub content: Option<String>,
    pub reasoning_content: Option<String>,
}

/// A request in the Anthropic format.
#[derive(Debug)]
pub struct AnthropicRequest {
    pub model: String,
    pub messages: Vec<AnthropicMessage>,
    pub max_tokens: Option<u32>,
    pub system: Option<String>,
    pub stream: Option<bool>,
}

/// A message in the Anthropic format.
#[derive(Debug)]
pub struct AnthropicMessage {
    pub role: String,
    pub content: String,
}

/// A reply in the Anthropic format.
#[derive(Debug)]
pub struct AnthropicResponse {
    pub content: Vec<AnthropicContent>,
}

/// A content block of an Anthropic reply.
#[derive(Debug)]
pub struct AnthropicContent {
    pub content_type: String,
    pub text: Option<String>,
}

/// One event of an Anthropic stream.
#[derive(Debug)]
pub struct AnthropicStreamEvent {
    pub event_type: String,
    pub delta: Option<AnthropicStreamDelta>,
}

/// The new content of an Anthropic stream event.
#[derive(Debug)]
pub struct AnthropicStreamDelta {
    pub delta_type: String,
    pub text: Option<String>,
}

/// `s` without its trailing slashes.
pub open spec fn without_trailing_slashes(s: Seq<char>) -> Seq<char>
    decreases s.len(),
{
    if s.len() > 0 && s.last() == '/' {
        without_trailing_slashes(s.drop_last())
    } else {
        s
    }
}

/// `base` without its trailing slashes, followed by `path`.
fn endpoint(base: &str, path: &str) -> (r: String)
    ensures
        r@ == without_trailing_slashes(base@) + path@,
{
    let v = chars_of(base);
    let mut j: usize = v.len();
    assert(v@.take(j as int) =~= v@);
    while j > 0 && v[j - 1] == '/'
        invariant
            v@ == base@,
            j <= v@.len(),
            without_trailing_slashes(base@) == without_trailing_slashes(v@.take(j as int)),
        decreases j,
    {
        assert(v@.take(j as int).drop_last() =~= v@.take(j - 1));
        j = j - 1;
    }
    let mut kept: Vec<char> = Vec::new();
    let mut k: usize = 0;
    while k < j
        invariant
            v@ == base@,
            k <= j <= v@.len(),
            kept@ =~= v@.take(k as int),
        decreases j - k,
    {
        kept.push(v[k]);
        k = k + 1;
    }
    let mut r = string_of(&kept);
    push_str(&mut r, path);
    r
}

/// The chat completions endpoint of an OpenAI-compatible server.
pub fn chat_completions_url(base_url: &str) -> (r: String)
    ensures
        r@ == without_trailing_slashes(base_url@) + "/chat/completions"@,
{
    endpoint(base_url, "/chat/completions")
}

/// The messages endpoint of an Anthropic server.
pub fn anthropic_messages_url(base_url: &str) -> (r: String)
    ensures
        r@ == without_trailing_slashes(base_url@) + "/v1/messages"@,
{
    endpoint(base_url, "/v1/messages")
}

/// The role and content of each message.
pub open spec fn pairs_of(v: Seq<LlmMessage>) -> Seq<(Seq<char>, Seq<char>)> {
    v.map_values(|m: LlmMessage| (m.role@, m.content@))
}

/// The conversation in the OpenAI format: the same roles and contents.
pub fn openai_messages(messages: &Vec<LlmMessage>) -> (r: Vec<OpenAIMessage>)
    ensures
        r@.len() == messages@.len(),
        forall|i: int| 0 <= i < r@.len() ==> #[trigger] r@[i].role@ == messages@[i].role@
            && r@[i].content@ == messages@[i].content@,
{
    let mut r: Vec<OpenAIMessage> = Vec::new();
    let mut i: usize = 0;
    while i < messages.len()
        invariant
            i <= messages@.len(),
            r@.len() == i,
            forall|j: int| 0 <= j < i ==> #[trigger] r@[j].role@ == messages@[j].role@
                && r@[j].content@ == messages@[j].content@,
        decreases messages@.len() - i,
    {
        r.push(OpenAIMessage { role: messages[i].role.clone(), content: messages[i].content.clone() });
        i = i + 1;
    }
    r
}

/// The tools in the OpenAI format: each a function with the same name,
/// description and parameters.
pub fn openai_tools(tools: &Vec<ToolDefinition>) -> (r: Vec<OpenAITool>)
    ensures
        r@.len() == tools@.len(),
        forall|i: int| 0 <= i < r@.len() ==> {
            &&& #[trigger] r@[i].tool_type@ == "function"@
            &&& r@[i].function.name@ == tools@[i].name@
            &&& r@[i].function.description@ == tools@[i].description@
            &&& r@[i].function.parameters == tools@[i].parameters
        },
{
    let mut r: Vec<OpenAITool> = Vec::new();
    let mut i: usize = 0;
    while i < tools.len()
        invariant
            i <= tools@.len(),
            r@.len() == i,
            forall|j: int| 0 <= j < i ==> {
                &&& #[trigger] r@[j].tool_type@ == "function"@
                &&& r@[j].function.name@ == tools@[j].name@
                &&& r@[j].function.description@ == tools@[j].description@
                &&& r@[j].function.parameters == tools@[j].parameters
            },
        decreases tools@.len() - i,
    {
        let t = &tools[i];
        r.push(OpenAITool {
            tool_type: String::from_str("function"),
            function: OpenAIFunction {
                name: t.name.clone(),
                description: t.description.clone(),
                parameters: t.parameters.clone(),
            },
        });
        i = i + 1;
    }
    r
}

/// The messages that are not system messages, in order.
pub open spec fn non_system(v: Seq<(Seq<char>, Seq<char>)>) -> Seq<(Seq<char>, Seq<char>)>
    decreases v.len(),
{
    if v.len() == 0 {
        v
    } else if v.last().0 == "system"@ {
        non_system(v.drop_last())
    } else {
        non_system(v.drop_last()).push(v.last())
    }
}

/// The content of the last system message, if any.
pub open spec fn last_system(v: Seq<(Seq<char>, Seq<char>)>) -> Option<Seq<char>>
    decreases v.len(),
{
    if v.len() == 0 {
        None
    } else if v.last().0 == "system"@ {
        Some(v.last().1)
    } else {
        last_system(v.drop_last())
    }
}

/// The role and content of each Anthropic message.
pub open spec fn anthropic_pairs(v: Seq<AnthropicMessage>) -> Seq<(Seq<char>, Seq<char>)> {
    v.map_values(|m: AnthropicMessage| (m.role@, m.content@))
}

/// The conversation in the Anthropic format: the system messages leave the
/// list, and the last of them becomes the system prompt.
pub fn anthropic_messages(messages: &Vec<LlmMessage>) -> (r: (Vec<AnthropicMessage>, Option<String>))
    ensures
        anthropic_pairs(r.0@) == non_system(pairs_of(messages@)),
        match r.1 {
            Some(s) => last_system(pairs_of(messages@)) == Some(s@),
            None => last_system(pairs_of(messages@)) is None,
        },
{
    let ghost all = pairs_of(messages@);
    let mut out: Vec<AnthropicMessage> = Vec::new();
    let mut system: Option<String> = None;
    let mut i: usize = 0;
    assert(all.take(0) =~= Seq::<(Seq<char>, Seq<char>)>::empty());
    while i < messages.len()
        invariant
            all == pairs_of(messages@),
            i <= messages@.len(),
            anthropic_pairs(out@) == non_system(all.take(i as int)),
            match system {
                Some(s) => last_system(all.take(i as int)) == Some(s@),
                None => last_system(all.take(i as int)) is None,
            },
        decreases messages@.len() - i,
    {
        let m = &messages[i];
        let ghost t = all.take(i + 1);
        assert(t.drop_last() =~= all.take(i as int));
        assert(t.last() == (m.role@, m.content@));
        if same_text(m.role.as_str(), "system") {
            system = Some(m.content.clone());
        } else {
            let ghost before = anthropic_pairs(out@);
            out.push(AnthropicMessage { role: m.role.clone(), content: m.content.clone() });
            assert(anthropic_pairs(out@) =~= before.push((m.role@, m.content@)));
        }
        i = i + 1;
    }
    assert(all.take(messages@.len() as int) =~= all);
    (out, system)
}

/// A request in the Anthropic format for a conversation; `stream` asks for a
/// streamed reply.
pub fn anthropic_request(model: &str, messages: &Vec<LlmMessage>, max_tokens: u32, stream: bool) -> (r: AnthropicRequest)
    ensures
        r.model@ == model@,
        anthropic_pairs(r.messages@) == non_system(pairs_of(messages@)),
        r.max_tokens == Some(max_tokens),
        match r.system {
            Some(s) => last_system(pairs_of(messages@)) == Some(s@),
            None => last_system(pairs_of(messages@)) is None,
        },
        r.stream == (if stream { Some(true) } else { None }),
{
    let (msgs, system) = anthropic_messages(messages);
    AnthropicRequest {
        model: String::from_str(model),
        messages: msgs,
        max_tokens: Some(max_tokens),
        system,
        stream: if stream { Some(true) } else { None },
    }
}

/// What `serde_json::from_str` reads from a text as a JSON value: `Some` of
/// the value, or `None` where the text is not JSON.
pub uninterp spec fn parsed_json(text: Seq<char>) -> Option<serde_json::Value>;

/// Calls `serde_json::from_str` for a `serde_json::Value` and keeps the value
/// where the text is JSON. The value read is only named: it is a function of
/// the text alone.
#[verifier::external_body]
fn parse_json(text: &str) -> (v: Option<serde_json::Value>)
    ensures
        v == parsed_json(text@),
{
    serde_json::from_str(text).ok()
}

/// Builds `serde_json::Value::Object` of an empty `serde_json::Map`: the
/// value that `serde_json::from_str` reads from the text `{}`.
#[verifier::external_body]
fn empty_json_object() -> (v: serde_json::Value)
    ensures
        parsed_json("{}"@) == Some(v),
{
    serde_json::Value::Object(serde_json::Map::new())
}

/// What an OpenAI reply means: the first tool call of the first choice if it
/// has one, its text otherwise (empty when there is none); an error when
/// there is no choice. A tool call's arguments are the JSON value that its
/// text holds, or the empty object `{}` where the text is not JSON.
pub fn interpret_openai_response(resp: &OpenAIResponse) -> (r: Result<LlmResponse, String>)
    ensures
        resp.choices@.len() == 0 ==> (r matches Err(e) && e@ == "No response choices from LLM API"@),
        resp.choices@.len() > 0 ==> {
            let m = resp.choices@[0].message;
            if m.tool_calls@.len() > 0 {
                let f = m.tool_calls@[0].function;
                r matches Ok(LlmResponse::ToolCall { name, arguments }) && name@ == f.name@
                    && match parsed_json(f.arguments@) {
                        Some(p) => arguments == p,
                        None => parsed_json("{}"@) == Some(arguments),
                    }
            } else {
                r matches Ok(LlmResponse::Text(t)) && t@ == (match m.content {
                    Some(c) => c@,
                    None => Seq::empty(),
                })
            }
        },
{
    if resp.choices.len() == 0 {
        return Err(String::from_str("No response choices from LLM API"));
    }
    let m = &resp.choices[0].message;
    if m.tool_calls.len() > 0 {
        let f = &m.tool_calls[0].function;
        let arguments = match parse_json(f.arguments.as_str()) {
            Some(v) => v,
            None => empty_json_object(),
        };
        Ok(LlmResponse::ToolCall { name: f.name.clone(), arguments })
    } else {
        let text = match &m.content {
            Some(c) => c.clone(),
            None => String::new(),
        };
        Ok(LlmResponse::Text(text))
    }
}

/// The texts of the text blocks, in order.
pub open spec fn block_texts(v: Seq<AnthropicContent>) -> Seq<Seq<char>>
    decreases v.len(),
{
    if v.len() == 0 {
        Seq::empty()
    } else {
        let rest = block_texts(v.drop_last());
        let c = v.last();
        if c.content_type@ == "text"@ && c.text is Some {
            rest.push(c.text->Some_0@)
        } else {
            rest
        }
    }
}

/// What an Anthropic reply means: the texts of its text blocks, one per line;
/// an error when that is empty.
pub fn interpret_anthropic_response(resp: &AnthropicResponse) -> (r: Result<LlmResponse, String>)
    ensures
        ({
            let text = crate::words::join(block_texts(resp.content@), "\n"@);
            if text.len() == 0 {
                r matches Err(e) && e@ == "No text content in Anthropic response"@
            } else {
                r matches Ok(LlmResponse::Text(t)) && t@ == text
            }
        }),
{
    let ghost all = resp.content@;
    let mut texts: Vec<String> = Vec::new();
    let mut i: usize = 0;
    assert(all.take(0) =~= Seq::<AnthropicContent>::empty());
    while i < resp.content.len()
        invariant
            all == resp.content@,
            i <= all.len(),
            crate::reducers::texts_view(texts@) == block_texts(all.take(i as int)),
        decreases all.len() - i,
    {
        let c = &resp.content[i];
        let ghost t = all.take(i + 1);
        assert(t.drop_last() =~= all.take(i as int));
        if same_text(c.content_type.as_str(), "text") {
            match &c.text {
                Some(x) => {
                    let ghost before = crate::reducers::texts_view(texts@);
                    texts.push(x.clone());
                    assert(crate::reducers::texts_view(texts@) =~= before.push(x@));
                },
                None => {},
            }
        }
        i = i + 1;
    }
    assert(all.take(all.len() as int) =~= all);
    let text = crate::words::join_from(&texts, 0, "\n");
    assert(crate::reducers::texts_view(texts@).skip(0) =~= crate::reducers::texts_view(texts@));
    if text.as_str().is_empty() {
        Err(String::from_str("No text content in Anthropic response"))
    } else {
        Ok(LlmResponse::Text(text))
    }
}

/// The first index of a newline.
pub open spec fn newline_index(t: Seq<char>) -> Option<int>
    decreases t.len(),
{
    if t.len() == 0 {
        None
    } else if t[0] == '\n' {
        Some(0)
    } else {
        match newline_index(t.drop_first()) {
            Some(p) => Some(p + 1),
            None => None,
        }
    }
}

/// The lines of `t` that a newline ends, without it.
pub open spec fn complete_lines(t: Seq<char>) -> Seq<Seq<char>>
    decreases t.len(),
{
    match newline_index(t) {
        None => Seq::empty(),
        Some(p) => if 0 <= p < t.len() {
            seq![t.take(p)] + complete_lines(t.skip(p + 1))
        } else {
            Seq::empty()
        },
    }
}

/// What follows the last newline of `t` (all of `t` when it has none).
pub open spec fn after_lines(t: Seq<char>) -> Seq<char>
    decreases t.len(),
{
    match newline_index(t) {
        None => t,
        Some(p) => if 0 <= p < t.len() {
            after_lines(t.skip(p + 1))
        } else {
            t
        },
    }
}

/// Where the first newline is.
proof fn lemma_newline_index(t: Seq<char>, p: int)
    requires
        0 <= p < t.len(),
        t[p] == '\n',
        forall|j: int| 0 <= j < p ==> t[j] != '\n',
    ensures
        newline_index(t) == Some(p),
    decreases p,
{
    if p > 0 {
        lemma_newline_index(t.drop_first(), p - 1);
    }
}

/// A text without newlines has no complete line.
proof fn lemma_no_newline(t: Seq<char>)
    requires
        forall|j: int| 0 <= j < t.len() ==> t[j] != '\n',
    ensures
        newline_index(t) is None,
    decreases t.len(),
{
    if t.len() > 0 {
        lemma_no_newline(t.drop_first());
    }
}

/// The payload of an event-stream line of an OpenAI stream: the text after
/// `data: ` in the trimmed line, unless it is the closing `[DONE]`.
pub open spec fn sse_payload(line: Seq<char>) -> Option<Seq<char>> {
    let l = crate::words::trimmed(line);
    if l.len() >= 6 && l.take(6) == "data: "@ {
        let d = l.skip(6);
        if d == "[DONE]"@ {
            None
        } else {
            Some(d)
        }
    } else {
        None
    }
}

/// The payloads of the lines, in order.
pub open spec fn sse_payloads(lines: Seq<Seq<char>>) -> Seq<Seq<char>>
    decreases lines.len(),
{
    if lines.len() == 0 {
        Seq::empty()
    } else {
        match sse_payload(lines.last()) {
            Some(d) => sse_payloads(lines.drop_last()).push(d),
            None => sse_payloads(lines.drop_last()),
        }
    }
}

/// Whether `s` starts with `prefix`; the rest after it.
fn strip_prefix(s: &str, prefix: &str) -> (r: Option<String>)
    ensures
        (s@.len() >= prefix@.len() && s@.take(prefix@.len() as int) == prefix@) ==> (r matches Some(x)
            && x@ == s@.skip(prefix@.len() as int)),
        !(s@.len() >= prefix@.len() && s@.take(prefix@.len() as int) == prefix@) ==> r is None,
{
    let v = chars_of(s);
    let p = chars_of(prefix);
    if v.len() < p.len() {
        return None;
    }
    let mut i: usize = 0;
    while i < p.len()
        invariant
            v@ == s@,
            p@ == prefix@,
            p@.len() <= v@.len(),
            i <= p@.len(),
            forall|j: int| 0 <= j < i ==> v@[j] == p@[j],
        decreases p@.len() - i,
    {
        if v[i] != p[i] {
            assert(s@.take(prefix@.len() as int)[i as int] != prefix@[i as int]);
            return None;
        }
        i = i + 1;
    }
    assert(s@.take(prefix@.len() as int) =~= prefix@);
    let mut out: Vec<char> = Vec::new();
    let mut k: usize = p.len();
    while k < v.len()
        invariant
            v@ == s@,
            p@ == prefix@,
            p@.len() <= k <= v@.len(),
            out@ =~= v@.subrange(p@.len() as int, k as int),
        decreases v@.len() - k,
    {
        out.push(v[k]);
        k = k + 1;
    }
    assert(out@ =~= s@.skip(prefix@.len() as int));
    Some(string_of(&out))
}

/// The payload of one line of an OpenAI event stream.
pub fn sse_line_payload(line: &str) -> (r: Option<String>)
    ensures
        match sse_payload(line@) {
            Some(d) => r matches Some(x) && x@ == d,
            None => r is None,
        },
{
    let l = crate::words::trim(line);
    proof {
        reveal_strlit("data: ");
    }
    match strip_prefix(l.as_str(), "data: ") {
        Some(d) => if same_text(d.as_str(), "[DONE]") {
            None
        } else {
            Some(d)
        },
        None => None,
    }
}

/// Collects the lines of an OpenAI event stream, which may arrive split
/// anywhere: the text after the last newline waits for the next chunk.
pub struct SseLineBuffer {
    /// The text received after the last newline.
    pub buffer: String,
}

impl SseLineBuffer {
    /// A buffer that holds nothing.
    pub fn new() -> (b: SseLineBuffer)
        ensures
            b.buffer@ == Seq::<char>::empty(),
    {
        SseLineBuffer { buffer: String::new() }
    }

    /// Takes a chunk: returns the payloads of the lines it completes, and
    /// keeps what follows the last newline.
    pub fn push_chunk(&mut self, chunk: &str) -> (r: Vec<String>)
        ensures
            crate::reducers::texts_view(r@) == sse_payloads(complete_lines(old(self).buffer@ + chunk@)),
            final(self).buffer@ == after_lines(old(self).buffer@ + chunk@),
    {
        let ghost t = self.buffer@ + chunk@;
        let mut all = self.buffer.clone();
        push_str(&mut all, chunk);
        let v = chars_of(all.as_str());
        assert(v@ == t);
        let mut out: Vec<String> = Vec::new();
        let ghost mut lines: Seq<Seq<char>> = Seq::empty();
        let mut start: usize = 0;
        let mut i: usize = 0;
        assert(t.skip(0) =~= t);
        while i < v.len()
            invariant
                v@ == t,
                start <= i <= v@.len(),
                lines + complete_lines(t.skip(start as int)) == complete_lines(t),
                after_lines(t.skip(start as int)) == after_lines(t),
                forall|j: int| start <= j < i ==> t[j] != '\n',
                crate::reducers::texts_view(out@) == sse_payloads(lines),
            decreases v@.len() - i,
        {
            if v[i] == '\n' {
                let ghost u = t.skip(start as int);
                proof {
                    lemma_newline_index(u, i - start);
                    assert(u.take(i - start) =~= t.subrange(start as int, i as int));
                    assert(u.skip(i - start + 1) =~= t.skip(i + 1));
                }
                let mut line_chars: Vec<char> = Vec::new();
                let mut k: usize = start;
                while k < i
                    invariant
                        v@ == t,
                        start <= k <= i < v@.len(),
                        line_chars@ =~= t.subrange(start as int, k as int),
                    decreases i - k,
                {
                    line_chars.push(v[k]);
                    k = k + 1;
                }
                let line = string_of(&line_chars);
                let ghost before = crate::reducers::texts_view(out@);
                let ghost lines2 = lines.push(line@);
                match sse_line_payload(line.as_str()) {
                    Some(d) => {
                        out.push(d);
                        assert(crate::reducers::texts_view(out@) =~= before.push(d@));
                    },
                    None => {},
                }
                proof {
                    assert(lines2.drop_last() =~= lines);
                    assert(lines2 + complete_lines(t.skip(i + 1)) =~= lines + complete_lines(u));
                    lines = lines2;
                }
                start = i + 1;
            }
            i = i + 1;
        }
        let ghost u = t.skip(start as int);
        proof {
            lemma_no_newline(u);
            assert(lines + Seq::<Seq<char>>::empty() =~= lines);
        }
        let mut rest: Vec<char> = Vec::new();
        let mut k: usize = start;
        while k < v.len()
            invariant
                v@ == t,
                start <= k <= v@.len(),
                rest@ =~= t.subrange(start as int, k as int),
            decreases v@.len() - k,
        {
            rest.push(v[k]);
            k = k + 1;
        }
        assert(rest@ =~= u);
        self.buffer = string_of(&rest);
        out
    }
}

/// The text an OpenAI stream event adds: the first choice's content where it
/// is not empty, else its reasoning where that is not empty.
pub fn openai_delta_text(resp: &OpenAIStreamResponse) -> (r: Option<String>)
    ensures
        ({
            let got = if resp.choices@.len() == 0 {
                None
            } else {
                match resp.choices@[0].delta {
                    None => None,
                    Some(d) => if d.content is Some && d.content->Some_0@.len() > 0 {
                        Some(d.content->Some_0@)
                    } else if d.reasoning_content is Some && d.reasoning_content->Some_0@.len() > 0 {
                        Some(d.reasoning_content->Some_0@)
                    } else {
                        None
                    },
                }
            };
            match got {
                Some(x) => r matches Some(y) && y@ == x,
                None => r is None,
            }
        }),
{
    if resp.choices.len() == 0 {
        return None;
    }
    match &resp.choices[0].delta {
        None => None,
        Some(d) => {
            match &d.content {
                Some(c) => if !c.as_str().is_empty() {
                    return Some(c.clone());
                },
                None => {},
            }
            match &d.reasoning_content {
                Some(c) => if !c.as_str().is_empty() {
                    Some(c.clone())
                } else {
                    None
                },
                None => None,
            }
        },
    }
}

/// A line of `str::lines` ends at a newline, and a carriage return before
/// the newline is dropped.
pub open spec fn without_cr(l: Seq<char>) -> Seq<char> {
    if l.len() > 0 && l.last() == '\r' {
        l.drop_last()
    } else {
        l
    }
}

/// Each line without its trailing carriage return.
pub open spec fn without_crs(ls: Seq<Seq<char>>) -> Seq<Seq<char>>
    decreases ls.len(),
{
    if ls.len() == 0 {
        ls
    } else {
        without_crs(ls.drop_last()).push(without_cr(ls.last()))
    }
}

/// The lines of `t` as `str::lines` gives them.
pub open spec fn text_lines(t: Seq<char>) -> Seq<Seq<char>> {
    let done = without_crs(complete_lines(t));
    if after_lines(t).len() > 0 {
        done.push(after_lines(t))
    } else {
        done
    }
}

/// The payload of an Anthropic event-stream line: the text after `data: `.
pub open spec fn anthropic_payload(line: Seq<char>) -> Option<Seq<char>> {
    if line.len() >= 6 && line.take(6) == "data: "@ {
        Some(line.skip(6))
    } else {
        None
    }
}

/// The payloads of the lines, in order.
pub open spec fn anthropic_payloads(lines: Seq<Seq<char>>) -> Seq<Seq<char>>
    decreases lines.len(),
{
    if lines.len() == 0 {
        Seq::empty()
    } else {
        match anthropic_payload(lines.last()) {
            Some(d) => anthropic_payloads(lines.drop_last()).push(d),
            None => anthropic_payloads(lines.drop_last()),
        }
    }
}

/// The payloads of the lines of one chunk of an Anthropic event stream.
pub fn anthropic_chunk_payloads(chunk: &str) -> (r: Vec<String>)
    ensures
        crate::reducers::texts_view(r@) == anthropic_payloads(text_lines(chunk@)),
{
    let ghost t = chunk@;
    let raw = raw_lines(chunk);
    let ghost lines = complete_lines(t);
    let ghost done = without_crs(lines);
    let mut out: Vec<String> = Vec::new();
    let mut i: usize = 0;
    assert(lines.take(0) =~= Seq::<Seq<char>>::empty());
    while i < raw.0.len()
        invariant
            crate::reducers::texts_view(raw.0@) == lines,
            done == without_crs(lines),
            i <= raw.0@.len(),
            crate::reducers::texts_view(out@) == anthropic_payloads(without_crs(lines.take(i as int))),
        decreases raw.0@.len() - i,
    {
        let line = drop_cr(raw.0[i].as_str());
        let ghost p = lines.take(i + 1);
        assert(p.drop_last() =~= lines.take(i as int));
        assert(p.last() == raw.0@[i as int]@);
        assert(without_crs(p).last() == line@);
        assert(without_crs(p).drop_last() == without_crs(lines.take(i as int)));
        let ghost before = crate::reducers::texts_view(out@);
        proof {
            reveal_strlit("data: ");
        }
        match strip_prefix(line.as_str(), "data: ") {
            Some(d) => {
                out.push(d);
                assert(crate::reducers::texts_view(out@) =~= before.push(d@));
            },
            None => {},
        }
        i = i + 1;
    }
    assert(lines.take(lines.len() as int) =~= lines);
    assert(crate::reducers::texts_view(out@) == anthropic_payloads(done));
    if !raw.1.as_str().is_empty() {
        let ghost before = crate::reducers::texts_view(out@);
        let ghost all = done.push(raw.1@);
        assert(all.drop_last() =~= done);
        assert(text_lines(t) == all);
        proof {
            reveal_strlit("data: ");
        }
        match strip_prefix(raw.1.as_str(), "data: ") {
            Some(d) => {
                out.push(d);
                assert(crate::reducers::texts_view(out@) =~= before.push(d@));
            },
            None => {},
        }
        assert(anthropic_payloads(all) == (match anthropic_payload(all.last()) {
            Some(d) => anthropic_payloads(all.drop_last()).push(d),
            None => anthropic_payloads(all.drop_last()),
        }));
        assert(crate::reducers::texts_view(out@) == anthropic_payloads(all));
    } else {
        assert(text_lines(t) == done);
    }
    out
}

/// The lines of `t` (`str::lines`).
pub fn str_lines(t: &str) -> (r: Vec<String>)
    ensures
        crate::reducers::texts_view(r@) == text_lines(t@),
{
    let raw = raw_lines(t);
    let ghost lines = complete_lines(t@);
    let mut out: Vec<String> = Vec::new();
    let mut i: usize = 0;
    assert(lines.take(0) =~= Seq::<Seq<char>>::empty());
    while i < raw.0.len()
        invariant
            crate::reducers::texts_view(raw.0@) == lines,
            i <= raw.0@.len(),
            crate::reducers::texts_view(out@) == without_crs(lines.take(i as int)),
        decreases raw.0@.len() - i,
    {
        let line = drop_cr(raw.0[i].as_str());
        let ghost p = lines.take(i + 1);
        assert(p.drop_last() =~= lines.take(i as int));
        let ghost before = crate::reducers::texts_view(out@);
        out.push(line);
        assert(crate::reducers::texts_view(out@) =~= before.push(without_cr(p.last())));
        i = i + 1;
    }
    assert(lines.take(lines.len() as int) =~= lines);
    if !raw.1.as_str().is_empty() {
        let ghost before = crate::reducers::texts_view(out@);
        out.push(raw.1);
        assert(crate::reducers::texts_view(out@) =~= before.push(after_lines(t@)));
    }
    out
}

/// `l` without one trailing carriage return.
fn drop_cr(l: &str) -> (r: String)
    ensures
        r@ == without_cr(l@),
{
    let v = chars_of(l);
    let n = v.len();
    let end: usize = if n > 0 && v[n - 1] == '\r' { n - 1 } else { n };
    let mut out: Vec<char> = Vec::new();
    let mut k: usize = 0;
    while k < end
        invariant
            v@ == l@,
            end <= v@.len(),
            k <= end,
            out@ =~= v@.take(k as int),
        decreases end - k,
    {
        out.push(v[k]);
        k = k + 1;
    }
    assert(out@ =~= without_cr(l@));
    string_of(&out)
}

/// The lines of `t` that a newline ends, and what follows the last newline.
fn raw_lines(t: &str) -> (r: (Vec<String>, String))
    ensures
        crate::reducers::texts_view(r.0@) == complete_lines(t@),
        r.1@ == after_lines(t@),
{
    let v = chars_of(t);
    let ghost s = t@;
    let mut out: Vec<String> = Vec::new();
    let mut start: usize = 0;
    let mut i: usize = 0;
    assert(s.skip(0) =~= s);
    assert(crate::reducers::texts_view(out@) + complete_lines(s.skip(0)) =~= complete_lines(s));
    while i < v.len()
        invariant
            v@ == s,
            start <= i <= v@.len(),
            crate::reducers::texts_view(out@) + complete_lines(s.skip(start as int)) == complete_lines(s),
            after_lines(s.skip(start as int)) == after_lines(s),
            forall|j: int| start <= j < i ==> s[j] != '\n',
        decreases v@.len() - i,
    {
        if v[i] == '\n' {
            let ghost u = s.skip(start as int);
            proof {
                lemma_newline_index(u, i - start);
                assert(u.take(i - start) =~= s.subrange(start as int, i as int));
                assert(u.skip(i - start + 1) =~= s.skip(i + 1));
            }
            let mut line_chars: Vec<char> = Vec::new();
            let mut k: usize = start;
            while k < i
                invariant
                    v@ == s,
                    start <= k <= i < v@.len(),
                    line_chars@ =~= s.subrange(start as int, k as int),
                decreases i - k,
            {
                line_chars.push(v[k]);
                k = k + 1;
            }
            let ghost before = crate::reducers::texts_view(out@);
            out.push(string_of(&line_chars));
            proof {
                assert(crate::reducers::texts_view(out@) =~= before.push(s.subrange(start as int, i as int)));
                assert(crate::reducers::texts_view(out@) + complete_lines(s.skip(i + 1)) =~= before + complete_lines(u));
            }
            start = i + 1;
        }
        i = i + 1;
    }
    let ghost u = s.skip(start as int);
    proof {
        lemma_no_newline(u);
        assert(crate::reducers::texts_view(out@) + Seq::<Seq<char>>::empty() =~= crate::reducers::texts_view(out@));
    }
    let mut rest: Vec<char> = Vec::new();
    let mut k: usize = start;
    while k < v.len()
        invariant
            v@ == s,
            start <= k <= v@.len(),
            rest@ =~= s.subrange(start as int, k as int),
        decreases v@.len() - k,
    {
        rest.push(v[k]);
        k = k + 1;
    }
    assert(rest@ =~= u);
    (out, string_of(&rest))
}

/// The text an Anthropic stream event adds: the text of a text delta of a
/// content block.
pub fn anthropic_delta_text(ev: &AnthropicStreamEvent) -> (r: Option<String>)
    ensures
        ({
            let got = if ev.event_type@ == "content_block_delta"@ && ev.delta is Some
                && ev.delta->Some_0.delta_type@ == "text_delta"@ && ev.delta->Some_0.text is Some {
                Some(ev.delta->Some_0.text->Some_0@)
            } else {
                None
            };
            match got {
                Some(x) => r matches Some(y) && y@ == x,
                None => r is None,
            }
        }),
{
    if !same_text(ev.event_type.as_str(), "content_block_delta") {
        return None;
    }
    match &ev.delta {
        Some(d) => if same_text(d.delta_type.as_str(), "text_delta") {
            match &d.text {
                Some(t) => Some(t.clone()),
                None => None,
            }
        } else {
            None
        },
        None => None,
    }
}

/// The text of a streamed reply as it accumulates.
pub struct StreamText {
    /// Everything received so far.
    pub content: String,
}

impl StreamText {
    /// Nothing received yet.
    pub fn new() -> (s: StreamText)
        ensures
            s.content@ == Seq::<char>::empty(),
    {
        StreamText { content: String::new() }
    }

    /// Appends a piece.
    pub fn add(&mut self, piece: &str)
        ensures
            final(self).content@ == old(self).content@ + piece@,
    {
        push_str(&mut self.content, piece);
    }

    /// The whole reply; an error when nothing came.
    pub fn finish(self) -> (r: Result<String, String>)
        ensures
            self.content@.len() == 0 ==> (r matches Err(e) && e@ == "No content received from streaming response"@),
            self.content@.len() > 0 ==> (r matches Ok(t) && t@ == self.content@),
    {
        if self.content.as_str().is_empty() {
            Err(String::from_str("No content received from streaming response"))
        } else {
            Ok(self.content)
        }
    }
}

/// Refuses a call without an API key.
pub fn check_api_key(api_key: &str, provider_name: &str) -> (r: Result<(), String>)
    ensures
        api_key@.len() == 0 ==> (r matches Err(e) && e@ == "No API key configured for provider: "@ + provider_name@),
        api_key@.len() > 0 ==> r is Ok,
{
    if api_key.is_empty() {
        let mut e = String::from_str("No API key configured for provider: ");
        push_str(&mut e, provider_name);
        Err(e)
    } else {
        Ok(())
    }
}

} // verus!
