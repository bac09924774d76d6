//! What the chat screen shows: the lines of the message area, the input
//! line with its cursor, and the help panel, as text pieces with a tone.
use vstd::prelude::*;
use crate::actions::{mode_label, Message, MessageRole, Mode};
use crate::llm::{str_lines, text_lines};
use crate::reducers::{State, StateView};
use crate::search::SearchMatch;
use crate::text::{decimal, push_char, push_decimal, push_str};

verus! {

/// How a piece of text is colored; the theme decides the colors.
#[derive(Debug, Clone, Copy, PartialEq, Eq, Structural)]
pub enum Tone {
    /// No style of its own.
    Plain,
    Foreground,
    Primary,
    Secondary,
    Info,
    Warning,
    Purple,
    /// Black text.
    Black,
    /// Red text.
    Red,
    /// A search hit: the foreground on a highlight.
    Highlight,
}

/// A piece of text with its tone.
#[derive(Debug, Clone)]
pub struct Span {
    pub text: String,
    pub tone: Tone,
    pub bold: bool,
}

/// Model of a piece of text.
pub struct SpanView {
    pub text: Seq<char>,
    pub tone: Tone,
    pub bold: bool,
}

/// The model of a line.
pub open spec fn line_view(l: Seq<Span>) -> Seq<SpanView> {
    l.map_values(|s: Span| SpanView { text: s.text@, tone: s.tone, bold: s.bold })
}

/// The models of the lines.
pub open spec fn lines_view(v: Seq<Vec<Span>>) -> Seq<Seq<SpanView>> {
    v.map_values(|l: Vec<Span>| line_view(l@))
}

/// A piece in spec form.
pub open spec fn sv(text: Seq<char>, tone: Tone, bold: bool) -> SpanView {
    SpanView { text, tone, bold }
}

/// The tone of the mode indicator.
pub open spec fn mode_tone(m: Mode) -> Tone {
    match m {
        Mode::Normal => Tone::Info,
        Mode::Input => Tone::Primary,
        Mode::Command => Tone::Warning,
        Mode::Search => Tone::Purple,
    }
}

/// The lines above the messages: padding, the title and the mode.
pub open spec fn header_lines(m: Mode) -> Seq<Seq<SpanView>> {
    seq![
        Seq::empty(),
        Seq::empty(),
        seq![sv("  NexaCode"@, Tone::Black, true)],
        seq![
            sv("  -- "@, Tone::Secondary, false),
            sv(mode_label(m), mode_tone(m), false),
            sv(" --"@, Tone::Secondary, false),
        ],
        Seq::empty(),
    ]
}

/// The heading of a message of a role.
pub open spec fn role_heading(r: MessageRole) -> Seq<SpanView> {
    match r {
        MessageRole::User => seq![sv("  ◇ "@, Tone::Secondary, false), sv("You"@, Tone::Secondary, true)],
        MessageRole::Assistant => seq![sv("  ◆ "@, Tone::Info, false), sv("Assistant"@, Tone::Info, true)],
        MessageRole::System => seq![sv("  ⚙ System"@, Tone::Warning, true)],
        MessageRole::Tool => seq![sv("  🔧 Tool"@, Tone::Purple, true)],
    }
}

/// A content line, indented; highlighted where the message has a search hit.
pub open spec fn content_line(line: Seq<char>, highlight: bool) -> Seq<SpanView> {
    if highlight {
        seq![sv("    "@, Tone::Plain, false), sv(line, Tone::Highlight, false)]
    } else {
        seq![sv("    "@ + line, Tone::Plain, false)]
    }
}

/// The content lines of a message.
pub open spec fn content_lines(lines: Seq<Seq<char>>, highlight: bool) -> Seq<Seq<SpanView>> {
    lines.map_values(|l: Seq<char>| content_line(l, highlight))
}

/// Whether a search hit names message `i`.
pub open spec fn has_hit(results: Seq<SearchMatch>, i: int) -> bool {
    exists|j: int| 0 <= j < results.len() && results[j].message_index == i
}

/// The lines of message `i`: its heading, its content, and a blank line.
pub open spec fn message_block(s: StateView, i: int) -> Seq<Seq<SpanView>> {
    let m = s.messages[i];
    let hl = has_hit(s.search_results, i) && s.search_query is Some;
    seq![role_heading(m.role)] + content_lines(text_lines(m.content), hl) + seq![Seq::<SpanView>::empty()]
}

/// The lines of the first `n` messages.
pub open spec fn message_blocks(s: StateView, n: int) -> Seq<Seq<SpanView>>
    decreases n,
{
    if n <= 0 {
        Seq::empty()
    } else {
        message_blocks(s, n - 1) + message_block(s, n - 1)
    }
}

/// The position of the selected match and the number of matches.
pub open spec fn match_info(s: StateView) -> Seq<char> {
    if s.search_results.len() == 0 {
        "No matches"@
    } else {
        let cur: nat = match s.current_match_index {
            Some(i) => (i + 1) as nat,
            None => 0,
        };
        decimal(cur) + "/"@ + decimal(s.search_results.len())
    }
}

/// The lines under the messages: the status and the search.
pub open spec fn footer_lines(s: StateView) -> Seq<Seq<SpanView>> {
    let status = match s.status_message {
        Some(m) => {
            let t = if s.status_is_error { Tone::Red } else { Tone::Info };
            seq![Seq::<SpanView>::empty(), seq![sv("  ⚡ "@, t, false), sv(m, t, false)]]
        },
        None => Seq::empty(),
    };
    let search = match s.search_query {
        Some(q) => seq![
            seq![
                sv("  🔍 \""@, Tone::Purple, false),
                sv(q, Tone::Purple, true),
                sv("\" "@, Tone::Purple, false),
                sv(match_info(s), Tone::Info, false),
            ],
        ],
        None => Seq::empty(),
    };
    status + search
}

/// Every line of the message area.
pub open spec fn message_area(s: StateView) -> Seq<Seq<SpanView>> {
    let body = if s.messages.len() == 0 {
        seq![seq![sv("  What do you want to build?"@, Tone::Secondary, false)]]
    } else {
        message_blocks(s, s.messages.len() as int)
    };
    header_lines(s.mode) + body + footer_lines(s)
}

/// A piece of text.
fn span(text: &str, tone: Tone, bold: bool) -> (r: Span)
    ensures
        r.text@ == text@,
        r.tone == tone,
        r.bold == bold,
{
    Span { text: String::from_str(text), tone, bold }
}

/// Appends lines.
fn append_lines(v: &mut Vec<Vec<Span>>, more: Vec<Vec<Span>>)
    ensures
        lines_view(final(v)@) == lines_view(old(v)@) + lines_view(more@),
{
    let mut more = more;
    let ghost m = lines_view(more@);
    let mut rest: Vec<Vec<Span>> = Vec::new();
    while more.len() > 0
        invariant
            lines_view(more@) + lines_view(rest@).reverse() == m,
        decreases more@.len(),
    {
        let l = more.pop().unwrap();
        let ghost lv = line_view(l@);
        let ghost before = lines_view(rest@);
        rest.push(l);
        proof {
            assert(lines_view(rest@) =~= before.push(lv));
            assert(lines_view(rest@).reverse() =~= seq![lv] + before.reverse());
        }
        assert(lines_view(more@) + lines_view(rest@).reverse() =~= m);
    }
    let ghost start = lines_view(v@);
    assert(lines_view(rest@).reverse() == m);
    while rest.len() > 0
        invariant
            lines_view(v@) + lines_view(rest@).reverse() == start + m,
        decreases rest@.len(),
    {
        let l = rest.pop().unwrap();
        let ghost lv = line_view(l@);
        let ghost before = lines_view(v@);
        v.push(l);
        proof {
            assert(lines_view(v@) =~= before.push(lv));
        }
        assert(lines_view(v@) + lines_view(rest@).reverse() =~= start + m);
    }
    assert(lines_view(v@) =~= start + m);
}

/// The lines above the messages.
fn header(mode: Mode) -> (r: Vec<Vec<Span>>)
    ensures
        lines_view(r@) == header_lines(mode),
{
    let mut r: Vec<Vec<Span>> = Vec::new();
    r.push(Vec::new());
    r.push(Vec::new());
    let mut title: Vec<Span> = Vec::new();
    title.push(span("  NexaCode", Tone::Black, true));
    r.push(title);
    let (label, tone) = match mode {
        Mode::Normal => ("NORMAL", Tone::Info),
        Mode::Input => ("INPUT", Tone::Primary),
        Mode::Command => ("COMMAND", Tone::Warning),
        Mode::Search => ("SEARCH", Tone::Purple),
    };
    let mut ind: Vec<Span> = Vec::new();
    ind.push(span("  -- ", Tone::Secondary, false));
    ind.push(span(label, tone, false));
    ind.push(span(" --", Tone::Secondary, false));
    r.push(ind);
    r.push(Vec::new());
    assert(line_view(r@[0]@) =~= Seq::<SpanView>::empty());
    assert(line_view(r@[1]@) =~= Seq::<SpanView>::empty());
    assert(line_view(r@[2]@) =~= seq![sv("  NexaCode"@, Tone::Black, true)]);
    assert(line_view(r@[3]@) =~= seq![
        sv("  -- "@, Tone::Secondary, false),
        sv(mode_label(mode), mode_tone(mode), false),
        sv(" --"@, Tone::Secondary, false),
    ]);
    assert(line_view(r@[4]@) =~= Seq::<SpanView>::empty());
    assert(lines_view(r@) =~= header_lines(mode));
    r
}

/// Whether a search hit names message `i`.
fn hit_in(results: &Vec<SearchMatch>, i: usize) -> (b: bool)
    ensures
        b == has_hit(results@, i as int),
{
    let mut j: usize = 0;
    while j < results.len()
        invariant
            j <= results@.len(),
            forall|k: int| 0 <= k < j ==> results@[k].message_index != i,
        decreases results@.len() - j,
    {
        if results[j].message_index == i {
            return true;
        }
        j = j + 1;
    }
    false
}

/// The heading of a message.
fn heading(role: MessageRole) -> (r: Vec<Span>)
    ensures
        line_view(r@) == role_heading(role),
{
    let mut r: Vec<Span> = Vec::new();
    match role {
        MessageRole::User => {
            r.push(span("  ◇ ", Tone::Secondary, false));
            r.push(span("You", Tone::Secondary, true));
        },
        MessageRole::Assistant => {
            r.push(span("  ◆ ", Tone::Info, false));
            r.push(span("Assistant", Tone::Info, true));
        },
        MessageRole::System => {
            r.push(span("  ⚙ System", Tone::Warning, true));
        },
        MessageRole::Tool => {
            r.push(span("  🔧 Tool", Tone::Purple, true));
        },
    }
    assert(line_view(r@) =~= role_heading(role));
    r
}

/// The lines of one message.
fn block(m: &Message, highlight: bool) -> (r: Vec<Vec<Span>>)
    ensures
        lines_view(r@) == seq![role_heading(m.role)] + content_lines(text_lines(m.content@), highlight)
            + seq![Seq::<SpanView>::empty()],
{
    let mut r: Vec<Vec<Span>> = Vec::new();
    r.push(heading(m.role));
    let lines = str_lines(m.content.as_str());
    let ghost tl = crate::reducers::texts_view(lines@);
    let mut i: usize = 0;
    assert(lines_view(r@) =~= seq![role_heading(m.role)] + content_lines(tl.take(0), highlight));
    while i < lines.len()
        invariant
            tl == crate::reducers::texts_view(lines@),
            tl == text_lines(m.content@),
            i <= lines@.len(),
            lines_view(r@) == seq![role_heading(m.role)] + content_lines(tl.take(i as int), highlight),
        decreases lines@.len() - i,
    {
        let mut l: Vec<Span> = Vec::new();
        if highlight {
            l.push(span("    ", Tone::Plain, false));
            l.push(Span { text: lines[i].clone(), tone: Tone::Highlight, bold: false });
        } else {
            let mut t = String::from_str("    ");
            push_str(&mut t, lines[i].as_str());
            l.push(Span { text: t, tone: Tone::Plain, bold: false });
        }
        let ghost before = lines_view(r@);
        assert(line_view(l@) =~= content_line(tl[i as int], highlight));
        r.push(l);
        proof {
            assert(lines_view(r@) =~= before.push(content_line(tl[i as int], highlight)));
            assert(content_lines(tl.take(i + 1), highlight) =~= content_lines(tl.take(i as int), highlight).push(
                content_line(tl[i as int], highlight),
            ));
        }
        i = i + 1;
    }
    assert(tl.take(lines@.len() as int) =~= tl);
    let ghost before = lines_view(r@);
    let e: Vec<Span> = Vec::new();
    assert(line_view(e@) =~= Seq::<SpanView>::empty());
    r.push(e);
    assert(lines_view(r@) =~= before.push(Seq::<SpanView>::empty()));
    r
}

/// The position of the selected match and the number of matches.
fn match_info_text(state: &State) -> (r: String)
    requires
        state@.current_match_index matches Some(i) ==> i < usize::MAX,
    ensures
        r@ == match_info(state@),
{
    if state.search_results.len() == 0 {
        return String::from_str("No matches");
    }
    let cur: u64 = match state.current_match_index {
        Some(i) => (i + 1) as u64,
        None => 0,
    };
    let mut r = String::new();
    push_decimal(&mut r, cur);
    push_char(&mut r, '/');
    push_decimal(&mut r, state.search_results.len() as u64);
    proof {
        reveal_strlit("/");
        assert(r@ =~= match_info(state@));
    }
    r
}

/// The status and search lines.
fn footer(state: &State) -> (r: Vec<Vec<Span>>)
    requires
        state@.current_match_index matches Some(i) ==> i < usize::MAX,
    ensures
        lines_view(r@) == footer_lines(state@),
{
    let mut r: Vec<Vec<Span>> = Vec::new();
    match &state.status_message {
        Some(m) => {
            let t = if state.status_is_error { Tone::Red } else { Tone::Info };
            let e: Vec<Span> = Vec::new();
            assert(line_view(e@) =~= Seq::<SpanView>::empty());
            r.push(e);
            let mut l: Vec<Span> = Vec::new();
            l.push(span("  ⚡ ", t, false));
            l.push(Span { text: m.clone(), tone: t, bold: false });
            assert(line_view(l@) =~= seq![sv("  ⚡ "@, t, false), sv(m@, t, false)]);
            r.push(l);
            assert(lines_view(r@) =~= seq![Seq::<SpanView>::empty(), seq![sv("  ⚡ "@, t, false), sv(m@, t, false)]]);
        },
        None => {
            assert(lines_view(r@) =~= Seq::<Seq<SpanView>>::empty());
        },
    }
    let ghost status_part = lines_view(r@);
    match &state.search_query {
        Some(q) => {
            let mut l: Vec<Span> = Vec::new();
            l.push(span("  🔍 \"", Tone::Purple, false));
            l.push(Span { text: q.clone(), tone: Tone::Purple, bold: true });
            l.push(span("\" ", Tone::Purple, false));
            l.push(Span { text: match_info_text(state), tone: Tone::Info, bold: false });
            assert(line_view(l@) =~= seq![
                sv("  🔍 \""@, Tone::Purple, false),
                sv(q@, Tone::Purple, true),
                sv("\" "@, Tone::Purple, false),
                sv(match_info(state@), Tone::Info, false),
            ]);
            r.push(l);
            assert(lines_view(r@) =~= status_part.push(line_view(l@)));
        },
        None => {},
    }
    assert(lines_view(r@) =~= footer_lines(state@));
    r
}

/// The lines of the message area: the title and mode, each message with a
/// heading and its content lines (highlighted where a search hit it), or a
/// welcome line when there is none, then the status and the search.
pub fn message_area_lines(state: &State) -> (r: Vec<Vec<Span>>)
    requires
        state@.current_match_index matches Some(i) ==> i < usize::MAX,
    ensures
        lines_view(r@) == message_area(state@),
{
    let mut r = header(state.mode);
    let ghost head = lines_view(r@);
    if state.messages.len() == 0 {
        let mut l: Vec<Span> = Vec::new();
        l.push(span("  What do you want to build?", Tone::Secondary, false));
        assert(line_view(l@) =~= seq![sv("  What do you want to build?"@, Tone::Secondary, false)]);
        r.push(l);
        assert(lines_view(r@) =~= head + seq![seq![sv("  What do you want to build?"@, Tone::Secondary, false)]]);
    } else {
        let mut i: usize = 0;
        assert(head + message_blocks(state@, 0) =~= head);
        while i < state.messages.len()
            invariant
                head == header_lines(state@.mode),
                i <= state@.messages.len(),
                state@.messages.len() == state.messages@.len(),
                lines_view(r@) == head + message_blocks(state@, i as int),
            decreases state.messages@.len() - i,
        {
            let hl = hit_in(&state.search_results, i) && state.search_query.is_some();
            let b = block(&state.messages[i], hl);
            let ghost bv = lines_view(b@);
            proof {
                assert(state@.messages[i as int] == state.messages@[i as int]@);
                assert(bv == message_block(state@, i as int));
            }
            append_lines(&mut r, b);
            assert(lines_view(r@) =~= head + message_blocks(state@, i + 1));
            i = i + 1;
        }
    }
    let ghost mid = lines_view(r@);
    append_lines(&mut r, footer(state));
    r
}

/// The prompt of a mode and its tone; the prompt is bold but in normal mode.
pub open spec fn prompt_of(m: Mode) -> (Seq<char>, Tone, bool) {
    match m {
        Mode::Normal => (" "@, Tone::Secondary, false),
        Mode::Input => (">"@, Tone::Black, true),
        Mode::Command => (":"@, Tone::Warning, true),
        Mode::Search => ("/"@, Tone::Purple, true),
    }
}

/// The input line with a block cursor at the cursor's character, or the
/// cursor alone when the line is empty.
pub open spec fn input_with_cursor(input: Seq<char>, cursor: int) -> Seq<char> {
    if input.len() == 0 {
        seq!['█']
    } else {
        let k = if cursor >= crate::text::byte_len(input) {
            input.len() as int
        } else {
            crate::input::char_pos(input, cursor)
        };
        input.take(k) + seq!['█'] + input.skip(k)
    }
}

/// The line of the input box: the mode's prompt and a space, then the input
/// with its cursor.
pub open spec fn input_box_line(s: StateView) -> Seq<SpanView> {
    let (p, t, b) = prompt_of(s.mode);
    seq![sv(p + " "@, t, b), sv(input_with_cursor(s.input, s.cursor_pos as int), Tone::Foreground, false)]
}

/// The line of the input box.
pub fn input_line(state: &State) -> (r: Vec<Span>)
    requires
        state@.cursor_pos >= crate::text::byte_len(state@.input) || crate::input::is_boundary(
            state@.input,
            state@.cursor_pos as int,
        ),
    ensures
        line_view(r@) == input_box_line(state@),
{
    let (p, t, b) = match state.mode {
        Mode::Normal => ("  ", Tone::Secondary, false),
        Mode::Input => ("> ", Tone::Black, true),
        Mode::Command => (": ", Tone::Warning, true),
        Mode::Search => ("/ ", Tone::Purple, true),
    };
    let chars = crate::text::chars_of(state.input.as_str());
    let text = if chars.len() == 0 {
        String::from_str("█")
    } else {
        crate::input::byte_len_fits(state.input.as_str());
        let total = crate::input::prefix_bytes(&chars, chars.len());
        proof {
            assert(chars@.take(chars@.len() as int) =~= chars@);
        }
        let k = if state.cursor_pos >= total {
            chars.len()
        } else {
            crate::input::char_index_at(&chars, state.cursor_pos)
        };
        let mut v: Vec<char> = Vec::new();
        let mut i: usize = 0;
        while i < k
            invariant
                k <= chars@.len(),
                i <= k,
                v@ =~= chars@.take(i as int),
            decreases k - i,
        {
            v.push(chars[i]);
            i = i + 1;
        }
        v.push('█');
        let mut j: usize = k;
        while j < chars.len()
            invariant
                k <= j <= chars@.len(),
                v@ =~= chars@.take(k as int) + seq!['█'] + chars@.subrange(k as int, j as int),
            decreases chars@.len() - j,
        {
            v.push(chars[j]);
            j = j + 1;
        }
        assert(v@ =~= chars@.take(k as int) + seq!['█'] + chars@.skip(k as int));
        crate::text::string_of(&v)
    };
    proof {
        reveal_strlit("█");
        reveal_strlit("  ");
        reveal_strlit("> ");
        reveal_strlit(": ");
        reveal_strlit("/ ");
        reveal_strlit(" ");
        reveal_strlit(">");
        reveal_strlit(":");
        reveal_strlit("/");
    }
    let mut r: Vec<Span> = Vec::new();
    r.push(span(p, t, b));
    r.push(Span { text, tone: Tone::Foreground, bold: false });
    assert(text@ == input_with_cursor(state@.input, state@.cursor_pos as int));
    assert(p@ == prompt_of(state@.mode).0 + " "@);
    assert(line_view(r@) =~= input_box_line(state@));
    r
}

/// The lines of the help panel.
pub open spec fn help_lines() -> Seq<Seq<SpanView>> {
    seq![
        Seq::empty(),
        seq![sv("  MODES"@, Tone::Info, true)],
        seq![sv("    i, a, Space, Enter  →  Input mode"@, Tone::Plain, false)],
        seq![sv("    :                  →  Command mode"@, Tone::Plain, false)],
        seq![sv("    /                  →  Search mode"@, Tone::Plain, false)],
        seq![sv("    Esc                →  Normal mode"@, Tone::Plain, false)],
        Seq::empty(),
        seq![sv("  NAVIGATION"@, Tone::Info, true)],
        seq![sv("    j/↓    Scroll down"@, Tone::Plain, false)],
        seq![sv("    k/↑    Scroll up"@, Tone::Plain, false)],
        seq![sv("    g      Scroll to top"@, Tone::Plain, false)],
        seq![sv("    G      Scroll to bottom"@, Tone::Plain, false)],
        Seq::empty(),
        seq![sv("  SEARCH"@, Tone::Info, true)],
        seq![sv("    /query  Search messages"@, Tone::Plain, false)],
        seq![sv("    n       Next match"@, Tone::Plain, false)],
        seq![sv("    N       Previous match"@, Tone::Plain, false)],
        Seq::empty(),
        seq![sv("  COMMANDS"@, Tone::Info, true)],
        seq![sv("    :q, :quit     Quit"@, Tone::Plain, false)],
        seq![sv("    :h, :help     Show this help"@, Tone::Plain, false)],
        seq![sv("    :clear        Clear messages"@, Tone::Plain, false)],
        seq![sv("    :theme        Toggle theme"@, Tone::Plain, false)],
        seq![sv("    :new [name]   New session"@, Tone::Plain, false)],
        seq![sv("    :save         Save session"@, Tone::Plain, false)],
        seq![sv("    :sessions     List sessions"@, Tone::Plain, false)],
        Seq::empty(),
        seq![sv("  EDITING (Input mode)"@, Tone::Info, true)],
        seq![sv("    Ctrl+A    Move to start"@, Tone::Plain, false)],
        seq![sv("    Ctrl+E    Move to end"@, Tone::Plain, false)],
        seq![sv("    Ctrl+W    Delete word backward"@, Tone::Plain, false)],
        seq![sv("    Ctrl+U    Clear input"@, Tone::Plain, false)],
        seq![sv("    ↑/↓       Input history"@, Tone::Plain, false)],
        Seq::empty(),
        seq![sv("  OTHER"@, Tone::Info, true)],
        seq![sv("    t, Ctrl+T  Toggle theme"@, Tone::Plain, false)],
        seq![sv("    u          Undo"@, Tone::Plain, false)],
        seq![sv("    Ctrl+R     Redo"@, Tone::Plain, false)],
        Seq::empty(),
    ]
}

/// The title of the help panel.
pub open spec fn help_title() -> Seq<char> {
    " Help (press h or ? to close) "@
}

/// The title of the help panel.
pub fn help_panel_title() -> (r: String)
    ensures
        r@ == help_title(),
{
    String::from_str(" Help (press h or ? to close) ")
}

/// Appends a line of one piece.
fn push_line(v: &mut Vec<Vec<Span>>, text: &str, tone: Tone, bold: bool)
    ensures
        lines_view(final(v)@) == lines_view(old(v)@).push(seq![sv(text@, tone, bold)]),
{
    let mut l: Vec<Span> = Vec::new();
    l.push(span(text, tone, bold));
    let ghost before = lines_view(v@);
    assert(line_view(l@) =~= seq![sv(text@, tone, bold)]);
    v.push(l);
    assert(lines_view(v@) =~= before.push(seq![sv(text@, tone, bold)]));
}

/// Appends an empty line.
fn push_blank(v: &mut Vec<Vec<Span>>)
    ensures
        lines_view(final(v)@) == lines_view(old(v)@).push(Seq::<SpanView>::empty()),
{
    let l: Vec<Span> = Vec::new();
    let ghost before = lines_view(v@);
    assert(line_view(l@) =~= Seq::<SpanView>::empty());
    v.push(l);
    assert(lines_view(v@) =~= before.push(Seq::<SpanView>::empty()));
}

/// The lines of the help panel: the keys of each mode and the commands.
pub fn help_panel_lines() -> (r: Vec<Vec<Span>>)
    ensures
        lines_view(r@) == help_lines(),
{
    let mut r: Vec<Vec<Span>> = Vec::new();
    push_blank(&mut r);
    push_line(&mut r, "  MODES", Tone::Info, true);
    push_line(&mut r, "    i, a, Space, Enter  →  Input mode", Tone::Plain, false);
    push_line(&mut r, "    :                  →  Command mode", Tone::Plain, false);
    push_line(&mut r, "    /                  →  Search mode", Tone::Plain, false);
    push_line(&mut r, "    Esc                →  Normal mode", Tone::Plain, false);
    push_blank(&mut r);
    push_line(&mut r, "  NAVIGATION", Tone::Info, true);
    push_line(&mut r, "    j/↓    Scroll down", Tone::Plain, false);
    push_line(&mut r, "    k/↑    Scroll up", Tone::Plain, false);
    push_line(&mut r, "    g      Scroll to top", Tone::Plain, false);
    push_line(&mut r, "    G      Scroll to bottom", Tone::Plain, false);
    push_blank(&mut r);
    push_line(&mut r, "  SEARCH", Tone::Info, true);
    push_line(&mut r, "    /query  Search messages", Tone::Plain, false);
    push_line(&mut r, "    n       Next match", Tone::Plain, false);
    push_line(&mut r, "    N       Previous match", Tone::Plain, false);
    push_blank(&mut r);
    push_line(&mut r, "  COMMANDS", Tone::Info, true);
    push_line(&mut r, "    :q, :quit     Quit", Tone::Plain, false);
    push_line(&mut r, "    :h, :help     Show this help", Tone::Plain, false);
    push_line(&mut r, "    :clear        Clear messages", Tone::Plain, false);
    push_line(&mut r, "    :theme        Toggle theme", Tone::Plain, false);
    push_line(&mut r, "    :new [name]   New session", Tone::Plain, false);
    push_line(&mut r, "    :save         Save session", Tone::Plain, false);
    push_line(&mut r, "    :sessions     List sessions", Tone::Plain, false);
    push_blank(&mut r);
    push_line(&mut r, "  EDITING (Input mode)", Tone::Info, true);
    push_line(&mut r, "    Ctrl+A    Move to start", Tone::Plain, false);
    push_line(&mut r, "    Ctrl+E    Move to end", Tone::Plain, false);
    push_line(&mut r, "    Ctrl+W    Delete word backward", Tone::Plain, false);
    push_line(&mut r, "    Ctrl+U    Clear input", Tone::Plain, false);
    push_line(&mut r, "    ↑/↓       Input history", Tone::Plain, false);
    push_blank(&mut r);
    push_line(&mut r, "  OTHER", Tone::Info, true);
    push_line(&mut r, "    t, Ctrl+T  Toggle theme", Tone::Plain, false);
    push_line(&mut r, "    u          Undo", Tone::Plain, false);
    push_line(&mut r, "    Ctrl+R     Redo", Tone::Plain, false);
    push_blank(&mut r);
    assert(lines_view(r@) =~= help_lines());
    r
}

} // verus!
