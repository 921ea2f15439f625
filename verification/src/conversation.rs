//! The local conversation with the assistant: a history of messages that
//! grows by one assistant message for each chat completion received.
use vstd::prelude::*;

use crate::response::{
    assemble, bad_chunk, lemma_first_bad_from, calls_match, content_of, error_text, first_bad_from, opt_view, role_accepted,
    role_of, tool_deltas, AssemblerError, CompletedAssistantMessage, CompletedToolCall, StreamChunk,
};
use crate::json::{array_field, array_member, text_field, text_member};
use crate::seeding::copy_value;
use crate::strings::{str_eq, to_string};

use serde_json::Value;

verus! {

/// One message of the conversation.
#[derive(Debug, PartialEq, Eq)]
pub enum Message {
    User { content: String },
    Assistant { content: Option<String>, tool_calls: Vec<CompletedToolCall> },
    Tool { tool_call_id: String, content: String },
}

/// What a message says, as plain values.
pub enum MessageView {
    User { content: Seq<char> },
    Assistant { content: Option<Seq<char>>, tool_calls: Seq<CompletedToolCall> },
    Tool { tool_call_id: Seq<char>, content: Seq<char> },
}

impl View for Message {
    type V = MessageView;

    open spec fn view(&self) -> MessageView {
        match self {
            Message::User { content } => MessageView::User { content: content@ },
            Message::Assistant { content, tool_calls } => MessageView::Assistant {
                content: opt_view(*content),
                tool_calls: tool_calls@,
            },
            Message::Tool { tool_call_id, content } => MessageView::Tool {
                tool_call_id: tool_call_id@,
                content: content@,
            },
        }
    }
}

pub open spec fn message_views(messages: Seq<Message>) -> Seq<MessageView> {
    messages.map_values(|m: Message| m@)
}

impl Clone for Message {
    fn clone(&self) -> (copy: Self)
        ensures
            copy@ == self@,
    {
        match self {
            Message::User { content } => Message::User { content: content.clone() },
            Message::Assistant { content, tool_calls } => {
                let content = match content {
                    Some(c) => Some(c.clone()),
                    None => None,
                };
                let mut calls: Vec<CompletedToolCall> = Vec::new();
                let mut i: usize = 0;
                while i < tool_calls.len()
                    invariant
                        i <= tool_calls.len(),
                        calls@ == tool_calls@.take(i as int),
                    decreases tool_calls.len() - i,
                {
                    calls.push(tool_calls[i].clone());
                    assert(tool_calls@.take(i + 1) =~= tool_calls@.take(i as int).push(
                        tool_calls@[i as int],
                    ));
                    i += 1;
                }
                assert(tool_calls@.take(tool_calls.len() as int) =~= tool_calls@);
                Message::Assistant { content, tool_calls: calls }
            },
            Message::Tool { tool_call_id, content } => Message::Tool {
                tool_call_id: tool_call_id.clone(),
                content: content.clone(),
            },
        }
    }
}

/// The conversation so far.
#[derive(Debug, PartialEq, Eq)]
pub struct State {
    history: Vec<Message>,
}

impl State {
    pub closed spec fn messages(&self) -> Seq<MessageView> {
        message_views(self.history@)
    }
}

impl Clone for State {
    fn clone(&self) -> (copy: Self)
        ensures
            copy.messages() == self.messages(),
    {
        State { history: clone_messages(&self.history) }
    }
}

/// What happens to the conversation.
#[derive(Debug, PartialEq, Eq)]
pub enum Event {
    ChatCompletionReceived { chunks: Vec<StreamChunk> },
}

/// What the conversation asks its host to do.
#[derive(Debug, PartialEq, Eq)]
pub enum Effect {
    ChatCompletionDecodeFailed { error: String },
}

/// The state after an event, with the effects it calls for.
#[derive(Debug, PartialEq, Eq)]
pub struct Transition {
    pub state: State,
    pub effects: Vec<Effect>,
}

/// A read-only copy of the conversation.
#[derive(Debug, PartialEq, Eq)]
pub struct ConversationView {
    pub history: Vec<Message>,
}

/// How the history looks to truncation: a message's role and whether it
/// carries tool calls.
#[derive(Debug, PartialEq, Eq)]
pub struct MessageShape {
    pub role: String,
    pub has_tool_calls: bool,
}

// ---------------------------------------------------------------------------
// Mathematical model
// ---------------------------------------------------------------------------

/// The message of the assembly error of `chunks`, or none when the chunks
/// assemble.
pub open spec fn assembly_failure(chunks: Seq<StreamChunk>) -> Option<Seq<char>> {
    let b = first_bad_from(chunks, 0);
    if chunks.len() == 0 {
        Some(error_text(AssemblerError::Empty))
    } else if b < chunks.len() {
        if chunks[b].choices is None {
            Some(error_text(AssemblerError::MissingChoices { index: b as usize }))
        } else {
            Some(error_text(AssemblerError::EmptyChoices { index: b as usize }))
        }
    } else if !role_accepted(role_of(chunks)) {
        Some("unexpected role in chat completion response: "@ + role_of(chunks))
    } else {
        None
    }
}

/// `m` is the assistant message that `chunks` assemble into.
pub open spec fn assistant_message_of(m: MessageView, chunks: Seq<StreamChunk>) -> bool {
    m matches MessageView::Assistant { content, tool_calls } && content == content_of(chunks)
        && calls_match(tool_calls, tool_deltas(chunks))
}

/// `new` and `effects` are what `event` makes of `old`: a chat completion
/// that assembles appends its assistant message and asks for nothing; one
/// that does not leaves the history as it was and reports why.
pub open spec fn reduced(old: State, event: Event, new: State, effects: Seq<Effect>) -> bool {
    match event {
        Event::ChatCompletionReceived { chunks } => match assembly_failure(chunks@) {
            Some(text) => new.messages() == old.messages() && effects.len() == 1 && (
            effects[0] matches Effect::ChatCompletionDecodeFailed { error } && error@ == text),
            None => effects.len() == 0 && new.messages().len() == old.messages().len() + 1
                && new.messages().take(old.messages().len() as int) == old.messages()
                && assistant_message_of(new.messages().last(), chunks@),
        },
    }
}

/// A message where the history may start after truncation: a user message,
/// or an assistant message without tool calls.
pub open spec fn safe_start(shape: MessageShape) -> bool {
    shape.role@ == "user"@ || (shape.role@ == "assistant"@ && !shape.has_tool_calls)
}

/// The first safe start at or after `i`, or the number of messages.
pub open spec fn safe_start_from(shapes: Seq<MessageShape>, i: int) -> int
    decreases shapes.len() - i,
{
    if i < 0 {
        0
    } else if i >= shapes.len() {
        shapes.len() as int
    } else if safe_start(shapes[i]) {
        i
    } else {
        safe_start_from(shapes, i + 1)
    }
}

/// Where the truncated history starts: nothing is dropped when the history
/// fits in `max`; otherwise at the first safe start that leaves at most
/// `max` messages, and nothing is dropped when there is none.
pub open spec fn truncation_start_of(shapes: Seq<MessageShape>, max: int) -> int {
    if shapes.len() <= max {
        0
    } else {
        let cut = safe_start_from(shapes, shapes.len() - max);
        if cut < shapes.len() {
            cut
        } else {
            0
        }
    }
}

// ---------------------------------------------------------------------------
// Executable code
// ---------------------------------------------------------------------------

fn clone_messages(messages: &Vec<Message>) -> (copy: Vec<Message>)
    ensures
        message_views(copy@) == message_views(messages@),
{
    let mut copy: Vec<Message> = Vec::new();
    let mut i: usize = 0;
    while i < messages.len()
        invariant
            i <= messages.len(),
            message_views(copy@) == message_views(messages@.take(i as int)),
        decreases messages.len() - i,
    {
        let ghost before = copy@;
        copy.push(messages[i].clone());
        assert(message_views(copy@) =~= message_views(before).push(messages@[i as int]@));
        assert(message_views(messages@.take(i + 1)) =~= message_views(messages@.take(i as int)).push(
            messages@[i as int]@,
        ));
        i += 1;
    }
    assert(messages@.take(messages.len() as int) =~= messages@);
    copy
}

/// The empty conversation.
pub fn init() -> (state: State)
    ensures
        state.messages().len() == 0,
{
    State { history: Vec::new() }
}

/// A conversation with the given history.
pub fn state_with_history(history: Vec<Message>) -> (state: State)
    ensures
        state.messages() == message_views(history@),
{
    State { history }
}

/// Apply an event: a chat completion that assembles appends its assistant
/// message; one that does not leaves the history as it was and reports
/// why.
pub fn reduce(state: State, event: Event) -> (t: Transition)
    ensures
        reduced(state, event, t.state, t.effects@),
{
    reduce_event(state, event)
}

fn reduce_event(state: State, event: Event) -> (t: Transition)
    ensures
        reduced(state, event, t.state, t.effects@),
{
    let mut state = state;
    match event {
        Event::ChatCompletionReceived { chunks } => {
            proof {
                lemma_first_bad_from(chunks@, 0);
            }
            match assemble(chunks.as_slice()) {
                Ok(message) => {
                    let ghost old_history = state.history@;
                    state.history.push(map_assistant_message(message));
                    assert(message_views(state.history@) =~= message_views(old_history).push(
                        state.history@.last()@,
                    ));
                    assert(message_views(state.history@).take(old_history.len() as int)
                        =~= message_views(old_history));
                    Transition { state, effects: Vec::new() }
                },
                Err(error) => {
                    let text = error.message();
                    let mut effects: Vec<Effect> = Vec::new();
                    effects.push(Effect::ChatCompletionDecodeFailed { error: text });
                    Transition { state, effects }
                },
            }
        },
    }
}

/// The history message for an assembled assistant message.
pub fn map_assistant_message(message: CompletedAssistantMessage) -> (m: Message)
    ensures
        m == (Message::Assistant { content: message.content, tool_calls: message.tool_calls }),
{
    Message::Assistant { content: message.content, tool_calls: message.tool_calls }
}

/// A copy of the conversation.
pub fn view(state: &State) -> (v: ConversationView)
    ensures
        message_views(v.history@) == state.messages(),
{
    ConversationView { history: clone_messages(&state.history) }
}

/// The messages so far, oldest first.
pub fn history(state: &State) -> (messages: &[Message])
    ensures
        message_views(messages@) == state.messages(),
{
    state.history.as_slice()
}

fn is_safe_start(shape: &MessageShape) -> (safe: bool)
    ensures
        safe == safe_start(*shape),
{
    str_eq(shape.role.as_str(), "user") || (str_eq(shape.role.as_str(), "assistant")
        && !shape.has_tool_calls)
}

/// Where to cut a history of at most `max` messages from the front, never
/// leaving a tool call or tool result without what it answers: the kept
/// messages are those from the returned index on.
pub fn truncation_start(shapes: &[MessageShape], max: usize) -> (start: usize)
    ensures
        start == truncation_start_of(shapes@, max as int),
        start <= shapes@.len(),
        shapes@.len() <= max ==> start == 0,
        start > 0 ==> safe_start(shapes@[start as int]) && shapes@.len() - start <= max,
{
    if shapes.len() <= max {
        return 0;
    }
    let mut cut: usize = shapes.len() - max;
    while cut < shapes.len() && !is_safe_start(&shapes[cut])
        invariant
            shapes@.len() - max <= cut <= shapes@.len(),
            safe_start_from(shapes@, shapes@.len() - max) == safe_start_from(shapes@, cut as int),
        decreases shapes.len() - cut,
    {
        cut += 1;
    }
    if cut < shapes.len() {
        cut
    } else {
        0
    }
}

/// `shape` is how the history message `value`, in the request format,
/// looks to truncation: its `role` text (empty when it has none) and
/// whether it has a non-empty `tool_calls` array.
pub open spec fn shape_read(shape: MessageShape, value: Value) -> bool {
    &&& shape.role@ == match text_member(value, "role"@) {
        Some(r) => r,
        None => Seq::<char>::empty(),
    }
    &&& shape.has_tool_calls == (array_member(value, "tool_calls"@) matches Some(calls) && calls.len()
        > 0)
}

/// How a history message in the request format looks to truncation.
pub fn message_shape(value: &Value) -> (shape: MessageShape)
    ensures
        shape_read(shape, *value),
{
    let role = match text_field(value, "role") {
        Some(r) => to_string(r),
        None => String::new(),
    };
    let has_tool_calls = match array_field(value, "tool_calls") {
        Some(calls) => calls.len() > 0,
        None => false,
    };
    MessageShape { role, has_tool_calls }
}

/// The history in the request format cut to at most `max` messages at a
/// clean conversation boundary, or whole when there is none.
pub fn truncate_history(history: &[Value], max: usize) -> (kept: Vec<Value>)
    ensures
        exists|shapes: Seq<MessageShape>|
            shapes.len() == history@.len() && (forall|i: int|
                0 <= i < shapes.len() ==> shape_read(#[trigger] shapes[i], history@[i]))
                && kept@ == history@.skip(truncation_start_of(shapes, max as int) as int),
{
    let mut shapes: Vec<MessageShape> = Vec::new();
    let mut i: usize = 0;
    while i < history.len()
        invariant
            i <= history.len(),
            shapes@.len() == i,
            forall|j: int| 0 <= j < i ==> shape_read(#[trigger] shapes@[j], history@[j]),
        decreases history.len() - i,
    {
        shapes.push(message_shape(&history[i]));
        i += 1;
    }
    let start = truncation_start(shapes.as_slice(), max);
    let mut kept: Vec<Value> = Vec::new();
    let mut k: usize = start;
    while k < history.len()
        invariant
            start <= k <= history.len(),
            kept@ == history@.subrange(start as int, k as int),
        decreases history.len() - k,
    {
        kept.push(copy_value(&history[k]));
        assert(kept@ =~= history@.subrange(start as int, k + 1));
        k += 1;
    }
    assert(kept@ =~= history@.skip(start as int));
    kept
}

} // verus!
