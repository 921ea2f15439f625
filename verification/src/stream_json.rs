//! Reading streamed chat completion chunks out of their JSON.
use vstd::prelude::*;

use serde_json::Value;

use crate::json::{
    array_field, array_member, as_unsigned, json_member, json_unsigned, member, owned_text_field,
    text_member,
};
use crate::response::{opt_view, ChunkChoice, ChunkDelta, StreamChunk, ToolCallDelta};

verus! {

/// The call index a tool call fragment gives, `0` when it gives none.
pub open spec fn fragment_index(value: Value) -> u64 {
    match json_member(value, "index"@) {
        Some(i) => match json_unsigned(i) {
            Some(n) => n,
            None => 0,
        },
        None => 0,
    }
}

/// `delta` is the tool call fragment that `value` holds: its index, id and
/// type, and the name and arguments of its `function` object.
pub open spec fn fragment_read(delta: ToolCallDelta, value: Value) -> bool {
    &&& delta.index == Some(fragment_index(value))
    &&& opt_view(delta.id) == text_member(value, "id"@)
    &&& opt_view(delta.call_type) == text_member(value, "type"@)
    &&& match json_member(value, "function"@) {
        None => delta.function_name is None && delta.arguments is None,
        Some(f) => opt_view(delta.function_name) == text_member(f, "name"@) && opt_view(
            delta.arguments,
        ) == text_member(f, "arguments"@),
    }
}

/// `delta` is the delta that `value` holds: its role, content and tool
/// call fragments, none when it has no `tool_calls` array.
pub open spec fn delta_read(delta: ChunkDelta, value: Value) -> bool {
    &&& opt_view(delta.role) == text_member(value, "role"@)
    &&& opt_view(delta.content) == text_member(value, "content"@)
    &&& match array_member(value, "tool_calls"@) {
        None => delta.tool_calls@.len() == 0,
        Some(items) => {
            &&& delta.tool_calls@.len() == items.len()
            &&& forall|i: int|
                0 <= i < items.len() ==> fragment_read(#[trigger] delta.tool_calls@[i], items[i])
        },
    }
}

/// `choice` is the choice that `value` holds: its delta, when it has one,
/// and its finish reason, when that is a string.
pub open spec fn choice_read(choice: ChunkChoice, value: Value) -> bool {
    &&& opt_view(choice.finish_reason) == text_member(value, "finish_reason"@)
    &&& match json_member(value, "delta"@) {
        None => choice.delta is None,
        Some(d) => choice.delta matches Some(cd) && delta_read(cd, d),
    }
}

/// `chunk` is the chunk that `value` holds: its choices when it has a
/// `choices` array, and none otherwise.
pub open spec fn chunk_read(chunk: StreamChunk, value: Value) -> bool {
    match array_member(value, "choices"@) {
        None => chunk.choices is None,
        Some(items) => chunk.choices matches Some(cs) && {
            &&& cs@.len() == items.len()
            &&& forall|i: int| 0 <= i < items.len() ==> choice_read(#[trigger] cs@[i], items[i])
        },
    }
}

fn fragment_of(value: &Value) -> (delta: ToolCallDelta)
    ensures
        fragment_read(delta, *value),
{
    let index = match member(value, "index") {
        Some(i) => match as_unsigned(i) {
            Some(n) => n,
            None => 0,
        },
        None => 0,
    };
    let (function_name, arguments) = match member(value, "function") {
        Some(f) => (owned_text_field(f, "name"), owned_text_field(f, "arguments")),
        None => (None, None),
    };
    ToolCallDelta {
        index: Some(index),
        id: owned_text_field(value, "id"),
        call_type: owned_text_field(value, "type"),
        function_name,
        arguments,
    }
}

fn delta_of(value: &Value) -> (delta: ChunkDelta)
    ensures
        delta_read(delta, *value),
{
    let mut tool_calls: Vec<ToolCallDelta> = Vec::new();
    match array_field(value, "tool_calls") {
        None => {},
        Some(items) => {
            let mut i: usize = 0;
            while i < items.len()
                invariant
                    i <= items@.len(),
                    tool_calls@.len() == i,
                    forall|j: int| 0 <= j < i ==> fragment_read(#[trigger] tool_calls@[j], items@[j]),
                decreases items.len() - i,
            {
                tool_calls.push(fragment_of(&items[i]));
                i += 1;
            }
        },
    }
    ChunkDelta {
        role: owned_text_field(value, "role"),
        content: owned_text_field(value, "content"),
        tool_calls,
    }
}

fn choice_of(value: &Value) -> (choice: ChunkChoice)
    ensures
        choice_read(choice, *value),
{
    let delta = match member(value, "delta") {
        Some(d) => Some(delta_of(d)),
        None => None,
    };
    ChunkChoice { delta, finish_reason: owned_text_field(value, "finish_reason") }
}

/// One streamed chunk as the assembler reads it.
pub fn stream_chunk_of(value: &Value) -> (chunk: StreamChunk)
    ensures
        chunk_read(chunk, *value),
{
    match array_field(value, "choices") {
        None => StreamChunk { choices: None },
        Some(items) => {
            let mut choices: Vec<ChunkChoice> = Vec::new();
            let mut i: usize = 0;
            while i < items.len()
                invariant
                    i <= items@.len(),
                    choices@.len() == i,
                    forall|j: int| 0 <= j < i ==> choice_read(#[trigger] choices@[j], items@[j]),
                decreases items.len() - i,
            {
                choices.push(choice_of(&items[i]));
                i += 1;
            }
            StreamChunk { choices: Some(choices) }
        },
    }
}

/// The streamed chunks as the assembler reads them, in order.
pub fn stream_chunks_of(values: &[Value]) -> (chunks: Vec<StreamChunk>)
    ensures
        chunks@.len() == values@.len(),
        forall|i: int| 0 <= i < values@.len() ==> chunk_read(#[trigger] chunks@[i], values@[i]),
{
    let mut chunks: Vec<StreamChunk> = Vec::new();
    let mut i: usize = 0;
    while i < values.len()
        invariant
            i <= values@.len(),
            chunks@.len() == i,
            forall|j: int| 0 <= j < i ==> chunk_read(#[trigger] chunks@[j], values@[j]),
        decreases values.len() - i,
    {
        chunks.push(stream_chunk_of(&values[i]));
        i += 1;
    }
    chunks
}

} // verus!
