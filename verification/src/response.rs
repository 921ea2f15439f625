//! Assembling the streamed delta chunks of an OpenAI-compatible chat
//! completion into one assistant message. Tool call arguments may arrive
//! spread over many chunks (OpenAI style) or in one (llama-server style).
use vstd::prelude::*;

use crate::strings::{append_decimal, decimal, str_eq, to_string};

verus! {

// ---------------------------------------------------------------------------
// Stream chunks, as the assembler reads them
// ---------------------------------------------------------------------------

/// One tool call fragment of a delta.
#[derive(Debug, PartialEq, Eq)]
pub struct ToolCallDelta {
    /// The `index` of the call the fragment belongs to.
    pub index: Option<u64>,
    pub id: Option<String>,
    pub call_type: Option<String>,
    /// The function name, when the fragment has a `function` object.
    pub function_name: Option<String>,
    /// The arguments fragment, when the fragment has a `function` object.
    pub arguments: Option<String>,
}

impl Clone for ToolCallDelta {
    fn clone(&self) -> (copy: Self)
        ensures
            copy == *self,
    {
        ToolCallDelta {
            index: self.index,
            id: clone_optional(&self.id),
            call_type: clone_optional(&self.call_type),
            function_name: clone_optional(&self.function_name),
            arguments: clone_optional(&self.arguments),
        }
    }
}

/// The `delta` object of a choice.
#[derive(Debug, PartialEq, Eq)]
pub struct ChunkDelta {
    pub role: Option<String>,
    pub content: Option<String>,
    pub tool_calls: Vec<ToolCallDelta>,
}

/// One entry of a chunk's `choices` array.
#[derive(Debug, PartialEq, Eq)]
pub struct ChunkChoice {
    pub delta: Option<ChunkDelta>,
    pub finish_reason: Option<String>,
}

/// One streamed chunk; `choices` is absent when the chunk has no
/// `choices` array.
#[derive(Debug, PartialEq, Eq)]
pub struct StreamChunk {
    pub choices: Option<Vec<ChunkChoice>>,
}

// ---------------------------------------------------------------------------
// The assembled message
// ---------------------------------------------------------------------------

/// Why the model stopped generating.
#[derive(Debug, PartialEq, Eq)]
pub enum FinishReason {
    Stop,
    Length,
    ContentFilter,
    ToolCalls,
    FunctionCall,
    Unknown(String),
}

impl Clone for FinishReason {
    fn clone(&self) -> (copy: Self)
        ensures
            copy == *self,
    {
        match self {
            FinishReason::Stop => FinishReason::Stop,
            FinishReason::Length => FinishReason::Length,
            FinishReason::ContentFilter => FinishReason::ContentFilter,
            FinishReason::ToolCalls => FinishReason::ToolCalls,
            FinishReason::FunctionCall => FinishReason::FunctionCall,
            FinishReason::Unknown(other) => FinishReason::Unknown(other.clone()),
        }
    }
}

/// A complete assistant message.
#[derive(Debug, PartialEq, Eq)]
pub struct CompletedAssistantMessage {
    pub content: Option<String>,
    pub tool_calls: Vec<CompletedToolCall>,
    pub finish_reason: Option<FinishReason>,
}

/// A complete tool call.
#[derive(Debug, PartialEq, Eq)]
pub struct CompletedToolCall {
    pub id: String,
    pub call_type: String,
    pub function_name: String,
    pub arguments_json: String,
}

impl Clone for CompletedToolCall {
    fn clone(&self) -> (copy: Self)
        ensures
            copy == *self,
    {
        CompletedToolCall {
            id: self.id.clone(),
            call_type: self.call_type.clone(),
            function_name: self.function_name.clone(),
            arguments_json: self.arguments_json.clone(),
        }
    }
}

/// Why the chunks could not be assembled.
#[derive(Debug, PartialEq, Eq)]
pub enum AssemblerError {
    Empty,
    MissingChoices { index: usize },
    EmptyChoices { index: usize },
    UnexpectedRole { role: String },
}

/// A tool call being assembled from its fragments.
struct ToolCallAccumulator {
    id: String,
    call_type: String,
    function_name: String,
    arguments_json: String,
}

impl ToolCallAccumulator {
    fn new() -> (acc: Self)
        ensures
            acc.id@.len() == 0,
            acc.call_type@.len() == 0,
            acc.function_name@.len() == 0,
            acc.arguments_json@.len() == 0,
    {
        ToolCallAccumulator {
            id: String::new(),
            call_type: String::new(),
            function_name: String::new(),
            arguments_json: String::new(),
        }
    }
}

// ---------------------------------------------------------------------------
// Mathematical model
// ---------------------------------------------------------------------------

pub open spec fn opt_chars(s: Option<String>) -> Seq<char> {
    match s {
        Some(s) => s@,
        None => Seq::empty(),
    }
}

pub open spec fn opt_view(s: Option<String>) -> Option<Seq<char>> {
    match s {
        Some(s) => Some(s@),
        None => None,
    }
}

/// The chunk has no usable `choices`.
pub open spec fn bad_chunk(c: StreamChunk) -> bool {
    match c.choices {
        None => true,
        Some(v) => v@.len() == 0,
    }
}

/// Index of the first bad chunk at or after `i`, or the number of chunks.
pub open spec fn first_bad_from(cs: Seq<StreamChunk>, i: int) -> int
    decreases cs.len() - i,
{
    if i < 0 {
        0
    } else if i >= cs.len() {
        cs.len() as int
    } else if bad_chunk(cs[i]) {
        i
    } else {
        first_bad_from(cs, i + 1)
    }
}

/// The delta of the chunk's first choice.
pub open spec fn first_delta(c: StreamChunk) -> Option<ChunkDelta> {
    match c.choices {
        Some(v) => if v@.len() > 0 {
            v@[0].delta
        } else {
            None
        },
        None => None,
    }
}

/// The finish reason of the chunk's first choice, read only when that
/// choice has a delta.
pub open spec fn first_finish(c: StreamChunk) -> Option<String> {
    match c.choices {
        Some(v) => if v@.len() > 0 && v@[0].delta is Some {
            v@[0].finish_reason
        } else {
            None
        },
        None => None,
    }
}

/// The first non-empty role of the chunks' deltas.
pub open spec fn role_of(cs: Seq<StreamChunk>) -> Seq<char>
    decreases cs.len(),
{
    if cs.len() == 0 {
        Seq::empty()
    } else {
        let r = role_of(cs.drop_last());
        if r.len() > 0 {
            r
        } else {
            match first_delta(cs.last()) {
                Some(d) => opt_chars(d.role),
                None => Seq::empty(),
            }
        }
    }
}

/// The content fragments of the chunks' deltas, concatenated; none when no
/// delta has content.
pub open spec fn content_of(cs: Seq<StreamChunk>) -> Option<Seq<char>>
    decreases cs.len(),
{
    if cs.len() == 0 {
        None
    } else {
        let rest = content_of(cs.drop_last());
        match first_delta(cs.last()) {
            Some(d) => match d.content {
                Some(c) => match rest {
                    Some(r) => Some(r + c@),
                    None => Some(c@),
                },
                None => rest,
            },
            None => rest,
        }
    }
}

/// The last finish reason of the chunks.
pub open spec fn finish_of(cs: Seq<StreamChunk>) -> Option<Seq<char>>
    decreases cs.len(),
{
    if cs.len() == 0 {
        None
    } else {
        match first_finish(cs.last()) {
            Some(f) => Some(f@),
            None => finish_of(cs.drop_last()),
        }
    }
}

/// All tool call fragments of the chunks' deltas, in order.
pub open spec fn tool_deltas(cs: Seq<StreamChunk>) -> Seq<ToolCallDelta>
    decreases cs.len(),
{
    if cs.len() == 0 {
        Seq::empty()
    } else {
        tool_deltas(cs.drop_last()) + match first_delta(cs.last()) {
            Some(d) => d.tool_calls@,
            None => Seq::empty(),
        }
    }
}

/// The call a fragment belongs to; fragments without an index belong to
/// call 0.
pub open spec fn delta_key(d: ToolCallDelta) -> u64 {
    match d.index {
        Some(i) => i,
        None => 0,
    }
}

pub struct ToolCallView {
    pub id: Seq<char>,
    pub call_type: Seq<char>,
    pub function_name: Seq<char>,
    pub arguments_json: Seq<char>,
}

/// The call with key `k` assembled from the fragments: the first non-empty
/// id, type and name, and all argument fragments concatenated.
pub open spec fn call_of(ds: Seq<ToolCallDelta>, k: u64) -> ToolCallView
    decreases ds.len(),
{
    if ds.len() == 0 {
        ToolCallView {
            id: Seq::empty(),
            call_type: Seq::empty(),
            function_name: Seq::empty(),
            arguments_json: Seq::empty(),
        }
    } else {
        let r = call_of(ds.drop_last(), k);
        let d = ds.last();
        if delta_key(d) != k {
            r
        } else {
            ToolCallView {
                id: if r.id.len() == 0 {
                    opt_chars(d.id)
                } else {
                    r.id
                },
                call_type: if r.call_type.len() == 0 {
                    opt_chars(d.call_type)
                } else {
                    r.call_type
                },
                function_name: if r.function_name.len() == 0 {
                    opt_chars(d.function_name)
                } else {
                    r.function_name
                },
                arguments_json: r.arguments_json + opt_chars(d.arguments),
            }
        }
    }
}

pub open spec fn call_view(c: CompletedToolCall) -> ToolCallView {
    ToolCallView {
        id: c.id@,
        call_type: c.call_type@,
        function_name: c.function_name@,
        arguments_json: c.arguments_json@,
    }
}

/// Some fragment belongs to call `k`.
pub open spec fn has_key(ds: Seq<ToolCallDelta>, k: u64) -> bool {
    exists|j: int| 0 <= j < ds.len() && delta_key(#[trigger] ds[j]) == k
}

/// The calls are those of the fragments' keys, one per key, in increasing
/// key order.
pub open spec fn calls_match(calls: Seq<CompletedToolCall>, ds: Seq<ToolCallDelta>) -> bool {
    exists|keys: Seq<u64>|
        {
            &&& keys.len() == calls.len()
            &&& forall|a: int, b: int| 0 <= a < b < keys.len() ==> keys[a] < keys[b]
            &&& forall|k: u64| #[trigger] keys.contains(k) <==> has_key(ds, k)
            &&& forall|a: int|
                0 <= a < calls.len() ==> call_view(#[trigger] calls[a]) == call_of(ds, keys[a])
        }
}

/// `reason` is what `text` names.
pub open spec fn parses_as(reason: FinishReason, text: Seq<char>) -> bool {
    match reason {
        FinishReason::Stop => text == "stop"@,
        FinishReason::Length => text == "length"@,
        FinishReason::ContentFilter => text == "content_filter"@,
        FinishReason::ToolCalls => text == "tool_calls"@,
        FinishReason::FunctionCall => text == "function_call"@,
        FinishReason::Unknown(other) => other@ == text && text != "stop"@ && text != "length"@
            && text != "content_filter"@ && text != "tool_calls"@ && text != "function_call"@,
    }
}

pub open spec fn finish_matches(reason: Option<FinishReason>, text: Option<Seq<char>>) -> bool {
    match (reason, text) {
        (None, None) => true,
        (Some(r), Some(t)) => parses_as(r, t),
        _ => false,
    }
}

/// The message is the one the chunks assemble into.
pub open spec fn assembled_from(m: CompletedAssistantMessage, cs: Seq<StreamChunk>) -> bool {
    &&& opt_view(m.content) == content_of(cs)
    &&& finish_matches(m.finish_reason, finish_of(cs))
    &&& calls_match(m.tool_calls@, tool_deltas(cs))
}

/// The role is acceptable: absent, or the assistant's.
pub open spec fn role_accepted(role: Seq<char>) -> bool {
    role.len() == 0 || role == "assistant"@
}

/// The message of an assembler error.
pub open spec fn error_text(e: AssemblerError) -> Seq<char> {
    match e {
        AssemblerError::Empty => "no chunks to assemble"@,
        AssemblerError::MissingChoices { index } => "chunk "@ + decimal(index as nat)
            + " missing 'choices' array"@,
        AssemblerError::EmptyChoices { index } => "chunk "@ + decimal(index as nat)
            + " has empty 'choices' array"@,
        AssemblerError::UnexpectedRole { role } => "unexpected role in chat completion response: "@
            + role@,
    }
}

// ---------------------------------------------------------------------------
// Executable code
// ---------------------------------------------------------------------------

fn clone_optional(s: &Option<String>) -> (copy: Option<String>)
    ensures
        copy == *s,
{
    match s {
        Some(s) => Some(s.clone()),
        None => None,
    }
}

impl AssemblerError {
    /// The error's message.
    pub fn message(&self) -> (text: String)
        ensures
            text@ == error_text(*self),
    {
        match self {
            AssemblerError::Empty => to_string("no chunks to assemble"),
            AssemblerError::MissingChoices { index } => {
                let mut text = to_string("chunk ");
                append_decimal(&mut text, *index as u64);
                text.append(" missing 'choices' array");
                text
            },
            AssemblerError::EmptyChoices { index } => {
                let mut text = to_string("chunk ");
                append_decimal(&mut text, *index as u64);
                text.append(" has empty 'choices' array");
                text
            },
            AssemblerError::UnexpectedRole { role } => {
                let mut text = to_string("unexpected role in chat completion response: ");
                text.append(role.as_str());
                text
            },
        }
    }
}

/// The finish reason that `reason` names; names not known here are kept.
pub fn parse_finish_reason(reason: &str) -> (parsed: FinishReason)
    ensures
        parses_as(parsed, reason@),
{
    if str_eq(reason, "stop") {
        FinishReason::Stop
    } else if str_eq(reason, "length") {
        FinishReason::Length
    } else if str_eq(reason, "content_filter") {
        FinishReason::ContentFilter
    } else if str_eq(reason, "tool_calls") {
        FinishReason::ToolCalls
    } else if str_eq(reason, "function_call") {
        FinishReason::FunctionCall
    } else {
        FinishReason::Unknown(to_string(reason))
    }
}

pub proof fn lemma_first_bad_from(cs: Seq<StreamChunk>, i: int)
    requires
        0 <= i <= cs.len(),
    ensures
        i <= first_bad_from(cs, i) <= cs.len(),
        first_bad_from(cs, i) < cs.len() ==> bad_chunk(cs[first_bad_from(cs, i)]),
        forall|j: int| i <= j < first_bad_from(cs, i) ==> !bad_chunk(#[trigger] cs[j]),
    decreases cs.len() - i,
{
    if i < cs.len() && !bad_chunk(cs[i]) {
        lemma_first_bad_from(cs, i + 1);
    }
}

/// The keys of the fragments, each once, in increasing order.
fn sorted_keys(ds: &Vec<ToolCallDelta>) -> (keys: Vec<u64>)
    ensures
        forall|a: int, b: int| 0 <= a < b < keys@.len() ==> keys@[a] < keys@[b],
        forall|k: u64| #[trigger] keys@.contains(k) <==> has_key(ds@, k),
{
    let mut keys: Vec<u64> = Vec::new();
    let mut t: usize = 0;
    while t < ds.len()
        invariant
            t <= ds.len(),
            forall|a: int, b: int| 0 <= a < b < keys@.len() ==> keys@[a] < keys@[b],
            forall|k: u64|
                #[trigger] keys@.contains(k) <==> has_key(ds@.take(t as int), k),
        decreases ds.len() - t,
    {
        let k = match ds[t].index {
            Some(i) => i,
            None => 0,
        };
        let ghost before = keys@;
        let mut pos: usize = 0;
        while pos < keys.len() && keys[pos] < k
            invariant
                pos <= keys.len(),
                keys@ == before,
                forall|a: int| 0 <= a < pos ==> keys@[a] < k,
            decreases keys.len() - pos,
        {
            pos += 1;
        }
        if pos < keys.len() && keys[pos] == k {
        } else {
            keys.insert(pos, k);
            assert forall|a: int, b: int| 0 <= a < b < keys@.len() implies keys@[a] < keys@[b] by {
                if b < pos {
                } else if b == pos {
                } else if a < pos {
                    assert(keys@[b] == before[b - 1]);
                    if b - 1 > pos {
                        assert(before[pos as int] < before[b - 1]);
                    }
                } else if a == pos {
                    assert(keys@[b] == before[b - 1]);
                    if b - 1 > pos {
                        assert(before[pos as int] < before[b - 1]);
                    }
                } else {
                    assert(keys@[a] == before[a - 1]);
                    assert(keys@[b] == before[b - 1]);
                }
            }
        }
        proof {
            let prefix = ds@.take(t + 1);
            assert(ds@.take(t as int) =~= prefix.drop_last());
            assert forall|q: u64| #[trigger] keys@.contains(q) <==> has_key(prefix, q) by {
                if keys@.contains(q) {
                    let a = choose|a: int| 0 <= a < keys@.len() && keys@[a] == q;
                    if q == k {
                        assert(prefix[t as int] == ds@[t as int]);
                        assert(delta_key(prefix[t as int]) == q);
                    } else {
                        if a < pos {
                            assert(before[a] == q);
                        } else if pos < keys@.len() && keys@.len() == before.len() {
                            assert(before[a] == q);
                        } else if a > pos {
                            assert(before[a - 1] == q);
                        }
                        assert(before.contains(q));
                        let j = choose|j: int|
                            0 <= j < t && delta_key(#[trigger] ds@.take(t as int)[j]) == q;
                        assert(prefix[j] == ds@.take(t as int)[j]);
                    }
                }
                if has_key(prefix, q) {
                    let j = choose|j: int| 0 <= j < prefix.len() && delta_key(#[trigger] prefix[j]) == q;
                    if j == t {
                        if pos < before.len() && before[pos as int] == k {
                            assert(keys@[pos as int] == q);
                        } else {
                            assert(keys@[pos as int] == q);
                        }
                    } else {
                        assert(ds@.take(t as int)[j] == prefix[j]);
                        assert(has_key(ds@.take(t as int), q));
                        assert(before.contains(q));
                        let a = choose|a: int| 0 <= a < before.len() && before[a] == q;
                        if pos < before.len() && before[pos as int] == k {
                            assert(keys@[a] == q);
                        } else if a < pos {
                            assert(keys@[a] == q);
                        } else {
                            assert(keys@[a + 1] == q);
                        }
                    }
                }
            }
        }
        t += 1;
    }
    assert(ds@.take(ds.len() as int) =~= ds@);
    keys
}

/// The call with key `k`, assembled from the fragments.
fn assemble_call(ds: &Vec<ToolCallDelta>, k: u64) -> (call: CompletedToolCall)
    ensures
        call_view(call) == call_of(ds@, k),
{
    let mut acc = ToolCallAccumulator::new();
    let mut t: usize = 0;
    assert(ds@.take(0) =~= Seq::<ToolCallDelta>::empty());
    assert(acc.id@ =~= Seq::<char>::empty());
    assert(acc.call_type@ =~= Seq::<char>::empty());
    assert(acc.function_name@ =~= Seq::<char>::empty());
    assert(acc.arguments_json@ =~= Seq::<char>::empty());
    while t < ds.len()
        invariant
            t <= ds.len(),
            call_of(ds@.take(t as int), k) == (ToolCallView {
                id: acc.id@,
                call_type: acc.call_type@,
                function_name: acc.function_name@,
                arguments_json: acc.arguments_json@,
            }),
        decreases ds.len() - t,
    {
        let d = &ds[t];
        assert(ds@.take(t + 1).drop_last() =~= ds@.take(t as int));
        assert(ds@.take(t + 1).last() == ds@[t as int]);
        let key = match d.index {
            Some(i) => i,
            None => 0,
        };
        if key == k {
            if acc.id.as_str().unicode_len() == 0 {
                if let Some(id) = &d.id {
                    acc.id.append(id.as_str());
                }
            }
            if acc.call_type.as_str().unicode_len() == 0 {
                if let Some(call_type) = &d.call_type {
                    acc.call_type.append(call_type.as_str());
                }
            }
            if acc.function_name.as_str().unicode_len() == 0 {
                if let Some(name) = &d.function_name {
                    acc.function_name.append(name.as_str());
                }
            }
            let ghost args_before = acc.arguments_json@;
            if let Some(arguments) = &d.arguments {
                acc.arguments_json.append(arguments.as_str());
            } else {
                assert(args_before + Seq::<char>::empty() =~= args_before);
            }
            proof {
                let r = call_of(ds@.take(t as int), k);
                if r.id.len() == 0 {
                    assert(acc.id@ =~= opt_chars(d.id));
                }
                if r.call_type.len() == 0 {
                    assert(acc.call_type@ =~= opt_chars(d.call_type));
                }
                if r.function_name.len() == 0 {
                    assert(acc.function_name@ =~= opt_chars(d.function_name));
                }
            }
        }
        t += 1;
    }
    assert(ds@.take(ds.len() as int) =~= ds@);
    CompletedToolCall {
        id: acc.id,
        call_type: acc.call_type,
        function_name: acc.function_name,
        arguments_json: acc.arguments_json,
    }
}

/// `result` is what assembling `chunks` gives: an error for an empty
/// stream, for the first chunk without a usable `choices` array, or for a
/// first named role that is not the assistant's; otherwise the message the
/// chunks assemble into.
pub open spec fn assembly_of(result: Result<CompletedAssistantMessage, AssemblerError>, chunks: Seq<StreamChunk>) -> bool {
    if chunks.len() == 0 {
        result matches Err(AssemblerError::Empty)
    } else if first_bad_from(chunks, 0) < chunks.len() {
        let b = first_bad_from(chunks, 0);
        if chunks[b].choices is None {
            result matches Err(AssemblerError::MissingChoices { index }) && index == b
        } else {
            result matches Err(AssemblerError::EmptyChoices { index }) && index == b
        }
    } else if !role_accepted(role_of(chunks)) {
        result matches Err(AssemblerError::UnexpectedRole { role }) && role@ == role_of(chunks)
    } else {
        result matches Ok(m) && assembled_from(m, chunks)
    }
}

/// Assemble the streamed chunks into one assistant message.
///
/// Fails on an empty stream, on the first chunk without a usable `choices`
/// array, and when the first role the stream names is not the assistant's.
pub fn assemble(chunks: &[StreamChunk]) -> (result: Result<CompletedAssistantMessage, AssemblerError>)
    ensures
        assembly_of(result, chunks@),
{
    if chunks.len() == 0 {
        return Err(AssemblerError::Empty);
    }
    proof {
        lemma_first_bad_from(chunks@, 0);
    }
    let mut role = String::new();
    let mut content: Option<String> = None;
    let mut finish_reason: Option<FinishReason> = None;
    let mut deltas: Vec<ToolCallDelta> = Vec::new();
    let mut i: usize = 0;
    assert(chunks@.take(0) =~= Seq::<StreamChunk>::empty());
    while i < chunks.len()
        invariant
            0 < chunks@.len(),
            i <= chunks.len(),
            forall|j: int| 0 <= j < i ==> !bad_chunk(#[trigger] chunks@[j]),
            role@ == role_of(chunks@.take(i as int)),
            opt_view(content) == content_of(chunks@.take(i as int)),
            finish_matches(finish_reason, finish_of(chunks@.take(i as int))),
            deltas@ == tool_deltas(chunks@.take(i as int)),
        decreases chunks.len() - i,
    {
        let chunk = &chunks[i];
        let ghost prefix = chunks@.take(i + 1);
        assert(prefix.drop_last() =~= chunks@.take(i as int));
        assert(prefix.last() == chunks@[i as int]);
        match &chunk.choices {
            None => {
                proof {
                    lemma_first_bad_from(chunks@, 0);
                    assert(bad_chunk(chunks@[i as int]));
                }
                return Err(AssemblerError::MissingChoices { index: i });
            },
            Some(choices) => {
                if choices.len() == 0 {
                    proof {
                        lemma_first_bad_from(chunks@, 0);
                        assert(bad_chunk(chunks@[i as int]));
                    }
                    return Err(AssemblerError::EmptyChoices { index: i });
                }
                let choice = &choices[0];
                match &choice.delta {
                    None => {
                        assert(tool_deltas(prefix) =~= tool_deltas(chunks@.take(i as int)));
                    },
                    Some(delta) => {
                        if role.as_str().unicode_len() == 0 {
                            if let Some(r) = &delta.role {
                                role.append(r.as_str());
                            }
                            assert(role@ =~= role_of(prefix));
                        }
                        if let Some(c) = &delta.content {
                            let next = match &content {
                                Some(existing) => {
                                    let mut joined = existing.clone();
                                    joined.append(c.as_str());
                                    joined
                                },
                                None => c.clone(),
                            };
                            content = Some(next);
                        }
                        let ghost before = deltas@;
                        let mut t: usize = 0;
                        while t < delta.tool_calls.len()
                            invariant
                                t <= delta.tool_calls.len(),
                                deltas@ == before + delta.tool_calls@.take(t as int),
                            decreases delta.tool_calls.len() - t,
                        {
                            deltas.push(delta.tool_calls[t].clone());
                            assert(delta.tool_calls@.take(t + 1) =~= delta.tool_calls@.take(
                                t as int,
                            ).push(delta.tool_calls@[t as int]));
                            t += 1;
                        }
                        assert(delta.tool_calls@.take(delta.tool_calls.len() as int)
                            =~= delta.tool_calls@);
                        if let Some(f) = &choice.finish_reason {
                            finish_reason = Some(parse_finish_reason(f.as_str()));
                        }
                    },
                }
            },
        }
        i += 1;
    }
    assert(chunks@.take(chunks.len() as int) =~= chunks@);
    proof {
        lemma_first_bad_from(chunks@, 0);
    }
    if role.as_str().unicode_len() > 0 && !str_eq(role.as_str(), "assistant") {
        return Err(AssemblerError::UnexpectedRole { role });
    }
    let keys = sorted_keys(&deltas);
    let mut tool_calls: Vec<CompletedToolCall> = Vec::new();
    let mut a: usize = 0;
    while a < keys.len()
        invariant
            a <= keys.len(),
            tool_calls@.len() == a,
            forall|q: int|
                0 <= q < a ==> call_view(#[trigger] tool_calls@[q]) == call_of(deltas@, keys@[q]),
        decreases keys.len() - a,
    {
        tool_calls.push(assemble_call(&deltas, keys[a]));
        a += 1;
    }
    let message = CompletedAssistantMessage { content, tool_calls, finish_reason };
    proof {
        assert(calls_match(message.tool_calls@, deltas@)) by {
            let ks = keys@;
            assert(ks.len() == message.tool_calls@.len());
        }
    }
    Ok(message)
}

} // verus!
