//! Streaming conversion: OpenAI SSE chunks → Anthropic SSE events.
//!
//! A `StreamState` follows one streamed response. Each chunk is turned into
//! zero or more Anthropic events by `convert_stream_chunk`, whose contract
//! is the step function `chunk_step` on the state's model.
use std::collections::HashMap;

use vstd::prelude::*;
use vstd::std_specs::hash::*;

use crate::anthropic::{
    AnthropicResponseContentBlock, AnthropicSSEEvent, AnthropicStreamMessage, AnthropicUsage,
    ContentDelta, DeltaModel, EventModel, MessageDeltaData, OutputUsage, ResponseBlockModel,
    StreamMessageModel, events_view,
};
use crate::openai::{OpenAIDeltaChoice, OpenAIDeltaToolCall, OpenAISSEChunk, OpenAIUsage};
use crate::text::{concat, owned, without_char};
use crate::transform::response::{map_stop_reason, stop_reason_for};

verus! {

broadcast use vstd::std_specs::hash::group_hash_axioms;

// ---------------------------------------------------------------------------
// State
// ---------------------------------------------------------------------------

/// An in-progress tool call of the stream.
#[derive(Debug)]
pub struct ToolCallState {
    pub id: String,
    pub name: String,
    pub arguments_buffer: String,
}

/// What the stream state keeps of one tool call.
pub struct PendingToolCall {
    pub id: Seq<char>,
    pub name: Seq<char>,
    pub arguments: Seq<char>,
}

impl View for ToolCallState {
    type V = PendingToolCall;

    open spec fn view(&self) -> PendingToolCall {
        PendingToolCall { id: self.id@, name: self.name@, arguments: self.arguments_buffer@ }
    }
}

/// The state carried across the chunks of one streamed response.
#[derive(Debug)]
pub struct StreamState {
    pub message_id: String,
    pub model: String,
    pub input_tokens: u32,
    pub content_index: u32,
    pub started: bool,
    pub content_block_open: bool,
    /// Whether the open block is a `tool_use` block.
    pub tool_block_open: bool,
    /// In-progress tool calls by their OpenAI index.
    pub tool_calls: HashMap<u32, ToolCallState>,
}

/// The mathematical model of a stream state.
pub struct StreamModel {
    pub message_id: Seq<char>,
    pub model: Seq<char>,
    pub input_tokens: u32,
    pub content_index: nat,
    pub started: bool,
    pub content_block_open: bool,
    pub tool_block_open: bool,
    pub tool_calls: Map<u32, PendingToolCall>,
}

impl View for StreamState {
    type V = StreamModel;

    open spec fn view(&self) -> StreamModel {
        StreamModel {
            message_id: self.message_id@,
            model: self.model@,
            input_tokens: self.input_tokens,
            content_index: self.content_index as nat,
            started: self.started,
            content_block_open: self.content_block_open,
            tool_block_open: self.tool_block_open,
            tool_calls: self.tool_calls@.map_values(|t: ToolCallState| t@),
        }
    }
}

// ---------------------------------------------------------------------------
// Message ids
// ---------------------------------------------------------------------------

/// Whether `c` is a lowercase hexadecimal digit.
pub open spec fn is_lower_hex(c: char) -> bool {
    ('0' <= c && c <= '9') || ('a' <= c && c <= 'f')
}

/// Whether `t` is the hyphenated lowercase text of a version-4 UUID:
/// `xxxxxxxx-xxxx-4xxx-yxxx-xxxxxxxxxxxx` with `y` one of `8`, `9`, `a`, `b`.
pub open spec fn is_uuid_v4_text(t: Seq<char>) -> bool {
    &&& t.len() == 36
    &&& forall|i: int|
        0 <= i < 36 ==> if i == 8 || i == 13 || i == 18 || i == 23 {
            t[i] == '-'
        } else {
            is_lower_hex(#[trigger] t[i])
        }
    &&& t[14] == '4'
    &&& (t[19] == '8' || t[19] == '9' || t[19] == 'a' || t[19] == 'b')
}

/// A fresh random UUID in its hyphenated lowercase form. Calls
/// `uuid::Uuid::new_v4` and formats the result with its `Display` impl.
/// In uuid 1.29.0, `new_v4` takes 128 random bits and forces the version
/// nibble to 4 and the variant bits to `10`, and `Display` writes the
/// hyphenated lowercase form. Which UUID comes back is random: the contract
/// says nothing of the other digits. (`new_v4` panics when the operating
/// system's random source fails; no argument decides that.)
#[verifier::external_body]
fn new_uuid_v4_text() -> (r: String)
    ensures
        is_uuid_v4_text(r@),
{
    uuid::Uuid::new_v4().to_string()
}

/// The number of characters before position `k` of a UUID text that are
/// not hyphens.
spec fn uuid_digits_before(k: int) -> int {
    k - (if k > 8 { 1int } else { 0 }) - (if k > 13 { 1int } else { 0 }) - (if k > 18 {
        1int
    } else {
        0
    }) - (if k > 23 { 1int } else { 0 })
}

proof fn lemma_uuid_digits(t: Seq<char>, k: int)
    requires
        is_uuid_v4_text(t),
        0 <= k <= 36,
    ensures
        without_char(t.take(k), '-').len() == uuid_digits_before(k),
        forall|j: int|
            0 <= j < without_char(t.take(k), '-').len() ==> is_lower_hex(
                #[trigger] without_char(t.take(k), '-')[j],
            ),
    decreases k,
{
    if k > 0 {
        lemma_uuid_digits(t, k - 1);
        assert(t.take(k).drop_last() =~= t.take(k - 1));
        assert(t.take(k).last() == t[k - 1]);
        let prev = without_char(t.take(k - 1), '-');
        if t[k - 1] != '-' {
            assert(is_lower_hex(t[k - 1]));
            assert forall|j: int|
                0 <= j < prev.push(t[k - 1]).len() implies is_lower_hex(
                #[trigger] prev.push(t[k - 1])[j],
            ) by {
                if j < prev.len() {
                    assert(prev.push(t[k - 1])[j] == prev[j]);
                }
            }
        }
    } else {
        assert(t.take(0) =~= Seq::<char>::empty());
    }
}

/// The message id made from a UUID text: `msg_` and the first 24 of its
/// characters that are not hyphens.
pub open spec fn message_id_for(uuid_text: Seq<char>) -> Seq<char> {
    "msg_"@ + without_char(uuid_text, '-').take(24)
}

/// Makes a message id from the text of a UUID: `msg_` followed by the
/// first 24 characters of the text once its hyphens are removed.
pub fn message_id_from_uuid(uuid_text: &str) -> (r: String)
    requires
        without_char(uuid_text@, '-').len() >= 24,
    ensures
        r@ == message_id_for(uuid_text@),
{
    let digits = crate::text::remove_char(uuid_text, '-');
    let cs = crate::text::chars_of(digits.as_str());
    let first = crate::text::string_from_chars(&cs, 0, 24);
    assert(cs@.subrange(0, 24) =~= without_char(uuid_text@, '-').take(24));
    concat("msg_", first.as_str())
}

impl StreamState {
    /// A fresh state with a random message id (`msg_` and 24 lowercase
    /// hexadecimal digits), nothing started and no block open.
    pub fn new() -> (s: Self)
        ensures
            exists|t: Seq<char>| is_uuid_v4_text(t) && s.message_id@ == message_id_for(t),
            s.message_id@.len() == 28,
            forall|j: int| 4 <= j < 28 ==> is_lower_hex(#[trigger] s.message_id@[j]),
            s.model@ == Seq::<char>::empty(),
            s.input_tokens == 0,
            s.content_index == 0,
            !s.started,
            !s.content_block_open,
            !s.tool_block_open,
            s.tool_calls@ == Map::<u32, ToolCallState>::empty(),
    {
        let text = new_uuid_v4_text();
        proof {
            lemma_uuid_digits(text@, 36);
            assert(text@.take(36) =~= text@);
            reveal_strlit("msg_");
        }
        let message_id = message_id_from_uuid(text.as_str());
        proof {
            let d = without_char(text@, '-');
            assert forall|j: int| 4 <= j < 28 implies is_lower_hex(#[trigger] message_id@[j]) by {
                assert(message_id@[j] == d[j - 4]);
            }
        }
        StreamState {
            message_id,
            model: String::new(),
            input_tokens: 0,
            content_index: 0,
            started: false,
            content_block_open: false,
            tool_block_open: false,
            tool_calls: HashMap::new(),
        }
    }

    /// The in-progress tool call with OpenAI index `index`, if any.
    pub fn tool_call(&self, index: u32) -> (r: Option<&ToolCallState>)
        ensures
            match r {
                Some(t) => self@.tool_calls.contains_key(index) && t@ == self@.tool_calls[index],
                None => !self@.tool_calls.contains_key(index),
            },
    {
        self.tool_calls.get(&index)
    }
}

// ---------------------------------------------------------------------------
// The step function
// ---------------------------------------------------------------------------

/// `message_start` for the state's message.
pub open spec fn message_start_event(s: StreamModel) -> EventModel {
    EventModel::MessageStart(
        StreamMessageModel {
            id: s.message_id,
            msg_type: "message"@,
            role: "assistant"@,
            content: Seq::empty(),
            model: s.model,
            stop_reason: None,
            stop_sequence: None,
            input_tokens: s.input_tokens,
            output_tokens: 0,
        },
    )
}

/// `content_block_start` of an empty text block at `index`.
pub open spec fn text_block_start(index: nat) -> EventModel {
    EventModel::ContentBlockStart { index, block: ResponseBlockModel::Text(Seq::empty()) }
}

/// The state once a text block is open.
pub open spec fn with_text_block_open(s: StreamModel) -> StreamModel {
    StreamModel { content_block_open: true, tool_block_open: false, ..s }
}

/// Opens a text block unless a block is open.
pub open spec fn ensure_block_open(s: StreamModel) -> (StreamModel, Seq<EventModel>) {
    if s.content_block_open {
        (s, Seq::empty())
    } else {
        (with_text_block_open(s), seq![text_block_start(s.content_index)])
    }
}

/// A role delta opens a text block when none is open.
pub open spec fn role_step(s: StreamModel, ch: OpenAIDeltaChoice) -> (StreamModel, Seq<EventModel>) {
    if ch.delta.role is Some {
        ensure_block_open(s)
    } else {
        (s, Seq::empty())
    }
}

/// A text delta opens a text block if needed and is forwarded as a
/// `text_delta`.
pub open spec fn text_step(s: StreamModel, ch: OpenAIDeltaChoice) -> (StreamModel, Seq<EventModel>) {
    match ch.delta.content {
        Some(t) => {
            let (s1, e1) = ensure_block_open(s);
            (
                s1,
                e1.push(
                    EventModel::ContentBlockDelta {
                        index: s1.content_index,
                        delta: DeltaModel::TextDelta(t@),
                    },
                ),
            )
        },
        None => (s, Seq::empty()),
    }
}

/// The function name a tool call delta carries, or nothing.
pub open spec fn delta_name(tc: OpenAIDeltaToolCall) -> Seq<char> {
    match tc.function {
        Some(f) => match f.name {
            Some(n) => n@,
            None => Seq::empty(),
        },
        None => Seq::empty(),
    }
}

/// The argument text a tool call delta carries, or nothing.
pub open spec fn delta_arguments(tc: OpenAIDeltaToolCall) -> Seq<char> {
    match tc.function {
        Some(f) => match f.arguments {
            Some(a) => a@,
            None => Seq::empty(),
        },
        None => Seq::empty(),
    }
}

/// A tool call delta with an id starts a new `tool_use` block, closing the
/// open block first (which moves on to the next block index).
pub open spec fn tool_start_step(s: StreamModel, tc: OpenAIDeltaToolCall) -> (
    StreamModel,
    Seq<EventModel>,
) {
    match tc.id {
        Some(id) => {
            let (s1, e1) = if s.content_block_open {
                (
                    StreamModel {
                        content_index: s.content_index + 1,
                        content_block_open: false,
                        ..s
                    },
                    seq![EventModel::ContentBlockStop { index: s.content_index }],
                )
            } else {
                (s, Seq::empty())
            };
            let name = delta_name(tc);
            let s2 = StreamModel {
                tool_calls: s1.tool_calls.insert(
                    tc.index,
                    PendingToolCall { id: id@, name, arguments: Seq::empty() },
                ),
                content_block_open: true,
                tool_block_open: true,
                ..s1
            };
            (
                s2,
                e1.push(
                    EventModel::ContentBlockStart {
                        index: s1.content_index,
                        block: ResponseBlockModel::ToolUse { id: id@, name, input: "{}"@ },
                    },
                ),
            )
        },
        None => (s, Seq::empty()),
    }
}

/// Non-empty arguments are added to the tool call they belong to (if it is
/// known) and forwarded as an `input_json_delta`.
pub open spec fn tool_args_step(s: StreamModel, tc: OpenAIDeltaToolCall) -> (
    StreamModel,
    Seq<EventModel>,
) {
    let a = delta_arguments(tc);
    if a.len() > 0 {
        let s1 = if s.tool_calls.contains_key(tc.index) {
            let p = s.tool_calls[tc.index];
            StreamModel {
                tool_calls: s.tool_calls.insert(
                    tc.index,
                    PendingToolCall { arguments: p.arguments + a, ..p },
                ),
                ..s
            }
        } else {
            s
        };
        (
            s1,
            seq![
                EventModel::ContentBlockDelta {
                    index: s.content_index,
                    delta: DeltaModel::InputJsonDelta(a),
                },
            ],
        )
    } else {
        (s, Seq::empty())
    }
}

/// One tool call delta: a possible start, then its arguments.
pub open spec fn tool_call_step(s: StreamModel, tc: OpenAIDeltaToolCall) -> (
    StreamModel,
    Seq<EventModel>,
) {
    let (s1, e1) = tool_start_step(s, tc);
    let (s2, e2) = tool_args_step(s1, tc);
    (s2, e1 + e2)
}

/// The tool call deltas of a choice, in order.
pub open spec fn tool_calls_step(s: StreamModel, tcs: Seq<OpenAIDeltaToolCall>) -> (
    StreamModel,
    Seq<EventModel>,
)
    decreases tcs.len(),
{
    if tcs.len() == 0 {
        (s, Seq::empty())
    } else {
        let (s1, e1) = tool_calls_step(s, tcs.drop_last());
        let (s2, e2) = tool_call_step(s1, tcs.last());
        (s2, e1 + e2)
    }
}

/// A finish reason closes the open block and ends the message:
/// `message_delta` with the mapped stop reason and the completion tokens
/// (zero when the chunk has no usage), then `message_stop`.
pub open spec fn finish_step(s: StreamModel, ch: OpenAIDeltaChoice, usage: Option<OpenAIUsage>) -> (
    StreamModel,
    Seq<EventModel>,
) {
    match ch.finish_reason {
        Some(fr) => {
            let (s1, e1) = if s.content_block_open {
                (
                    StreamModel { content_block_open: false, ..s },
                    seq![EventModel::ContentBlockStop { index: s.content_index }],
                )
            } else {
                (s, Seq::empty())
            };
            let output_tokens = match usage {
                Some(u) => u.completion_tokens,
                None => 0,
            };
            (
                s1,
                e1 + seq![
                    EventModel::MessageDelta {
                        stop_reason: stop_reason_for(fr@),
                        stop_sequence: None,
                        output_tokens,
                    },
                    EventModel::MessageStop,
                ],
            )
        },
        None => (s, Seq::empty()),
    }
}

/// One choice of a chunk: role, text, tool calls, then finish reason.
pub open spec fn choice_step(s: StreamModel, ch: OpenAIDeltaChoice, usage: Option<OpenAIUsage>) -> (
    StreamModel,
    Seq<EventModel>,
) {
    let (s1, e1) = role_step(s, ch);
    let (s2, e2) = text_step(s1, ch);
    let (s3, e3) = match ch.delta.tool_calls {
        Some(tcs) => tool_calls_step(s2, tcs@),
        None => (s2, Seq::empty()),
    };
    let (s4, e4) = finish_step(s3, ch, usage);
    (s4, e1 + e2 + e3 + e4)
}

/// The choices of a chunk, in order.
pub open spec fn choices_step(
    s: StreamModel,
    cs: Seq<OpenAIDeltaChoice>,
    usage: Option<OpenAIUsage>,
) -> (StreamModel, Seq<EventModel>)
    decreases cs.len(),
{
    if cs.len() == 0 {
        (s, Seq::empty())
    } else {
        let (s1, e1) = choices_step(s, cs.drop_last(), usage);
        let (s2, e2) = choice_step(s1, cs.last(), usage);
        (s2, e1 + e2)
    }
}

/// The state once a chunk's model and usage are recorded: the first model
/// named is kept; the prompt token count is the latest one given.
pub open spec fn record_chunk(s: StreamModel, c: OpenAISSEChunk) -> StreamModel {
    StreamModel {
        model: match c.model {
            Some(m) => if s.model.len() == 0 {
                m@
            } else {
                s.model
            },
            None => s.model,
        },
        input_tokens: match c.usage {
            Some(u) => u.prompt_tokens,
            None => s.input_tokens,
        },
        ..s
    }
}

/// The first chunk of a stream starts the message.
pub open spec fn start_step(s: StreamModel) -> (StreamModel, Seq<EventModel>) {
    if s.started {
        (s, Seq::empty())
    } else {
        (StreamModel { started: true, ..s }, seq![message_start_event(s)])
    }
}

/// What one chunk does to the stream: the new state and the events sent.
pub open spec fn chunk_step(s: StreamModel, c: OpenAISSEChunk) -> (StreamModel, Seq<EventModel>) {
    let (s1, e1) = start_step(record_chunk(s, c));
    match c.choices {
        Some(cs) => {
            let (s2, e2) = choices_step(s1, cs@, c.usage);
            (s2, e1 + e2)
        },
        None => (s1, e1),
    }
}

// ---------------------------------------------------------------------------
// Block indices stay in range
// ---------------------------------------------------------------------------

/// The number of tool call deltas that carry an id.
pub open spec fn ids_in_calls(tcs: Seq<OpenAIDeltaToolCall>) -> nat
    decreases tcs.len(),
{
    if tcs.len() == 0 {
        0
    } else {
        ids_in_calls(tcs.drop_last()) + if tcs.last().id is Some {
            1nat
        } else {
            0nat
        }
    }
}

/// The number of tool call deltas with an id in a choice.
pub open spec fn ids_in_choice(ch: OpenAIDeltaChoice) -> nat {
    match ch.delta.tool_calls {
        Some(tcs) => ids_in_calls(tcs@),
        None => 0,
    }
}

/// The number of tool call deltas with an id in a list of choices.
pub open spec fn ids_in_choices(cs: Seq<OpenAIDeltaChoice>) -> nat
    decreases cs.len(),
{
    if cs.len() == 0 {
        0
    } else {
        ids_in_choices(cs.drop_last()) + ids_in_choice(cs.last())
    }
}

/// The number of tool call deltas with an id in a chunk: the most by which
/// the chunk can advance the block index.
pub open spec fn ids_in_chunk(c: OpenAISSEChunk) -> nat {
    match c.choices {
        Some(cs) => ids_in_choices(cs@),
        None => 0,
    }
}

/// Whether the block index stays within `u32` while `c` is converted.
pub open spec fn chunk_fits(s: StreamModel, c: OpenAISSEChunk) -> bool {
    s.content_index + ids_in_chunk(c) <= u32::MAX
}

proof fn lemma_tool_calls_index(s: StreamModel, tcs: Seq<OpenAIDeltaToolCall>)
    ensures
        s.content_index <= tool_calls_step(s, tcs).0.content_index <= s.content_index
            + ids_in_calls(tcs),
    decreases tcs.len(),
{
    if tcs.len() > 0 {
        lemma_tool_calls_index(s, tcs.drop_last());
    }
}

proof fn lemma_choice_index(s: StreamModel, ch: OpenAIDeltaChoice, usage: Option<OpenAIUsage>)
    ensures
        s.content_index <= choice_step(s, ch, usage).0.content_index <= s.content_index
            + ids_in_choice(ch),
{
    let (s1, e1) = role_step(s, ch);
    let (s2, e2) = text_step(s1, ch);
    match ch.delta.tool_calls {
        Some(tcs) => lemma_tool_calls_index(s2, tcs@),
        None => {},
    }
}

proof fn lemma_choices_index(s: StreamModel, cs: Seq<OpenAIDeltaChoice>, usage: Option<OpenAIUsage>)
    ensures
        s.content_index <= choices_step(s, cs, usage).0.content_index <= s.content_index
            + ids_in_choices(cs),
    decreases cs.len(),
{
    if cs.len() > 0 {
        lemma_choices_index(s, cs.drop_last(), usage);
        let (s1, e1) = choices_step(s, cs.drop_last(), usage);
        lemma_choice_index(s1, cs.last(), usage);
    }
}

// ---------------------------------------------------------------------------
// Conversion
// ---------------------------------------------------------------------------

proof fn lemma_ids_in_calls_bound(tcs: Seq<OpenAIDeltaToolCall>)
    ensures
        ids_in_calls(tcs) <= tcs.len(),
    decreases tcs.len(),
{
    if tcs.len() > 0 {
        lemma_ids_in_calls_bound(tcs.drop_last());
    }
}

/// The number of tool call deltas with an id in `choice`.
fn count_ids_in_choice(choice: &OpenAIDeltaChoice) -> (r: usize)
    ensures
        r == ids_in_choice(*choice),
{
    match &choice.delta.tool_calls {
        Some(tcs) => {
            let mut count: usize = 0;
            let mut j: usize = 0;
            while j < tcs.len()
                invariant
                    j <= tcs@.len(),
                    count == ids_in_calls(tcs@.take(j as int)),
                decreases tcs.len() - j,
            {
                assert(tcs@.take(j + 1).drop_last() =~= tcs@.take(j as int));
                proof {
                    lemma_ids_in_calls_bound(tcs@.take(j as int));
                }
                if tcs[j].id.is_some() {
                    count = count + 1;
                }
                j = j + 1;
            }
            assert(tcs@.take(tcs@.len() as int) =~= tcs@);
            count
        },
        None => 0,
    }
}

/// Whether converting `chunk` from `state` keeps the block index within
/// `u32` (the condition `convert_stream_chunk` requires).
pub fn chunk_fits_state(chunk: &OpenAISSEChunk, state: &StreamState) -> (r: bool)
    ensures
        r == chunk_fits(state@, *chunk),
{
    let mut count: u64 = state.content_index as u64;
    if let Some(choices) = &chunk.choices {
        let mut i: usize = 0;
        while i < choices.len()
            invariant
                i <= choices@.len(),
                count == state.content_index + ids_in_choices(choices@.take(i as int)),
                count <= u32::MAX,
                ids_in_chunk(*chunk) == ids_in_choices(choices@),
            decreases choices.len() - i,
        {
            assert(choices@.take(i + 1).drop_last() =~= choices@.take(i as int));
            let n = count_ids_in_choice(&choices[i]);
            if n as u64 > u32::MAX as u64 - count {
                proof {
                    lemma_choices_prefix(choices@, i as int + 1);
                    assert(choices@.take(i + 1).last() == choices@[i as int]);
                    assert(ids_in_choices(choices@.take(i + 1)) == ids_in_choices(
                        choices@.take(i as int),
                    ) + ids_in_choice(choices@[i as int]));
                }
                return false;
            }
            count = count + n as u64;
            i = i + 1;
        }
        assert(choices@.take(choices@.len() as int) =~= choices@);
    }
    true
}

proof fn lemma_calls_prefix(tcs: Seq<OpenAIDeltaToolCall>, k: int)
    requires
        0 <= k <= tcs.len(),
    ensures
        ids_in_calls(tcs.take(k)) <= ids_in_calls(tcs),
    decreases tcs.len() - k,
{
    if k < tcs.len() {
        assert(tcs.take(k + 1).drop_last() =~= tcs.take(k));
        lemma_calls_prefix(tcs, k + 1);
    } else {
        assert(tcs.take(k) =~= tcs);
    }
}

proof fn lemma_choices_prefix(cs: Seq<OpenAIDeltaChoice>, k: int)
    requires
        0 <= k <= cs.len(),
    ensures
        ids_in_choices(cs.take(k)) <= ids_in_choices(cs),
    decreases cs.len() - k,
{
    if k < cs.len() {
        assert(cs.take(k + 1).drop_last() =~= cs.take(k));
        lemma_choices_prefix(cs, k + 1);
    } else {
        assert(cs.take(k) =~= cs);
    }
}

/// Converts one OpenAI SSE chunk into zero or more Anthropic SSE events,
/// updating the stream state (see `chunk_step`).
pub fn convert_stream_chunk(chunk: &OpenAISSEChunk, state: &mut StreamState) -> (r: Vec<
    AnthropicSSEEvent,
>)
    requires
        chunk_fits(old(state)@, *chunk),
    ensures
        final(state)@ == chunk_step(old(state)@, *chunk).0,
        events_view(r@) == chunk_step(old(state)@, *chunk).1,
{
    let mut events: Vec<AnthropicSSEEvent> = Vec::new();
    if let Some(model) = &chunk.model {
        if state.model.as_str().is_empty() {
            state.model = model.clone();
        }
    }
    if let Some(usage) = &chunk.usage {
        state.input_tokens = usage.prompt_tokens;
    }
    assert(state@ == record_chunk(old(state)@, *chunk));
    if !state.started {
        let e = message_start(state);
        events.push(e);
        state.started = true;
        assert(events_view(events@) =~= seq![e@]);
    } else {
        assert(events_view(events@) =~= Seq::<EventModel>::empty());
    }
    if let Some(choices) = &chunk.choices {
        let ghost s1 = state@;
        let ghost e1 = events_view(events@);
        let mut i: usize = 0;
        while i < choices.len()
            invariant
                i <= choices@.len(),
                s1.content_index + ids_in_choices(choices@) <= u32::MAX,
                state@ == choices_step(s1, choices@.take(i as int), chunk.usage).0,
                events_view(events@) == e1 + choices_step(s1, choices@.take(i as int), chunk.usage).1,
            decreases choices.len() - i,
        {
            assert(choices@.take(i + 1).drop_last() =~= choices@.take(i as int));
            proof {
                lemma_choices_index(s1, choices@.take(i as int), chunk.usage);
                lemma_choices_prefix(choices@, i as int + 1);
            }
            let ghost before = events_view(events@);
            convert_choice(&choices[i], &chunk.usage, state, &mut events);
            assert(events_view(events@) =~= e1 + choices_step(s1, choices@.take(i + 1), chunk.usage).1);
            i = i + 1;
        }
        assert(choices@.take(choices@.len() as int) =~= choices@);
    }
    events
}

/// The `message_start` event for the state's message.
fn message_start(state: &StreamState) -> (e: AnthropicSSEEvent)
    ensures
        e@ == message_start_event(state@),
{
    let message = AnthropicStreamMessage {
        id: state.message_id.clone(),
        msg_type: owned("message"),
        role: owned("assistant"),
        content: Vec::new(),
        model: state.model.clone(),
        stop_reason: None,
        stop_sequence: None,
        usage: AnthropicUsage { input_tokens: state.input_tokens, output_tokens: 0 },
    };
    proof {
        reveal_strlit("message");
        reveal_strlit("assistant");
    }
    assert(message.content@.map_values(|s: String| s@) =~= Seq::<Seq<char>>::empty());
    AnthropicSSEEvent::MessageStart { message }
}

/// Pushes `e` to `events`.
fn emit(events: &mut Vec<AnthropicSSEEvent>, e: AnthropicSSEEvent)
    ensures
        events_view(final(events)@) == events_view(old(events)@).push(e@),
{
    let ghost before = events@;
    events.push(e);
    assert(events_view(events@) =~= events_view(before).push(e@));
}

/// Opens a text block unless one is open.
fn open_block(state: &mut StreamState, events: &mut Vec<AnthropicSSEEvent>)
    ensures
        final(state)@ == ensure_block_open(old(state)@).0,
        events_view(final(events)@) == events_view(old(events)@) + ensure_block_open(old(state)@).1,
{
    let ghost before = events_view(events@);
    if !state.content_block_open {
        emit(
            events,
            AnthropicSSEEvent::ContentBlockStart {
                index: state.content_index,
                content_block: AnthropicResponseContentBlock::Text { text: String::new() },
            },
        );
        state.content_block_open = true;
        state.tool_block_open = false;
        assert(events_view(events@) =~= before + ensure_block_open(old(state)@).1);
    } else {
        assert(events_view(events@) =~= before + ensure_block_open(old(state)@).1);
    }
}

/// Converts one choice of a chunk.
fn convert_choice(
    choice: &OpenAIDeltaChoice,
    usage: &Option<OpenAIUsage>,
    state: &mut StreamState,
    events: &mut Vec<AnthropicSSEEvent>,
)
    requires
        old(state)@.content_index + ids_in_choice(*choice) <= u32::MAX,
    ensures
        final(state)@ == choice_step(old(state)@, *choice, *usage).0,
        events_view(final(events)@) == events_view(old(events)@) + choice_step(
            old(state)@,
            *choice,
            *usage,
        ).1,
{
    let ghost s0 = state@;
    let ghost e0 = events_view(events@);
    convert_role_and_text(choice, state, events);
    let ghost s2 = state@;
    let ghost e2 = events_view(events@);
    if let Some(tcs) = &choice.delta.tool_calls {
        convert_tool_calls(tcs, state, events);
    } else {
        assert(events_view(events@) =~= e2 + Seq::<EventModel>::empty());
    }
    let ghost s3 = state@;
    let ghost e3 = events_view(events@);
    convert_finish(choice, usage, state, events);
    proof {
        let (r1, f1) = role_step(s0, *choice);
        let (r2, f2) = text_step(r1, *choice);
        assert(e2 == e0 + f1 + f2);
        assert(events_view(events@) =~= e0 + choice_step(s0, *choice, *usage).1);
    }
}

/// Converts the role and the text of a choice.
fn convert_role_and_text(
    choice: &OpenAIDeltaChoice,
    state: &mut StreamState,
    events: &mut Vec<AnthropicSSEEvent>,
)
    ensures
        final(state)@ == text_step(role_step(old(state)@, *choice).0, *choice).0,
        events_view(final(events)@) == events_view(old(events)@) + role_step(
            old(state)@,
            *choice,
        ).1 + text_step(role_step(old(state)@, *choice).0, *choice).1,
{
    let ghost s0 = state@;
    let ghost e0 = events_view(events@);
    if choice.delta.role.is_some() {
        open_block(state, events);
    }
    let ghost s1 = state@;
    assert(s1 == role_step(s0, *choice).0);
    assert(events_view(events@) =~= e0 + role_step(s0, *choice).1);
    let ghost e1 = events_view(events@);
    if let Some(text) = &choice.delta.content {
        open_block(state, events);
        emit(
            events,
            AnthropicSSEEvent::ContentBlockDelta {
                index: state.content_index,
                delta: ContentDelta::TextDelta { text: text.clone() },
            },
        );
    }
    assert(state@ == text_step(s1, *choice).0);
    assert(events_view(events@) =~= e1 + text_step(s1, *choice).1);
}

/// Converts the tool call deltas of a choice, in order.
fn convert_tool_calls(
    tcs: &Vec<OpenAIDeltaToolCall>,
    state: &mut StreamState,
    events: &mut Vec<AnthropicSSEEvent>,
)
    requires
        old(state)@.content_index + ids_in_calls(tcs@) <= u32::MAX,
    ensures
        final(state)@ == tool_calls_step(old(state)@, tcs@).0,
        events_view(final(events)@) == events_view(old(events)@) + tool_calls_step(
            old(state)@,
            tcs@,
        ).1,
{
    let ghost s2 = state@;
    let ghost e2 = events_view(events@);
    let mut j: usize = 0;
    while j < tcs.len()
        invariant
            j <= tcs@.len(),
            s2.content_index + ids_in_calls(tcs@) <= u32::MAX,
            state@ == tool_calls_step(s2, tcs@.take(j as int)).0,
            events_view(events@) == e2 + tool_calls_step(s2, tcs@.take(j as int)).1,
        decreases tcs.len() - j,
    {
        assert(tcs@.take(j + 1).drop_last() =~= tcs@.take(j as int));
        proof {
            lemma_tool_calls_index(s2, tcs@.take(j as int));
            lemma_calls_prefix(tcs@, j as int + 1);
        }
        convert_tool_call(&tcs[j], state, events);
        assert(events_view(events@) =~= e2 + tool_calls_step(s2, tcs@.take(j + 1)).1);
        j = j + 1;
    }
    assert(tcs@.take(tcs@.len() as int) =~= tcs@);
}

/// Converts the finish reason of a choice, if it has one.
fn convert_finish(
    choice: &OpenAIDeltaChoice,
    usage: &Option<OpenAIUsage>,
    state: &mut StreamState,
    events: &mut Vec<AnthropicSSEEvent>,
)
    ensures
        final(state)@ == finish_step(old(state)@, *choice, *usage).0,
        events_view(final(events)@) == events_view(old(events)@) + finish_step(
            old(state)@,
            *choice,
            *usage,
        ).1,
{
    let ghost s3 = state@;
    let ghost e3 = events_view(events@);
    if let Some(finish_reason) = &choice.finish_reason {
        if state.content_block_open {
            emit(events, AnthropicSSEEvent::ContentBlockStop { index: state.content_index });
            state.content_block_open = false;
        }
        let stop_reason = map_stop_reason(finish_reason.as_str());
        let output_tokens = match usage {
            Some(u) => u.completion_tokens,
            None => 0,
        };
        emit(
            events,
            AnthropicSSEEvent::MessageDelta {
                delta: MessageDeltaData { stop_reason, stop_sequence: None },
                usage: OutputUsage { output_tokens },
            },
        );
        emit(events, AnthropicSSEEvent::MessageStop);
    }
    assert(state@ == finish_step(s3, *choice, *usage).0);
    assert(events_view(events@) =~= e3 + finish_step(s3, *choice, *usage).1);
}

/// Converts one tool call delta.
fn convert_tool_call(
    tc: &OpenAIDeltaToolCall,
    state: &mut StreamState,
    events: &mut Vec<AnthropicSSEEvent>,
)
    requires
        old(state)@.content_index + (if tc.id is Some {
            1nat
        } else {
            0nat
        }) <= u32::MAX,
    ensures
        final(state)@ == tool_call_step(old(state)@, *tc).0,
        events_view(final(events)@) == events_view(old(events)@) + tool_call_step(
            old(state)@,
            *tc,
        ).1,
{
    let ghost s0 = state@;
    let ghost e0 = events_view(events@);
    let tc_index = tc.index;
    if let Some(id) = &tc.id {
        if state.content_block_open {
            emit(events, AnthropicSSEEvent::ContentBlockStop { index: state.content_index });
            state.content_index = state.content_index + 1;
            state.content_block_open = false;
        }
        let name = match &tc.function {
            Some(f) => match &f.name {
                Some(n) => n.clone(),
                None => String::new(),
            },
            None => String::new(),
        };
        let ghost map_before = state.tool_calls@;
        let entry = ToolCallState { id: id.clone(), name: name.clone(), arguments_buffer: String::new() };
        state.tool_calls.insert(tc_index, entry);
        assert(state.tool_calls@.map_values(|t: ToolCallState| t@) =~= map_before.map_values(
            |t: ToolCallState| t@,
        ).insert(tc_index, entry@));
        let input = owned("{}");
        emit(
            events,
            AnthropicSSEEvent::ContentBlockStart {
                index: state.content_index,
                content_block: AnthropicResponseContentBlock::ToolUse { id: id.clone(), name, input },
            },
        );
        state.content_block_open = true;
        state.tool_block_open = true;
    }
    let ghost s1 = state@;
    assert(s1 == tool_start_step(s0, *tc).0);
    assert(events_view(events@) =~= e0 + tool_start_step(s0, *tc).1);
    let ghost e1 = events_view(events@);
    if let Some(func) = &tc.function {
        if let Some(args) = &func.arguments {
            if !args.as_str().is_empty() {
                let ghost map_before = state.tool_calls@;
                if let Some(mut tc_state) = state.tool_calls.remove(&tc_index) {
                    let ghost old_entry = tc_state@;
                    tc_state.arguments_buffer.append(args.as_str());
                    let ghost new_entry = tc_state@;
                    state.tool_calls.insert(tc_index, tc_state);
                    assert(state.tool_calls@.map_values(|t: ToolCallState| t@) =~= map_before.map_values(
                        |t: ToolCallState| t@,
                    ).insert(tc_index, new_entry));
                    assert(new_entry == PendingToolCall {
                        arguments: old_entry.arguments + args@,
                        ..old_entry
                    });
                } else {
                    assert(state.tool_calls@ =~= map_before);
                }
                emit(
                    events,
                    AnthropicSSEEvent::ContentBlockDelta {
                        index: state.content_index,
                        delta: ContentDelta::InputJsonDelta { partial_json: args.clone() },
                    },
                );
            }
        }
    }
    assert(state@ == tool_args_step(s1, *tc).0);
    assert(events_view(events@) =~= e1 + tool_args_step(s1, *tc).1);
    assert(events_view(events@) =~= e0 + tool_call_step(s0, *tc).1);
}

// ---------------------------------------------------------------------------
// Ending a stream that failed
// ---------------------------------------------------------------------------

/// The events that close a message whose backend stream failed: nothing if
/// no message was started; otherwise `content_block_stop` for the open
/// block, if any, then `message_delta` with stop reason `error` and no
/// output tokens, then `message_stop`.
pub open spec fn error_close_events(s: StreamModel) -> Seq<EventModel> {
    if !s.started {
        Seq::empty()
    } else {
        (if s.content_block_open {
            seq![EventModel::ContentBlockStop { index: s.content_index }]
        } else {
            Seq::empty()
        }) + seq![
            EventModel::MessageDelta {
                stop_reason: "error"@,
                stop_sequence: None,
                output_tokens: 0,
            },
            EventModel::MessageStop,
        ]
    }
}

/// The events that close the message after the backend stream failed (see
/// `error_close_events`).
pub fn stream_error_events(state: &StreamState) -> (r: Vec<AnthropicSSEEvent>)
    ensures
        events_view(r@) == error_close_events(state@),
{
    let mut events: Vec<AnthropicSSEEvent> = Vec::new();
    if state.started {
        if state.content_block_open {
            emit(&mut events, AnthropicSSEEvent::ContentBlockStop { index: state.content_index });
        }
        let ghost before = events_view(events@);
        emit(
            &mut events,
            AnthropicSSEEvent::MessageDelta {
                delta: MessageDeltaData { stop_reason: owned("error"), stop_sequence: None },
                usage: OutputUsage { output_tokens: 0 },
            },
        );
        emit(&mut events, AnthropicSSEEvent::MessageStop);
        proof {
            reveal_strlit("error");
        }
        assert(events_view(events@) =~= error_close_events(state@));
    } else {
        assert(events_view(events@) =~= Seq::<EventModel>::empty());
    }
    events
}

// ---------------------------------------------------------------------------
// Laws
// ---------------------------------------------------------------------------

/// Whether `e` is a `message_start` event.
pub open spec fn is_message_start(e: EventModel) -> bool {
    e is MessageStart
}

/// Whether no event of `es` is a `message_start`.
pub open spec fn no_message_start(es: Seq<EventModel>) -> bool {
    forall|i: int| 0 <= i < es.len() ==> !is_message_start(#[trigger] es[i])
}

proof fn lemma_no_start_concat(a: Seq<EventModel>, b: Seq<EventModel>)
    requires
        no_message_start(a),
        no_message_start(b),
    ensures
        no_message_start(a + b),
{
    assert forall|i: int| 0 <= i < (a + b).len() implies !is_message_start(#[trigger] (a + b)[i]) by {
        if i < a.len() {
            assert((a + b)[i] == a[i]);
        } else {
            assert((a + b)[i] == b[i - a.len()]);
        }
    }
}

proof fn lemma_tool_calls_no_start(s: StreamModel, tcs: Seq<OpenAIDeltaToolCall>)
    ensures
        no_message_start(tool_calls_step(s, tcs).1),
    decreases tcs.len(),
{
    if tcs.len() > 0 {
        lemma_tool_calls_no_start(s, tcs.drop_last());
        let (s1, e1) = tool_calls_step(s, tcs.drop_last());
        let (s2, e2) = tool_start_step(s1, tcs.last());
        let (s3, e3) = tool_args_step(s2, tcs.last());
        assert(no_message_start(e2));
        assert(no_message_start(e3));
        lemma_no_start_concat(e2, e3);
        lemma_no_start_concat(e1, e2 + e3);
    }
}

proof fn lemma_choice_no_start(s: StreamModel, ch: OpenAIDeltaChoice, usage: Option<OpenAIUsage>)
    ensures
        no_message_start(choice_step(s, ch, usage).1),
{
    let (s1, e1) = role_step(s, ch);
    let (s2, e2) = text_step(s1, ch);
    let (s3, e3) = match ch.delta.tool_calls {
        Some(tcs) => tool_calls_step(s2, tcs@),
        None => (s2, Seq::empty()),
    };
    let (s4, e4) = finish_step(s3, ch, usage);
    match ch.delta.tool_calls {
        Some(tcs) => lemma_tool_calls_no_start(s2, tcs@),
        None => {},
    }
    assert(no_message_start(e1));
    assert(no_message_start(e2));
    assert(no_message_start(e4));
    lemma_no_start_concat(e1, e2);
    lemma_no_start_concat(e1 + e2, e3);
    lemma_no_start_concat(e1 + e2 + e3, e4);
}

proof fn lemma_choices_no_start(s: StreamModel, cs: Seq<OpenAIDeltaChoice>, usage: Option<OpenAIUsage>)
    ensures
        no_message_start(choices_step(s, cs, usage).1),
        choices_step(s, cs, usage).0.started == s.started,
        choices_step(s, cs, usage).0.message_id == s.message_id,
        choices_step(s, cs, usage).0.model == s.model,
    decreases cs.len(),
{
    if cs.len() > 0 {
        lemma_choices_no_start(s, cs.drop_last(), usage);
        let (s1, e1) = choices_step(s, cs.drop_last(), usage);
        lemma_choice_no_start(s1, cs.last(), usage);
        lemma_choice_keeps(s1, cs.last(), usage);
        lemma_no_start_concat(e1, choice_step(s1, cs.last(), usage).1);
    }
}

proof fn lemma_tool_calls_keep(s: StreamModel, tcs: Seq<OpenAIDeltaToolCall>)
    ensures
        tool_calls_step(s, tcs).0.started == s.started,
        tool_calls_step(s, tcs).0.message_id == s.message_id,
        tool_calls_step(s, tcs).0.model == s.model,
    decreases tcs.len(),
{
    if tcs.len() > 0 {
        lemma_tool_calls_keep(s, tcs.drop_last());
    }
}

proof fn lemma_choice_keeps(s: StreamModel, ch: OpenAIDeltaChoice, usage: Option<OpenAIUsage>)
    ensures
        choice_step(s, ch, usage).0.started == s.started,
        choice_step(s, ch, usage).0.message_id == s.message_id,
        choice_step(s, ch, usage).0.model == s.model,
{
    let (s1, e1) = role_step(s, ch);
    let (s2, e2) = text_step(s1, ch);
    match ch.delta.tool_calls {
        Some(tcs) => lemma_tool_calls_keep(s2, tcs@),
        None => {},
    }
}

/// Every chunk leaves the message started. `message_start` is sent once
/// per stream: as the first event of the first chunk, and never again.
pub proof fn law_message_starts_once(s: StreamModel, c: OpenAISSEChunk)
    ensures
        chunk_step(s, c).0.started,
        !s.started ==> chunk_step(s, c).1.len() > 0 && is_message_start(chunk_step(s, c).1[0])
            && no_message_start(chunk_step(s, c).1.drop_first()),
        s.started ==> no_message_start(chunk_step(s, c).1),
{
    let r = record_chunk(s, c);
    let (s1, e1) = start_step(r);
    match c.choices {
        Some(cs) => {
            lemma_choices_no_start(s1, cs@, c.usage);
            let (s2, e2) = choices_step(s1, cs@, c.usage);
            if !s.started {
                assert((e1 + e2).drop_first() =~= e2);
            } else {
                assert(e1 + e2 =~= e2);
            }
        },
        None => {
            if !s.started {
                assert(e1.drop_first() =~= Seq::<EventModel>::empty());
            }
        },
    }
}

/// A chunk keeps the message id; the model, once known, stays.
pub proof fn law_message_identity_kept(s: StreamModel, c: OpenAISSEChunk)
    ensures
        chunk_step(s, c).0.message_id == s.message_id,
        s.model.len() > 0 ==> chunk_step(s, c).0.model == s.model,
{
    let (s1, e1) = start_step(record_chunk(s, c));
    match c.choices {
        Some(cs) => lemma_choices_no_start(s1, cs@, c.usage),
        None => {},
    }
}

/// The block index never goes back, and a chunk moves it on by at most
/// the number of tool calls it starts.
pub proof fn law_block_index_monotone(s: StreamModel, c: OpenAISSEChunk)
    ensures
        s.content_index <= chunk_step(s, c).0.content_index <= s.content_index + ids_in_chunk(c),
{
    let (s1, e1) = start_step(record_chunk(s, c));
    match c.choices {
        Some(cs) => lemma_choices_index(s1, cs@, c.usage),
        None => {},
    }
}

/// What a client following the content blocks of a stream knows: whether
/// a block is open, and the index of the latest block.
pub struct BlockCursor {
    pub open: bool,
    pub index: nat,
}

/// The block cursor of a stream state.
pub open spec fn cursor_of(s: StreamModel) -> BlockCursor {
    BlockCursor { open: s.content_block_open, index: s.content_index }
}

/// The cursor after one event, if the event is in order: a block starts
/// only when none is open, at an index not below the latest; a text delta
/// and a stop fall in the open block; a JSON delta carries the latest
/// index; the message ends (`message_delta`, `message_stop`) only when no
/// block is open; other events leave the blocks alone.
pub open spec fn follow_event(c: BlockCursor, e: EventModel) -> Option<BlockCursor> {
    match e {
        EventModel::ContentBlockStart { index, .. } => if !c.open && index >= c.index {
            Some(BlockCursor { open: true, index })
        } else {
            None
        },
        EventModel::ContentBlockDelta { index, delta } => match delta {
            DeltaModel::TextDelta(_) => if c.open && index == c.index {
                Some(c)
            } else {
                None
            },
            DeltaModel::InputJsonDelta(_) => if index == c.index {
                Some(c)
            } else {
                None
            },
        },
        EventModel::ContentBlockStop { index } => if c.open && index == c.index {
            Some(BlockCursor { open: false, index })
        } else {
            None
        },
        EventModel::MessageDelta { .. } => if !c.open {
            Some(c)
        } else {
            None
        },
        EventModel::MessageStop => if !c.open {
            Some(c)
        } else {
            None
        },
        _ => Some(c),
    }
}

/// The cursor after a list of events, if every event is in order.
pub open spec fn follow_events(c: BlockCursor, es: Seq<EventModel>) -> Option<BlockCursor>
    decreases es.len(),
{
    if es.len() == 0 {
        Some(c)
    } else {
        match follow_event(c, es[0]) {
            Some(c1) => follow_events(c1, es.drop_first()),
            None => None,
        }
    }
}

proof fn lemma_follow_concat(c: BlockCursor, a: Seq<EventModel>, b: Seq<EventModel>)
    ensures
        follow_events(c, a + b) == match follow_events(c, a) {
            Some(c1) => follow_events(c1, b),
            None => None,
        },
    decreases a.len(),
{
    if a.len() > 0 {
        assert((a + b)[0] == a[0]);
        assert((a + b).drop_first() =~= a.drop_first() + b);
        match follow_event(c, a[0]) {
            Some(c1) => lemma_follow_concat(c1, a.drop_first(), b),
            None => {},
        }
    } else {
        assert(a + b =~= b);
    }
}

/// A step from `s` to `t` that sent `es` in order.
pub open spec fn step_in_order(s: StreamModel, t: StreamModel, es: Seq<EventModel>) -> bool {
    follow_events(cursor_of(s), es) == Some(cursor_of(t))
}

proof fn lemma_in_order_chain(
    s: StreamModel,
    t: StreamModel,
    u: StreamModel,
    a: Seq<EventModel>,
    b: Seq<EventModel>,
)
    requires
        step_in_order(s, t, a),
        step_in_order(t, u, b),
    ensures
        step_in_order(s, u, a + b),
{
    lemma_follow_concat(cursor_of(s), a, b);
}

proof fn lemma_single(c: BlockCursor, e: EventModel)
    ensures
        follow_events(c, seq![e]) == follow_event(c, e),
{
    assert(seq![e].drop_first() =~= Seq::<EventModel>::empty());
    match follow_event(c, e) {
        Some(c1) => {
            assert(follow_events(c1, Seq::<EventModel>::empty()) == Some(c1));
        },
        None => {},
    }
}

proof fn lemma_pair(c: BlockCursor, e1: EventModel, e2: EventModel)
    ensures
        follow_events(c, seq![e1, e2]) == match follow_event(c, e1) {
            Some(c1) => follow_event(c1, e2),
            None => None,
        },
{
    assert(seq![e1, e2].drop_first() =~= seq![e2]);
    match follow_event(c, e1) {
        Some(c1) => lemma_single(c1, e2),
        None => {},
    }
}

proof fn lemma_ensure_open_in_order(s: StreamModel)
    ensures
        step_in_order(s, ensure_block_open(s).0, ensure_block_open(s).1),
        ensure_block_open(s).0.content_block_open,
        ensure_block_open(s).0.content_index == s.content_index,
{
    if !s.content_block_open {
        lemma_single(cursor_of(s), text_block_start(s.content_index));
    }
}

proof fn lemma_role_text_in_order(s: StreamModel, ch: OpenAIDeltaChoice)
    ensures
        step_in_order(s, role_step(s, ch).0, role_step(s, ch).1),
        step_in_order(role_step(s, ch).0, text_step(role_step(s, ch).0, ch).0, text_step(
            role_step(s, ch).0,
            ch,
        ).1),
{
    if ch.delta.role is Some {
        lemma_ensure_open_in_order(s);
    }
    let s1 = role_step(s, ch).0;
    match ch.delta.content {
        Some(t) => {
            lemma_ensure_open_in_order(s1);
            let (s2, e2) = ensure_block_open(s1);
            let d = EventModel::ContentBlockDelta {
                index: s2.content_index,
                delta: DeltaModel::TextDelta(t@),
            };
            lemma_single(cursor_of(s2), d);
            lemma_in_order_chain(s1, s2, s2, e2, seq![d]);
            assert(e2.push(d) =~= e2 + seq![d]);
        },
        None => {},
    }
}

proof fn lemma_tool_call_in_order(s: StreamModel, tc: OpenAIDeltaToolCall)
    ensures
        step_in_order(s, tool_call_step(s, tc).0, tool_call_step(s, tc).1),
{
    let (s1, e1) = tool_start_step(s, tc);
    match tc.id {
        Some(id) => {
            let (m, em) = if s.content_block_open {
                (
                    StreamModel {
                        content_index: s.content_index + 1,
                        content_block_open: false,
                        ..s
                    },
                    seq![EventModel::ContentBlockStop { index: s.content_index }],
                )
            } else {
                (s, Seq::<EventModel>::empty())
            };
            let start = EventModel::ContentBlockStart {
                index: m.content_index,
                block: ResponseBlockModel::ToolUse { id: id@, name: delta_name(tc), input: "{}"@ },
            };
            if s.content_block_open {
                lemma_pair(
                    cursor_of(s),
                    EventModel::ContentBlockStop { index: s.content_index },
                    start,
                );
                assert(em.push(start) =~= seq![
                    EventModel::ContentBlockStop { index: s.content_index },
                    start,
                ]);
            } else {
                lemma_single(cursor_of(s), start);
                assert(em.push(start) =~= seq![start]);
            }
        },
        None => {},
    }
    let (s2, e2) = tool_args_step(s1, tc);
    if delta_arguments(tc).len() > 0 {
        lemma_single(
            cursor_of(s1),
            EventModel::ContentBlockDelta {
                index: s1.content_index,
                delta: DeltaModel::InputJsonDelta(delta_arguments(tc)),
            },
        );
    }
    lemma_in_order_chain(s, s1, s2, e1, e2);
}

proof fn lemma_tool_calls_in_order(s: StreamModel, tcs: Seq<OpenAIDeltaToolCall>)
    ensures
        step_in_order(s, tool_calls_step(s, tcs).0, tool_calls_step(s, tcs).1),
    decreases tcs.len(),
{
    if tcs.len() > 0 {
        lemma_tool_calls_in_order(s, tcs.drop_last());
        let (s1, e1) = tool_calls_step(s, tcs.drop_last());
        lemma_tool_call_in_order(s1, tcs.last());
        let (s2, e2) = tool_call_step(s1, tcs.last());
        lemma_in_order_chain(s, s1, s2, e1, e2);
    }
}

proof fn lemma_finish_in_order(s: StreamModel, ch: OpenAIDeltaChoice, usage: Option<OpenAIUsage>)
    ensures
        step_in_order(s, finish_step(s, ch, usage).0, finish_step(s, ch, usage).1),
{
    match ch.finish_reason {
        Some(fr) => {
            let output_tokens = match usage {
                Some(u) => u.completion_tokens,
                None => 0,
            };
            let md = EventModel::MessageDelta {
                stop_reason: stop_reason_for(fr@),
                stop_sequence: None,
                output_tokens,
            };
            let (s1, e1) = if s.content_block_open {
                (
                    StreamModel { content_block_open: false, ..s },
                    seq![EventModel::ContentBlockStop { index: s.content_index }],
                )
            } else {
                (s, Seq::<EventModel>::empty())
            };
            if s.content_block_open {
                lemma_single(cursor_of(s), EventModel::ContentBlockStop { index: s.content_index });
            }
            lemma_pair(cursor_of(s1), md, EventModel::MessageStop);
            lemma_in_order_chain(s, s1, s1, e1, seq![md, EventModel::MessageStop]);
        },
        None => {},
    }
}

proof fn lemma_choices_in_order(s: StreamModel, cs: Seq<OpenAIDeltaChoice>, usage: Option<OpenAIUsage>)
    ensures
        step_in_order(s, choices_step(s, cs, usage).0, choices_step(s, cs, usage).1),
    decreases cs.len(),
{
    if cs.len() > 0 {
        lemma_choices_in_order(s, cs.drop_last(), usage);
        let (s1, e1) = choices_step(s, cs.drop_last(), usage);
        let ch = cs.last();
        lemma_role_text_in_order(s1, ch);
        let (r1, f1) = role_step(s1, ch);
        let (r2, f2) = text_step(r1, ch);
        let (r3, f3) = match ch.delta.tool_calls {
            Some(tcs) => tool_calls_step(r2, tcs@),
            None => (r2, Seq::<EventModel>::empty()),
        };
        match ch.delta.tool_calls {
            Some(tcs) => lemma_tool_calls_in_order(r2, tcs@),
            None => {},
        }
        lemma_finish_in_order(r3, ch, usage);
        let (r4, f4) = finish_step(r3, ch, usage);
        lemma_in_order_chain(s1, r1, r2, f1, f2);
        lemma_in_order_chain(s1, r2, r3, f1 + f2, f3);
        lemma_in_order_chain(s1, r3, r4, f1 + f2 + f3, f4);
        lemma_in_order_chain(s, s1, r4, e1, f1 + f2 + f3 + f4);
    }
}

/// The events of a chunk keep the block protocol: a block starts only
/// when none is open, at an index not below the previous one; text deltas
/// and stops fall in the open block; JSON deltas carry the current index;
/// the message ends only with no block open; and what the events leave
/// open, at which index, is what the state says.
pub proof fn law_blocks_in_order(s: StreamModel, c: OpenAISSEChunk)
    ensures
        step_in_order(s, chunk_step(s, c).0, chunk_step(s, c).1),
{
    let r = record_chunk(s, c);
    let (s1, e1) = start_step(r);
    if !r.started {
        lemma_single(cursor_of(r), message_start_event(r));
    }
    match c.choices {
        Some(cs) => {
            lemma_choices_in_order(s1, cs@, c.usage);
            lemma_in_order_chain(s, s1, choices_step(s1, cs@, c.usage).0, e1, choices_step(
                s1,
                cs@,
                c.usage,
            ).1);
        },
        None => {},
    }
}

/// The events that end a failed stream close the open block, if any, and
/// leave no block open.
pub proof fn law_error_close_in_order(s: StreamModel)
    ensures
        follow_events(cursor_of(s), error_close_events(s)) == Some(
            BlockCursor { open: s.content_block_open && !s.started, index: s.content_index },
        ),
{
    if s.started {
        let md = EventModel::MessageDelta {
            stop_reason: "error"@,
            stop_sequence: None,
            output_tokens: 0,
        };
        let tail = seq![md, EventModel::MessageStop];
        lemma_pair(
            BlockCursor { open: false, index: s.content_index },
            md,
            EventModel::MessageStop,
        );
        if s.content_block_open {
            let stop = EventModel::ContentBlockStop { index: s.content_index };
            lemma_single(cursor_of(s), stop);
            lemma_follow_concat(cursor_of(s), seq![stop], tail);
        } else {
            lemma_pair(cursor_of(s), md, EventModel::MessageStop);
            assert(error_close_events(s) =~= tail);
        }
    }
}

// ---------------------------------------------------------------------------
// Whole streams
// ---------------------------------------------------------------------------

/// Where a well-formed OpenAI stream stands: before its first tool call,
/// among its tool calls, or finished.
pub enum StreamPhase {
    Text,
    Tools,
    Finished,
}

/// Whether a tool call delta is in order: a delta without an id carries
/// arguments only once some tool call has started.
pub open spec fn call_ok(ph: StreamPhase, tc: OpenAIDeltaToolCall) -> bool {
    ph is Tools || tc.id is Some || delta_arguments(tc).len() == 0
}

/// The phase after a tool call delta: one with an id starts the tool calls.
pub open spec fn phase_after_call(ph: StreamPhase, tc: OpenAIDeltaToolCall) -> StreamPhase {
    if tc.id is Some {
        StreamPhase::Tools
    } else {
        ph
    }
}

/// The phase after a list of tool call deltas.
pub open spec fn calls_phase(ph: StreamPhase, tcs: Seq<OpenAIDeltaToolCall>) -> StreamPhase
    decreases tcs.len(),
{
    if tcs.len() == 0 {
        ph
    } else {
        phase_after_call(calls_phase(ph, tcs.drop_last()), tcs.last())
    }
}

/// Whether every tool call delta of a list is in order.
pub open spec fn calls_ok(ph: StreamPhase, tcs: Seq<OpenAIDeltaToolCall>) -> bool
    decreases tcs.len(),
{
    tcs.len() == 0 || (calls_ok(ph, tcs.drop_last()) && call_ok(
        calls_phase(ph, tcs.drop_last()),
        tcs.last(),
    ))
}

/// Whether a choice is in order: no text once tool calls have started,
/// tool calls in order, and nothing at all once the stream finished.
pub open spec fn choice_ok(ph: StreamPhase, ch: OpenAIDeltaChoice) -> bool {
    match ph {
        StreamPhase::Finished => ch.delta.role is None && ch.delta.content is None
            && ch.delta.tool_calls is None && ch.finish_reason is None,
        StreamPhase::Tools => ch.delta.content is None && match ch.delta.tool_calls {
            Some(tcs) => calls_ok(ph, tcs@),
            None => true,
        },
        StreamPhase::Text => match ch.delta.tool_calls {
            Some(tcs) => calls_ok(ph, tcs@),
            None => true,
        },
    }
}

/// The phase after a choice: a finish reason finishes the stream.
pub open spec fn choice_phase(ph: StreamPhase, ch: OpenAIDeltaChoice) -> StreamPhase {
    if ch.finish_reason is Some {
        StreamPhase::Finished
    } else {
        match ch.delta.tool_calls {
            Some(tcs) => calls_phase(ph, tcs@),
            None => ph,
        }
    }
}

/// The phase after a list of choices.
pub open spec fn choices_phase(ph: StreamPhase, cs: Seq<OpenAIDeltaChoice>) -> StreamPhase
    decreases cs.len(),
{
    if cs.len() == 0 {
        ph
    } else {
        choice_phase(choices_phase(ph, cs.drop_last()), cs.last())
    }
}

/// Whether every choice of a list is in order.
pub open spec fn choices_ok(ph: StreamPhase, cs: Seq<OpenAIDeltaChoice>) -> bool
    decreases cs.len(),
{
    cs.len() == 0 || (choices_ok(ph, cs.drop_last()) && choice_ok(
        choices_phase(ph, cs.drop_last()),
        cs.last(),
    ))
}

/// Whether a chunk is in order.
pub open spec fn chunk_ok(ph: StreamPhase, c: OpenAISSEChunk) -> bool {
    match c.choices {
        Some(cs) => choices_ok(ph, cs@),
        None => true,
    }
}

/// The phase after a chunk.
pub open spec fn chunk_phase(ph: StreamPhase, c: OpenAISSEChunk) -> StreamPhase {
    match c.choices {
        Some(cs) => choices_phase(ph, cs@),
        None => ph,
    }
}

/// The phase after a stream of chunks.
pub open spec fn stream_phase(cs: Seq<OpenAISSEChunk>) -> StreamPhase
    decreases cs.len(),
{
    if cs.len() == 0 {
        StreamPhase::Text
    } else {
        chunk_phase(stream_phase(cs.drop_last()), cs.last())
    }
}

/// Whether a stream of chunks is well formed: its text comes before its
/// first tool call; a tool call delta without an id carries arguments only
/// once a tool call has started; after a finish reason, chunks carry no
/// choice data (a closing usage chunk, say).
pub open spec fn stream_ok(cs: Seq<OpenAISSEChunk>) -> bool
    decreases cs.len(),
{
    cs.len() == 0 || (stream_ok(cs.drop_last()) && chunk_ok(stream_phase(cs.drop_last()), cs.last()))
}

/// What the chunks do to the stream, one after another: the final state
/// and all the events sent.
pub open spec fn stream_run(s: StreamModel, cs: Seq<OpenAISSEChunk>) -> (StreamModel, Seq<EventModel>)
    decreases cs.len(),
{
    if cs.len() == 0 {
        (s, Seq::empty())
    } else {
        let (s1, e1) = stream_run(s, cs.drop_last());
        let (s2, e2) = chunk_step(s1, cs.last());
        (s2, e1 + e2)
    }
}

/// What a client reading a whole stream knows: whether the message
/// started, whether a block is open, of which kind and at which index, and
/// how many blocks have started.
pub struct StreamCursor {
    pub started: bool,
    pub open: bool,
    pub tool: bool,
    pub index: nat,
    pub blocks: nat,
}

/// The cursor at the start of a stream.
pub open spec fn initial_cursor() -> StreamCursor {
    StreamCursor { started: false, open: false, tool: false, index: 0, blocks: 0 }
}

/// The cursor after one event, if the event is in order for a whole
/// stream: `message_start` comes once, first; blocks start one at a time
/// after it, with indices 0, 1, 2, ... and no gap; a text delta falls in
/// the open text block and a JSON delta in the open `tool_use` block; a
/// stop closes the open block; the message ends only with no block open.
pub open spec fn follow_stream_event(c: StreamCursor, e: EventModel) -> Option<StreamCursor> {
    match e {
        EventModel::MessageStart(_) => if !c.started {
            Some(StreamCursor { started: true, ..c })
        } else {
            None
        },
        EventModel::ContentBlockStart { index, block } => if c.started && !c.open && index
            == c.blocks {
            Some(
                StreamCursor {
                    open: true,
                    tool: block is ToolUse,
                    index,
                    blocks: c.blocks + 1,
                    ..c
                },
            )
        } else {
            None
        },
        EventModel::ContentBlockDelta { index, delta } => if c.open && index == c.index && (
        delta is InputJsonDelta) == c.tool {
            Some(c)
        } else {
            None
        },
        EventModel::ContentBlockStop { index } => if c.open && index == c.index {
            Some(StreamCursor { open: false, ..c })
        } else {
            None
        },
        EventModel::MessageDelta { .. } => if c.started && !c.open {
            Some(c)
        } else {
            None
        },
        EventModel::MessageStop => if c.started && !c.open {
            Some(c)
        } else {
            None
        },
        EventModel::Ping => Some(c),
    }
}

/// The cursor after a list of events, if every event is in order.
pub open spec fn follow_stream(c: StreamCursor, es: Seq<EventModel>) -> Option<StreamCursor>
    decreases es.len(),
{
    if es.len() == 0 {
        Some(c)
    } else {
        match follow_stream_event(c, es[0]) {
            Some(c1) => follow_stream(c1, es.drop_first()),
            None => None,
        }
    }
}

/// Whether a list of events ends the message: `message_delta`, then
/// `message_stop`.
pub open spec fn ends_message(es: Seq<EventModel>) -> bool {
    es.len() >= 2 && es[es.len() - 2] is MessageDelta && es[es.len() - 1] is MessageStop
}

/// How a cursor stands to a stream state in a phase.
spec fn tracks(s: StreamModel, c: StreamCursor, ph: StreamPhase) -> bool {
    &&& c.started == s.started
    &&& c.open == s.content_block_open
    &&& c.index == s.content_index
    &&& c.open ==> c.tool == s.tool_block_open && c.blocks == s.content_index + 1
    &&& !c.open ==> (c.blocks == s.content_index + 1 || (c.blocks == 0 && s.content_index == 0))
    &&& ph is Text ==> (c.open ==> !c.tool) && (!c.open ==> c.blocks == 0)
    &&& ph is Tools ==> c.open && c.tool
    &&& ph is Finished ==> !c.open && c.started
    &&& !c.started ==> ph is Text && !c.open
}

proof fn lemma_fs_concat(c: StreamCursor, a: Seq<EventModel>, b: Seq<EventModel>)
    ensures
        follow_stream(c, a + b) == match follow_stream(c, a) {
            Some(c1) => follow_stream(c1, b),
            None => None,
        },
    decreases a.len(),
{
    if a.len() > 0 {
        assert((a + b)[0] == a[0]);
        assert((a + b).drop_first() =~= a.drop_first() + b);
        match follow_stream_event(c, a[0]) {
            Some(c1) => lemma_fs_concat(c1, a.drop_first(), b),
            None => {},
        }
    } else {
        assert(a + b =~= b);
    }
}

proof fn lemma_fs_single(c: StreamCursor, e: EventModel)
    ensures
        follow_stream(c, seq![e]) == follow_stream_event(c, e),
{
    assert(seq![e].drop_first() =~= Seq::<EventModel>::empty());
    match follow_stream_event(c, e) {
        Some(c1) => {
            assert(follow_stream(c1, Seq::<EventModel>::empty()) == Some(c1));
        },
        None => {},
    }
}

proof fn lemma_fs_chain(c: StreamCursor, c1: StreamCursor, c2: StreamCursor, a: Seq<EventModel>, b: Seq<EventModel>)
    requires
        follow_stream(c, a) == Some(c1),
        follow_stream(c1, b) == Some(c2),
    ensures
        follow_stream(c, a + b) == Some(c2),
{
    lemma_fs_concat(c, a, b);
}

proof fn lemma_ends_after(a: Seq<EventModel>, b: Seq<EventModel>)
    ensures
        ends_message(b) ==> ends_message(a + b),
        b.len() == 0 ==> (ends_message(a) ==> ends_message(a + b)),
{
    if b.len() == 0 {
        assert(a + b =~= a);
    }
    if ends_message(b) {
        assert((a + b)[(a + b).len() - 2] == b[b.len() - 2]);
        assert((a + b)[(a + b).len() - 1] == b[b.len() - 1]);
    }
}

proof fn lemma_open_t(s: StreamModel, c: StreamCursor, ph: StreamPhase) -> (c2: StreamCursor)
    requires
        tracks(s, c, ph),
        c.started,
        !(ph is Finished),
    ensures
        c2.started == c.started,
        follow_stream(c, ensure_block_open(s).1) == Some(c2),
        tracks(ensure_block_open(s).0, c2, ph),
        c2.open,
        !c2.tool <== ph is Text,
{
    if s.content_block_open {
        c
    } else {
        let c2 = StreamCursor {
            open: true,
            tool: false,
            index: s.content_index,
            blocks: c.blocks + 1,
            ..c
        };
        lemma_fs_single(c, text_block_start(s.content_index));
        c2
    }
}

proof fn lemma_role_text_t(s: StreamModel, c: StreamCursor, ph: StreamPhase, ch: OpenAIDeltaChoice) -> (c2: StreamCursor)
    requires
        tracks(s, c, ph),
        c.started,
        choice_ok(ph, ch),
    ensures
        c2.started == c.started,
        follow_stream(c, role_step(s, ch).1 + text_step(role_step(s, ch).0, ch).1) == Some(c2),
        tracks(text_step(role_step(s, ch).0, ch).0, c2, ph),
{
    let (s1, e1) = role_step(s, ch);
    let c1 = if ch.delta.role is Some {
        lemma_open_t(s, c, ph)
    } else {
        c
    };
    let (s2, e2) = text_step(s1, ch);
    let c2 = match ch.delta.content {
        Some(t) => {
            let co = lemma_open_t(s1, c1, ph);
            let (so, eo) = ensure_block_open(s1);
            let d = EventModel::ContentBlockDelta {
                index: so.content_index,
                delta: DeltaModel::TextDelta(t@),
            };
            lemma_fs_single(co, d);
            lemma_fs_chain(c1, co, co, eo, seq![d]);
            assert(eo.push(d) =~= eo + seq![d]);
            co
        },
        None => c1,
    };
    lemma_fs_chain(c, c1, c2, e1, e2);
    c2
}

proof fn lemma_tool_call_t(s: StreamModel, c: StreamCursor, ph: StreamPhase, tc: OpenAIDeltaToolCall) -> (c2: StreamCursor)
    requires
        tracks(s, c, ph),
        c.started,
        !(ph is Finished),
        call_ok(ph, tc),
    ensures
        c2.started == c.started,
        follow_stream(c, tool_call_step(s, tc).1) == Some(c2),
        tracks(tool_call_step(s, tc).0, c2, phase_after_call(ph, tc)),
{
    let (s1, e1) = tool_start_step(s, tc);
    let ph1 = phase_after_call(ph, tc);
    let c1 = match tc.id {
        Some(id) => {
            let start_index: nat = if s.content_block_open {
                s.content_index + 1
            } else {
                s.content_index
            };
            let start = EventModel::ContentBlockStart {
                index: start_index,
                block: ResponseBlockModel::ToolUse { id: id@, name: delta_name(tc), input: "{}"@ },
            };
            let c1 = StreamCursor {
                open: true,
                tool: true,
                index: start_index,
                blocks: c.blocks + 1,
                ..c
            };
            if s.content_block_open {
                let stop = EventModel::ContentBlockStop { index: s.content_index };
                let cs = StreamCursor { open: false, ..c };
                lemma_fs_single(c, stop);
                lemma_fs_single(cs, start);
                lemma_fs_chain(c, cs, c1, seq![stop], seq![start]);
                assert(seq![stop].push(start) =~= seq![stop] + seq![start]);
            } else {
                lemma_fs_single(c, start);
                assert(Seq::<EventModel>::empty().push(start) =~= seq![start]);
            }
            c1
        },
        None => c,
    };
    let (s2, e2) = tool_args_step(s1, tc);
    if delta_arguments(tc).len() > 0 {
        lemma_fs_single(
            c1,
            EventModel::ContentBlockDelta {
                index: s1.content_index,
                delta: DeltaModel::InputJsonDelta(delta_arguments(tc)),
            },
        );
    }
    lemma_fs_chain(c, c1, c1, e1, e2);
    c1
}

proof fn lemma_tool_calls_t(s: StreamModel, c: StreamCursor, ph: StreamPhase, tcs: Seq<OpenAIDeltaToolCall>) -> (c2: StreamCursor)
    requires
        tracks(s, c, ph),
        c.started,
        !(ph is Finished),
        calls_ok(ph, tcs),
    ensures
        c2.started == c.started,
        follow_stream(c, tool_calls_step(s, tcs).1) == Some(c2),
        tracks(tool_calls_step(s, tcs).0, c2, calls_phase(ph, tcs)),
        !(calls_phase(ph, tcs) is Finished),
    decreases tcs.len(),
{
    if tcs.len() == 0 {
        c
    } else {
        let c1 = lemma_tool_calls_t(s, c, ph, tcs.drop_last());
        let (s1, e1) = tool_calls_step(s, tcs.drop_last());
        let c2 = lemma_tool_call_t(s1, c1, calls_phase(ph, tcs.drop_last()), tcs.last());
        lemma_fs_chain(c, c1, c2, e1, tool_call_step(s1, tcs.last()).1);
        c2
    }
}

proof fn lemma_finish_t(
    s: StreamModel,
    c: StreamCursor,
    ph: StreamPhase,
    ch: OpenAIDeltaChoice,
    usage: Option<OpenAIUsage>,
) -> (c2: StreamCursor)
    requires
        tracks(s, c, ph),
        c.started,
        ph is Finished ==> ch.finish_reason is None,
    ensures
        c2.started == c.started,
        follow_stream(c, finish_step(s, ch, usage).1) == Some(c2),
        tracks(
            finish_step(s, ch, usage).0,
            c2,
            if ch.finish_reason is Some {
                StreamPhase::Finished
            } else {
                ph
            },
        ),
        ch.finish_reason is Some ==> ends_message(finish_step(s, ch, usage).1),
        ch.finish_reason is None ==> finish_step(s, ch, usage).1.len() == 0,
{
    match ch.finish_reason {
        Some(fr) => {
            let output_tokens = match usage {
                Some(u) => u.completion_tokens,
                None => 0,
            };
            let md = EventModel::MessageDelta {
                stop_reason: stop_reason_for(fr@),
                stop_sequence: None,
                output_tokens,
            };
            let c1 = StreamCursor { open: false, ..c };
            let e1 = if s.content_block_open {
                seq![EventModel::ContentBlockStop { index: s.content_index }]
            } else {
                Seq::<EventModel>::empty()
            };
            if s.content_block_open {
                lemma_fs_single(c, EventModel::ContentBlockStop { index: s.content_index });
            }
            let tail = seq![md, EventModel::MessageStop];
            assert(tail.drop_first() =~= seq![EventModel::MessageStop]);
            lemma_fs_single(c1, EventModel::MessageStop);
            assert(follow_stream(c1, tail) == Some(c1));
            lemma_fs_chain(c, c1, c1, e1, tail);
            lemma_ends_after(e1, tail);
            c1
        },
        None => c,
    }
}

proof fn lemma_choice_t(
    s: StreamModel,
    c: StreamCursor,
    ph: StreamPhase,
    ch: OpenAIDeltaChoice,
    usage: Option<OpenAIUsage>,
) -> (c2: StreamCursor)
    requires
        tracks(s, c, ph),
        c.started,
        choice_ok(ph, ch),
    ensures
        c2.started == c.started,
        follow_stream(c, choice_step(s, ch, usage).1) == Some(c2),
        tracks(choice_step(s, ch, usage).0, c2, choice_phase(ph, ch)),
        ph is Finished ==> choice_step(s, ch, usage).1.len() == 0 && choice_phase(ph, ch) is Finished,
        !(ph is Finished) && choice_phase(ph, ch) is Finished ==> ends_message(
            choice_step(s, ch, usage).1,
        ),
{
    let (s1, e1) = role_step(s, ch);
    let (s2, e2) = text_step(s1, ch);
    let c2 = lemma_role_text_t(s, c, ph, ch);
    let (s3, e3) = match ch.delta.tool_calls {
        Some(tcs) => tool_calls_step(s2, tcs@),
        None => (s2, Seq::<EventModel>::empty()),
    };
    let ph3 = match ch.delta.tool_calls {
        Some(tcs) => calls_phase(ph, tcs@),
        None => ph,
    };
    let c3 = match ch.delta.tool_calls {
        Some(tcs) => lemma_tool_calls_t(s2, c2, ph, tcs@),
        None => c2,
    };
    let c4 = lemma_finish_t(s3, c3, ph3, ch, usage);
    let (s4, e4) = finish_step(s3, ch, usage);
    lemma_fs_chain(c, c2, c3, e1 + e2, e3);
    lemma_fs_chain(c, c3, c4, e1 + e2 + e3, e4);
    lemma_ends_after(e1 + e2 + e3, e4);
    if ph is Finished {
        assert(e1 + e2 + e3 + e4 =~= Seq::<EventModel>::empty());
    }
    c4
}

proof fn lemma_choices_t(
    s: StreamModel,
    c: StreamCursor,
    ph: StreamPhase,
    cs: Seq<OpenAIDeltaChoice>,
    usage: Option<OpenAIUsage>,
) -> (c2: StreamCursor)
    requires
        tracks(s, c, ph),
        c.started,
        choices_ok(ph, cs),
    ensures
        c2.started == c.started,
        follow_stream(c, choices_step(s, cs, usage).1) == Some(c2),
        tracks(choices_step(s, cs, usage).0, c2, choices_phase(ph, cs)),
        ph is Finished ==> choices_step(s, cs, usage).1.len() == 0 && choices_phase(ph, cs) is Finished,
        !(ph is Finished) && choices_phase(ph, cs) is Finished ==> ends_message(
            choices_step(s, cs, usage).1,
        ),
    decreases cs.len(),
{
    if cs.len() == 0 {
        c
    } else {
        let c1 = lemma_choices_t(s, c, ph, cs.drop_last(), usage);
        let (s1, e1) = choices_step(s, cs.drop_last(), usage);
        let ph1 = choices_phase(ph, cs.drop_last());
        let c2 = lemma_choice_t(s1, c1, ph1, cs.last(), usage);
        let e2 = choice_step(s1, cs.last(), usage).1;
        lemma_fs_chain(c, c1, c2, e1, e2);
        lemma_ends_after(e1, e2);
        if ph is Finished {
            assert(e1 + e2 =~= Seq::<EventModel>::empty());
        }
        c2
    }
}

proof fn lemma_chunk_t(s: StreamModel, c: StreamCursor, ph: StreamPhase, chunk: OpenAISSEChunk) -> (c2: StreamCursor)
    requires
        tracks(s, c, ph),
        chunk_ok(ph, chunk),
    ensures
        follow_stream(c, chunk_step(s, chunk).1) == Some(c2),
        tracks(chunk_step(s, chunk).0, c2, chunk_phase(ph, chunk)),
        !s.started ==> chunk_step(s, chunk).1.len() > 0 && chunk_step(s, chunk).1[0] is MessageStart,
        ph is Finished ==> chunk_step(s, chunk).1.len() == 0 && chunk_phase(ph, chunk) is Finished,
        !(ph is Finished) && chunk_phase(ph, chunk) is Finished ==> ends_message(
            chunk_step(s, chunk).1,
        ),
{
    let r = record_chunk(s, chunk);
    assert(tracks(r, c, ph));
    let (s1, e1) = start_step(r);
    let c1 = if !r.started {
        lemma_fs_single(c, message_start_event(r));
        StreamCursor { started: true, ..c }
    } else {
        c
    };
    match chunk.choices {
        Some(cs) => {
            let c2 = lemma_choices_t(s1, c1, ph, cs@, chunk.usage);
            let e2 = choices_step(s1, cs@, chunk.usage).1;
            lemma_fs_chain(c, c1, c2, e1, e2);
            lemma_ends_after(e1, e2);
            if ph is Finished {
                assert(e1 + e2 =~= Seq::<EventModel>::empty());
            }
            c2
        },
        None => c1,
    }
}

proof fn lemma_stream_t(s: StreamModel, cs: Seq<OpenAISSEChunk>) -> (c2: StreamCursor)
    requires
        !s.started,
        !s.content_block_open,
        s.content_index == 0,
        stream_ok(cs),
    ensures
        follow_stream(initial_cursor(), stream_run(s, cs).1) == Some(c2),
        tracks(stream_run(s, cs).0, c2, stream_phase(cs)),
        cs.len() > 0 ==> stream_run(s, cs).1.len() > 0 && stream_run(s, cs).1[0] is MessageStart,
        stream_phase(cs) is Finished ==> ends_message(stream_run(s, cs).1),
    decreases cs.len(),
{
    if cs.len() == 0 {
        initial_cursor()
    } else {
        let c1 = lemma_stream_t(s, cs.drop_last());
        let (s1, e1) = stream_run(s, cs.drop_last());
        let ph1 = stream_phase(cs.drop_last());
        let c2 = lemma_chunk_t(s1, c1, ph1, cs.last());
        let e2 = chunk_step(s1, cs.last()).1;
        lemma_fs_chain(initial_cursor(), c1, c2, e1, e2);
        lemma_ends_after(e1, e2);
        if cs.len() == 1 {
            assert(e1 =~= Seq::<EventModel>::empty());
            assert(e1 + e2 =~= e2);
        } else {
            assert((e1 + e2)[0] == e1[0]);
        }
        c2
    }
}

/// A well-formed stream, converted chunk by chunk from a fresh state, keeps
/// the whole Anthropic event protocol: `message_start` comes first and
/// once; blocks open and close one at a time with indices 0, 1, 2, ...;
/// text deltas fall in text blocks and JSON deltas in `tool_use` blocks;
/// the message ends only with no block open; and once a finish reason has
/// come, no block is open and the events end with `message_delta`,
/// `message_stop`.
pub proof fn law_whole_stream(s: StreamModel, cs: Seq<OpenAISSEChunk>)
    requires
        !s.started,
        !s.content_block_open,
        s.content_index == 0,
        stream_ok(cs),
    ensures
        follow_stream(initial_cursor(), stream_run(s, cs).1) is Some,
        cs.len() > 0 ==> stream_run(s, cs).1.len() > 0 && stream_run(s, cs).1[0] is MessageStart,
        stream_phase(cs) is Finished ==> !stream_run(s, cs).0.content_block_open && ends_message(
            stream_run(s, cs).1,
        ),
{
    lemma_stream_t(s, cs);
}

// ---------------------------------------------------------------------------
// The text of a stream
// ---------------------------------------------------------------------------

/// The text that the `text_delta` events of `es` carry, in order.
pub open spec fn delta_text(es: Seq<EventModel>) -> Seq<char>
    decreases es.len(),
{
    if es.len() == 0 {
        Seq::empty()
    } else {
        delta_text(es.drop_last()) + match es.last() {
            EventModel::ContentBlockDelta { delta: DeltaModel::TextDelta(t), .. } => t,
            _ => Seq::empty(),
        }
    }
}

/// The text contents of a list of choices, in order.
pub open spec fn choices_text(cs: Seq<OpenAIDeltaChoice>) -> Seq<char>
    decreases cs.len(),
{
    if cs.len() == 0 {
        Seq::empty()
    } else {
        choices_text(cs.drop_last()) + match cs.last().delta.content {
            Some(t) => t@,
            None => Seq::empty(),
        }
    }
}

/// The text contents of a chunk's choices, in order.
pub open spec fn chunk_text(c: OpenAISSEChunk) -> Seq<char> {
    match c.choices {
        Some(cs) => choices_text(cs@),
        None => Seq::empty(),
    }
}

/// The text contents of a stream of chunks, in order.
pub open spec fn stream_text(cs: Seq<OpenAISSEChunk>) -> Seq<char>
    decreases cs.len(),
{
    if cs.len() == 0 {
        Seq::empty()
    } else {
        stream_text(cs.drop_last()) + chunk_text(cs.last())
    }
}

proof fn lemma_delta_text_concat(a: Seq<EventModel>, b: Seq<EventModel>)
    ensures
        delta_text(a + b) == delta_text(a) + delta_text(b),
    decreases b.len(),
{
    if b.len() == 0 {
        assert(a + b =~= a);
        assert(delta_text(a) + delta_text(b) =~= delta_text(a));
    } else {
        lemma_delta_text_concat(a, b.drop_last());
        assert((a + b).drop_last() =~= a + b.drop_last());
        assert((a + b).last() == b.last());
        assert(delta_text(a + b) =~= delta_text(a) + delta_text(b));
    }
}

proof fn lemma_delta_text_single(e: EventModel)
    ensures
        delta_text(seq![e]) == match e {
            EventModel::ContentBlockDelta { delta: DeltaModel::TextDelta(t), .. } => t,
            _ => Seq::empty(),
        },
{
    assert(seq![e].drop_last() =~= Seq::<EventModel>::empty());
    assert(delta_text(Seq::<EventModel>::empty()) == Seq::<char>::empty());
    assert(delta_text(seq![e]) =~= match e {
        EventModel::ContentBlockDelta { delta: DeltaModel::TextDelta(t), .. } => t,
        _ => Seq::empty(),
    });
}

proof fn lemma_open_no_text(s: StreamModel)
    ensures
        delta_text(ensure_block_open(s).1) == Seq::<char>::empty(),
{
    if !s.content_block_open {
        lemma_delta_text_single(text_block_start(s.content_index));
    }
}

proof fn lemma_tool_calls_no_text(s: StreamModel, tcs: Seq<OpenAIDeltaToolCall>)
    ensures
        delta_text(tool_calls_step(s, tcs).1) == Seq::<char>::empty(),
    decreases tcs.len(),
{
    if tcs.len() > 0 {
        lemma_tool_calls_no_text(s, tcs.drop_last());
        let (s1, e1) = tool_calls_step(s, tcs.drop_last());
        let tc = tcs.last();
        let (s2, e2) = tool_start_step(s1, tc);
        let (s3, e3) = tool_args_step(s2, tc);
        match tc.id {
            Some(id) => {
                let start = EventModel::ContentBlockStart {
                    index: if s1.content_block_open {
                        s1.content_index + 1
                    } else {
                        s1.content_index
                    },
                    block: ResponseBlockModel::ToolUse { id: id@, name: delta_name(tc), input: "{}"@ },
                };
                lemma_delta_text_single(start);
                if s1.content_block_open {
                    let stop = EventModel::ContentBlockStop { index: s1.content_index };
                    lemma_delta_text_single(stop);
                    lemma_delta_text_concat(seq![stop], seq![start]);
                    assert(seq![stop].push(start) =~= seq![stop] + seq![start]);
                } else {
                    assert(Seq::<EventModel>::empty().push(start) =~= seq![start]);
                }
            },
            None => {},
        }
        if delta_arguments(tc).len() > 0 {
            lemma_delta_text_single(
                EventModel::ContentBlockDelta {
                    index: s2.content_index,
                    delta: DeltaModel::InputJsonDelta(delta_arguments(tc)),
                },
            );
        }
        lemma_delta_text_concat(e2, e3);
        lemma_delta_text_concat(e1, e2 + e3);
    }
}

proof fn lemma_choice_text(s: StreamModel, ch: OpenAIDeltaChoice, usage: Option<OpenAIUsage>)
    ensures
        delta_text(choice_step(s, ch, usage).1) == match ch.delta.content {
            Some(t) => t@,
            None => Seq::<char>::empty(),
        },
{
    let (s1, e1) = role_step(s, ch);
    let (s2, e2) = text_step(s1, ch);
    let (s3, e3) = match ch.delta.tool_calls {
        Some(tcs) => tool_calls_step(s2, tcs@),
        None => (s2, Seq::<EventModel>::empty()),
    };
    let (s4, e4) = finish_step(s3, ch, usage);
    if ch.delta.role is Some {
        lemma_open_no_text(s);
    }
    match ch.delta.content {
        Some(t) => {
            lemma_open_no_text(s1);
            let (so, eo) = ensure_block_open(s1);
            let d = EventModel::ContentBlockDelta {
                index: so.content_index,
                delta: DeltaModel::TextDelta(t@),
            };
            lemma_delta_text_single(d);
            lemma_delta_text_concat(eo, seq![d]);
            assert(eo.push(d) =~= eo + seq![d]);
        },
        None => {},
    }
    match ch.delta.tool_calls {
        Some(tcs) => lemma_tool_calls_no_text(s2, tcs@),
        None => {},
    }
    match ch.finish_reason {
        Some(fr) => {
            let output_tokens = match usage {
                Some(u) => u.completion_tokens,
                None => 0,
            };
            let md = EventModel::MessageDelta {
                stop_reason: stop_reason_for(fr@),
                stop_sequence: None,
                output_tokens,
            };
            lemma_delta_text_single(md);
            lemma_delta_text_single(EventModel::MessageStop);
            lemma_delta_text_concat(seq![md], seq![EventModel::MessageStop]);
            assert(seq![md] + seq![EventModel::MessageStop] =~= seq![md, EventModel::MessageStop]);
            if s3.content_block_open {
                let stop = EventModel::ContentBlockStop { index: s3.content_index };
                lemma_delta_text_single(stop);
                lemma_delta_text_concat(seq![stop], seq![md, EventModel::MessageStop]);
            } else {
                assert(Seq::<EventModel>::empty() + seq![md, EventModel::MessageStop] =~= seq![
                    md,
                    EventModel::MessageStop,
                ]);
            }
        },
        None => {},
    }
    lemma_delta_text_concat(e1, e2);
    lemma_delta_text_concat(e1 + e2, e3);
    lemma_delta_text_concat(e1 + e2 + e3, e4);
    assert(delta_text(choice_step(s, ch, usage).1) =~= match ch.delta.content {
        Some(t) => t@,
        None => Seq::<char>::empty(),
    });
}

proof fn lemma_choices_text(s: StreamModel, cs: Seq<OpenAIDeltaChoice>, usage: Option<OpenAIUsage>)
    ensures
        delta_text(choices_step(s, cs, usage).1) == choices_text(cs),
    decreases cs.len(),
{
    if cs.len() > 0 {
        lemma_choices_text(s, cs.drop_last(), usage);
        let (s1, e1) = choices_step(s, cs.drop_last(), usage);
        lemma_choice_text(s1, cs.last(), usage);
        lemma_delta_text_concat(e1, choice_step(s1, cs.last(), usage).1);
    }
}

/// The text deltas of a chunk carry exactly the chunk's text contents:
/// each content piece, whole and unchanged, in order.
pub proof fn law_chunk_text_forwarded(s: StreamModel, c: OpenAISSEChunk)
    ensures
        delta_text(chunk_step(s, c).1) == chunk_text(c),
{
    let r = record_chunk(s, c);
    let (s1, e1) = start_step(r);
    if !r.started {
        lemma_delta_text_single(message_start_event(r));
    }
    match c.choices {
        Some(cs) => {
            lemma_choices_text(s1, cs@, c.usage);
            lemma_delta_text_concat(e1, choices_step(s1, cs@, c.usage).1);
        },
        None => {},
    }
}

/// Over a whole stream, the text the client reads from the `text_delta`
/// events is the concatenation of the backend's text contents.
pub proof fn law_stream_text_forwarded(s: StreamModel, cs: Seq<OpenAISSEChunk>)
    ensures
        delta_text(stream_run(s, cs).1) == stream_text(cs),
    decreases cs.len(),
{
    if cs.len() > 0 {
        law_stream_text_forwarded(s, cs.drop_last());
        let (s1, e1) = stream_run(s, cs.drop_last());
        law_chunk_text_forwarded(s1, cs.last());
        lemma_delta_text_concat(e1, chunk_step(s1, cs.last()).1);
    }
}

} // verus!
