//! The chat-completions streaming layer: the Server-Sent-Events line decoder,
//! the interpretation of streamed chunks, the retry policy, and the message
//! types exchanged with the model.

use vstd::prelude::*;
use crate::dap::{get_string, opt_view, str_member};
use crate::json::JsonValue;
use crate::text::{chars_of, occurs_at, slice, str_eq, string_of};
use crate::tools::{trim_chars, trim_ws};

verus! {

/// The text of a message: plain, or a list of typed parts.
pub enum MessageContent {
    Text(String),
    Parts(Vec<ContentPart>),
}

/// One part of a message: text or an image reference.
pub struct ContentPart {
    pub kind: String,
    pub text: Option<String>,
    pub image_url: Option<ImageUrl>,
}

pub struct ImageUrl {
    pub url: String,
}

/// One chat message.
pub struct Message {
    pub role: String,
    pub content: Option<MessageContent>,
    pub tool_calls: Option<Vec<ToolCall>>,
    pub tool_call_id: Option<String>,
}

pub struct ToolCall {
    pub id: String,
    pub kind: String,
    pub function: FunctionCall,
}

pub struct FunctionCall {
    pub name: String,
    pub arguments: String,
}

pub struct ChatCompletionResponse {
    pub choices: Vec<Choice>,
}

pub struct Choice {
    pub message: Message,
}

/// One streamed chunk.
pub struct StreamChunk {
    pub id: Option<String>,
    pub choices: Vec<StreamChoice>,
}

pub struct StreamChoice {
    pub delta: StreamDelta,
    pub finish_reason: Option<String>,
}

pub struct StreamDelta {
    pub content: Option<String>,
    pub tool_calls: Option<Vec<StreamDeltaToolCall>>,
}

/// A fragment of a tool call.
pub struct StreamDeltaToolCall {
    pub index: i32,
    pub id: Option<String>,
    pub kind: Option<String>,
    pub function: Option<StreamDeltaFunction>,
}

pub struct StreamDeltaFunction {
    pub name: Option<String>,
    pub arguments: Option<String>,
}

/// What the stream yields.
pub enum StreamEvent {
    TextChunk(String),
    ToolCallChunk(StreamDeltaToolCall),
    Done,
}

/// The delta of the first choice of a chunk.
pub open spec fn first_delta(chunk: JsonValue) -> Option<JsonValue> {
    match chunk.field("choices"@) {
        Some(c) => match c.array_of() {
            Some(list) => if list.len() > 0 {
                list[0].field("delta"@)
            } else {
                None
            },
            None => None,
        },
        None => None,
    }
}

/// The text a chunk carries: `choices[0].delta.content`, empty when absent.
pub open spec fn content_of(chunk: JsonValue) -> Seq<char> {
    match first_delta(chunk) {
        Some(d) => match str_member(d, "content"@) {
            Some(t) => t,
            None => Seq::empty(),
        },
        None => Seq::empty(),
    }
}

/// The text an interpreted chunk emits: a `TextChunk`'s payload, else nothing.
pub open spec fn emitted_text(e: Option<StreamEvent>) -> Seq<char> {
    match e {
        Some(StreamEvent::TextChunk(t)) => t@,
        _ => Seq::empty(),
    }
}

/// The first tool-call fragment of a chunk's first delta.
pub open spec fn first_tool_call(chunk: JsonValue) -> Option<JsonValue> {
    match first_delta(chunk) {
        Some(d) => match d.field("tool_calls"@) {
            Some(t) => match t.array_of() {
                Some(list) => if list.len() > 0 {
                    Some(list[0])
                } else {
                    None
                },
                None => None,
            },
            None => None,
        },
        None => None,
    }
}

/// The index of a tool-call fragment, when it is an integer that fits in `i32`.
pub open spec fn call_index(call: JsonValue) -> Option<i32> {
    match call.field("index"@) {
        Some(x) => match x.i64_of() {
            Some(n) => if i32::MIN <= n && n <= i32::MAX {
                Some(n as i32)
            } else {
                None
            },
            None => None,
        },
        None => None,
    }
}

/// A decoded fragment agrees with the JSON it came from.
pub open spec fn call_matches(c: StreamDeltaToolCall, v: JsonValue) -> bool {
    Some(c.index) == call_index(v) && opt_view(c.id) == str_member(v, "id"@) && opt_view(c.kind)
        == str_member(v, "type"@)
}

fn tool_call_of(v: &JsonValue) -> (r: Option<StreamDeltaToolCall>)
    ensures
        r is Some <==> call_index(*v) is Some,
        r matches Some(c) ==> call_matches(c, *v),
{
    let index = match v.get("index") {
        Some(i) => match i.as_i64() {
            Some(n) => if i32::MIN as i64 <= n && n <= i32::MAX as i64 {
                n as i32
            } else {
                return None;
            },
            None => {
                return None;
            },
        },
        None => {
            return None;
        },
    };
    let function = match v.get("function") {
        Some(f) => if f.is_null() {
            None
        } else {
            Some(StreamDeltaFunction { name: get_string(f, "name"), arguments: get_string(f, "arguments") })
        },
        None => None,
    };
    Some(StreamDeltaToolCall { index, id: get_string(v, "id"), kind: get_string(v, "type"), function })
}

/// The event a streamed chunk yields: its first choice's non-empty text, else
/// its first tool-call fragment, else none.
pub fn chunk_event(chunk: &JsonValue) -> (r: Option<StreamEvent>)
    ensures
        emitted_text(r) == content_of(*chunk),
        r matches Some(StreamEvent::TextChunk(t)) ==> t@.len() > 0,
        !(r is Some && r->Some_0 is Done),
        content_of(*chunk).len() == 0 ==> match first_tool_call(*chunk) {
            Some(call) => if call_index(call) is Some {
                r matches Some(StreamEvent::ToolCallChunk(c)) && call_matches(c, call)
            } else {
                r is None
            },
            None => r is None,
        },
{
    let delta = match chunk.get("choices") {
        Some(c) => match c.as_array() {
            Some(list) => if list.len() > 0 {
                list[0].get("delta")
            } else {
                None
            },
            None => None,
        },
        None => None,
    };
    let delta = match delta {
        Some(d) => d,
        None => {
            return None;
        },
    };
    let content = get_string(delta, "content");
    if let Some(text) = content {
        if !text.as_str().is_empty() {
            return Some(StreamEvent::TextChunk(text));
        }
    }
    let first_call = match delta.get("tool_calls") {
        Some(calls) => match calls.as_array() {
            Some(list) => if list.len() > 0 {
                tool_call_of(&list[0])
            } else {
                None
            },
            None => None,
        },
        None => None,
    };
    match first_call {
        Some(call) => Some(StreamEvent::ToolCallChunk(call)),
        None => None,
    }
}

/// The concatenation of a sequence of texts.
pub open spec fn concat_all(ts: Seq<Seq<char>>) -> Seq<char>
    decreases ts.len(),
{
    if ts.len() == 0 {
        Seq::empty()
    } else {
        concat_all(ts.drop_last()) + ts.last()
    }
}

/// Concatenating the text of the emitted `TextChunk` events gives the
/// concatenation of every chunk's `choices[0].delta.content`.
pub proof fn law_text_chunks_concatenate(chunks: Seq<JsonValue>, events: Seq<Option<StreamEvent>>)
    requires
        events.len() == chunks.len(),
        forall|i: int| 0 <= i < chunks.len() ==> emitted_text(#[trigger] events[i]) == content_of(chunks[i]),
    ensures
        concat_all(Seq::new(events.len(), |i: int| emitted_text(events[i]))) == concat_all(
            Seq::new(chunks.len(), |i: int| content_of(chunks[i])),
        ),
{
    assert(Seq::new(events.len(), |i: int| emitted_text(events[i])) =~= Seq::new(
        chunks.len(),
        |i: int| content_of(chunks[i]),
    ));
}

/// What one SSE line means.
pub enum SseLine {
    /// `data: [DONE]`: the stream is over.
    Done,
    /// `data: <payload>`: a chunk to interpret.
    Data(String),
    /// Anything else.
    Skip,
}

/// The meaning of a line, given trimmed: `data: ` lines carry a payload, and
/// the payload `[DONE]` ends the stream.
pub open spec fn sse_line_meaning(line: Seq<char>) -> Option<Option<Seq<char>>> {
    let t = trim_ws(line);
    if occurs_at(t, "data: "@, 0) {
        let payload = t.subrange(6, t.len() as int);
        if payload == "[DONE]"@ {
            Some(None)
        } else {
            Some(Some(payload))
        }
    } else {
        None
    }
}

/// Interprets one line of the stream (without its newline).
pub fn classify_sse_line(line: &str) -> (r: SseLine)
    ensures
        match sse_line_meaning(line@) {
            Some(None) => r is Done,
            Some(Some(p)) => r matches SseLine::Data(x) && x@ == p,
            None => r is Skip,
        },
{
    proof {
        reveal_strlit("data: ");
        reveal_strlit("[DONE]");
    }
    let raw = chars_of(line);
    let t = trim_chars(&raw);
    let prefix = chars_of("data: ");
    if !crate::text::starts_with(&t, &prefix) {
        return SseLine::Skip;
    }
    let payload = slice(&t, 6, t.len());
    let text = string_of(&payload);
    if str_eq(text.as_str(), "[DONE]") {
        SseLine::Done
    } else {
        SseLine::Data(text)
    }
}

/// The bytes received and not yet split into lines.
pub struct SseDecoder {
    pub buffer: Vec<u8>,
}

/// The text of a line's bytes, invalid UTF-8 replaced.
pub uninterp spec fn lossy_text_of(b: Seq<u8>) -> Seq<char>;

/// Relies on `String::from_utf8_lossy`: the decoded text is a function of the bytes.
#[verifier::external_body]
fn lossy_text(b: &[u8]) -> (r: String)
    ensures
        r@ == lossy_text_of(b@),
{
    String::from_utf8_lossy(b).into_owned()
}

impl SseDecoder {
    pub fn new() -> (r: Self)
        ensures
            r.buffer@.len() == 0,
    {
        SseDecoder { buffer: Vec::new() }
    }

    /// Appends received bytes.
    pub fn push_bytes(&mut self, bytes: &[u8])
        ensures
            final(self).buffer@ == old(self).buffer@ + bytes@,
    {
        let mut i: usize = 0;
        let ghost start = self.buffer@;
        while i < bytes.len()
            invariant
                i <= bytes@.len(),
                self.buffer@ == start + bytes@.subrange(0, i as int),
            decreases bytes@.len() - i,
        {
            self.buffer.push(bytes[i]);
            i += 1;
            assert(self.buffer@ =~= start + bytes@.subrange(0, i as int));
        }
        assert(bytes@.subrange(0, bytes@.len() as int) =~= bytes@);
    }

    /// Takes the first complete line out of the buffer, decoded; a partial
    /// last line stays until its newline arrives.
    pub fn next_line(&mut self) -> (r: Option<String>)
        ensures
            match r {
                Some(line) => exists|k: int|
                    0 <= k < old(self).buffer@.len() && old(self).buffer@[k] == 10 && (forall|j: int|
                        0 <= j < k ==> old(self).buffer@[j] != 10) && line@ == lossy_text_of(
                        old(self).buffer@.subrange(0, k),
                    ) && final(self).buffer@ == old(self).buffer@.subrange(
                        k + 1,
                        old(self).buffer@.len() as int,
                    ),
                None => final(self).buffer@ == old(self).buffer@ && forall|j: int|
                    0 <= j < old(self).buffer@.len() ==> old(self).buffer@[j] != 10,
            },
    {
        let n = self.buffer.len();
        let mut k: usize = 0;
        while k < n
            invariant
                k <= n == self.buffer@.len(),
                *self == *old(self),
                forall|j: int| 0 <= j < k ==> self.buffer@[j] != 10,
            decreases n - k,
        {
            if self.buffer[k] == 10 {
                let line = crate::framing::slice_bytes(&self.buffer, 0, k);
                let rest = crate::framing::slice_bytes(&self.buffer, k + 1, n);
                let text = lossy_text(line.as_slice());
                self.buffer = rest;
                return Some(text);
            }
            k += 1;
        }
        None
    }
}

/// A stream of chat events over a source of byte chunks.
pub struct SseStream<S> {
    pub inner: S,
    pub decoder: SseDecoder,
}

impl<S> SseStream<S> {
    /// A stream over `inner` with nothing buffered.
    pub fn new(inner: S) -> (r: Self)
        ensures
            r.inner == inner,
            r.decoder.buffer@.len() == 0,
    {
        SseStream { inner, decoder: SseDecoder::new() }
    }
}

/// The most retries of one request.
pub const MAX_RETRIES: u32 = 3;

/// How a request attempt went.
pub enum HttpOutcome {
    Success,
    /// A response with a non-2xx status.
    Status(u16),
    /// The request did not get a response.
    NetworkError,
}

/// What the client does next.
#[derive(PartialEq, Eq, Structural, Clone, Copy, Debug)]
pub enum RetryDecision {
    /// Hand the response body to the SSE decoder.
    Stream,
    /// Wait this many seconds, then send the request again.
    RetryAfter { delay_secs: u64 },
    /// Give up after too many rate-limit answers.
    FailRateLimited,
    /// Give up on an error status.
    FailStatus,
    /// Give up after too many network errors.
    FailNetwork,
}

/// Retries made so far and the delay before the next one.
pub struct RetryState {
    pub retries: u32,
    pub delay_secs: u64,
}

impl RetryState {
    /// No retry made yet; the first waits 2 s.
    pub fn new() -> (r: Self)
        ensures
            r.retries == 0,
            r.delay_secs == 2,
    {
        RetryState { retries: 0, delay_secs: 2 }
    }

    /// The consistency of the counters: the delay doubles with each retry.
    pub open spec fn wf(&self) -> bool {
        self.retries <= MAX_RETRIES && self.delay_secs == 2 * pow2(self.retries as nat)
    }

    /// Decides what follows an attempt: retry a network error, a 429 or a 5xx
    /// status while fewer than `MAX_RETRIES` retries were made, doubling the
    /// delay each time; fail on any other error status.
    pub fn decide(&mut self, outcome: HttpOutcome) -> (r: RetryDecision)
        requires
            old(self).wf(),
        ensures
            final(self).wf(),
            match outcome {
                HttpOutcome::Success => r == RetryDecision::Stream,
                HttpOutcome::Status(s) => if s == 429 || (500 <= s && s < 600) {
                    if old(self).retries < MAX_RETRIES {
                        r == (RetryDecision::RetryAfter { delay_secs: old(self).delay_secs })
                    } else if s == 429 {
                        r == RetryDecision::FailRateLimited
                    } else {
                        r == RetryDecision::FailStatus
                    }
                } else {
                    r == RetryDecision::FailStatus
                },
                HttpOutcome::NetworkError => if old(self).retries < MAX_RETRIES {
                    r == (RetryDecision::RetryAfter { delay_secs: old(self).delay_secs })
                } else {
                    r == RetryDecision::FailNetwork
                },
            },
            r is RetryAfter ==> final(self).retries == old(self).retries + 1
                && final(self).delay_secs == 2 * old(self).delay_secs,
            !(r is RetryAfter) ==> final(self).retries == old(self).retries
                && final(self).delay_secs == old(self).delay_secs,
    {
        let retryable = match outcome {
            HttpOutcome::Success => {
                return RetryDecision::Stream;
            },
            HttpOutcome::Status(s) => s == 429 || (500 <= s && s < 600),
            HttpOutcome::NetworkError => true,
        };
        if retryable && self.retries < MAX_RETRIES {
            let d = self.delay_secs;
            proof {
                lemma_pow2_bound(self.retries as nat);
            }
            self.retries = self.retries + 1;
            self.delay_secs = d * 2;
            return RetryDecision::RetryAfter { delay_secs: d };
        }
        match outcome {
            HttpOutcome::Status(s) => if s == 429 && retryable {
                RetryDecision::FailRateLimited
            } else {
                RetryDecision::FailStatus
            },
            _ => RetryDecision::FailNetwork,
        }
    }
}

pub open spec fn pow2(n: nat) -> nat
    decreases n,
{
    if n == 0 {
        1
    } else {
        2 * pow2((n - 1) as nat)
    }
}

proof fn lemma_pow2_bound(n: nat)
    requires
        n <= MAX_RETRIES,
    ensures
        pow2(n) <= 8,
{
    reveal_with_fuel(pow2, 4);
}

} // verus!
