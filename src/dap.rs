//! The Debug Adapter Protocol session core: outbound sequence numbers, the
//! table of requests awaiting a response, the dispatch of inbound messages,
//! stop tracking with its generation counter, and the bounded ring of recent
//! output events.
//!
//! The table entries carry a handle of the caller's choosing (a channel on
//! which the response is delivered); the core hands it back when the response
//! arrives or the request is given up.

use std::collections::VecDeque;
use vstd::prelude::*;
use crate::json::JsonValue;
use crate::text::{chars_of, str_eq, string_of};

verus! {

/// Capacity of the recent-output ring.
pub const MAX_RECENT_OUTPUT_EVENTS: usize = 1024;

/// The last `n` elements of `s`; all of `s` when it is shorter.
pub open spec fn keep_last<T>(s: Seq<T>, n: nat) -> Seq<T> {
    if s.len() <= n {
        s
    } else {
        s.subrange(s.len() - n, s.len() as int)
    }
}

/// Appends `(seq, output)` to the ring and evicts from the front until at
/// most `MAX_RECENT_OUTPUT_EVENTS` entries remain.
pub fn push_recent_output_event(events: &mut VecDeque<(u64, String)>, seq: u64, output: String)
    ensures
        final(events)@ == keep_last(old(events)@.push((seq, output)), MAX_RECENT_OUTPUT_EVENTS as nat),
{
    let ghost full = old(events)@.push((seq, output));
    events.push_back((seq, output));
    assert(full.subrange(0, full.len() as int) =~= full);
    while events.len() > MAX_RECENT_OUTPUT_EVENTS
        invariant
            full.len() >= events@.len(),
            events@.len() == full.len() || events@.len() >= MAX_RECENT_OUTPUT_EVENTS,
            events@ == full.subrange(full.len() - events@.len(), full.len() as int),
        decreases events@.len(),
    {
        let _ = events.pop_front();
    }
    assert(events@ =~= keep_last(full, MAX_RECENT_OUTPUT_EVENTS as nat));
}

/// The string member `key` of `v`.
pub open spec fn str_member(v: JsonValue, key: Seq<char>) -> Option<Seq<char>> {
    match v.field(key) {
        Some(x) => x.str_of(),
        None => None,
    }
}

/// The `u64` member `key` of `v`.
pub open spec fn u64_member(v: JsonValue, key: Seq<char>) -> Option<u64> {
    match v.field(key) {
        Some(x) => x.u64_of(),
        None => None,
    }
}

/// The `body` member of a message when it is an object.
pub open spec fn body_of(m: JsonValue) -> Option<JsonValue> {
    match m.field("body"@) {
        Some(b) => if b is Object {
            Some(b)
        } else {
            None
        },
        None => None,
    }
}

/// The string member `key` of an optional object.
pub open spec fn opt_str(o: Option<JsonValue>, key: Seq<char>) -> Option<Seq<char>> {
    match o {
        Some(v) => str_member(v, key),
        None => None,
    }
}

/// The text an `output` event carries: `body.output`.
pub open spec fn output_text(m: JsonValue) -> Option<Seq<char>> {
    opt_str(body_of(m), "output"@)
}

/// How the reader treats an inbound message.
pub enum MessageKind {
    Response { request_seq: u64 },
    Stopped,
    Output,
    Initialized,
    Other,
}

/// The dispatch rule: responses by `request_seq`; `stopped`, `output` and
/// `initialized` events; everything else is only logged.
pub open spec fn message_kind(m: JsonValue) -> MessageKind {
    if str_member(m, "type"@) == Some("response"@) {
        match u64_member(m, "request_seq"@) {
            Some(s) => MessageKind::Response { request_seq: s },
            None => MessageKind::Other,
        }
    } else if str_member(m, "type"@) == Some("event"@) {
        if str_member(m, "event"@) == Some("stopped"@) {
            MessageKind::Stopped
        } else if str_member(m, "event"@) == Some("output"@) {
            MessageKind::Output
        } else if str_member(m, "event"@) == Some("initialized"@) {
            MessageKind::Initialized
        } else {
            MessageKind::Other
        }
    } else {
        MessageKind::Other
    }
}

/// The projection of a `stopped` event's body that callers see.
pub struct StopSummary {
    pub reason: Option<String>,
    pub description: Option<String>,
    pub text: Option<String>,
    pub thread_id: Option<u64>,
    pub all_threads_stopped: Option<bool>,
    pub hit_breakpoint_ids: Option<Vec<u64>>,
}

pub open spec fn opt_view(o: Option<String>) -> Option<Seq<char>> {
    match o {
        Some(s) => Some(s@),
        None => None,
    }
}

/// The values of an array whose elements are all integers that fit in `u64`.
pub open spec fn u64_array(v: JsonValue) -> Option<Seq<u64>> {
    match v {
        JsonValue::Array(items) => if forall|i: int|
            0 <= i < items@.len() ==> (#[trigger] items@[i]).u64_of() is Some {
            Some(Seq::new(items@.len(), |i: int| items@[i].u64_of().unwrap()))
        } else {
            None
        },
        _ => None,
    }
}

/// What a summary of `event` holds, member by member of its body.
pub open spec fn summarizes(s: StopSummary, event: JsonValue) -> bool {
    let body = body_of(event);
    &&& opt_view(s.reason) == opt_str(body, "reason"@)
    &&& opt_view(s.description) == opt_str(body, "description"@)
    &&& opt_view(s.text) == opt_str(body, "text"@)
    &&& s.thread_id == match body {
        Some(b) => u64_member(b, "threadId"@),
        None => None,
    }
    &&& s.all_threads_stopped == match body {
        Some(b) => match b.field("allThreadsStopped"@) {
            Some(x) => x.bool_of(),
            None => None,
        },
        None => None,
    }
    &&& match s.hit_breakpoint_ids {
        Some(ids) => match body {
            Some(b) => match b.field("hitBreakpointIds"@) {
                Some(x) => u64_array(x) == Some(ids@),
                None => false,
            },
            None => false,
        },
        None => match body {
            Some(b) => match b.field("hitBreakpointIds"@) {
                Some(x) => u64_array(x) is None,
                None => true,
            },
            None => true,
        },
    }
}

/// The string member `key` of `v`, copied.
pub fn get_string(v: &JsonValue, key: &str) -> (r: Option<String>)
    ensures
        opt_view(r) == str_member(*v, key@),
{
    match v.get(key) {
        Some(x) => match x.as_str() {
            Some(s) => Some(s.clone()),
            None => None,
        },
        None => None,
    }
}

/// The `u64` member `key` of `v`.
pub fn get_u64(v: &JsonValue, key: &str) -> (r: Option<u64>)
    ensures
        r == u64_member(*v, key@),
{
    match v.get(key) {
        Some(x) => x.as_u64(),
        None => None,
    }
}

/// The `body` member of `m` when it is an object.
pub fn get_body(m: &JsonValue) -> (r: Option<&JsonValue>)
    ensures
        match r {
            Some(b) => body_of(*m) == Some(*b),
            None => body_of(*m) is None,
        },
{
    match m.get("body") {
        Some(b) => match b {
            JsonValue::Object(_) => Some(b),
            _ => None,
        },
        None => None,
    }
}

fn ids_of(v: &JsonValue) -> (r: Option<Vec<u64>>)
    ensures
        match r {
            Some(ids) => u64_array(*v) == Some(ids@),
            None => u64_array(*v) is None,
        },
{
    match v {
        JsonValue::Array(items) => {
            let mut ids: Vec<u64> = Vec::new();
            let mut i: usize = 0;
            while i < items.len()
                invariant
                    *v == JsonValue::Array(*items),
                    i <= items@.len(),
                    ids@.len() == i,
                    forall|j: int| 0 <= j < i ==> (#[trigger] items@[j]).u64_of() == Some(ids@[j]),
                decreases items@.len() - i,
            {
                match items[i].as_u64() {
                    Some(n) => ids.push(n),
                    None => {
                        assert(!(items@[i as int].u64_of() is Some));
                        return None;
                    },
                }
                i += 1;
            }
            assert(ids@ =~= Seq::new(items@.len(), |k: int| items@[k].u64_of().unwrap()));
            Some(ids)
        },
        _ => None,
    }
}

/// The stop summary of a `stopped` event.
pub fn stopped_summary(event: &JsonValue) -> (r: StopSummary)
    ensures
        summarizes(r, *event),
{
    match get_body(event) {
        Some(body) => {
            let all_threads_stopped = match body.get("allThreadsStopped") {
                Some(x) => x.as_bool(),
                None => None,
            };
            let hit_breakpoint_ids = match body.get("hitBreakpointIds") {
                Some(x) => ids_of(x),
                None => None,
            };
            StopSummary {
                reason: get_string(body, "reason"),
                description: get_string(body, "description"),
                text: get_string(body, "text"),
                thread_id: get_u64(body, "threadId"),
                all_threads_stopped,
                hit_breakpoint_ids,
            }
        },
        None => StopSummary {
            reason: None,
            description: None,
            text: None,
            thread_id: None,
            all_threads_stopped: None,
            hit_breakpoint_ids: None,
        },
    }
}

/// Two summaries that hold the same values.
pub open spec fn same_summary(a: StopSummary, b: StopSummary) -> bool {
    &&& opt_view(a.reason) == opt_view(b.reason)
    &&& opt_view(a.description) == opt_view(b.description)
    &&& opt_view(a.text) == opt_view(b.text)
    &&& a.thread_id == b.thread_id
    &&& a.all_threads_stopped == b.all_threads_stopped
    &&& match (a.hit_breakpoint_ids, b.hit_breakpoint_ids) {
        (Some(x), Some(y)) => x@ == y@,
        (None, None) => true,
        _ => false,
    }
}

impl StopSummary {
    /// A copy of this summary.
    pub fn copy(&self) -> (r: StopSummary)
        ensures
            same_summary(r, *self),
    {
        let hit_breakpoint_ids = match &self.hit_breakpoint_ids {
            Some(ids) => {
                let mut out: Vec<u64> = Vec::new();
                let mut i: usize = 0;
                while i < ids.len()
                    invariant
                        i <= ids@.len(),
                        out@ == ids@.subrange(0, i as int),
                    decreases ids@.len() - i,
                {
                    out.push(ids[i]);
                    i += 1;
                    assert(out@ =~= ids@.subrange(0, i as int));
                }
                assert(ids@.subrange(0, ids@.len() as int) =~= ids@);
                Some(out)
            },
            None => None,
        };
        StopSummary {
            reason: self.reason.clone(),
            description: self.description.clone(),
            text: self.text.clone(),
            thread_id: self.thread_id,
            all_threads_stopped: self.all_threads_stopped,
            hit_breakpoint_ids,
        }
    }
}

/// What the reader does with one inbound message.
pub enum Dispatch<T> {
    /// Deliver the response on the handle of the request it answers.
    Deliver(T, JsonValue),
    /// A response to no request that is still awaited (it timed out, or was never sent).
    Unmatched,
    /// A `stopped` event was recorded.
    Stopped,
    /// An `output` event was recorded in the ring.
    Output,
    /// The `initialized` event: wake every waiter.
    Initialized,
    /// Logged only.
    Ignored,
}

/// The session state shared by the reader and the callers.
pub struct DapCore<T> {
    /// The last sequence number handed out; the next request gets one more.
    pub next_seq: u64,
    /// Requests awaiting a response: their sequence number and delivery handle.
    pub pending: Vec<(u64, T)>,
    /// The summary of the latest `stopped` event, while the debuggee is stopped.
    pub last_stop: Option<StopSummary>,
    /// How many `stopped` events have arrived.
    pub stopped_generation: u64,
    /// Recent output events, oldest first.
    pub recent_output: VecDeque<(u64, String)>,
    /// The sequence number the next output event gets.
    pub output_seq: u64,
    pub initialized_seen: bool,
    pub configuration_done_sent: bool,
}

/// The sequence numbers in a pending table, in order.
pub open spec fn seqs_of<T>(pending: Seq<(u64, T)>) -> Seq<u64> {
    Seq::new(pending.len(), |i: int| pending[i].0)
}

/// Whether `seq` is awaited in `pending`.
pub open spec fn is_pending<T>(pending: Seq<(u64, T)>, seq: u64) -> bool {
    exists|i: int| 0 <= i < pending.len() && pending[i].0 == seq
}

impl<T> DapCore<T> {
    /// Sequence numbers in the table are distinct and were all handed out;
    /// the ring is within its capacity.
    pub open spec fn wf(&self) -> bool {
        &&& forall|i: int, j: int|
            0 <= i < j < self.pending@.len() ==> self.pending@[i].0 != self.pending@[j].0
        &&& forall|i: int| 0 <= i < self.pending@.len() ==> 1 <= #[trigger] self.pending@[i].0 <= self.next_seq
        &&& self.recent_output@.len() <= MAX_RECENT_OUTPUT_EVENTS
    }

    /// A session with nothing sent and nothing received.
    pub fn new() -> (r: Self)
        ensures
            r.wf(),
            r.next_seq == 0,
            r.pending@.len() == 0,
            r.last_stop is None,
            r.stopped_generation == 0,
            r.recent_output@.len() == 0,
            r.output_seq == 0,
            !r.initialized_seen,
            !r.configuration_done_sent,
    {
        DapCore {
            next_seq: 0,
            pending: Vec::new(),
            last_stop: None,
            stopped_generation: 0,
            recent_output: VecDeque::new(),
            output_seq: 0,
            initialized_seen: false,
            configuration_done_sent: false,
        }
    }

    /// Allocates the next sequence number, records `handle` as awaiting its
    /// response, and returns the number with the request message
    /// `{seq, type: "request", command, arguments}`. `None` once the numbers
    /// are exhausted.
    pub fn begin_request(&mut self, command: &str, arguments: JsonValue, handle: T) -> (r: Option<(u64, JsonValue)>)
        requires
            old(self).wf(),
        ensures
            final(self).wf(),
            final(self).stopped_generation == old(self).stopped_generation,
            final(self).recent_output@ == old(self).recent_output@,
            match r {
                Some((seq, msg)) => {
                    &&& old(self).next_seq < u64::MAX
                    &&& seq == old(self).next_seq + 1
                    &&& final(self).next_seq == seq
                    &&& final(self).pending@ == old(self).pending@.push((seq, handle))
                    &&& u64_member(msg, "seq"@) == Some(seq)
                    &&& str_member(msg, "type"@) == Some("request"@)
                    &&& str_member(msg, "command"@) == Some(command@)
                    &&& msg.field("arguments"@) == Some(arguments)
                },
                None => old(self).next_seq == u64::MAX && final(self).next_seq == old(self).next_seq
                    && final(self).pending@ == old(self).pending@,
            },
    {
        if self.next_seq == u64::MAX {
            return None;
        }
        self.next_seq = self.next_seq + 1;
        let seq = self.next_seq;
        self.pending.push((seq, handle));
        let mut entries: Vec<(String, JsonValue)> = Vec::new();
        entries.push((String::from_str("seq"), JsonValue::Uint(seq)));
        entries.push((String::from_str("type"), JsonValue::from_str("request")));
        entries.push((String::from_str("command"), JsonValue::from_str(command)));
        entries.push((String::from_str("arguments"), arguments));
        let msg = JsonValue::Object(entries);
        proof {
            reveal_with_fuel(crate::json::entries_get, 5);
            reveal_strlit("seq");
            reveal_strlit("type");
            reveal_strlit("command");
            reveal_strlit("arguments");
            let e = msg->Object_0@;
            assert(e[0].0@ == "seq"@);
            assert(e[1].0@ == "type"@);
            assert(e[2].0@ == "command"@);
            assert(e[3].0@ == "arguments"@);
            assert(e.drop_first().drop_first().drop_first()[0] == e[3]);
            assert(e.drop_first().drop_first()[0] == e[2]);
            assert(e.drop_first()[0] == e[1]);
        }
        Some((seq, msg))
    }

    /// Removes the entry for `seq`, if any, and returns its handle: for a
    /// request given up on timeout or on a failed write.
    pub fn cancel_request(&mut self, seq: u64) -> (r: Option<T>)
        requires
            old(self).wf(),
        ensures
            final(self).wf(),
            final(self).next_seq == old(self).next_seq,
            final(self).stopped_generation == old(self).stopped_generation,
            final(self).last_stop == old(self).last_stop,
            final(self).recent_output@ == old(self).recent_output@,
            final(self).output_seq == old(self).output_seq,
            final(self).initialized_seen == old(self).initialized_seen,
            final(self).configuration_done_sent == old(self).configuration_done_sent,
            r is Some <==> is_pending(old(self).pending@, seq),
            r is None ==> final(self).pending@ == old(self).pending@,
            r matches Some(h) ==> exists|i: int|
                0 <= i < old(self).pending@.len() && old(self).pending@[i] == (seq, h)
                    && final(self).pending@ == old(self).pending@.remove(i),
            !is_pending(final(self).pending@, seq),
            forall|s: u64| s != seq ==> (is_pending(final(self).pending@, s) <==> is_pending(old(self).pending@, s)),
    {
        let mut i: usize = 0;
        while i < self.pending.len()
            invariant
                self.wf(),
                *self == *old(self),
                i <= self.pending@.len(),
                forall|j: int| 0 <= j < i ==> self.pending@[j].0 != seq,
            decreases self.pending@.len() - i,
        {
            if self.pending[i].0 == seq {
                let ghost before = self.pending@;
                let (_, handle) = self.pending.remove(i);
                assert(before[i as int] == (seq, handle));
                assert(self.pending@ == before.remove(i as int));
                assert forall|s: u64| s != seq implies (is_pending(self.pending@, s) <==> is_pending(before, s)) by {
                    if is_pending(before, s) {
                        let k = choose|k: int| 0 <= k < before.len() && before[k].0 == s;
                        if k < i {
                            assert(self.pending@[k] == before[k]);
                        } else {
                            assert(self.pending@[k - 1] == before[k]);
                        }
                    }
                    if is_pending(self.pending@, s) {
                        let k = choose|k: int| 0 <= k < self.pending@.len() && self.pending@[k].0 == s;
                        if k < i {
                            assert(self.pending@[k] == before[k]);
                        } else {
                            assert(self.pending@[k] == before[k + 1]);
                        }
                    }
                }
                assert(!is_pending(self.pending@, seq)) by {
                    if is_pending(self.pending@, seq) {
                        let k = choose|k: int| 0 <= k < self.pending@.len() && self.pending@[k].0 == seq;
                        if k < i {
                            assert(self.pending@[k] == before[k]);
                        } else {
                            assert(self.pending@[k] == before[k + 1]);
                        }
                    }
                }
                assert forall|a: int, b: int| 0 <= a < b < self.pending@.len() implies self.pending@[a].0
                    != self.pending@[b].0 by {
                    let a2 = if a < i { a } else { a + 1 };
                    let b2 = if b < i { b } else { b + 1 };
                    assert(self.pending@[a] == before[a2]);
                    assert(self.pending@[b] == before[b2]);
                }
                assert forall|a: int| 0 <= a < self.pending@.len() implies 1 <= #[trigger] self.pending@[a].0
                    <= self.next_seq by {
                    let a2 = if a < i { a } else { a + 1 };
                    assert(self.pending@[a] == before[a2]);
                }
                return Some(handle);
            }
            i += 1;
        }
        None
    }

    /// Applies one inbound message to the session state.
    pub fn dispatch(&mut self, message: JsonValue) -> (r: Dispatch<T>)
        requires
            old(self).wf(),
        ensures
            final(self).wf(),
            final(self).next_seq == old(self).next_seq,
            match message_kind(message) {
                MessageKind::Response { request_seq } => if is_pending(old(self).pending@, request_seq) {
                    &&& r matches Dispatch::Deliver(h, m) && m == message && exists|i: int|
                        0 <= i < old(self).pending@.len() && old(self).pending@[i] == (request_seq, h)
                            && final(self).pending@ == old(self).pending@.remove(i)
                    &&& !is_pending(final(self).pending@, request_seq)
                    &&& forall|s: u64| s != request_seq ==> (is_pending(final(self).pending@, s)
                        <==> is_pending(old(self).pending@, s))
                } else {
                    r is Unmatched && final(self).pending@ == old(self).pending@
                },
                _ => final(self).pending@ == old(self).pending@,
            },
            message_kind(message) is Stopped ==> {
                &&& r is Stopped
                &&& final(self).last_stop matches Some(s) && summarizes(s, message)
                &&& old(self).stopped_generation < u64::MAX ==> final(self).stopped_generation
                    == old(self).stopped_generation + 1
            },
            !(message_kind(message) is Stopped) ==> final(self).stopped_generation == old(
                self,
            ).stopped_generation,
            message_kind(message) is Output ==> match output_text(message) {
                Some(out) => r is Output && final(self).recent_output@.len() >= 1
                    && final(self).recent_output@.last().0 == old(self).output_seq
                    && final(self).recent_output@.last().1@ == out
                    && final(self).recent_output@ =~~= keep_last(
                        old(self).recent_output@.push(final(self).recent_output@.last()),
                        MAX_RECENT_OUTPUT_EVENTS as nat,
                    ),
                None => r is Ignored && final(self).recent_output@ == old(self).recent_output@,
            },
            !(message_kind(message) is Output) ==> final(self).recent_output@ == old(
                self,
            ).recent_output@,
            message_kind(message) is Initialized ==> r is Initialized && final(self).initialized_seen,
            !(message_kind(message) is Initialized) ==> final(self).initialized_seen == old(
                self,
            ).initialized_seen,
            !(message_kind(message) is Stopped) ==> final(self).last_stop == old(self).last_stop,
            final(self).configuration_done_sent == old(self).configuration_done_sent,
    {
        proof {
            reveal_strlit("response");
            reveal_strlit("event");
            reveal_strlit("stopped");
            reveal_strlit("output");
            reveal_strlit("initialized");
        }
        let kind = match get_string(&message, "type") {
            Some(t) => {
                if str_eq(t.as_str(), "response") {
                    get_u64(&message, "request_seq")
                } else {
                    None
                }
            },
            None => None,
        };
        let is_response = match get_string(&message, "type") {
            Some(t) => str_eq(t.as_str(), "response"),
            None => false,
        };
        let is_event = match get_string(&message, "type") {
            Some(t) => str_eq(t.as_str(), "event"),
            None => false,
        };
        if is_response {
            match kind {
                Some(request_seq) => {
                    match self.cancel_request(request_seq) {
                        Some(handle) => {
                            return Dispatch::Deliver(handle, message);
                        },
                        None => {
                            return Dispatch::Unmatched;
                        },
                    }
                },
                None => {
                    return Dispatch::Ignored;
                },
            }
        }
        if !is_event {
            return Dispatch::Ignored;
        }
        let event = get_string(&message, "event");
        let name: Vec<char> = match &event {
            Some(e) => chars_of(e.as_str()),
            None => Vec::new(),
        };
        let n = string_of(&name);
        assert(str_member(message, "type"@) == Some("event"@));
        assert(event is Some ==> n@ == event->Some_0@);
        assert(event is None ==> n@.len() == 0);
        if str_eq(n.as_str(), "stopped") {
            assert(str_member(message, "event"@) == Some("stopped"@));
            let summary = stopped_summary(&message);
            self.last_stop = Some(summary);
            if self.stopped_generation < u64::MAX {
                self.stopped_generation = self.stopped_generation + 1;
            }
            return Dispatch::Stopped;
        }
        if str_eq(n.as_str(), "output") {
            let output = match get_body(&message) {
                Some(body) => get_string(body, "output"),
                None => None,
            };
            match output {
                Some(text) => {
                    let seq = self.output_seq;
                    self.output_seq = if seq < u64::MAX {
                        seq + 1
                    } else {
                        seq
                    };
                    push_recent_output_event(&mut self.recent_output, seq, text);
                    return Dispatch::Output;
                },
                None => {
                    return Dispatch::Ignored;
                },
            }
        }
        if str_eq(n.as_str(), "initialized") {
            self.initialized_seen = true;
            return Dispatch::Initialized;
        }
        Dispatch::Ignored
    }
}

/// The sequence numbers awaited in a pending table.
pub open spec fn pending_set<T>(pending: Seq<(u64, T)>) -> Set<u64> {
    Set::new(|s: u64| is_pending(pending, s))
}

/// A request that was begun and then resolved, by its response or by giving
/// it up, leaves the table of awaited requests as it was before the request:
/// at steady state, with every request answered or timed out, nothing is awaited.
pub proof fn law_resolved_request_restores_pending<T>(
    s0: DapCore<T>,
    s1: DapCore<T>,
    s2: DapCore<T>,
    seq: u64,
    handle: T,
)
    requires
        s0.wf(),
        seq == s0.next_seq + 1,
        s1.pending@ == s0.pending@.push((seq, handle)),
        !is_pending(s2.pending@, seq),
        forall|s: u64| s != seq ==> (is_pending(s2.pending@, s) <==> is_pending(s1.pending@, s)),
    ensures
        pending_set(s2.pending@) == pending_set(s0.pending@),
{
    assert forall|s: u64| is_pending(s2.pending@, s) <==> is_pending(s0.pending@, s) by {
        if is_pending(s0.pending@, s) {
            let k = choose|k: int| 0 <= k < s0.pending@.len() && s0.pending@[k].0 == s;
            assert(s1.pending@[k] == s0.pending@[k]);
            assert(s0.pending@[k].0 <= s0.next_seq);
        }
        if s != seq && is_pending(s1.pending@, s) {
            let k = choose|k: int| 0 <= k < s1.pending@.len() && s1.pending@[k].0 == s;
            if k < s0.pending@.len() {
                assert(s1.pending@[k] == s0.pending@[k]);
            }
        }
    }
    assert(pending_set(s2.pending@) =~= pending_set(s0.pending@));
}

/// A request begun on `s0` (giving `s1`) and then resolved, by the response
/// `dispatch` delivers for it or by `cancel_request`, both of which remove
/// the entry registered for its sequence number (giving `s2`), leaves the
/// table exactly as it was, every other entry with its own handle.
pub proof fn law_resolved_request_restores_table<T>(
    s0: DapCore<T>,
    s1: DapCore<T>,
    s2: DapCore<T>,
    seq: u64,
    handle: T,
    i: int,
)
    requires
        s0.wf(),
        seq == s0.next_seq + 1,
        s1.pending@ == s0.pending@.push((seq, handle)),
        0 <= i < s1.pending@.len(),
        s1.pending@[i].0 == seq,
        s2.pending@ == s1.pending@.remove(i),
    ensures
        i == s0.pending@.len(),
        s1.pending@[i] == (seq, handle),
        s2.pending@ == s0.pending@,
{
    if i < s0.pending@.len() {
        assert(s1.pending@[i] == s0.pending@[i]);
        assert(s0.pending@[i].0 <= s0.next_seq);
    }
    assert(s2.pending@ =~= s0.pending@);
}

/// Sequence numbers strictly increase within a session: `first` is the
/// number `begin_request` gave on `s0` (leaving `s1`); dispatches and
/// cancellations between `s1` and `s2` keep `next_seq`, or requests raise it;
/// `second` is the number the next `begin_request` gives on `s2`.
pub proof fn law_request_seqs_increase<T>(s0: DapCore<T>, s1: DapCore<T>, s2: DapCore<T>, first: u64, second: u64)
    requires
        first == s0.next_seq + 1,
        s1.next_seq == first,
        s2.next_seq >= s1.next_seq,
        second == s2.next_seq + 1,
    ensures
        second > first,
        forall|i: int| 0 <= i < s2.pending@.len() && s2.wf() ==> s2.pending@[i].0 < second,
{
}

/// The recent-output ring never holds more than its capacity, and what it
/// keeps is the newest entries: the oldest are evicted first.
pub proof fn law_ring_bounded<T>(s: Seq<T>)
    ensures
        keep_last(s, MAX_RECENT_OUTPUT_EVENTS as nat).len() <= MAX_RECENT_OUTPUT_EVENTS,
        s.len() > MAX_RECENT_OUTPUT_EVENTS ==> keep_last(s, MAX_RECENT_OUTPUT_EVENTS as nat)
            == s.subrange(s.len() - MAX_RECENT_OUTPUT_EVENTS, s.len() as int),
        s.len() > 0 ==> keep_last(s, MAX_RECENT_OUTPUT_EVENTS as nat).last() == s.last(),
{
}

} // verus!
