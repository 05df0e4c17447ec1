//! Decisions and decodings that the DAP operations make on top of the session
//! core: waiting for a fresh stop, resolving the thread to act on, finding a
//! probe address in console output, and decoding `readMemory` payloads.

use std::collections::VecDeque;
use vstd::prelude::*;
use crate::dap::{
    same_summary,
    body_of, get_body, get_string, get_u64, opt_str, opt_view, str_member, u64_member, DapCore,
    StopSummary,
};
use crate::encoding::{base64_decoded, decode_base64, decode_error_text};
use crate::json::JsonValue;
use crate::text::{append_chars, append_str, chars_of, dec, decimal_chars, find, occurs_at, slice, string_of};

verus! {

/// How long a step waits for the adapter's next `stopped` event.
pub const WAIT_FOR_STOPPED_TIMEOUT_MS: u64 = 10_000;

/// The interval between two looks at the stop state.
pub const STOPPED_POLL_INTERVAL_MS: u64 = 50;

/// The largest `readMemory` count a caller may ask for.
pub const READ_MEMORY_MAX_COUNT: u32 = 65536;

/// One look at the stop state while waiting for a stop newer than a given generation.
pub enum StopWait {
    /// A stop newer than the captured generation: its summary.
    Ready(StopSummary),
    /// The wait is over without one.
    TimedOut(String),
    /// Look again after the poll interval.
    Pending,
}

pub open spec fn stopped_timeout_text() -> Seq<char> {
    "Timed out waiting for next DAP 'stopped' event"@
}

/// Whether `core` holds a stop newer than generation `before`.
pub open spec fn has_stop_after<T>(core: DapCore<T>, before: u64) -> bool {
    core.stopped_generation > before && core.last_stop is Some
}

/// One look at the stop state, `elapsed_ms` into a wait of at most
/// `timeout_ms` for a stop newer than generation `before`. A stop whose
/// generation is not above `before` is never accepted.
pub fn poll_stopped_event_after_seq<T>(core: &DapCore<T>, before: u64, elapsed_ms: u64, timeout_ms: u64) -> (r: StopWait)
    ensures
        match r {
            StopWait::Ready(s) => has_stop_after(*core, before) && same_summary(
                s,
                core.last_stop->Some_0,
            ),
            StopWait::TimedOut(m) => !has_stop_after(*core, before) && elapsed_ms >= timeout_ms
                && m@ == stopped_timeout_text(),
            StopWait::Pending => !has_stop_after(*core, before) && elapsed_ms < timeout_ms,
        },
{
    if core.stopped_generation > before {
        match &core.last_stop {
            Some(stop) => {
                return StopWait::Ready(stop.copy());
            },
            None => {},
        }
    }
    if elapsed_ms >= timeout_ms {
        return StopWait::TimedOut(String::from_str("Timed out waiting for next DAP 'stopped' event"));
    }
    StopWait::Pending
}

pub open spec fn missing_thread_text() -> Seq<char> {
    "Missing threadId: provide thread_id or wait for a stopped event with threadId"@
}

/// The thread to act on: the explicit one, else the one the latest stop names.
pub fn resolve_thread_id<T>(core: &DapCore<T>, explicit_thread_id: Option<u64>) -> (r: Result<u64, String>)
    ensures
        match explicit_thread_id {
            Some(t) => r == Ok::<u64, String>(t),
            None => match core.last_stop {
                Some(stop) if stop.thread_id is Some => r == Ok::<u64, String>(stop.thread_id->Some_0),
                _ => (r matches Err(m) && m@ == missing_thread_text()),
            },
        },
{
    if let Some(thread_id) = explicit_thread_id {
        return Ok(thread_id);
    }
    match &core.last_stop {
        Some(stop) => match stop.thread_id {
            Some(t) => Ok(t),
            None => Err(String::from_str(
                "Missing threadId: provide thread_id or wait for a stopped event with threadId",
            )),
        },
        None => Err(String::from_str(
            "Missing threadId: provide thread_id or wait for a stopped event with threadId",
        )),
    }
}

pub open spec fn is_hex_digit(c: char) -> bool {
    ('0' <= c && c <= '9') || ('a' <= c && c <= 'f') || ('A' <= c && c <= 'F')
}

fn is_hex_char(c: char) -> (r: bool)
    ensures
        r == is_hex_digit(c),
{
    ('0' <= c && c <= '9') || ('a' <= c && c <= 'f') || ('A' <= c && c <= 'F')
}

/// The longest prefix of `s` made of hexadecimal digits.
pub open spec fn hex_run(s: Seq<char>) -> Seq<char>
    decreases s.len(),
{
    if s.len() > 0 && is_hex_digit(s[0]) {
        seq![s[0]] + hex_run(s.drop_first())
    } else {
        Seq::empty()
    }
}

/// `p` is where `pat` first occurs in `s`.
pub open spec fn first_occurrence(s: Seq<char>, pat: Seq<char>, p: int) -> bool {
    occurs_at(s, pat, p) && forall|q: int| 0 <= q < p ==> !occurs_at(s, pat, q)
}

/// The address in `s`: `0x` and the hexadecimal digits that follow the first
/// `0x`; `None` when there is no `0x` or no digit follows it.
pub open spec fn hex_address(s: Seq<char>) -> Option<Seq<char>> {
    if exists|p: int| first_occurrence(s, "0x"@, p) {
        let p = choose|p: int| first_occurrence(s, "0x"@, p);
        let h = hex_run(s.subrange(p + 2, s.len() as int));
        if h.len() == 0 {
            None
        } else {
            Some("0x"@ + h)
        }
    } else {
        None
    }
}

/// The address in `input`, as `hex_address` describes it.
pub fn parse_hex_address(input: &str) -> (r: Option<String>)
    ensures
        opt_view(r) == hex_address(input@),
{
    proof {
        reveal_strlit("0x");
    }
    let s = chars_of(input);
    let pat = chars_of("0x");
    match find(&s, &pat) {
        None => {
            assert(!exists|p: int| first_occurrence(s@, "0x"@, p));
            None
        },
        Some(p) => {
            let n = s.len();
            let start = p + 2;
            let mut e = start;
            while e < n && is_hex_char(s[e])
                invariant
                    start <= e <= n,
                    n == s@.len(),
                    hex_run(s@.subrange(start as int, n as int)) == s@.subrange(
                        start as int,
                        e as int,
                    ) + hex_run(s@.subrange(e as int, n as int)),
                decreases n - e,
            {
                assert(s@.subrange(e as int, n as int).drop_first() =~= s@.subrange(
                    e + 1,
                    n as int,
                ));
                assert(s@.subrange(start as int, e + 1) =~= s@.subrange(start as int, e as int)
                    + seq![s@[e as int]]);
                e += 1;
            }
            assert(hex_run(s@.subrange(e as int, n as int)) =~= Seq::<char>::empty());
            assert(s@.subrange(start as int, e as int) + Seq::<char>::empty() =~= s@.subrange(
                start as int,
                e as int,
            ));
            proof {
                let q = choose|q: int| first_occurrence(s@, "0x"@, q);
                assert(first_occurrence(s@, "0x"@, p as int));
                if q < p {
                } else if q > p {
                }
                assert(q == p);
            }
            if e == start {
                None
            } else {
                let mut out = pat;
                let digits = slice(&s, start, e);
                append_chars(&mut out, &digits);
                Some(string_of(&out))
            }
        },
    }
}

/// The address in an `output` event's `body.output`.
pub fn parse_hex_address_from_output_event(message: &JsonValue) -> (r: Option<String>)
    ensures
        opt_view(r) == match opt_str(body_of(*message), "output"@) {
            Some(out) => hex_address(out),
            None => None,
        },
{
    match get_body(message) {
        Some(body) => match get_string(body, "output") {
            Some(out) => parse_hex_address(out.as_str()),
            None => None,
        },
        None => None,
    }
}

/// The first address found in the ring entries numbered `start_seq` or later.
pub open spec fn first_address_since(events: Seq<(u64, String)>, start_seq: u64) -> Option<Seq<char>>
    decreases events.len(),
{
    if events.len() == 0 {
        None
    } else if events[0].0 >= start_seq && hex_address(events[0].1@) is Some {
        hex_address(events[0].1@)
    } else {
        first_address_since(events.drop_first(), start_seq)
    }
}

/// Scans the recent-output ring for an address printed at or after `start_seq`;
/// entries before the marker are ignored.
pub fn output_event_address_since(events: &VecDeque<(u64, String)>, start_seq: u64) -> (r: Option<String>)
    ensures
        opt_view(r) == first_address_since(events@, start_seq),
{
    let n = events.len();
    let mut i: usize = 0;
    assert(events@.subrange(0, n as int) =~= events@);
    while i < n
        invariant
            n == events@.len(),
            i <= n,
            first_address_since(events@, start_seq) == first_address_since(
                events@.subrange(i as int, n as int),
                start_seq,
            ),
        decreases n - i,
    {
        let ghost rest = events@.subrange(i as int, n as int);
        assert(rest.drop_first() =~= events@.subrange(i + 1, n as int));
        assert(rest[0] == events@[i as int]);
        let entry = &events[i];
        if entry.0 >= start_seq {
            let found = parse_hex_address(entry.1.as_str());
            if found.is_some() {
                return found;
            }
        }
        i += 1;
    }
    None
}

/// The sequence number that the next output event will get: where a scan for
/// output caused by a request about to be sent should start.
pub fn output_tail_seq(events: &VecDeque<(u64, String)>) -> (r: u64)
    ensures
        events@.len() == 0 ==> r == 0,
        events@.len() > 0 ==> r == if events@.last().0 < u64::MAX {
            (events@.last().0 + 1) as u64
        } else {
            u64::MAX
        },
{
    let n = events.len();
    if n == 0 {
        0
    } else {
        let last = events[n - 1].0;
        if last < u64::MAX {
            last + 1
        } else {
            last
        }
    }
}

/// The little-endian value of the first eight bytes of `b`.
pub open spec fn le_u64(b: Seq<u8>) -> nat {
    b[0] as nat + 256 * (b[1] as nat + 256 * (b[2] as nat + 256 * (b[3] as nat + 256 * (
    b[4] as nat + 256 * (b[5] as nat + 256 * (b[6] as nat + 256 * b[7] as nat))))))
}

pub open spec fn short_input_text(n: nat) -> Seq<char> {
    "Expected at least 8 bytes, received "@ + dec(n) + " bytes"@
}

/// The little-endian `u64` in the first eight bytes of `bytes`.
pub fn read_u64_le(bytes: &[u8]) -> (r: Result<u64, String>)
    ensures
        bytes@.len() >= 8 ==> r == Ok::<u64, String>(le_u64(bytes@) as u64),
        bytes@.len() < 8 ==> (r matches Err(m) && m@ == short_input_text(bytes@.len())),
{
    if bytes.len() < 8 {
        let mut m = chars_of("Expected at least 8 bytes, received ");
        let d = decimal_chars(bytes.len() as u64);
        append_chars(&mut m, &d);
        append_str(&mut m, " bytes");
        return Err(string_of(&m));
    }
    let mut v: u64 = bytes[7] as u64;
    v = v * 256 + bytes[6] as u64;
    v = v * 256 + bytes[5] as u64;
    v = v * 256 + bytes[4] as u64;
    v = v * 256 + bytes[3] as u64;
    v = v * 256 + bytes[2] as u64;
    v = v * 256 + bytes[1] as u64;
    v = v * 256 + bytes[0] as u64;
    Ok(v)
}

pub open spec fn missing_body_text() -> Seq<char> {
    "readMemory response missing object body"@
}

pub open spec fn missing_data_text() -> Seq<char> {
    "readMemory response missing base64 data"@
}

pub open spec fn unreadable_text(n: nat) -> Seq<char> {
    "readMemory returned unreadableBytes="@ + dec(n)
}

pub open spec fn decode_failure_prefix() -> Seq<char> {
    "Failed to decode readMemory base64 data: "@
}

pub open spec fn too_short_text(expected: nat, got: nat) -> Seq<char> {
    "Decoded memory payload is too short: expected at least "@ + dec(expected) + " bytes, got "@
        + dec(got)
}

/// The count of unreadable bytes a `readMemory` body reports (0 when absent).
pub open spec fn unreadable_of(body: JsonValue) -> u64 {
    match u64_member(body, "unreadableBytes"@) {
        Some(n) => n,
        None => 0,
    }
}

/// The bytes a `readMemory` response carries, checked: an object body, no
/// unreadable bytes, base64 `data` that decodes to at least
/// `expected_min_len` bytes.
pub fn read_memory_data_bytes(response: &JsonValue, expected_min_len: usize) -> (r: Result<Vec<u8>, String>)
    ensures
        match body_of(*response) {
            None => (r matches Err(m) && m@ == missing_body_text()),
            Some(body) => if unreadable_of(body) > 0 {
                (r matches Err(m) && m@ == unreadable_text(unreadable_of(body) as nat))
            } else {
                match str_member(body, "data"@) {
                    None => (r matches Err(m) && m@ == missing_data_text()),
                    Some(data) => match base64_decoded(data) {
                        None => (r matches Err(m) && m@.len() >= decode_failure_prefix().len()
                            && m@.subrange(0, decode_failure_prefix().len() as int)
                            == decode_failure_prefix()),
                        Some(bytes) => if bytes.len() < expected_min_len {
                            (r matches Err(m) && m@ == too_short_text(
                                expected_min_len as nat,
                                bytes.len(),
                            ))
                        } else {
                            (r matches Ok(b) && b@ == bytes)
                        },
                    },
                }
            },
        },
{
    let body = match get_body(response) {
        Some(b) => b,
        None => {
            return Err(String::from_str("readMemory response missing object body"));
        },
    };
    let unreadable = match get_u64(body, "unreadableBytes") {
        Some(n) => n,
        None => 0,
    };
    if unreadable > 0 {
        let mut m = chars_of("readMemory returned unreadableBytes=");
        let d = decimal_chars(unreadable);
        append_chars(&mut m, &d);
        return Err(string_of(&m));
    }
    let encoded = match get_string(body, "data") {
        Some(d) => d,
        None => {
            return Err(String::from_str("readMemory response missing base64 data"));
        },
    };
    let bytes = match decode_base64(encoded.as_str()) {
        Ok(b) => b,
        Err(e) => {
            let mut m = chars_of("Failed to decode readMemory base64 data: ");
            let ghost prefix = m@;
            let detail = decode_error_text(&e);
            append_str(&mut m, detail.as_str());
            assert(m@.subrange(0, prefix.len() as int) =~= prefix);
            return Err(string_of(&m));
        },
    };
    if bytes.len() < expected_min_len {
        let mut m = chars_of("Decoded memory payload is too short: expected at least ");
        let d1 = decimal_chars(expected_min_len as u64);
        append_chars(&mut m, &d1);
        append_str(&mut m, " bytes, got ");
        let d2 = decimal_chars(bytes.len() as u64);
        append_chars(&mut m, &d2);
        return Err(string_of(&m));
    }
    Ok(bytes)
}

/// The kind an audit record gives a message: its `type` when that is
/// `request`, `response` or `event`, else `other`.
pub fn classify_dap_message(payload: &JsonValue) -> (r: &'static str)
    ensures
        r@ == match str_member(*payload, "type"@) {
            Some(t) => if t == "request"@ || t == "response"@ || t == "event"@ {
                t
            } else {
                "other"@
            },
            None => "other"@,
        },
{
    match get_string(payload, "type") {
        Some(t) => {
            if crate::text::str_eq(t.as_str(), "request") {
                "request"
            } else if crate::text::str_eq(t.as_str(), "response") {
                "response"
            } else if crate::text::str_eq(t.as_str(), "event") {
                "event"
            } else {
                "other"
            }
        },
        None => "other",
    }
}

/// The failure a response reports: `None` unless `success` is `false`; then
/// `DAP request '<command>' failed: <message>` (`unknown adapter error`
/// without a message).
pub fn adapter_failure(command: &str, response: &JsonValue) -> (r: Option<String>)
    ensures
        r is Some <==> (response.field("success"@) matches Some(s) && s.bool_of() == Some(false)),
        r matches Some(m) ==> m@ == "DAP request '"@ + command@ + "' failed: "@ + match str_member(
            *response,
            "message"@,
        ) {
            Some(t) => t,
            None => "unknown adapter error"@,
        },
{
    let success = match response.get("success") {
        Some(s) => match s.as_bool() {
            Some(b) => b,
            None => true,
        },
        None => true,
    };
    if success {
        return None;
    }
    let mut m = chars_of("DAP request '");
    append_str(&mut m, command);
    append_str(&mut m, "' failed: ");
    match get_string(response, "message") {
        Some(t) => append_str(&mut m, t.as_str()),
        None => append_str(&mut m, "unknown adapter error"),
    }
    Some(string_of(&m))
}

/// The error of an operation that needs an attached session.
pub fn detached_session_error(tool_name: &str) -> (r: String)
    ensures
        r@ == tool_name@ + " requires an attached debugger session. Call debugger_attach first."@,
{
    let mut m = chars_of(tool_name);
    append_str(&mut m, " requires an attached debugger session. Call debugger_attach first.");
    string_of(&m)
}

/// The observable state: `stopped` while a stop is recorded, else `running`.
pub fn resolved_state(stop: &Option<StopSummary>) -> (r: &'static str)
    ensures
        r@ == if stop is Some {
            "stopped"@
        } else {
            "running"@
        },
{
    match stop {
        Some(_) => "stopped",
        None => "running",
    }
}

} // verus!
