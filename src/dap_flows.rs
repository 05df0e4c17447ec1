//! The multi-step DAP procedures as state machines: the attach handshake and
//! the debug snapshot. Each step takes what the last action produced and
//! returns the next state and the next action; the caller performs the
//! action (a request, a wait) and feeds its outcome back.

use vstd::prelude::*;
use crate::dap::{body_of, get_body, get_string, get_u64, opt_str, str_member, u64_member, DapCore};
use crate::dap_ops::{hex_address, le_u64, read_memory_data_bytes, read_u64_le, parse_hex_address};
use crate::json::{member, JsonValue};
use crate::text::{append_chars, append_str, chars_of, contains, find, string_of};

verus! {

/// Timeout of `initialize`, of the wait for the `initialized` event and of `configurationDone`.
pub const HANDSHAKE_TIMEOUT_MS: u64 = 5000;

/// Timeout of `attach` and of ordinary requests.
pub const REQUEST_TIMEOUT_MS: u64 = 10000;

/// How long the snapshot fallback watches console output for an address.
pub const OUTPUT_EVENT_WAIT_TIMEOUT_MS: u64 = 300;

/// Capacity of the probe's snapshot buffer in the debuggee.
pub const PROBE_SNAPSHOT_CAPACITY: usize = 4096;

/// The lower-case form of `s`, as `str::to_lowercase` gives it.
pub uninterp spec fn lower_of(s: Seq<char>) -> Seq<char>;

/// Relies on `str::to_lowercase`: the result is a function of the characters alone.
#[verifier::external_body]
fn lowercase(s: &str) -> (r: String)
    ensures
        r@ == lower_of(s@),
{
    s.to_lowercase()
}

/// Whether lower-cased adapter text reports a ptrace permission failure.
pub open spec fn mentions_ptrace(lowered: Seq<char>) -> bool {
    contains(lowered, "eperm"@) || contains(lowered, "ptrace"@) || contains(
        lowered,
        "operation not permitted"@,
    )
}

pub open spec fn ptrace_prefix() -> Seq<char> {
    "Attach failed: ptrace permission denied (EPERM). Check ptrace scope/container privileges. Adapter error: "@
}

/// The attach error shown to the user for adapter text `msg`, whose lower-case
/// form is `lowered`.
pub fn attach_error_message(msg: &str, lowered: &str) -> (r: String)
    ensures
        r@ == if mentions_ptrace(lowered@) {
            ptrace_prefix() + msg@
        } else {
            msg@
        },
{
    let l = chars_of(lowered);
    let a = chars_of("eperm");
    let b = chars_of("ptrace");
    let c = chars_of("operation not permitted");
    if find(&l, &a).is_some() || find(&l, &b).is_some() || find(&l, &c).is_some() {
        let mut m = chars_of(
            "Attach failed: ptrace permission denied (EPERM). Check ptrace scope/container privileges. Adapter error: ",
        );
        append_str(&mut m, msg);
        string_of(&m)
    } else {
        String::from_str(msg)
    }
}

/// The attach error shown to the user for adapter text `msg`.
pub fn map_attach_error(msg: String) -> (r: String)
    ensures
        r@ == if mentions_ptrace(lower_of(msg@)) {
            ptrace_prefix() + msg@
        } else {
            msg@
        },
{
    let lowered = lowercase(msg.as_str());
    attach_error_message(msg.as_str(), lowered.as_str())
}

/// Where the attach handshake stands.
#[derive(PartialEq, Eq, Structural, Clone, Copy, Debug)]
pub enum AttachPhase {
    /// The adapter was spawned; see whether it is still running.
    Probe,
    /// `initialize` was sent.
    Initialize,
    /// `attach` is being sent (its response is not awaited yet).
    BeginAttach,
    /// Waiting for the `initialized` event.
    WaitInitialized,
    /// `configurationDone` was sent.
    ConfigurationDone,
    /// Awaiting the `attach` response.
    AwaitAttach,
    Attached,
    Failed,
}

/// The outcome of the last attach action.
pub enum AttachEvent {
    /// The adapter process is running.
    Running,
    /// The adapter process has exited, with this status.
    Exited(String),
    /// The action succeeded.
    Done,
    /// The action failed with this message.
    Failed(String),
    /// The wait for `initialized` ended; whether the event was seen.
    Initialized(bool),
}

/// What to do next in the attach handshake.
pub enum AttachAction {
    SendInitialize { timeout_ms: u64 },
    BeginAttach,
    WaitInitialized { timeout_ms: u64 },
    SendConfigurationDone { timeout_ms: u64 },
    AwaitAttach { timeout_ms: u64 },
    /// The session is attached.
    Finish,
    /// Tear the session down (stop the reader, kill the adapter) and report `error`.
    Shutdown { error: String },
}

pub open spec fn exited_prefix() -> Seq<char> {
    "CodeLLDB adapter exited during startup with status: "@
}

pub open spec fn probe_failed_prefix() -> Seq<char> {
    "Failed while probing adapter startup state: "@
}

pub open spec fn initialize_failed_prefix() -> Seq<char> {
    "Failed DAP initialize handshake with adapter: "@
}

pub open spec fn configuration_failed_prefix() -> Seq<char> {
    "Failed to send DAP configurationDone during attach: "@
}

pub open spec fn out_of_order_text() -> Seq<char> {
    "Attach handshake received an out-of-order outcome"@
}

fn prefixed(prefix: &str, detail: &str) -> (r: String)
    ensures
        r@ == prefix@ + detail@,
{
    let mut m = chars_of(prefix);
    append_str(&mut m, detail);
    string_of(&m)
}

/// One step of the attach handshake: probe the adapter, `initialize`, begin
/// `attach` without awaiting it, wait for `initialized` (going on either
/// way), `configurationDone`, then await the `attach` response. Any failure
/// shuts the session down; attach failures go through `map_attach_error`.
pub fn attach_step(phase: AttachPhase, event: AttachEvent) -> (r: (AttachPhase, AttachAction))
    ensures
        match (phase, event) {
            (AttachPhase::Probe, AttachEvent::Running) => r.0 == AttachPhase::Initialize
                && r.1 == (AttachAction::SendInitialize { timeout_ms: HANDSHAKE_TIMEOUT_MS }),
            (AttachPhase::Probe, AttachEvent::Exited(s)) => r.0 == AttachPhase::Failed
                && (r.1 matches AttachAction::Shutdown { error } && error@ == exited_prefix() + s@),
            (AttachPhase::Probe, AttachEvent::Failed(e)) => r.0 == AttachPhase::Failed
                && (r.1 matches AttachAction::Shutdown { error } && error@ == probe_failed_prefix()
                + e@),
            (AttachPhase::Initialize, AttachEvent::Done) => r.0 == AttachPhase::BeginAttach
                && r.1 is BeginAttach,
            (AttachPhase::Initialize, AttachEvent::Failed(e)) => r.0 == AttachPhase::Failed
                && (r.1 matches AttachAction::Shutdown { error } && error@
                == initialize_failed_prefix() + e@),
            (AttachPhase::BeginAttach, AttachEvent::Done) => r.0 == AttachPhase::WaitInitialized
                && r.1 == (AttachAction::WaitInitialized { timeout_ms: HANDSHAKE_TIMEOUT_MS }),
            (AttachPhase::BeginAttach, AttachEvent::Failed(e)) => r.0 == AttachPhase::Failed && (
            r.1 matches AttachAction::Shutdown { error } && error@ == if mentions_ptrace(
                lower_of(e@),
            ) {
                ptrace_prefix() + e@
            } else {
                e@
            }),
            (AttachPhase::WaitInitialized, AttachEvent::Initialized(_)) => r.0
                == AttachPhase::ConfigurationDone && r.1 == (AttachAction::SendConfigurationDone {
                timeout_ms: HANDSHAKE_TIMEOUT_MS,
            }),
            (AttachPhase::ConfigurationDone, AttachEvent::Done) => r.0 == AttachPhase::AwaitAttach
                && r.1 == (AttachAction::AwaitAttach { timeout_ms: REQUEST_TIMEOUT_MS }),
            (AttachPhase::ConfigurationDone, AttachEvent::Failed(e)) => r.0 == AttachPhase::Failed
                && (r.1 matches AttachAction::Shutdown { error } && error@
                == configuration_failed_prefix() + e@),
            (AttachPhase::AwaitAttach, AttachEvent::Done) => r.0 == AttachPhase::Attached
                && r.1 is Finish,
            (AttachPhase::AwaitAttach, AttachEvent::Failed(e)) => r.0 == AttachPhase::Failed && (
            r.1 matches AttachAction::Shutdown { error } && error@ == if mentions_ptrace(
                lower_of(e@),
            ) {
                ptrace_prefix() + e@
            } else {
                e@
            }),
            _ => r.0 == AttachPhase::Failed && (r.1 matches AttachAction::Shutdown { error }
                && error@ == out_of_order_text()),
        },
{
    match (phase, event) {
        (AttachPhase::Probe, AttachEvent::Running) => (
            AttachPhase::Initialize,
            AttachAction::SendInitialize { timeout_ms: HANDSHAKE_TIMEOUT_MS },
        ),
        (AttachPhase::Probe, AttachEvent::Exited(s)) => (
            AttachPhase::Failed,
            AttachAction::Shutdown {
                error: prefixed("CodeLLDB adapter exited during startup with status: ", s.as_str()),
            },
        ),
        (AttachPhase::Probe, AttachEvent::Failed(e)) => (
            AttachPhase::Failed,
            AttachAction::Shutdown {
                error: prefixed("Failed while probing adapter startup state: ", e.as_str()),
            },
        ),
        (AttachPhase::Initialize, AttachEvent::Done) => (
            AttachPhase::BeginAttach,
            AttachAction::BeginAttach,
        ),
        (AttachPhase::Initialize, AttachEvent::Failed(e)) => (
            AttachPhase::Failed,
            AttachAction::Shutdown {
                error: prefixed("Failed DAP initialize handshake with adapter: ", e.as_str()),
            },
        ),
        (AttachPhase::BeginAttach, AttachEvent::Done) => (
            AttachPhase::WaitInitialized,
            AttachAction::WaitInitialized { timeout_ms: HANDSHAKE_TIMEOUT_MS },
        ),
        (AttachPhase::BeginAttach, AttachEvent::Failed(e)) => (
            AttachPhase::Failed,
            AttachAction::Shutdown { error: map_attach_error(e) },
        ),
        (AttachPhase::WaitInitialized, AttachEvent::Initialized(_)) => (
            AttachPhase::ConfigurationDone,
            AttachAction::SendConfigurationDone { timeout_ms: HANDSHAKE_TIMEOUT_MS },
        ),
        (AttachPhase::ConfigurationDone, AttachEvent::Done) => (
            AttachPhase::AwaitAttach,
            AttachAction::AwaitAttach { timeout_ms: REQUEST_TIMEOUT_MS },
        ),
        (AttachPhase::ConfigurationDone, AttachEvent::Failed(e)) => (
            AttachPhase::Failed,
            AttachAction::Shutdown {
                error: prefixed("Failed to send DAP configurationDone during attach: ", e.as_str()),
            },
        ),
        (AttachPhase::AwaitAttach, AttachEvent::Done) => (
            AttachPhase::Attached,
            AttachAction::Finish,
        ),
        (AttachPhase::AwaitAttach, AttachEvent::Failed(e)) => (
            AttachPhase::Failed,
            AttachAction::Shutdown { error: map_attach_error(e) },
        ),
        _ => (
            AttachPhase::Failed,
            AttachAction::Shutdown {
                error: String::from_str("Attach handshake received an out-of-order outcome"),
            },
        ),
    }
}

/// The `initialize` arguments this client sends: its identity, 1-based
/// lines and columns, paths as paths, and its capabilities (variable types
/// and paging; no run-in-terminal requests).
pub fn initialize_args() -> (r: JsonValue)
    ensures
        str_member(r, "adapterID"@) == Some("codelldb"@),
        str_member(r, "clientID"@) == Some("debugger_mcp_server"@),
        str_member(r, "clientName"@) == Some("debugger_mcp_server"@),
        str_member(r, "locale"@) == Some("en-US"@),
        str_member(r, "pathFormat"@) == Some("path"@),
        r.field("linesStartAt1"@) == Some(JsonValue::Bool(true)),
        r.field("columnsStartAt1"@) == Some(JsonValue::Bool(true)),
        r.field("supportsVariableType"@) == Some(JsonValue::Bool(true)),
        r.field("supportsVariablePaging"@) == Some(JsonValue::Bool(true)),
        r.field("supportsRunInTerminalRequest"@) == Some(JsonValue::Bool(false)),
{
    broadcast use crate::json::lemma_entries_get_push;
    proof {
        reveal_strlit("adapterID");
        reveal_strlit("clientID");
        reveal_strlit("clientName");
        reveal_strlit("locale");
        reveal_strlit("pathFormat");
        reveal_strlit("linesStartAt1");
        reveal_strlit("columnsStartAt1");
        reveal_strlit("supportsVariableType");
        reveal_strlit("supportsVariablePaging");
        reveal_strlit("supportsRunInTerminalRequest");
        assert("adapterID"@.len() == 9 && "clientID"@.len() == 8 && "clientName"@.len() == 10
            && "locale"@.len() == 6 && "pathFormat"@.len() == 10 && "linesStartAt1"@.len() == 13
            && "columnsStartAt1"@.len() == 15 && "supportsVariableType"@.len() == 20
            && "supportsVariablePaging"@.len() == 22 && "supportsRunInTerminalRequest"@.len()
            == 28);
        assert("clientName"@[0] != "pathFormat"@[0]);
    }
    let mut e: Vec<(String, JsonValue)> = Vec::new();
    e.push(member("adapterID", JsonValue::from_str("codelldb")));
    e.push(member("clientID", JsonValue::from_str("debugger_mcp_server")));
    e.push(member("clientName", JsonValue::from_str("debugger_mcp_server")));
    e.push(member("locale", JsonValue::from_str("en-US")));
    e.push(member("pathFormat", JsonValue::from_str("path")));
    e.push(member("linesStartAt1", JsonValue::Bool(true)));
    e.push(member("columnsStartAt1", JsonValue::Bool(true)));
    e.push(member("supportsVariableType", JsonValue::Bool(true)));
    e.push(member("supportsVariablePaging", JsonValue::Bool(true)));
    e.push(member("supportsRunInTerminalRequest", JsonValue::Bool(false)));
    JsonValue::Object(e)
}

/// The `attach` arguments: `{pid, stopOnEntry: true, sourceLanguages: ["rust"], program?}`.
pub fn attach_args(pid: u32, program: Option<String>) -> (r: JsonValue)
    ensures
        r is Object,
        r.field("pid"@) == Some(JsonValue::Uint(pid as u64)),
        r.field("stopOnEntry"@) == Some(JsonValue::Bool(true)),
        program is None ==> r.field("program"@) is None,
        program matches Some(p) ==> str_member(r, "program"@) == Some(p@),
{
    proof {
        reveal_strlit("pid");
        reveal_strlit("stopOnEntry");
        reveal_strlit("sourceLanguages");
        reveal_strlit("program");
    }
    let mut e: Vec<(String, JsonValue)> = Vec::new();
    e.push(member("pid", JsonValue::Uint(pid as u64)));
    e.push(member("stopOnEntry", JsonValue::Bool(true)));
    let mut langs: Vec<JsonValue> = Vec::new();
    langs.push(JsonValue::from_str("rust"));
    e.push(member("sourceLanguages", JsonValue::Array(langs)));
    if let Some(p) = program {
        e.push((String::from_str("program"), JsonValue::Str(p)));
    }
    proof {
        let v = e@;
        assert(v[0].0@ == "pid"@);
        assert(v[1].0@ == "stopOnEntry"@);
        assert(v[2].0@ == "sourceLanguages"@);
        assert("pid"@.len() == 3 && "stopOnEntry"@.len() == 11 && "sourceLanguages"@.len() == 15
            && "program"@.len() == 7);
        lemma_entries_get_at(v, "pid"@, 0);
        lemma_entries_get_at(v, "stopOnEntry"@, 1);
        if v.len() == 4 {
            lemma_entries_get_at(v, "program"@, 3);
        } else {
            lemma_entries_get_absent(v, "program"@);
        }
    }
    JsonValue::Object(e)
}

/// The lookup finds the member at `i` when it is the first with that key.
pub proof fn lemma_entries_get_at(entries: Seq<(String, JsonValue)>, key: Seq<char>, i: int)
    requires
        0 <= i < entries.len(),
        entries[i].0@ == key,
        forall|j: int| 0 <= j < i ==> entries[j].0@ != key,
    ensures
        crate::json::entries_get(entries, key) == Some(entries[i].1),
    decreases i,
{
    if i > 0 {
        assert forall|j: int| 0 <= j < i - 1 implies entries.drop_first()[j].0@ != key by {
            assert(entries.drop_first()[j] == entries[j + 1]);
        }
        lemma_entries_get_at(entries.drop_first(), key, i - 1);
    }
}

/// The lookup finds nothing when no member has the key.
pub proof fn lemma_entries_get_absent(entries: Seq<(String, JsonValue)>, key: Seq<char>)
    requires
        forall|j: int| 0 <= j < entries.len() ==> entries[j].0@ != key,
    ensures
        crate::json::entries_get(entries, key) is None,
    decreases entries.len(),
{
    if entries.len() > 0 {
        assert forall|j: int| 0 <= j < entries.len() - 1 implies entries.drop_first()[j].0@ != key by {
            assert(entries.drop_first()[j] == entries[j + 1]);
        }
        lemma_entries_get_absent(entries.drop_first(), key);
    }
}

/// Where a debug snapshot stands.
pub enum SnapshotPhase {
    /// `stackTrace` was sent.
    StackTrace,
    /// The `watch` evaluation of the probe's address was sent.
    PrimaryEval { frame_id: Option<u64> },
    /// The `repl` fallback evaluation was sent; output numbered from `output_start` on is new.
    FallbackEval { output_start: u64 },
    /// Watching console output for the address.
    FallbackOutput,
    /// The read of the frame counter was sent.
    FrameCounter { reference: String },
    /// The read of the snapshot length was sent.
    SnapshotLen { reference: String, frame_counter: u64 },
    /// The read of the snapshot bytes was sent.
    SnapshotBytes { frame_counter: u64, snapshot_len: usize },
    Over,
}

/// What to do next in a debug snapshot.
pub enum SnapshotAction {
    /// Send this request and feed back its response.
    Request { command: String, arguments: JsonValue },
    /// Watch output numbered from `start_seq` on for an address, for at most
    /// `timeout_ms`, and feed back what was found.
    WatchOutput { start_seq: u64, timeout_ms: u64 },
    /// The preconditions do not hold: report `supported: false` with this reason.
    Unsupported { reason: String },
    Fail { error: String },
    /// The snapshot bytes, with trailing NULs removed; they should be UTF-8 JSON.
    Finish { frame_counter: u64, snapshot_len: usize, bytes: Vec<u8> },
}

pub open spec fn safe_point_name() -> Seq<char> {
    "axiom_debug_safe_point"@
}

/// The snapshot length to read: the probe's value, clamped to its capacity.
pub open spec fn clamp_len(raw: u64) -> usize {
    if raw > PROBE_SNAPSHOT_CAPACITY as u64 {
        PROBE_SNAPSHOT_CAPACITY
    } else {
        raw as usize
    }
}

/// `b` without its trailing NUL bytes.
pub open spec fn trim_nuls(b: Seq<u8>) -> Seq<u8>
    decreases b.len(),
{
    if b.len() > 0 && b.last() == 0 {
        trim_nuls(b.drop_last())
    } else {
        b
    }
}

/// Removes trailing NUL bytes.
pub fn trim_trailing_nuls(bytes: &mut Vec<u8>)
    ensures
        final(bytes)@ == trim_nuls(old(bytes)@),
{
    while bytes.len() > 0 && bytes[bytes.len() - 1] == 0
        invariant
            trim_nuls(old(bytes)@) == trim_nuls(bytes@),
        decreases bytes@.len(),
    {
        let _ = bytes.pop();
    }
}

/// `a` is the `readMemory` request for `count` bytes at `offset` from `reference`.
pub open spec fn is_read_memory(a: SnapshotAction, reference: Seq<char>, offset: u64, count: u64) -> bool {
    a matches SnapshotAction::Request { command, arguments } && command@ == "readMemory"@
        && str_member(arguments, "memoryReference"@) == Some(reference) && u64_member(
        arguments,
        "offset"@,
    ) == Some(offset) && u64_member(arguments, "count"@) == Some(count)
}

/// `a` is the `evaluate` request of `expression` in `context`, at `frame_id` when given.
pub open spec fn is_evaluate(a: SnapshotAction, expression: Seq<char>, context: Seq<char>, frame_id: Option<u64>) -> bool {
    a matches SnapshotAction::Request { command, arguments } && command@ == "evaluate"@
        && str_member(arguments, "expression"@) == Some(expression) && str_member(
        arguments,
        "context"@,
    ) == Some(context) && u64_member(arguments, "frameId"@) == frame_id
}

/// Whether a `readMemory` response carries at least `n` readable bytes.
pub open spec fn read_ok(response: JsonValue, n: nat) -> bool {
    memory_bytes_of(response) is Some && memory_bytes_of(response)->Some_0.len() >= n
}

fn read_memory_request(reference: &str, offset: u64, count: usize) -> (r: SnapshotAction)
    ensures
        is_read_memory(r, reference@, offset, count as u64),
{
    broadcast use crate::json::lemma_entries_get_push;
    proof {
        reveal_strlit("memoryReference");
        reveal_strlit("offset");
        reveal_strlit("count");
        assert("memoryReference"@.len() == 15 && "offset"@.len() == 6 && "count"@.len() == 5);
    }
    let mut e: Vec<(String, JsonValue)> = Vec::new();
    e.push(member("memoryReference", JsonValue::from_str(reference)));
    e.push(member("offset", JsonValue::Uint(offset)));
    e.push(member("count", JsonValue::Uint(count as u64)));
    SnapshotAction::Request {
        command: String::from_str("readMemory"),
        arguments: JsonValue::Object(e),
    }
}

fn evaluate_request(expression: &str, context: &str, frame_id: Option<u64>) -> (r: SnapshotAction)
    ensures
        is_evaluate(r, expression@, context@, frame_id),
{
    broadcast use crate::json::lemma_entries_get_push;
    proof {
        reveal_strlit("expression");
        reveal_strlit("context");
        reveal_strlit("frameId");
        assert("expression"@.len() == 10 && "context"@.len() == 7 && "frameId"@.len() == 7);
        assert("context"@[0] != "frameId"@[0]);
    }
    let mut e: Vec<(String, JsonValue)> = Vec::new();
    e.push(member("expression", JsonValue::from_str(expression)));
    e.push(member("context", JsonValue::from_str(context)));
    if let Some(id) = frame_id {
        e.push(member("frameId", JsonValue::Uint(id)));
    }
    SnapshotAction::Request { command: String::from_str("evaluate"), arguments: JsonValue::Object(e) }
}

/// Starts a debug snapshot: only while stopped, and only with a thread id.
pub fn snapshot_start<T>(core: &DapCore<T>) -> (r: (SnapshotPhase, SnapshotAction))
    ensures
        core.last_stop is None ==> (r.1 matches SnapshotAction::Unsupported { reason } && reason@
            == "Debugger is not currently stopped"@),
        core.last_stop is Some && core.last_stop->Some_0.thread_id is None ==> (
        r.1 matches SnapshotAction::Unsupported { reason } && reason@
            == "Stopped event does not include threadId"@),
        core.last_stop is Some && core.last_stop->Some_0.thread_id is Some ==> r.0 is StackTrace
            && (r.1 matches SnapshotAction::Request { command, arguments } && command@
            == "stackTrace"@ && arguments.field("threadId"@) == Some(
            JsonValue::Uint(core.last_stop->Some_0.thread_id->Some_0),
        )),
{
    match &core.last_stop {
        None => (
            SnapshotPhase::Over,
            SnapshotAction::Unsupported { reason: String::from_str("Debugger is not currently stopped") },
        ),
        Some(stop) => match stop.thread_id {
            None => (
                SnapshotPhase::Over,
                SnapshotAction::Unsupported {
                    reason: String::from_str("Stopped event does not include threadId"),
                },
            ),
            Some(thread_id) => {
                let mut e: Vec<(String, JsonValue)> = Vec::new();
                e.push(member("threadId", JsonValue::Uint(thread_id)));
                e.push(member("startFrame", JsonValue::Uint(0)));
                e.push(member("levels", JsonValue::Uint(3)));
                proof {
                    reveal_strlit("threadId");
                    assert(e@[0].0@ == "threadId"@);
                }
                (
                    SnapshotPhase::StackTrace,
                    SnapshotAction::Request {
                        command: String::from_str("stackTrace"),
                        arguments: JsonValue::Object(e),
                    },
                )
            },
        },
    }
}

/// The top frame of a `stackTrace` response.
pub open spec fn top_frame_of(response: JsonValue) -> Option<JsonValue> {
    match body_of(response) {
        Some(b) => match b.field("stackFrames"@) {
            Some(f) => match f.array_of() {
                Some(list) => if list.len() > 0 {
                    Some(list[0])
                } else {
                    None
                },
                None => None,
            },
            None => None,
        },
        None => None,
    }
}

/// The top frame's name; empty when absent.
pub open spec fn top_frame_name(response: JsonValue) -> Seq<char> {
    match top_frame_of(response) {
        Some(frame) => match str_member(frame, "name"@) {
            Some(n) => n,
            None => Seq::empty(),
        },
        None => Seq::empty(),
    }
}

/// The top frame's id.
pub open spec fn top_frame_id(response: JsonValue) -> Option<u64> {
    match top_frame_of(response) {
        Some(frame) => u64_member(frame, "id"@),
        None => None,
    }
}

/// The memory reference an evaluation reports, when it is not empty.
pub open spec fn memory_reference_of(response: JsonValue) -> Option<Seq<char>> {
    match opt_str(body_of(response), "memoryReference"@) {
        Some(m) => if m.len() > 0 {
            Some(m)
        } else {
            None
        },
        None => None,
    }
}

/// The address in the result text of the fallback evaluation.
pub open spec fn fallback_address_of(response: JsonValue) -> Option<Seq<char>> {
    match opt_str(body_of(response), "result"@) {
        Some(t) => hex_address(t),
        None => None,
    }
}

/// The bytes a `readMemory` response decodes to, when it reports none unreadable.
pub open spec fn memory_bytes_of(response: JsonValue) -> Option<Seq<u8>> {
    match body_of(response) {
        Some(body) => if crate::dap_ops::unreadable_of(body) > 0 {
            None
        } else {
            match str_member(body, "data"@) {
                Some(data) => crate::encoding::base64_decoded(data),
                None => None,
            }
        },
        None => None,
    }
}

/// The top frame of a `stackTrace` response: its name ("" when absent) and id.
fn top_frame(response: &JsonValue) -> (r: (String, Option<u64>))
    ensures
        r.0@ == top_frame_name(*response),
        r.1 == top_frame_id(*response),
{
    proof {
        reveal_strlit("");
    }
    let frames = match get_body(response) {
        Some(body) => match body.get("stackFrames") {
            Some(f) => f.as_array(),
            None => None,
        },
        None => None,
    };
    match frames {
        Some(list) => {
            if list.len() == 0 {
                return (String::new(), None);
            }
            let frame = &list[0];
            let name = match get_string(frame, "name") {
                Some(n) => n,
                None => String::new(),
            };
            (name, get_u64(frame, "id"))
        },
        None => (String::new(), None),
    }
}

/// The next step of a debug snapshot, given the response to the request the
/// last step sent and where the output ring ends now.
pub fn snapshot_on_response(phase: SnapshotPhase, response: &JsonValue, output_tail: u64) -> (r: (SnapshotPhase, SnapshotAction))
    ensures
        phase is StackTrace ==> if contains(top_frame_name(*response), safe_point_name()) {
            r.0 == (SnapshotPhase::PrimaryEval { frame_id: top_frame_id(*response) }) && is_evaluate(
                r.1,
                "&AXIOM_DEBUG_PROBE_STATE"@,
                "watch"@,
                top_frame_id(*response),
            )
        } else {
            r.1 matches SnapshotAction::Unsupported { reason } && reason@
                == "Top stack frame is not axiom_debug_safe_point (got '"@ + top_frame_name(
                *response,
            ) + "')"@
        },
        phase is PrimaryEval ==> match memory_reference_of(*response) {
            Some(m) => r.0 is FrameCounter && r.0->FrameCounter_reference@ == m && is_read_memory(
                r.1,
                m,
                0,
                8,
            ),
            None => r.0 == (SnapshotPhase::FallbackEval { output_start: output_tail }) && is_evaluate(
                r.1,
                "p/x &AXIOM_DEBUG_PROBE_STATE"@,
                "repl"@,
                phase->PrimaryEval_frame_id,
            ),
        },
        phase is FallbackEval ==> match fallback_address_of(*response) {
            Some(a) => r.0 is FrameCounter && r.0->FrameCounter_reference@ == a && is_read_memory(
                r.1,
                a,
                0,
                8,
            ),
            None => r.1 == (SnapshotAction::WatchOutput {
                start_seq: phase->FallbackEval_output_start,
                timeout_ms: OUTPUT_EVENT_WAIT_TIMEOUT_MS,
            }),
        },
        phase is FrameCounter ==> if read_ok(*response, 8) {
            r.0 is SnapshotLen && r.0->SnapshotLen_reference@ == phase->FrameCounter_reference@
                && r.0->SnapshotLen_frame_counter == le_u64(memory_bytes_of(*response)->Some_0) as u64
                && is_read_memory(r.1, phase->FrameCounter_reference@, 8, 8)
        } else {
            r.1 is Fail
        },
        phase is SnapshotLen ==> if read_ok(*response, 8) {
            r.0 == (SnapshotPhase::SnapshotBytes {
                frame_counter: phase->SnapshotLen_frame_counter,
                snapshot_len: clamp_len(le_u64(memory_bytes_of(*response)->Some_0) as u64),
            }) && is_read_memory(
                r.1,
                phase->SnapshotLen_reference@,
                16,
                clamp_len(le_u64(memory_bytes_of(*response)->Some_0) as u64) as u64,
            )
        } else {
            r.1 is Fail
        },
        r.0 matches SnapshotPhase::SnapshotBytes { snapshot_len, .. } ==> snapshot_len
            <= PROBE_SNAPSHOT_CAPACITY,
        phase is SnapshotBytes ==> if read_ok(*response, phase->SnapshotBytes_snapshot_len as nat) {
            r.1 is Finish && r.1->Finish_frame_counter == phase->SnapshotBytes_frame_counter
                && r.1->Finish_snapshot_len == phase->SnapshotBytes_snapshot_len
                && r.1->Finish_bytes@ == trim_nuls(memory_bytes_of(*response)->Some_0)
        } else {
            r.1 is Fail
        },
        r.1 matches SnapshotAction::Finish { bytes, .. } ==> bytes@ == trim_nuls(bytes@),
        phase is FallbackOutput || phase is Over ==> r.1 is Fail,
{
    match phase {
        SnapshotPhase::StackTrace => {
            let (name, frame_id) = top_frame(response);
            let name_chars = chars_of(name.as_str());
            let wanted = chars_of("axiom_debug_safe_point");
            if find(&name_chars, &wanted).is_none() {
                let mut m = chars_of("Top stack frame is not axiom_debug_safe_point (got '");
                append_chars(&mut m, &name_chars);
                append_str(&mut m, "')");
                return (SnapshotPhase::Over, SnapshotAction::Unsupported { reason: string_of(&m) });
            }
            (
                SnapshotPhase::PrimaryEval { frame_id },
                evaluate_request("&AXIOM_DEBUG_PROBE_STATE", "watch", frame_id),
            )
        },
        SnapshotPhase::PrimaryEval { frame_id } => {
            let reference = match get_body(response) {
                Some(body) => get_string(body, "memoryReference"),
                None => None,
            };
            match reference {
                Some(r) if !r.as_str().is_empty() => {
                    let req = read_memory_request(r.as_str(), 0, 8);
                    (SnapshotPhase::FrameCounter { reference: r }, req)
                },
                _ => (
                    SnapshotPhase::FallbackEval { output_start: output_tail },
                    evaluate_request("p/x &AXIOM_DEBUG_PROBE_STATE", "repl", frame_id),
                ),
            }
        },
        SnapshotPhase::FallbackEval { output_start } => {
            let result = match get_body(response) {
                Some(body) => get_string(body, "result"),
                None => None,
            };
            let address = match result {
                Some(text) => parse_hex_address(text.as_str()),
                None => None,
            };
            match address {
                Some(a) => {
                    let req = read_memory_request(a.as_str(), 0, 8);
                    (SnapshotPhase::FrameCounter { reference: a }, req)
                },
                None => (
                    SnapshotPhase::FallbackOutput,
                    SnapshotAction::WatchOutput {
                        start_seq: output_start,
                        timeout_ms: OUTPUT_EVENT_WAIT_TIMEOUT_MS,
                    },
                ),
            }
        },
        SnapshotPhase::FrameCounter { reference } => {
            let bytes = match read_memory_data_bytes(response, 8) {
                Ok(b) => b,
                Err(e) => {
                    return (SnapshotPhase::Over, SnapshotAction::Fail { error: e });
                },
            };
            match read_u64_le(bytes.as_slice()) {
                Ok(frame_counter) => {
                    let req = read_memory_request(reference.as_str(), 8, 8);
                    (SnapshotPhase::SnapshotLen { reference, frame_counter }, req)
                },
                Err(e) => (SnapshotPhase::Over, SnapshotAction::Fail { error: e }),
            }
        },
        SnapshotPhase::SnapshotLen { reference, frame_counter } => {
            let bytes = match read_memory_data_bytes(response, 8) {
                Ok(b) => b,
                Err(e) => {
                    return (SnapshotPhase::Over, SnapshotAction::Fail { error: e });
                },
            };
            match read_u64_le(bytes.as_slice()) {
                Ok(raw) => {
                    let snapshot_len: usize = if raw > PROBE_SNAPSHOT_CAPACITY as u64 {
                        PROBE_SNAPSHOT_CAPACITY
                    } else {
                        raw as usize
                    };
                    let req = read_memory_request(reference.as_str(), 16, snapshot_len);
                    (SnapshotPhase::SnapshotBytes { frame_counter, snapshot_len }, req)
                },
                Err(e) => (SnapshotPhase::Over, SnapshotAction::Fail { error: e }),
            }
        },
        SnapshotPhase::SnapshotBytes { frame_counter, snapshot_len } => {
            match read_memory_data_bytes(response, snapshot_len) {
                Ok(mut bytes) => {
                    let ghost orig = bytes@;
                    trim_trailing_nuls(&mut bytes);
                    proof {
                        lemma_trim_nuls_idempotent(orig);
                    }
                    (SnapshotPhase::Over, SnapshotAction::Finish { frame_counter, snapshot_len, bytes })
                },
                Err(e) => (SnapshotPhase::Over, SnapshotAction::Fail { error: e }),
            }
        },
        _ => (
            SnapshotPhase::Over,
            SnapshotAction::Fail { error: String::from_str("Debug snapshot received an out-of-order response") },
        ),
    }
}

/// Whether `response` carries eight readable bytes whose little-endian value is `v`.
pub open spec fn read_u64_le_ok(response: JsonValue, v: u64) -> bool {
    match crate::dap::body_of(response) {
        Some(body) => match str_member(body, "data"@) {
            Some(data) => match crate::encoding::base64_decoded(data) {
                Some(bytes) => bytes.len() >= 8 && v == crate::dap_ops::le_u64(bytes) as u64,
                None => false,
            },
            None => false,
        },
        None => false,
    }
}

proof fn lemma_trim_nuls_idempotent(b: Seq<u8>)
    ensures
        trim_nuls(trim_nuls(b)) == trim_nuls(b),
    decreases b.len(),
{
    if b.len() > 0 && b.last() == 0 {
        lemma_trim_nuls_idempotent(b.drop_last());
    }
}

/// The step after watching console output: read the frame counter at the
/// address found, or fail.
pub fn snapshot_on_output_address(phase: SnapshotPhase, address: Option<String>) -> (r: (SnapshotPhase, SnapshotAction))
    ensures
        phase is FallbackOutput && address is Some ==> r.0 is FrameCounter
            && r.0->FrameCounter_reference@ == address->Some_0@ && is_read_memory(
            r.1,
            address->Some_0@,
            0,
            8,
        ),
        !(phase is FallbackOutput && address is Some) ==> (r.1 matches SnapshotAction::Fail { error }
            && error@ == "Failed to resolve AXIOM_DEBUG_PROBE_STATE address from evaluate fallback"@),
{
    match (phase, address) {
        (SnapshotPhase::FallbackOutput, Some(a)) => {
            let req = read_memory_request(a.as_str(), 0, 8);
            (SnapshotPhase::FrameCounter { reference: a }, req)
        },
        _ => (
            SnapshotPhase::Over,
            SnapshotAction::Fail {
                error: String::from_str(
                    "Failed to resolve AXIOM_DEBUG_PROBE_STATE address from evaluate fallback",
                ),
            },
        ),
    }
}

} // verus!
