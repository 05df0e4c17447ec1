use std::collections::VecDeque;

use axiom_bridge::dap::{push_recent_output_event, DapCore, Dispatch, MAX_RECENT_OUTPUT_EVENTS};
use axiom_bridge::dap_flows::{attach_step, map_attach_error, AttachAction, AttachEvent, AttachPhase};
use axiom_bridge::dap_ops::{
    output_event_address_since, parse_hex_address, parse_hex_address_from_output_event,
    poll_stopped_event_after_seq, read_memory_data_bytes, read_u64_le, resolve_thread_id, StopWait,
};
use axiom_bridge::framing::{decode_frame, encode_frame, FrameDecode, FrameError};
use axiom_bridge::json::JsonValue;

fn dap_obj(pairs: Vec<(&str, JsonValue)>) -> JsonValue {
    JsonValue::Object(pairs.into_iter().map(|(k, v)| (k.to_string(), v)).collect())
}

fn dap_str(s: &str) -> JsonValue {
    JsonValue::Str(s.to_string())
}

fn seeded_output_events(entries: &[(u64, &str)]) -> VecDeque<(u64, String)> {
    let mut events = VecDeque::new();
    for (seq, output) in entries {
        push_recent_output_event(&mut events, *seq, (*output).to_string());
    }
    events
}

fn stopped_event(thread: u64) -> JsonValue {
    dap_obj(vec![
        ("type", dap_str("event")),
        ("event", dap_str("stopped")),
        ("body", dap_obj(vec![("threadId", JsonValue::Uint(thread)), ("reason", dap_str("step"))])),
    ])
}

#[test]
fn parse_hex_address_extracts_address_from_console_output() {
    assert_eq!(parse_hex_address("$0 = 0x7ffee4bff5a8"), Some("0x7ffee4bff5a8".to_string()));
    assert_eq!(parse_hex_address("result: 0xDEADBEEF,"), Some("0xDEADBEEF".to_string()));
    assert_eq!(parse_hex_address("$0 = 42"), None);
    assert_eq!(parse_hex_address("pointer: 0x"), None);
}

#[test]
fn parse_hex_address_from_output_event_extracts_pointer_result() {
    let output_event = dap_obj(vec![
        ("type", dap_str("event")),
        ("event", dap_str("output")),
        ("body", dap_obj(vec![
            ("category", dap_str("console")),
            ("output", dap_str("(bevy_ai_remote::AxiomDebugProbeState *) 0x000055a48f077a08\n")),
        ])),
    ]);
    assert_eq!(
        parse_hex_address_from_output_event(&output_event),
        Some("0x000055a48f077a08".to_string())
    );
}

#[test]
fn wait_for_output_event_address_returns_hex_for_entries_at_or_after_start_seq() {
    let events = seeded_output_events(&[(41, "noise without pointer"), (42, "(ProbeState*) 0x00000000DEADBEEF")]);
    assert_eq!(output_event_address_since(&events, 42), Some("0x00000000DEADBEEF".to_string()));
}

#[test]
fn wait_for_output_event_address_ignores_addresses_before_start_seq_marker() {
    let events = seeded_output_events(&[(7, "(ProbeState*) 0x00000000000000AA"), (8, "plain output")]);
    assert_eq!(output_event_address_since(&events, 8), None);
}

#[test]
fn push_recent_output_event_keeps_ring_buffer_bounded_and_evicts_oldest_entries() {
    let mut events = VecDeque::new();
    for seq in 0..(MAX_RECENT_OUTPUT_EVENTS as u64 + 10) {
        push_recent_output_event(&mut events, seq, format!("line-{seq}"));
    }
    assert_eq!(events.len(), MAX_RECENT_OUTPUT_EVENTS);
    assert_eq!(events.front().map(|(seq, _)| *seq), Some(10));
    assert_eq!(events.back().map(|(seq, _)| *seq), Some(MAX_RECENT_OUTPUT_EVENTS as u64 + 9));
}

#[test]
fn read_u64_le_parses_little_endian_and_rejects_short_input() {
    let parsed = read_u64_le(&[0x88, 0x77, 0x66, 0x55, 0x44, 0x33, 0x22, 0x11])
        .expect("8-byte LE input should parse");
    assert_eq!(parsed, 0x1122334455667788);

    let err = read_u64_le(&[1, 2, 3]).expect_err("short input must fail");
    assert!(
        err.contains("Expected at least 8 bytes") && err.contains("received 3 bytes"),
        "unexpected error: {err}"
    );
}

#[test]
fn read_memory_data_bytes_errors_when_unreadable_bytes_present() {
    let response = dap_obj(vec![("body", dap_obj(vec![
        ("unreadableBytes", JsonValue::Uint(4)),
        ("data", dap_str("AQIDBA==")),
    ]))]);
    let err = read_memory_data_bytes(&response, 1).expect_err("unreadableBytes > 0 should produce an error");
    assert!(err.contains("unreadableBytes=4"), "unexpected error: {err}");
}

#[test]
fn read_memory_data_bytes_errors_when_data_missing() {
    let response = dap_obj(vec![("body", dap_obj(vec![("unreadableBytes", JsonValue::Uint(0))]))]);
    let err = read_memory_data_bytes(&response, 1).expect_err("missing data must fail");
    assert!(err.contains("missing base64 data"), "unexpected error: {err}");
}

#[test]
fn read_memory_data_bytes_decodes_base64_payload() {
    let response = dap_obj(vec![("body", dap_obj(vec![
        ("unreadableBytes", JsonValue::Uint(0)),
        ("data", dap_str("AQIDBAU=")),
    ]))]);
    let bytes = read_memory_data_bytes(&response, 5).expect("base64 payload should decode");
    assert_eq!(bytes, vec![1, 2, 3, 4, 5]);
}

#[test]
fn read_memory_data_bytes_rejects_bad_base64_and_short_payload() {
    let bad = dap_obj(vec![("body", dap_obj(vec![("data", dap_str("!!"))]))]);
    let err = read_memory_data_bytes(&bad, 1).expect_err("invalid base64 must fail");
    assert!(err.starts_with("Failed to decode readMemory base64 data: "), "unexpected error: {err}");
    let short = dap_obj(vec![("body", dap_obj(vec![("data", dap_str("AQI="))]))]);
    let err = read_memory_data_bytes(&short, 8).expect_err("short payload must fail");
    assert_eq!(err, "Decoded memory payload is too short: expected at least 8 bytes, got 2");
    let err = read_memory_data_bytes(&JsonValue::Null, 1).expect_err("no body must fail");
    assert_eq!(err, "readMemory response missing object body");
}

#[test]
fn wait_for_stopped_event_after_seq_returns_new_stop_event() {
    let mut core: DapCore<u8> = DapCore::new();
    for _ in 0..3 {
        let _ = core.dispatch(stopped_event(7));
    }
    match poll_stopped_event_after_seq(&core, 2, 0, 1) {
        StopWait::Ready(stop) => assert_eq!(stop.thread_id, Some(7)),
        _ => panic!("new stop should be returned"),
    }
}

#[test]
fn wait_for_stopped_event_after_seq_rejects_stale_stop_without_new_seq() {
    let mut core: DapCore<u8> = DapCore::new();
    for _ in 0..5 {
        let _ = core.dispatch(stopped_event(9));
    }
    assert_eq!(core.stopped_generation, 5);
    match poll_stopped_event_after_seq(&core, 5, 0, 0) {
        StopWait::TimedOut(err) => assert!(
            err.contains("Timed out waiting for next DAP 'stopped' event"),
            "unexpected error: {err}"
        ),
        _ => panic!("stale stop must not satisfy wait when sequence did not advance"),
    }
}

#[test]
fn step_sees_stop_with_generation_bump() {
    let mut core: DapCore<u8> = DapCore::new();
    for _ in 0..5 {
        let _ = core.dispatch(stopped_event(1));
    }
    let before = core.stopped_generation;
    assert_eq!(before, 5);
    assert!(matches!(poll_stopped_event_after_seq(&core, before, 10, 10_000), StopWait::Pending));
    assert!(matches!(core.dispatch(stopped_event(2)), Dispatch::Stopped));
    assert_eq!(core.stopped_generation, 6);
    match poll_stopped_event_after_seq(&core, before, 60, 10_000) {
        StopWait::Ready(stop) => {
            assert_eq!(stop.thread_id, Some(2));
            assert_eq!(stop.reason.as_deref(), Some("step"));
        }
        _ => panic!("the new stop must be returned"),
    }
}

#[test]
fn framed_event_and_response_resolve_outstanding_request() {
    let mut core: DapCore<&str> = DapCore::new();
    let (seq, request) = core.begin_request("threads", JsonValue::Null, "reply-slot").unwrap();
    assert_eq!(seq, 1);
    assert_eq!(request.get("type").unwrap().as_str().unwrap(), "request");
    assert_eq!(core.pending.len(), 1);

    let mut stream: Vec<u8> = b"Content-Length: 17\r\n\r\n{\"type\":\"event\"}\n".to_vec();
    let response = b"{\"type\":\"response\",\"request_seq\":1,\"success\":true}";
    stream.extend_from_slice(&encode_frame(&response.to_vec()));

    let first = match decode_frame(&stream) {
        FrameDecode::Complete { body, used } => {
            assert_eq!(body, b"{\"type\":\"event\"}\n".to_vec());
            used
        }
        _ => panic!("the first frame is complete"),
    };
    let rest = stream[first..].to_vec();
    match decode_frame(&rest) {
        FrameDecode::Complete { body, used } => {
            assert_eq!(body, response.to_vec());
            assert_eq!(used, rest.len());
        }
        _ => panic!("the second frame is complete"),
    }

    assert!(matches!(core.dispatch(dap_obj(vec![("type", dap_str("event"))])), Dispatch::Ignored));
    let reply = dap_obj(vec![
        ("type", dap_str("response")),
        ("request_seq", JsonValue::Uint(1)),
        ("success", JsonValue::Bool(true)),
    ]);
    match core.dispatch(reply) {
        Dispatch::Deliver(slot, _) => assert_eq!(slot, "reply-slot"),
        _ => panic!("the response must be delivered to its request"),
    }
    assert!(core.pending.is_empty());
}

#[test]
fn timed_out_request_leaves_no_pending_entry() {
    let mut core: DapCore<u32> = DapCore::new();
    let (a, _) = core.begin_request("next", JsonValue::Null, 10).unwrap();
    let (b, _) = core.begin_request("stepIn", JsonValue::Null, 20).unwrap();
    assert!(b > a);
    assert_eq!(core.cancel_request(a), Some(10));
    let late = dap_obj(vec![("type", dap_str("response")), ("request_seq", JsonValue::Uint(a))]);
    assert!(matches!(core.dispatch(late), Dispatch::Unmatched));
    assert_eq!(core.cancel_request(b), Some(20));
    assert!(core.pending.is_empty());
}

#[test]
fn output_and_initialized_events_update_state() {
    let mut core: DapCore<u8> = DapCore::new();
    let out = dap_obj(vec![
        ("type", dap_str("event")),
        ("event", dap_str("output")),
        ("body", dap_obj(vec![("output", dap_str("$1 = 0x10"))])),
    ]);
    assert!(matches!(core.dispatch(out), Dispatch::Output));
    assert_eq!(core.recent_output.len(), 1);
    assert_eq!(core.recent_output[0].0, 0);
    let init = dap_obj(vec![("type", dap_str("event")), ("event", dap_str("initialized"))]);
    assert!(matches!(core.dispatch(init), Dispatch::Initialized));
    assert!(core.initialized_seen);
}

#[test]
fn thread_resolution_prefers_explicit_then_last_stop() {
    let mut core: DapCore<u8> = DapCore::new();
    assert_eq!(resolve_thread_id(&core, Some(3)), Ok(3));
    assert_eq!(
        resolve_thread_id(&core, None),
        Err("Missing threadId: provide thread_id or wait for a stopped event with threadId".to_string())
    );
    let _ = core.dispatch(stopped_event(11));
    assert_eq!(resolve_thread_id(&core, None), Ok(11));
}

#[test]
fn frame_decoding_reports_missing_and_bad_lengths() {
    assert!(matches!(decode_frame(&b"X-Other: 1\r\n\r\n{}".to_vec()), FrameDecode::Invalid(FrameError::MissingContentLength)));
    assert!(matches!(decode_frame(&b"Content-Length: abc\r\n\r\n".to_vec()), FrameDecode::Invalid(FrameError::InvalidContentLength)));
    assert!(matches!(decode_frame(&b"content-length: 5\r\n\r\nab".to_vec()), FrameDecode::Incomplete));
    assert!(matches!(decode_frame(&b"Content-Len".to_vec()), FrameDecode::Incomplete));
    assert_eq!(encode_frame(&b"{}".to_vec()), b"Content-Length: 2\r\n\r\n{}".to_vec());
}

#[test]
fn attach_handshake_runs_in_order_and_maps_ptrace_errors() {
    let (p, a) = attach_step(AttachPhase::Probe, AttachEvent::Running);
    assert_eq!(p, AttachPhase::Initialize);
    assert!(matches!(a, AttachAction::SendInitialize { timeout_ms: 5000 }));
    let (p, a) = attach_step(p, AttachEvent::Done);
    assert!(matches!(a, AttachAction::BeginAttach));
    let (p, a) = attach_step(p, AttachEvent::Done);
    assert!(matches!(a, AttachAction::WaitInitialized { .. }));
    let (p, a) = attach_step(p, AttachEvent::Initialized(false));
    assert!(matches!(a, AttachAction::SendConfigurationDone { .. }));
    let (p, a) = attach_step(p, AttachEvent::Done);
    assert!(matches!(a, AttachAction::AwaitAttach { timeout_ms: 10000 }));
    match attach_step(p, AttachEvent::Failed("Operation not permitted".to_string())) {
        (AttachPhase::Failed, AttachAction::Shutdown { error }) => {
            assert!(error.starts_with("Attach failed: ptrace permission denied (EPERM)"));
            assert!(error.ends_with("Adapter error: Operation not permitted"));
        }
        _ => panic!("attach failure must shut down"),
    }
    assert_eq!(map_attach_error("timeout".to_string()), "timeout");
}

use axiom_bridge::dap_requests::{
    console_args, evaluate_args, function_breakpoints_args, read_memory_args, set_breakpoints_args,
    variables_args, BreakpointSpec,
};
use axiom_bridge::scene::{probe_snapshot_text, AxiomDebugProbeState, AXIOM_DEBUG_SNAPSHOT_CAPACITY};

#[test]
fn operation_arguments_follow_the_protocol() {
    let bps = vec![
        BreakpointSpec { line: 12, column: None, condition: Some("x > 1".to_string()), hit_condition: None, log_message: None },
        BreakpointSpec { line: 30, column: Some(4), condition: None, hit_condition: None, log_message: None },
    ];
    let args = set_breakpoints_args("/src/main.rs", &bps);
    assert_eq!(args.get("source").unwrap().get("path").unwrap().as_str().unwrap(), "/src/main.rs");
    let list = args.get("breakpoints").unwrap().as_array().unwrap();
    assert_eq!(list.len(), 2);
    assert_eq!(list[0].get("condition").unwrap().as_str().unwrap(), "x > 1");
    assert!(list[0].get("column").is_none());
    assert_eq!(list[1].get("column").unwrap().as_u64(), Some(4));
    let f = function_breakpoints_args(&vec!["main".to_string()]);
    assert_eq!(f.get("breakpoints").unwrap().as_array().unwrap()[0].get("name").unwrap().as_str().unwrap(), "main");
    let e = evaluate_args("x + 1", None, None);
    assert_eq!(e.get("context").unwrap().as_str().unwrap(), "watch");
    assert!(e.get("frameId").is_none());
    let c = console_args("bt", Some(3));
    assert_eq!(c.get("context").unwrap().as_str().unwrap(), "repl");
    assert_eq!(c.get("frameId").unwrap().as_u64(), Some(3));
    let v = variables_args(9, Some(0), None);
    assert_eq!(v.get("variablesReference").unwrap().as_u64(), Some(9));
    assert!(v.get("count").is_none());
}

#[test]
fn read_memory_count_is_capped() {
    assert!(read_memory_args("0x10", 0, 65536).is_ok());
    assert_eq!(
        read_memory_args("0x10", 0, 65537).err(),
        Some("debugger_read_memory count 65537 exceeds max allowed 65536 bytes".to_string())
    );
    let args = read_memory_args("0x10", -8, 16).ok().unwrap();
    assert_eq!(args.get("offset").unwrap().as_i64(), Some(-8));
}

#[test]
fn probe_block_holds_snapshot() {
    let mut probe = AxiomDebugProbeState::new();
    assert_eq!(probe.snapshot_bytes.len(), AXIOM_DEBUG_SNAPSHOT_CAPACITY);
    let frame = probe.next_frame();
    assert_eq!(frame, 1);
    let text = probe_snapshot_text(frame, 5);
    assert_eq!(
        text,
        "{\"frame_index\":1,\"entity_count\":5,\"resource_summaries\":[],\"warnings\":[\"resource summaries unavailable in debug probe\"]}"
    );
    let n = probe.write_snapshot(text.as_bytes());
    assert_eq!(n, text.len());
    assert_eq!(&probe.snapshot_bytes[..n], text.as_bytes());
    assert_eq!(probe.snapshot_bytes[n], 0);
    let big = vec![7u8; AXIOM_DEBUG_SNAPSHOT_CAPACITY + 10];
    assert_eq!(probe.write_snapshot(&big), AXIOM_DEBUG_SNAPSHOT_CAPACITY);
}

use axiom_bridge::dap_flows::{snapshot_on_output_address, snapshot_on_response, SnapshotAction, SnapshotPhase};

fn dap_read(data: &str) -> JsonValue {
    dap_obj(vec![("body", dap_obj(vec![("data", dap_str(data)), ("unreadableBytes", JsonValue::Uint(0))]))])
}

#[test]
fn snapshot_reads_counter_length_and_bytes() {
    let (phase, action) = snapshot_on_output_address(SnapshotPhase::FallbackOutput, Some("0x10".to_string()));
    match action {
        SnapshotAction::Request { command, arguments } => {
            assert_eq!(command, "readMemory");
            assert_eq!(arguments.get("memoryReference").unwrap().as_str().unwrap(), "0x10");
            assert_eq!(arguments.get("offset").unwrap().as_u64(), Some(0));
            assert_eq!(arguments.get("count").unwrap().as_u64(), Some(8));
        }
        _ => panic!("the frame counter is read next"),
    }
    // 7 as a little-endian u64
    let (phase, action) = snapshot_on_response(phase, &dap_read("BwAAAAAAAAA="), 0);
    assert!(matches!(phase, SnapshotPhase::SnapshotLen { frame_counter: 7, .. }));
    assert!(matches!(action, SnapshotAction::Request { .. }));
    // 5000, above the 4096-byte capacity
    let (phase, action) = snapshot_on_response(phase, &dap_read("iBMAAAAAAAA="), 0);
    assert!(matches!(phase, SnapshotPhase::SnapshotBytes { frame_counter: 7, snapshot_len: 4096 }));
    match action {
        SnapshotAction::Request { arguments, .. } => {
            assert_eq!(arguments.get("offset").unwrap().as_u64(), Some(16));
            assert_eq!(arguments.get("count").unwrap().as_u64(), Some(4096));
        }
        _ => panic!("the snapshot bytes are read next"),
    }
    let (_, done) = snapshot_on_response(SnapshotPhase::SnapshotBytes { frame_counter: 7, snapshot_len: 4 }, &dap_read("e30AAA=="), 0);
    match done {
        SnapshotAction::Finish { frame_counter, snapshot_len, bytes } => {
            assert_eq!((frame_counter, snapshot_len), (7, 4));
            assert_eq!(bytes, b"{}".to_vec());
        }
        _ => panic!("the snapshot is complete"),
    }
}
