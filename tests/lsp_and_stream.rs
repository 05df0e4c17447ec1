use axiom_bridge::json::JsonValue;
use axiom_bridge::llm::{
    chunk_event, classify_sse_line, HttpOutcome, RetryDecision, RetryState, SseDecoder, SseLine,
    StreamEvent,
};
use axiom_bridge::lsp::{format_definition, format_diagnostics, format_references, notification, response_outcome, Diagnostic, Incoming, LspState};

fn ls_obj(pairs: Vec<(&str, JsonValue)>) -> JsonValue {
    JsonValue::Object(pairs.into_iter().map(|(k, v)| (k.to_string(), v)).collect())
}

fn ls_str(s: &str) -> JsonValue {
    JsonValue::Str(s.to_string())
}

fn ls_chunk(content: Option<&str>) -> JsonValue {
    let delta = match content {
        Some(c) => ls_obj(vec![("content", ls_str(c))]),
        None => ls_obj(vec![]),
    };
    ls_obj(vec![("choices", JsonValue::Array(vec![ls_obj(vec![("delta", delta)])]))])
}

#[test]
fn lsp_request_ids_increase_and_responses_correlate() {
    let mut state = LspState::new();
    let (a, msg) = state.next_request("initialize", JsonValue::Null).unwrap();
    let (b, _) = state.next_request("textDocument/definition", JsonValue::Null).unwrap();
    assert_eq!((a, b), (1, 2));
    assert_eq!(msg.get("method").unwrap().as_str().unwrap(), "initialize");
    let reply = ls_obj(vec![("jsonrpc", ls_str("2.0")), ("id", JsonValue::Uint(2)), ("result", JsonValue::Null)]);
    assert!(matches!(state.handle_incoming(reply), Incoming::Response(2)));
    assert!(state.take_response(1).is_none());
    let got = state.take_response(2).unwrap();
    assert!(response_outcome(got).ok().unwrap().is_null());
    assert!(state.take_response(2).is_none());
    assert!(notification("initialized", ls_obj(vec![])).get("id").is_none());
}

#[test]
fn lsp_error_response_fails() {
    let reply = ls_obj(vec![("id", JsonValue::Uint(3)), ("error", ls_obj(vec![("code", JsonValue::Int(-32601))]))]);
    assert!(response_outcome(reply).is_err());
}

#[test]
fn lsp_diagnostics_are_stored_and_formatted() {
    let mut state = LspState::new();
    let diag = ls_obj(vec![
        ("range", ls_obj(vec![("start", ls_obj(vec![("line", JsonValue::Uint(4)), ("character", JsonValue::Uint(0))]))])),
        ("severity", JsonValue::Uint(1)),
        ("message", ls_str("mismatched types")),
    ]);
    let note = ls_obj(vec![
        ("jsonrpc", ls_str("2.0")),
        ("method", ls_str("textDocument/publishDiagnostics")),
        ("params", ls_obj(vec![("uri", ls_str("file:///w/a.rs")), ("diagnostics", JsonValue::Array(vec![diag]))])),
    ]);
    assert!(matches!(state.handle_incoming(note), Incoming::Diagnostics));
    let report = format_diagnostics(state.diagnostics_for("file:///w/a.rs"));
    assert_eq!(report, "[Error] Line 5: mismatched types\n");
    assert_eq!(format_diagnostics(None), "No diagnostics info available yet.");
    assert_eq!(format_diagnostics(Some(&Vec::new())), "No diagnostics (errors/warnings) found.");
    let hint = vec![Diagnostic { severity: None, line: 0, message: "m".to_string() }];
    assert_eq!(format_diagnostics(Some(&hint)), "[Information] Line 1: m\n");
}

#[test]
fn lsp_locations_are_formatted() {
    let loc = ls_obj(vec![
        ("uri", ls_str("file:///w/src/lib.rs")),
        ("range", ls_obj(vec![("start", ls_obj(vec![("line", JsonValue::Uint(9)), ("character", JsonValue::Uint(2))]))])),
    ]);
    assert_eq!(format_definition(&JsonValue::Null), Ok("No definition found.".to_string()));
    assert_eq!(format_definition(&loc), Ok("Definition at: /w/src/lib.rs:10".to_string()));
    assert_eq!(format_references(&JsonValue::Null), Ok("No references found.".to_string()));
    assert_eq!(
        format_references(&JsonValue::Array(vec![loc])),
        Ok("Found 1 references:\n/w/src/lib.rs:10".to_string())
    );
}

#[test]
fn sse_lines_and_chunks() {
    let mut dec = SseDecoder::new();
    dec.push_bytes(b"data: {\"a\":1}\ndata: [DONE]\npartial");
    let first = dec.next_line().unwrap();
    assert!(matches!(classify_sse_line(&first), SseLine::Data(ref p) if p == "{\"a\":1}"));
    let second = dec.next_line().unwrap();
    assert!(matches!(classify_sse_line(&second), SseLine::Done));
    assert!(dec.next_line().is_none());
    assert_eq!(dec.buffer, b"partial".to_vec());
    assert!(matches!(classify_sse_line(": keep-alive"), SseLine::Skip));
}

#[test]
fn text_chunks_concatenate_to_contents() {
    let chunks = vec![ls_chunk(Some("Hel")), ls_chunk(None), ls_chunk(Some("")), ls_chunk(Some("lo"))];
    let mut text = String::new();
    for c in &chunks {
        if let Some(StreamEvent::TextChunk(t)) = chunk_event(c) {
            text.push_str(&t);
        }
    }
    assert_eq!(text, "Hello");
    let tool = ls_obj(vec![("choices", JsonValue::Array(vec![ls_obj(vec![("delta", ls_obj(vec![
        ("tool_calls", JsonValue::Array(vec![ls_obj(vec![("index", JsonValue::Uint(0)), ("id", ls_str("call_1"))])])),
    ]))])]))]);
    match chunk_event(&tool) {
        Some(StreamEvent::ToolCallChunk(call)) => {
            assert_eq!(call.index, 0);
            assert_eq!(call.id.as_deref(), Some("call_1"));
        }
        _ => panic!("a tool-call fragment is emitted"),
    }
}

#[test]
fn retry_policy_backs_off_and_gives_up() {
    let mut st = RetryState::new();
    assert_eq!(st.decide(HttpOutcome::Status(429)), RetryDecision::RetryAfter { delay_secs: 2 });
    assert_eq!(st.decide(HttpOutcome::Status(503)), RetryDecision::RetryAfter { delay_secs: 4 });
    assert_eq!(st.decide(HttpOutcome::NetworkError), RetryDecision::RetryAfter { delay_secs: 8 });
    assert_eq!(st.decide(HttpOutcome::Status(429)), RetryDecision::FailRateLimited);
    assert_eq!(st.decide(HttpOutcome::NetworkError), RetryDecision::FailNetwork);
    let mut fresh = RetryState::new();
    assert_eq!(fresh.decide(HttpOutcome::Status(404)), RetryDecision::FailStatus);
    assert_eq!(fresh.decide(HttpOutcome::Success), RetryDecision::Stream);
}

#[test]
fn file_paths_become_file_uris() {
    assert_eq!(axiom_bridge::lsp::document_uri("/tmp/a b.rs", "/w"), Some("file:///tmp/a%20b.rs".to_string()));
    assert_eq!(axiom_bridge::lsp::document_uri("src/x.rs", "/w"), Some("file:///w/src/x.rs".to_string()));
    assert_eq!(axiom_bridge::lsp::document_uri("x.rs", "rel"), None);
}
