//! The Language Server Protocol session core: request ids, the table of
//! responses that arrived, the diagnostics pushed per document, and the
//! formatting of the operations' results.

use vstd::prelude::*;
use crate::dap::{get_string, opt_view, str_member, u64_member};
use crate::json::{member, JsonValue};
use crate::text::{append_chars, append_str, chars_of, dec, decimal_chars, str_eq, string_of};

verus! {

/// The value stored under `key` in a table with distinct keys.
pub open spec fn table_get<V>(t: Seq<(i64, V)>, key: i64) -> Option<V>
    decreases t.len(),
{
    if t.len() == 0 {
        None
    } else if t[0].0 == key {
        Some(t[0].1)
    } else {
        table_get(t.drop_first(), key)
    }
}

proof fn lemma_table_get<V>(t: Seq<(i64, V)>, key: i64)
    ensures
        match table_get(t, key) {
            Some(v) => exists|i: int|
                0 <= i < t.len() && t[i].0 == key && t[i].1 == v && forall|j: int|
                    0 <= j < i ==> t[j].0 != key,
            None => forall|i: int| 0 <= i < t.len() ==> t[i].0 != key,
        },
    decreases t.len(),
{
    if t.len() > 0 && t[0].0 != key {
        lemma_table_get(t.drop_first(), key);
        match table_get(t.drop_first(), key) {
            Some(v) => {
                let i = choose|i: int|
                    0 <= i < t.len() - 1 && t.drop_first()[i].0 == key && t.drop_first()[i].1 == v
                        && forall|j: int| 0 <= j < i ==> t.drop_first()[j].0 != key;
                assert(t[i + 1] == t.drop_first()[i]);
                assert forall|j: int| 0 <= j < i + 1 implies t[j].0 != key by {
                    if j > 0 {
                        assert(t[j] == t.drop_first()[j - 1]);
                    }
                }
            },
            None => {
                assert forall|i: int| 0 <= i < t.len() implies t[i].0 != key by {
                    if i > 0 {
                        assert(t[i] == t.drop_first()[i - 1]);
                    }
                }
            },
        }
    }
}

proof fn lemma_table_get_at<V>(t: Seq<(i64, V)>, key: i64, i: int)
    requires
        0 <= i < t.len(),
        t[i].0 == key,
        forall|j: int| 0 <= j < i ==> t[j].0 != key,
    ensures
        table_get(t, key) == Some(t[i].1),
{
    lemma_table_get(t, key);
    if let Some(v) = table_get(t, key) {
        let k = choose|k: int|
            0 <= k < t.len() && t[k].0 == key && t[k].1 == v && forall|j: int|
                0 <= j < k ==> t[j].0 != key;
        assert(k == i);
    }
}

/// No two entries of a table share a key.
pub open spec fn keys_unique<V>(t: Seq<(i64, V)>) -> bool {
    forall|i: int, j: int| 0 <= i < j < t.len() ==> t[i].0 != t[j].0
}

/// Removes the entry for `key`, returning its value.
pub fn table_take<V>(t: &mut Vec<(i64, V)>, key: i64) -> (r: Option<V>)
    ensures
        r == table_get(old(t)@, key),
        keys_unique(old(t)@) ==> keys_unique(final(t)@) && table_get(final(t)@, key) is None,
        forall|k: i64| k != key ==> table_get(final(t)@, k) == table_get(old(t)@, k),
{
    let mut i: usize = 0;
    while i < t.len()
        invariant
            i <= t@.len(),
            *t == *old(t),
            forall|j: int| 0 <= j < i ==> t@[j].0 != key,
        decreases t@.len() - i,
    {
        if t[i].0 == key {
            let ghost before = t@;
            proof {
                lemma_table_get_at(before, key, i as int);
            }
            let (_, v) = t.remove(i);
            proof {
                if keys_unique(before) {
                    assert forall|a: int, b: int| 0 <= a < b < t@.len() implies t@[a].0 != t@[b].0 by {
                        let a2 = if a < i { a } else { a + 1 };
                        let b2 = if b < i { b } else { b + 1 };
                        assert(t@[a] == before[a2]);
                        assert(t@[b] == before[b2]);
                    }
                    assert forall|j: int| 0 <= j < t@.len() implies t@[j].0 != key by {
                        let j2 = if j < i { j } else { j + 1 };
                        assert(t@[j] == before[j2]);
                        assert(before[i as int].0 == key);
                    }
                    lemma_table_get(t@, key);
                }
                assert forall|k: i64| k != key implies table_get(t@, k) == table_get(before, k) by {
                    lemma_table_get(before, k);
                    lemma_table_get(t@, k);
                    if let Some(w) = table_get(before, k) {
                        let a = choose|a: int|
                            0 <= a < before.len() && before[a].0 == k && before[a].1 == w
                                && forall|j: int| 0 <= j < a ==> before[j].0 != k;
                        let a2 = if a < i { a } else { a - 1 };
                        assert(t@[a2] == before[a]);
                        assert forall|j: int| 0 <= j < a2 implies t@[j].0 != k by {
                            if j < i {
                                assert(t@[j] == before[j]);
                            } else {
                                assert(t@[j] == before[j + 1]);
                            }
                        }
                        lemma_table_get_at(t@, k, a2);
                    } else {
                        assert forall|j: int| 0 <= j < t@.len() implies t@[j].0 != k by {
                            if j < i {
                                assert(t@[j] == before[j]);
                            } else {
                                assert(t@[j] == before[j + 1]);
                            }
                        }
                        lemma_table_get(t@, k);
                    }
                }
            }
            return Some(v);
        }
        i += 1;
    }
    proof {
        lemma_table_get(t@, key);
    }
    None
}

/// Stores `value` under `key`, replacing what was there.
pub fn table_put<V>(t: &mut Vec<(i64, V)>, key: i64, value: V)
    ensures
        keys_unique(old(t)@) ==> keys_unique(final(t)@),
        table_get(final(t)@, key) == Some(value),
        forall|k: i64| k != key ==> table_get(final(t)@, k) == table_get(old(t)@, k),
{
    let _ = table_take(t, key);
    let ghost mid = t@;
    t.insert(0, (key, value));
    proof {
        assert(t@[0] == (key, value));
        assert forall|k: i64| k != key implies table_get(t@, k) == table_get(mid, k) by {
            assert(t@.drop_first() =~= mid);
        }
        if keys_unique(mid) && table_get(mid, key) is None {
            lemma_table_get(mid, key);
            assert forall|a: int, b: int| 0 <= a < b < t@.len() implies t@[a].0 != t@[b].0 by {
                assert(t@[b] == mid[b - 1]);
                if a > 0 {
                    assert(t@[a] == mid[a - 1]);
                }
            }
        }
    }
}

/// One diagnostic: severity (1 error, 2 warning, 3 information, 4 hint), its
/// 0-based start line, and its message.
pub struct Diagnostic {
    pub severity: Option<u64>,
    pub line: u32,
    pub message: String,
}

/// The LSP session state shared by the reader and the callers.
pub struct LspState {
    /// The last request id handed out; ids start at 1.
    pub request_id: i64,
    pub initialized: bool,
    /// Responses that arrived and were not taken yet, by request id.
    pub responses: Vec<(i64, JsonValue)>,
    /// The latest diagnostics of each document, by URI.
    pub diagnostics: Vec<(String, Vec<Diagnostic>)>,
}

/// What the reader did with one inbound message.
pub enum Incoming {
    /// A response, stored under its id.
    Response(i64),
    /// Diagnostics for a document, stored under its URI.
    Diagnostics,
    Ignored,
}

/// The request id of a message, when it has an integer `id`.
pub open spec fn id_of(m: JsonValue) -> Option<i64> {
    match m.field("id"@) {
        Some(x) => x.i64_of(),
        None => None,
    }
}

impl LspState {
    /// Each request id has at most one stored response.
    pub open spec fn wf(&self) -> bool {
        keys_unique(self.responses@)
    }

    pub fn new() -> (r: Self)
        ensures
            r.wf(),
            r.request_id == 0,
            !r.initialized,
            r.responses@.len() == 0,
            r.diagnostics@.len() == 0,
    {
        LspState { request_id: 0, initialized: false, responses: Vec::new(), diagnostics: Vec::new() }
    }

    /// The next request: a fresh id, one more than the last, and the message
    /// `{jsonrpc: "2.0", id, method, params}`. `None` once ids are exhausted.
    pub fn next_request(&mut self, method: &str, params: JsonValue) -> (r: Option<(i64, JsonValue)>)
        ensures
            final(self).responses@ == old(self).responses@,
            final(self).initialized == old(self).initialized,
            old(self).request_id < i64::MAX ==> r is Some,
            match r {
                Some((id, msg)) => old(self).request_id < i64::MAX && id == old(self).request_id + 1
                    && final(self).request_id == id && id_of(msg) == Some(id) && str_member(
                    msg,
                    "method"@,
                ) == Some(method@) && msg.field("params"@) == Some(params) && str_member(
                    msg,
                    "jsonrpc"@,
                ) == Some("2.0"@),
                None => final(self).request_id == old(self).request_id,
            },
    {
        if self.request_id == i64::MAX {
            return None;
        }
        self.request_id = self.request_id + 1;
        let id = self.request_id;
        let mut e: Vec<(String, JsonValue)> = Vec::new();
        e.push(member("jsonrpc", JsonValue::from_str("2.0")));
        e.push(member("id", if id >= 0 {
            JsonValue::Uint(id as u64)
        } else {
            JsonValue::Int(id)
        }));
        e.push(member("method", JsonValue::from_str(method)));
        e.push(member("params", params));
        proof {
            reveal_strlit("jsonrpc");
            reveal_strlit("id");
            reveal_strlit("method");
            reveal_strlit("params");
            let v = e@;
            assert("jsonrpc"@.len() == 7 && "id"@.len() == 2 && "method"@.len() == 6
                && "params"@.len() == 6);
            assert("method"@ != "params"@) by {
                assert("method"@[0] != "params"@[0]);
            }
            crate::dap_flows::lemma_entries_get_at(v, "jsonrpc"@, 0);
            crate::dap_flows::lemma_entries_get_at(v, "id"@, 1);
            crate::dap_flows::lemma_entries_get_at(v, "method"@, 2);
            crate::dap_flows::lemma_entries_get_at(v, "params"@, 3);
        }
        Some((id, JsonValue::Object(e)))
    }

    /// Applies one inbound message: a response (a message with an integer
    /// `id`) is stored under its id; `textDocument/publishDiagnostics`
    /// replaces the diagnostics of its document.
    pub fn handle_incoming(&mut self, msg: JsonValue) -> (r: Incoming)
        requires
            old(self).wf(),
        ensures
            final(self).wf(),
            final(self).request_id == old(self).request_id,
            match id_of(msg) {
                Some(id) => r == Incoming::Response(id) && table_get(final(self).responses@, id)
                    == Some(msg) && forall|k: i64|
                    k != id ==> table_get(final(self).responses@, k) == table_get(
                        old(self).responses@,
                        k,
                    ),
                None => final(self).responses@ == old(self).responses@,
            },
            r is Diagnostics ==> id_of(msg) is None && str_member(msg, "method"@) == Some(
                "textDocument/publishDiagnostics"@,
            ) && (msg.field("params"@) matches Some(p) && str_member(p, "uri"@) matches Some(u)
                && (p.field("diagnostics"@) matches Some(d) && d.array_of() matches Some(l)
                && exists|i: int|
                0 <= i < final(self).diagnostics@.len() && final(self).diagnostics@[i].0@ == u
                    && final(self).diagnostics@[i].1@.len() == l.len() && forall|j: int|
                    0 <= j < i ==> final(self).diagnostics@[j].0@ != u)),
    {
        let id = match msg.get("id") {
            Some(x) => x.as_i64(),
            None => None,
        };
        match id {
            Some(id) => {
                table_put(&mut self.responses, id, msg);
                Incoming::Response(id)
            },
            None => {
                let is_diagnostics = match get_string(&msg, "method") {
                    Some(m) => str_eq(m.as_str(), "textDocument/publishDiagnostics"),
                    None => false,
                };
                if !is_diagnostics {
                    return Incoming::Ignored;
                }
                match msg.get("params") {
                    Some(params) => match parse_diagnostics(params) {
                        Some((uri, diags)) => {
                            self.set_diagnostics(uri, diags);
                            Incoming::Diagnostics
                        },
                        None => Incoming::Ignored,
                    },
                    None => Incoming::Ignored,
                }
            },
        }
    }

    fn set_diagnostics(&mut self, uri: String, diags: Vec<Diagnostic>)
        ensures
            final(self).responses@ == old(self).responses@,
            final(self).request_id == old(self).request_id,
            exists|i: int|
                0 <= i < final(self).diagnostics@.len() && final(self).diagnostics@[i].0@ == uri@
                    && final(self).diagnostics@[i].1 == diags && forall|j: int|
                    0 <= j < i ==> final(self).diagnostics@[j].0@ != uri@,
    {
        let mut i: usize = 0;
        while i < self.diagnostics.len()
            invariant
                i <= self.diagnostics@.len(),
                self.responses@ == old(self).responses@,
                self.request_id == old(self).request_id,
                forall|j: int| 0 <= j < i ==> self.diagnostics@[j].0@ != uri@,
            decreases self.diagnostics@.len() - i,
        {
            if str_eq(self.diagnostics[i].0.as_str(), uri.as_str()) {
                let ghost u = uri@;
                let ghost before = self.diagnostics@;
                let ghost entry = (uri, diags);
                self.diagnostics.set(i, (uri, diags));
                assert(self.diagnostics@[i as int] == entry);
                assert forall|j: int| 0 <= j < i implies self.diagnostics@[j].0@ != u by {
                    assert(self.diagnostics@[j] == before[j]);
                }
                return;
            }
            i += 1;
        }
        let ghost before = self.diagnostics@;
        let ghost u = uri@;
        let ghost entry = (uri, diags);
        self.diagnostics.push((uri, diags));
        assert(self.diagnostics@[before.len() as int] == entry);
        assert forall|j: int| 0 <= j < before.len() implies self.diagnostics@[j].0@ != u by {
            assert(self.diagnostics@[j] == before[j]);
        }
    }

    /// Takes the response to request `id`, if it arrived; it leaves the table.
    pub fn take_response(&mut self, id: i64) -> (r: Option<JsonValue>)
        requires
            old(self).wf(),
        ensures
            final(self).wf(),
            r == table_get(old(self).responses@, id),
            table_get(final(self).responses@, id) is None,
            forall|k: i64| k != id ==> table_get(final(self).responses@, k) == table_get(
                old(self).responses@,
                k,
            ),
            final(self).request_id == old(self).request_id,
    {
        table_take(&mut self.responses, id)
    }

    /// The diagnostics stored for `uri`: those of the first entry for it.
    pub fn diagnostics_for(&self, uri: &str) -> (r: Option<&Vec<Diagnostic>>)
        ensures
            match r {
                Some(d) => exists|i: int|
                    0 <= i < self.diagnostics@.len() && self.diagnostics@[i].0@ == uri@
                        && self.diagnostics@[i].1 == *d && forall|j: int|
                        0 <= j < i ==> self.diagnostics@[j].0@ != uri@,
                None => forall|i: int|
                    0 <= i < self.diagnostics@.len() ==> self.diagnostics@[i].0@ != uri@,
            },
    {
        let mut i: usize = 0;
        while i < self.diagnostics.len()
            invariant
                i <= self.diagnostics@.len(),
                forall|j: int| 0 <= j < i ==> self.diagnostics@[j].0@ != uri@,
            decreases self.diagnostics@.len() - i,
        {
            if str_eq(self.diagnostics[i].0.as_str(), uri) {
                return Some(&self.diagnostics[i].1);
            }
            i += 1;
        }
        None
    }
}

/// A notification: `{jsonrpc: "2.0", method, params}`.
pub fn notification(method: &str, params: JsonValue) -> (r: JsonValue)
    ensures
        id_of(r) is None,
        str_member(r, "jsonrpc"@) == Some("2.0"@),
        str_member(r, "method"@) == Some(method@),
        r.field("params"@) == Some(params),
{
    let mut e: Vec<(String, JsonValue)> = Vec::new();
    e.push(member("jsonrpc", JsonValue::from_str("2.0")));
    e.push(member("method", JsonValue::from_str(method)));
    e.push(member("params", params));
    proof {
        reveal_strlit("jsonrpc");
        reveal_strlit("id");
        reveal_strlit("method");
        reveal_strlit("params");
        assert("jsonrpc"@.len() == 7 && "id"@.len() == 2 && "method"@.len() == 6
            && "params"@.len() == 6);
        assert("id"@ != "method"@ && "id"@ != "params"@ && "id"@ != "jsonrpc"@);
        assert("method"@ != "params"@) by {
            assert("method"@[0] != "params"@[0]);
        }
        crate::dap_flows::lemma_entries_get_absent(e@, "id"@);
        crate::dap_flows::lemma_entries_get_at(e@, "jsonrpc"@, 0);
        crate::dap_flows::lemma_entries_get_at(e@, "method"@, 1);
        crate::dap_flows::lemma_entries_get_at(e@, "params"@, 2);
    }
    JsonValue::Object(e)
}

/// What a response carries: its `result` (`null` when absent), or its `error`.
pub open spec fn response_outcome_spec(response: JsonValue) -> Result<Option<JsonValue>, JsonValue> {
    match response.field("error"@) {
        Some(e) => Err(e),
        None => Ok(response.field("result"@)),
    }
}

/// Splits a response into its result (`Null` when absent) or its error.
pub fn response_outcome(response: JsonValue) -> (r: Result<JsonValue, JsonValue>)
    ensures
        match response_outcome_spec(response) {
            Err(e) => r == Err::<JsonValue, JsonValue>(e),
            Ok(Some(v)) => r == Ok::<JsonValue, JsonValue>(v),
            Ok(None) => r == Ok::<JsonValue, JsonValue>(JsonValue::Null),
        },
{
    let has_error = response.get("error").is_some();
    if has_error {
        match response.take("error") {
            Some(e) => Err(e),
            None => Err(JsonValue::Null),
        }
    } else {
        match response.take("result") {
            Some(v) => Ok(v),
            None => Ok(JsonValue::Null),
        }
    }
}

fn parse_diagnostic(d: &JsonValue) -> (r: Option<Diagnostic>) {
    let message = match get_string(d, "message") {
        Some(m) => m,
        None => {
            return None;
        },
    };
    let line = match d.get("range") {
        Some(range) => match range.get("start") {
            Some(start) => match start.get("line") {
                Some(l) => l.as_u64(),
                None => None,
            },
            None => None,
        },
        None => None,
    };
    let line: u32 = match line {
        Some(l) => if l <= u32::MAX as u64 {
            l as u32
        } else {
            return None;
        },
        None => {
            return None;
        },
    };
    let severity = match d.get("severity") {
        Some(s) => match s.as_u64() {
            Some(n) => Some(n),
            None => {
                if s.is_null() {
                    None
                } else {
                    return None;
                }
            },
        },
        None => None,
    };
    Some(Diagnostic { severity, line, message })
}

/// The document URI and diagnostics of `publishDiagnostics` parameters; `None`
/// when they are malformed (the notification is then ignored).
pub fn parse_diagnostics(params: &JsonValue) -> (r: Option<(String, Vec<Diagnostic>)>)
    ensures
        r matches Some((uri, ds)) ==> Some(uri@) == str_member(*params, "uri"@) && (
        params.field("diagnostics"@) matches Some(d) && d.array_of() matches Some(list)
            && list.len() == ds@.len()),
        str_member(*params, "uri"@) is None ==> r is None,
{
    let uri = match get_string(params, "uri") {
        Some(u) => u,
        None => {
            return None;
        },
    };
    let list = match params.get("diagnostics") {
        Some(d) => match d.as_array() {
            Some(a) => a,
            None => {
                return None;
            },
        },
        None => {
            return None;
        },
    };
    let mut out: Vec<Diagnostic> = Vec::new();
    let mut i: usize = 0;
    while i < list.len()
        invariant
            i <= list@.len(),
            out@.len() == i,
            params.field("diagnostics"@) matches Some(d) && d.array_of() == Some(list@),
        decreases list@.len() - i,
    {
        match parse_diagnostic(&list[i]) {
            Some(d) => out.push(d),
            None => {
                return None;
            },
        }
        i += 1;
    }
    Some((uri, out))
}

/// The name of a severity level, as the `lsp_types` debug form prints it.
pub open spec fn severity_name(s: u64) -> Seq<char> {
    if s == 1 {
        "Error"@
    } else if s == 2 {
        "Warning"@
    } else if s == 3 {
        "Information"@
    } else if s == 4 {
        "Hint"@
    } else {
        "DiagnosticSeverity("@ + dec(s as nat) + ")"@
    }
}

fn severity_text(s: u64) -> (r: Vec<char>)
    ensures
        r@ == severity_name(s),
{
    if s == 1 {
        chars_of("Error")
    } else if s == 2 {
        chars_of("Warning")
    } else if s == 3 {
        chars_of("Information")
    } else if s == 4 {
        chars_of("Hint")
    } else {
        let mut m = chars_of("DiagnosticSeverity(");
        let d = decimal_chars(s);
        append_chars(&mut m, &d);
        append_str(&mut m, ")");
        m
    }
}

/// One report line: `[Severity] Line <1-based line>: <message>`; a missing
/// severity reads as information.
pub open spec fn diagnostic_line(d: Diagnostic) -> Seq<char> {
    "["@ + severity_name(
        match d.severity {
            Some(s) => s,
            None => 3,
        },
    ) + "] Line "@ + dec(d.line as nat + 1) + ": "@ + d.message@ + "\n"@
}

pub open spec fn diagnostics_report(ds: Seq<Diagnostic>) -> Seq<char>
    decreases ds.len(),
{
    if ds.len() == 0 {
        Seq::empty()
    } else {
        diagnostics_report(ds.drop_last()) + diagnostic_line(ds.last())
    }
}

/// The diagnostics report of a document: one line per diagnostic, a notice
/// when there are none, another when none were received yet.
pub fn format_diagnostics(diags: Option<&Vec<Diagnostic>>) -> (r: String)
    ensures
        match diags {
            None => r@ == "No diagnostics info available yet."@,
            Some(ds) => if ds@.len() == 0 {
                r@ == "No diagnostics (errors/warnings) found."@
            } else {
                r@ == diagnostics_report(ds@)
            },
        },
{
    match diags {
        None => String::from_str("No diagnostics info available yet."),
        Some(ds) => {
            if ds.len() == 0 {
                return String::from_str("No diagnostics (errors/warnings) found.");
            }
            let mut out: Vec<char> = Vec::new();
            let mut i: usize = 0;
            while i < ds.len()
                invariant
                    i <= ds@.len(),
                    out@ == diagnostics_report(ds@.subrange(0, i as int)),
                decreases ds@.len() - i,
            {
                let d = &ds[i];
                assert(ds@.subrange(0, i + 1).drop_last() =~= ds@.subrange(0, i as int));
                append_str(&mut out, "[");
                let sev = severity_text(
                    match d.severity {
                        Some(s) => s,
                        None => 3,
                    },
                );
                append_chars(&mut out, &sev);
                append_str(&mut out, "] Line ");
                let digits = decimal_chars(d.line as u64 + 1);
                append_chars(&mut out, &digits);
                append_str(&mut out, ": ");
                append_str(&mut out, d.message.as_str());
                append_str(&mut out, "\n");
                i += 1;
            }
            assert(ds@.subrange(0, ds@.len() as int) =~= ds@);
            string_of(&out)
        },
    }
}

/// The path component of URI text `s`; `None` when `s` is not a URI.
pub uninterp spec fn uri_path_of(s: Seq<char>) -> Option<Seq<char>>;

/// The `file:` URI of absolute path `p`; `None` when `p` is not absolute.
pub uninterp spec fn file_uri_of(p: Seq<char>) -> Option<Seq<char>>;

/// The longest URI text, in characters, handed to the URI parser: at four
/// bytes per character at most, it stays under the parser's `i32::MAX`-byte
/// limit, past which it panics.
pub const MAX_URI_CHARS: usize = 536870911;

/// Relies on `lsp_types::Uri::from_str` (`fluent_uri::Uri::parse`) and
/// `path()`: parsing is a function of the text, and the path component is a
/// slice of it. The parser panics on input longer than `i32::MAX` bytes,
/// which the length bound excludes.
#[verifier::external_body]
fn uri_path(s: &str) -> (r: Option<String>)
    requires
        s@.len() <= MAX_URI_CHARS,
    ensures
        opt_view(r) == uri_path_of(s@),
{
    s.parse::<lsp_types::Uri>().ok().map(|u| u.path().as_str().to_string())
}

/// Relies on `url::Url::from_file_path`: the URI of an absolute path, a
/// function of the path text.
#[verifier::external_body]
fn file_uri(path: &str) -> (r: Option<String>)
    ensures
        opt_view(r) == file_uri_of(path@),
{
    url::Url::from_file_path(path).ok().map(|u| u.as_str().to_string())
}

/// The absolute path of a document: `path` itself when absolute, else joined
/// onto the working directory `cwd`.
pub open spec fn document_path(path: Seq<char>, cwd: Seq<char>) -> Seq<char> {
    if path.len() > 0 && path[0] == '/' {
        path
    } else if cwd.len() > 0 && cwd.last() == '/' {
        cwd + path
    } else {
        cwd + "/"@ + path
    }
}

/// The `file:` URI of a document named by `path`, relative to `cwd` unless absolute.
pub fn document_uri(path: &str, cwd: &str) -> (r: Option<String>)
    ensures
        opt_view(r) == file_uri_of(document_path(path@, cwd@)),
{
    proof {
        reveal_strlit("/");
    }
    let p = chars_of(path);
    if p.len() > 0 && p[0] == '/' {
        return file_uri(path);
    }
    let mut full = chars_of(cwd);
    if !(full.len() > 0 && full[full.len() - 1] == '/') {
        full.push('/');
        assert(full@ =~= cwd@ + "/"@);
    }
    append_chars(&mut full, &p);
    assert(full@ =~= document_path(path@, cwd@));
    let text = string_of(&full);
    file_uri(text.as_str())
}

/// The 0-based start line of a location's range member.
pub open spec fn start_line(loc: JsonValue, range_key: Seq<char>) -> Option<u64> {
    match loc.field(range_key) {
        Some(range) => match range.field("start"@) {
            Some(start) => u64_member(start, "line"@),
            None => None,
        },
        None => None,
    }
}

/// `<path>:<1-based line>` for a location, by its URI and range members;
/// `None` when it is malformed (or its URI too long to parse).
pub open spec fn location_text(loc: JsonValue, uri_key: Seq<char>, range_key: Seq<char>) -> Option<Seq<char>> {
    match (str_member(loc, uri_key), start_line(loc, range_key)) {
        (Some(u), Some(l)) => if l <= u32::MAX && u.len() <= MAX_URI_CHARS {
            match uri_path_of(u) {
                Some(p) => Some(p + ":"@ + dec(l as nat + 1)),
                None => None,
            }
        } else {
            None
        },
        _ => None,
    }
}

/// The lines of a list of locations, joined by newlines; `None` when one is malformed.
pub open spec fn locations_text(list: Seq<JsonValue>, uri_key: Seq<char>, range_key: Seq<char>) -> Option<Seq<char>>
    decreases list.len(),
{
    if list.len() == 0 {
        Some(Seq::empty())
    } else {
        match (locations_text(list.drop_last(), uri_key, range_key), location_text(list.last(), uri_key, range_key)) {
            (Some(a), Some(b)) => Some(
                if list.len() == 1 {
                    b
                } else {
                    a + "\n"@ + b
                },
            ),
            _ => None,
        }
    }
}

pub open spec fn vec_view(o: Option<Vec<char>>) -> Option<Seq<char>> {
    match o {
        Some(v) => Some(v@),
        None => None,
    }
}

/// `<path>:<1-based line>` for a location given by its URI member and its
/// range member.
fn location_line(loc: &JsonValue, uri_key: &str, range_key: &str) -> (r: Option<Vec<char>>)
    ensures
        vec_view(r) == location_text(*loc, uri_key@, range_key@),
{
    proof {
        reveal_strlit(":");
    }
    let uri = match get_string(loc, uri_key) {
        Some(u) => u,
        None => {
            return None;
        },
    };
    let line = match loc.get(range_key) {
        Some(range) => match range.get("start") {
            Some(start) => match start.get("line") {
                Some(l) => l.as_u64(),
                None => None,
            },
            None => None,
        },
        None => None,
    };
    let line = match line {
        Some(l) => if l <= u32::MAX as u64 {
            l
        } else {
            return None;
        },
        None => {
            return None;
        },
    };
    let uri_chars = chars_of(uri.as_str());
    if uri_chars.len() > MAX_URI_CHARS {
        return None;
    }
    let path = match uri_path(uri.as_str()) {
        Some(p) => p,
        None => {
            return None;
        },
    };
    let mut out = chars_of(path.as_str());
    append_str(&mut out, ":");
    let d = decimal_chars(line + 1);
    append_chars(&mut out, &d);
    Some(out)
}

fn location_lines(list: &Vec<JsonValue>, uri_key: &str, range_key: &str) -> (r: Option<Vec<char>>)
    ensures
        vec_view(r) == locations_text(list@, uri_key@, range_key@),
{
    proof {
        reveal_strlit("\n");
    }
    let mut out: Vec<char> = Vec::new();
    let mut i: usize = 0;
    while i < list.len()
        invariant
            i <= list@.len(),
            locations_text(list@.subrange(0, i as int), uri_key@, range_key@) == Some(out@),
        decreases list@.len() - i,
    {
        let ghost pre = list@.subrange(0, i as int);
        let ghost next = list@.subrange(0, i + 1);
        assert(next.drop_last() =~= pre);
        assert(next.last() == list@[i as int]);
        match location_line(&list[i], uri_key, range_key) {
            Some(l) => {
                if i > 0 {
                    append_str(&mut out, "\n");
                }
                append_chars(&mut out, &l);
            },
            None => {
                proof {
                    lemma_locations_none_extends(list@, uri_key@, range_key@, i as int + 1);
                }
                return None;
            },
        }
        i += 1;
    }
    assert(list@.subrange(0, list@.len() as int) =~= list@);
    Some(out)
}

proof fn lemma_locations_none_extends(list: Seq<JsonValue>, uk: Seq<char>, rk: Seq<char>, k: int)
    requires
        1 <= k <= list.len(),
        locations_text(list.subrange(0, k), uk, rk) is None,
    ensures
        locations_text(list, uk, rk) is None,
    decreases list.len() - k,
{
    if k < list.len() {
        let next = list.subrange(0, k + 1);
        assert(next.drop_last() =~= list.subrange(0, k));
        lemma_locations_none_extends(list, uk, rk, k + 1);
    } else {
        assert(list.subrange(0, k) =~= list);
    }
}

pub open spec fn parse_failure_text() -> Seq<char> {
    "Failed to parse result"@
}

/// Whether a definition result lists location links rather than locations.
pub open spec fn is_link_list(list: Seq<JsonValue>) -> bool {
    list.len() > 0 && list[0].field("targetUri"@) is Some
}

/// The report of a `textDocument/definition` result: a single location, a
/// list of locations, a list of location links, or none.
pub fn format_definition(result: &JsonValue) -> (r: Result<String, String>)
    ensures
        match *result {
            JsonValue::Null => r matches Ok(m) && m@ == "No definition found."@,
            JsonValue::Object(_) => match location_text(*result, "uri"@, "range"@) {
                Some(t) => r matches Ok(m) && m@ == "Definition at: "@ + t,
                None => r matches Err(m) && m@ == parse_failure_text(),
            },
            JsonValue::Array(list) => if is_link_list(list@) {
                match locations_text(list@, "targetUri"@, "targetRange"@) {
                    Some(t) => r matches Ok(m) && m@ == "Definitions found (links):\n"@ + t,
                    None => r matches Err(m) && m@ == parse_failure_text(),
                }
            } else {
                match locations_text(list@, "uri"@, "range"@) {
                    Some(t) => r matches Ok(m) && m@ == "Definitions found:\n"@ + t,
                    None => r matches Err(m) && m@ == parse_failure_text(),
                }
            },
            _ => r matches Err(m) && m@ == parse_failure_text(),
        },
{
    match result {
        JsonValue::Null => Ok(String::from_str("No definition found.")),
        JsonValue::Object(_) => match location_line(result, "uri", "range") {
            Some(l) => {
                let mut m = chars_of("Definition at: ");
                append_chars(&mut m, &l);
                Ok(string_of(&m))
            },
            None => Err(String::from_str("Failed to parse result")),
        },
        JsonValue::Array(list) => {
            let links = list.len() > 0 && list[0].get("targetUri").is_some();
            let lines = if links {
                location_lines(list, "targetUri", "targetRange")
            } else {
                location_lines(list, "uri", "range")
            };
            match lines {
                Some(l) => {
                    let mut m = if links {
                        chars_of("Definitions found (links):\n")
                    } else {
                        chars_of("Definitions found:\n")
                    };
                    append_chars(&mut m, &l);
                    Ok(string_of(&m))
                },
                None => Err(String::from_str("Failed to parse result")),
            }
        },
        _ => Err(String::from_str("Failed to parse result")),
    }
}

/// The report of a `textDocument/references` result.
pub fn format_references(result: &JsonValue) -> (r: Result<String, String>)
    ensures
        match *result {
            JsonValue::Null => r matches Ok(m) && m@ == "No references found."@,
            JsonValue::Array(list) => match locations_text(list@, "uri"@, "range"@) {
                Some(t) => r matches Ok(m) && m@ == "Found "@ + dec(list@.len()) + " references:\n"@
                    + t,
                None => r matches Err(m) && m@ == parse_failure_text(),
            },
            _ => r matches Err(m) && m@ == parse_failure_text(),
        },
{
    match result {
        JsonValue::Null => Ok(String::from_str("No references found.")),
        JsonValue::Array(list) => match location_lines(list, "uri", "range") {
            Some(l) => {
                let mut m = chars_of("Found ");
                let d = decimal_chars(list.len() as u64);
                append_chars(&mut m, &d);
                append_str(&mut m, " references:\n");
                append_chars(&mut m, &l);
                Ok(string_of(&m))
            },
            None => Err(String::from_str("Failed to parse result")),
        },
        _ => Err(String::from_str("Failed to parse result")),
    }
}

/// The `textDocument/didOpen` parameters for a document and its text:
/// `{textDocument: {uri, languageId: "rust", version: 1, text}}`.
pub fn did_open_params(uri: &str, text: String) -> (r: JsonValue)
    ensures
        r.field("textDocument"@) matches Some(d) && str_member(d, "uri"@) == Some(uri@)
            && str_member(d, "languageId"@) == Some("rust"@) && str_member(d, "text"@) == Some(
            text@,
        ) && u64_member(d, "version"@) == Some(1u64),
{
    broadcast use crate::json::lemma_entries_get_push;
    proof {
        reveal_strlit("uri");
        reveal_strlit("languageId");
        reveal_strlit("version");
        reveal_strlit("text");
        reveal_strlit("textDocument");
        assert("uri"@.len() == 3 && "languageId"@.len() == 10 && "version"@.len() == 7
            && "text"@.len() == 4);
    }
    let ghost tv = text@;
    let mut doc: Vec<(String, JsonValue)> = Vec::new();
    doc.push(member("uri", JsonValue::from_str(uri)));
    doc.push(member("languageId", JsonValue::from_str("rust")));
    doc.push(member("version", JsonValue::Uint(1)));
    doc.push(member("text", JsonValue::Str(text)));
    let mut e: Vec<(String, JsonValue)> = Vec::new();
    e.push(member("textDocument", JsonValue::Object(doc)));
    JsonValue::Object(e)
}

/// The parameters of a position request (`definition`, `references`):
/// `{textDocument: {uri}, position: {line, character}}`, and, for
/// references, `context: {includeDeclaration: true}`.
pub fn position_params(uri: &str, line: u32, character: u32, include_declaration: bool) -> (r: JsonValue)
    ensures
        r.field("textDocument"@) matches Some(d) && str_member(d, "uri"@) == Some(uri@),
        r.field("position"@) matches Some(p) && u64_member(p, "line"@) == Some(line as u64)
            && u64_member(p, "character"@) == Some(character as u64),
        include_declaration ==> (r.field("context"@) matches Some(c) && c.field(
            "includeDeclaration"@,
        ) == Some(JsonValue::Bool(true))),
        !include_declaration ==> r.field("context"@) is None,
{
    broadcast use crate::json::lemma_entries_get_push;
    proof {
        reveal_strlit("textDocument");
        reveal_strlit("position");
        reveal_strlit("context");
        reveal_strlit("line");
        reveal_strlit("character");
        assert("textDocument"@.len() == 12 && "position"@.len() == 8 && "context"@.len() == 7);
        assert("line"@.len() == 4 && "character"@.len() == 9);
    }
    let mut doc: Vec<(String, JsonValue)> = Vec::new();
    doc.push(member("uri", JsonValue::from_str(uri)));
    let mut pos: Vec<(String, JsonValue)> = Vec::new();
    pos.push(member("line", JsonValue::Uint(line as u64)));
    pos.push(member("character", JsonValue::Uint(character as u64)));
    let mut e: Vec<(String, JsonValue)> = Vec::new();
    e.push(member("textDocument", JsonValue::Object(doc)));
    e.push(member("position", JsonValue::Object(pos)));
    if include_declaration {
        let mut ctx: Vec<(String, JsonValue)> = Vec::new();
        ctx.push(member("includeDeclaration", JsonValue::Bool(true)));
        e.push(member("context", JsonValue::Object(ctx)));
    }
    JsonValue::Object(e)
}

} // verus!
