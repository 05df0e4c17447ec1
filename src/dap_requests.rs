//! The arguments of the DAP operations and the checks made before sending them.

use vstd::prelude::*;
use crate::dap::{str_member, u64_member, DapCore};
use crate::dap_ops::READ_MEMORY_MAX_COUNT;
use crate::json::{member, JsonValue};
use crate::text::{append_chars, append_str, chars_of, dec, decimal_chars, string_of};

verus! {

/// A source breakpoint as a caller gives it.
pub struct BreakpointSpec {
    pub line: u32,
    pub column: Option<u32>,
    pub condition: Option<String>,
    pub hit_condition: Option<String>,
    pub log_message: Option<String>,
}

/// An optional integer member: present with the value, or absent.
pub open spec fn opt_u32_member(j: JsonValue, key: Seq<char>, o: Option<u32>) -> bool {
    match o {
        Some(c) => j.field(key) == Some(JsonValue::Uint(c as u64)),
        None => j.field(key) is None,
    }
}

/// An optional string member: present with the text, or absent.
pub open spec fn opt_str_member(j: JsonValue, key: Seq<char>, o: Option<String>) -> bool {
    match o {
        Some(c) => str_member(j, key) == Some(c@),
        None => j.field(key) is None,
    }
}

/// The protocol form of a source breakpoint: its line, and each optional
/// member present exactly when given.
pub open spec fn breakpoint_matches(j: JsonValue, bp: BreakpointSpec) -> bool {
    &&& j.field("line"@) == Some(JsonValue::Uint(bp.line as u64))
    &&& opt_u32_member(j, "column"@, bp.column)
    &&& opt_str_member(j, "condition"@, bp.condition)
    &&& opt_str_member(j, "hitCondition"@, bp.hit_condition)
    &&& opt_str_member(j, "logMessage"@, bp.log_message)
}

fn breakpoint_json(bp: &BreakpointSpec) -> (r: JsonValue)
    ensures
        breakpoint_matches(r, *bp),
{
    broadcast use crate::json::lemma_entries_get_push;
    proof {
        reveal_strlit("line");
        reveal_strlit("column");
        reveal_strlit("condition");
        reveal_strlit("hitCondition");
        reveal_strlit("logMessage");
        assert("line"@.len() == 4 && "column"@.len() == 6 && "condition"@.len() == 9
            && "hitCondition"@.len() == 12 && "logMessage"@.len() == 10);
    }
    let mut e: Vec<(String, JsonValue)> = Vec::new();
    e.push(member("line", JsonValue::Uint(bp.line as u64)));
    if let Some(c) = bp.column {
        e.push(member("column", JsonValue::Uint(c as u64)));
    }
    if let Some(c) = &bp.condition {
        e.push(member("condition", JsonValue::Str(c.clone())));
    }
    if let Some(c) = &bp.hit_condition {
        e.push(member("hitCondition", JsonValue::Str(c.clone())));
    }
    if let Some(c) = &bp.log_message {
        e.push(member("logMessage", JsonValue::Str(c.clone())));
    }
    JsonValue::Object(e)
}

/// The `setBreakpoints` arguments: `{source: {path}, breakpoints: [...]}`,
/// one entry per spec, in order, with only the optional members given.
pub fn set_breakpoints_args(source_path: &str, breakpoints: &Vec<BreakpointSpec>) -> (r: JsonValue)
    ensures
        r.field("source"@) matches Some(src) && str_member(src, "path"@) == Some(source_path@),
        r.field("breakpoints"@) matches Some(b) && b.array_of() matches Some(list) && list.len()
            == breakpoints@.len() && forall|i: int|
            0 <= i < list.len() ==> breakpoint_matches(list[i], breakpoints@[i]),
{
    broadcast use crate::json::lemma_entries_get_push;
    let mut list: Vec<JsonValue> = Vec::new();
    let mut i: usize = 0;
    while i < breakpoints.len()
        invariant
            i <= breakpoints@.len(),
            list@.len() == i,
            forall|j: int| 0 <= j < i ==> breakpoint_matches(list@[j], breakpoints@[j]),
        decreases breakpoints@.len() - i,
    {
        list.push(breakpoint_json(&breakpoints[i]));
        i += 1;
    }
    proof {
        reveal_strlit("source");
        reveal_strlit("breakpoints");
        reveal_strlit("path");
        assert("source"@.len() == 6 && "breakpoints"@.len() == 11);
    }
    let mut source: Vec<(String, JsonValue)> = Vec::new();
    source.push(member("path", JsonValue::from_str(source_path)));
    let mut e: Vec<(String, JsonValue)> = Vec::new();
    e.push(member("source", JsonValue::Object(source)));
    e.push(member("breakpoints", JsonValue::Array(list)));
    JsonValue::Object(e)
}

/// The `setFunctionBreakpoints` arguments: `{breakpoints: [{name}, ...]}`.
pub fn function_breakpoints_args(names: &Vec<String>) -> (r: JsonValue)
    ensures
        r.field("breakpoints"@) matches Some(b) && b.array_of() matches Some(list) && list.len()
            == names@.len() && forall|i: int|
            0 <= i < list.len() ==> str_member(list[i], "name"@) == Some(names@[i]@),
{
    broadcast use crate::json::lemma_entries_get_push;
    let mut list: Vec<JsonValue> = Vec::new();
    let mut i: usize = 0;
    while i < names.len()
        invariant
            i <= names@.len(),
            list@.len() == i,
            forall|j: int| 0 <= j < i ==> str_member(list@[j], "name"@) == Some(names@[j]@),
        decreases names@.len() - i,
    {
        let mut e: Vec<(String, JsonValue)> = Vec::new();
        e.push(member("name", JsonValue::Str(names[i].clone())));
        list.push(JsonValue::Object(e));
        i += 1;
    }
    let mut e: Vec<(String, JsonValue)> = Vec::new();
    e.push(member("breakpoints", JsonValue::Array(list)));
    JsonValue::Object(e)
}

/// The `threadId` arguments of `continue`, `next`, `stepIn` and `stepOut`.
pub fn thread_args(thread_id: u64) -> (r: JsonValue)
    ensures
        u64_member(r, "threadId"@) == Some(thread_id),
{
    let mut e: Vec<(String, JsonValue)> = Vec::new();
    e.push(member("threadId", JsonValue::Uint(thread_id)));
    proof {
        crate::dap_flows::lemma_entries_get_at(e@, "threadId"@, 0);
    }
    JsonValue::Object(e)
}

/// The `variables` arguments: `{variablesReference, start?, count?}`.
pub fn variables_args(variables_reference: u64, start: Option<u32>, count: Option<u32>) -> (r: JsonValue)
    ensures
        u64_member(r, "variablesReference"@) == Some(variables_reference),
        opt_u32_member(r, "start"@, start),
        opt_u32_member(r, "count"@, count),
{
    broadcast use crate::json::lemma_entries_get_push;
    proof {
        reveal_strlit("variablesReference");
        reveal_strlit("start");
        reveal_strlit("count");
        assert("variablesReference"@.len() == 18 && "start"@.len() == 5 && "count"@.len() == 5);
        assert("start"@[0] != "count"@[0]);
    }
    let mut e: Vec<(String, JsonValue)> = Vec::new();
    e.push(member("variablesReference", JsonValue::Uint(variables_reference)));
    if let Some(s) = start {
        e.push(member("start", JsonValue::Uint(s as u64)));
    }
    if let Some(c) = count {
        e.push(member("count", JsonValue::Uint(c as u64)));
    }
    proof {
        crate::dap_flows::lemma_entries_get_at(e@, "variablesReference"@, 0);
    }
    JsonValue::Object(e)
}

/// The `evaluate` arguments: the expression, the context (`watch` unless
/// given), and the frame when given.
pub fn evaluate_args(expression: &str, frame_id: Option<u64>, context: Option<String>) -> (r: JsonValue)
    ensures
        str_member(r, "expression"@) == Some(expression@),
        str_member(r, "context"@) == Some(
            match context {
                Some(c) => c@,
                None => "watch"@,
            },
        ),
{
    let ctx = match context {
        Some(c) => JsonValue::Str(c),
        None => JsonValue::from_str("watch"),
    };
    let mut e: Vec<(String, JsonValue)> = Vec::new();
    e.push(member("expression", JsonValue::from_str(expression)));
    e.push(member("context", ctx));
    if let Some(id) = frame_id {
        e.push(member("frameId", JsonValue::Uint(id)));
    }
    proof {
        reveal_strlit("expression");
        reveal_strlit("context");
        assert("expression"@.len() == 10 && "context"@.len() == 7);
        crate::dap_flows::lemma_entries_get_at(e@, "expression"@, 0);
        crate::dap_flows::lemma_entries_get_at(e@, "context"@, 1);
    }
    JsonValue::Object(e)
}

/// The `evaluate` arguments of a console command: the `repl` context.
pub fn console_args(command: &str, frame_id: Option<u64>) -> (r: JsonValue)
    ensures
        str_member(r, "expression"@) == Some(command@),
        str_member(r, "context"@) == Some("repl"@),
{
    evaluate_args(command, frame_id, Some(String::from_str("repl")))
}

pub open spec fn read_memory_too_large_text(count: nat) -> Seq<char> {
    "debugger_read_memory count "@ + dec(count) + " exceeds max allowed "@ + dec(
        READ_MEMORY_MAX_COUNT as nat,
    ) + " bytes"@
}

/// The `readMemory` arguments, refused when `count` exceeds `READ_MEMORY_MAX_COUNT`.
pub fn read_memory_args(memory_reference: &str, offset: i64, count: u32) -> (r: Result<JsonValue, String>)
    ensures
        count > READ_MEMORY_MAX_COUNT ==> (r matches Err(m) && m@ == read_memory_too_large_text(
            count as nat,
        )),
        count <= READ_MEMORY_MAX_COUNT ==> (r matches Ok(v) && u64_member(v, "count"@) == Some(
            count as u64,
        )),
{
    if count > READ_MEMORY_MAX_COUNT {
        let mut m = chars_of("debugger_read_memory count ");
        let a = decimal_chars(count as u64);
        append_chars(&mut m, &a);
        append_str(&mut m, " exceeds max allowed ");
        let b = decimal_chars(READ_MEMORY_MAX_COUNT as u64);
        append_chars(&mut m, &b);
        append_str(&mut m, " bytes");
        return Err(string_of(&m));
    }
    let off = if offset >= 0 {
        JsonValue::Uint(offset as u64)
    } else {
        JsonValue::Int(offset)
    };
    let mut e: Vec<(String, JsonValue)> = Vec::new();
    e.push(member("memoryReference", JsonValue::from_str(memory_reference)));
    e.push(member("offset", off));
    e.push(member("count", JsonValue::Uint(count as u64)));
    proof {
        reveal_strlit("memoryReference");
        reveal_strlit("offset");
        reveal_strlit("count");
        assert("memoryReference"@.len() == 15 && "offset"@.len() == 6 && "count"@.len() == 5);
        crate::dap_flows::lemma_entries_get_at(e@, "count"@, 2);
    }
    Ok(JsonValue::Object(e))
}

/// The `disconnect` arguments.
pub fn disconnect_args(terminate_debuggee: bool) -> (r: JsonValue)
    ensures
        r.field("terminateDebuggee"@) == Some(JsonValue::Bool(terminate_debuggee)),
{
    let mut e: Vec<(String, JsonValue)> = Vec::new();
    e.push(member("terminateDebuggee", JsonValue::Bool(terminate_debuggee)));
    proof {
        crate::dap_flows::lemma_entries_get_at(e@, "terminateDebuggee"@, 0);
    }
    JsonValue::Object(e)
}

impl<T> DapCore<T> {
    /// After a successful `continue`: the debuggee runs, no stop is current.
    pub fn mark_running(&mut self)
        requires
            old(self).wf(),
        ensures
            final(self).wf(),
            final(self).last_stop is None,
            final(self).stopped_generation == old(self).stopped_generation,
            final(self).next_seq == old(self).next_seq,
            final(self).pending@ == old(self).pending@,
    {
        self.last_stop = None;
    }

    /// Whether `configurationDone` still has to be sent; when it has, the
    /// caller sends it and then calls `mark_configuration_done`.
    pub fn needs_configuration_done(&self) -> (r: bool)
        ensures
            r == !self.configuration_done_sent,
    {
        !self.configuration_done_sent
    }

    pub fn mark_configuration_done(&mut self)
        requires
            old(self).wf(),
        ensures
            final(self).wf(),
            final(self).configuration_done_sent,
            final(self).next_seq == old(self).next_seq,
            final(self).pending@ == old(self).pending@,
            final(self).stopped_generation == old(self).stopped_generation,
    {
        self.configuration_done_sent = true;
    }
}

} // verus!
