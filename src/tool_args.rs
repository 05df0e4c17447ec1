//! The tools' descriptors and the decoding of their JSON arguments, with the
//! error text each missing argument produces.

use std::sync::mpsc::Sender;
use vstd::prelude::*;
use crate::dap::{get_string, str_member};
use crate::edit::Edit;
use crate::json::{member, JsonValue};
use crate::llm::MessageContent;
use crate::text::{append_chars, append_str, chars_of, dec, decimal_chars, str_eq, string_of};
use crate::tools::TodoItem;

verus! {

#[verifier::external_type_specification]
#[verifier::external_body]
#[verifier::reject_recursive_types(T)]
pub struct ExSender<T>(std::sync::mpsc::Sender<T>);

/// A chat channel: its id, display name, history and assigned agents.
pub struct ChannelState {
    pub id: String,
    pub name: String,
    pub history: Vec<(String, MessageContent)>,
    pub assigned_agents: Vec<String>,
}

impl Default for ChannelState {
    fn default() -> (r: Self)
        ensures
            r.id@ == "global"@,
            r.history@.len() == 0,
            r.assigned_agents@.len() == 0,
    {
        ChannelState {
            id: String::from_str("global"),
            name: String::from_str("🌐 Global"),
            history: Vec::new(),
            assigned_agents: Vec::new(),
        }
    }
}

/// A message from a background worker to the interface.
pub enum AsyncMessage {
    Response(MessageContent),
    StreamText(String),
    Done,
    Log(String),
    Error(String),
}

/// What the user picked in the sidebar.
pub enum SidebarAction {
    SelectProfile(crate::prompts::AgentProfile),
    CopyLog,
    /// Nothing was picked.
    NoAction,
}

/// Reads a file.
pub struct ReadFileTool;

/// Writes a file under the path lock.
pub struct WriteFileTool;

/// Replaces a string in a file under the path lock.
pub struct EditFileTool;

/// Applies several replacements to a file, all or nothing.
pub struct MultiEditTool;

/// Lists paths matching a glob pattern.
pub struct GlobTool;

/// Runs shell commands in a persistent session.
pub struct ShellTool;

/// Reads the todo list.
pub struct TodoReadTool;

/// Overwrites the todo list.
pub struct TodoWriteTool;

/// Code intelligence through a language server.
pub struct LspTool;

/// Structural code search through `ast-grep`.
pub struct AstGrepTool;

/// Runs several tools in sequence and reports each outcome.
pub struct BatchTool {
    pub tx: Sender<AsyncMessage>,
}

impl BatchTool {
    pub fn new(tx: Sender<AsyncMessage>) -> (r: Self)
        ensures
            r.tx == tx,
    {
        BatchTool { tx }
    }
}

/// The name under which each tool is registered.
pub fn tool_names() -> (r: Vec<&'static str>)
    ensures
        r@.len() == 10,
        r@[0]@ == "read_file"@ && r@[1]@ == "write_file"@ && r@[2]@ == "edit_file"@ && r@[3]@
            == "multi_edit"@ && r@[4]@ == "glob"@ && r@[5]@ == "run_command"@ && r@[6]@
            == "todoread"@ && r@[7]@ == "todowrite"@ && r@[8]@ == "lsp"@ && r@[9]@ == "ast_grep"@,
{
    let mut v: Vec<&'static str> = Vec::new();
    v.push("read_file");
    v.push("write_file");
    v.push("edit_file");
    v.push("multi_edit");
    v.push("glob");
    v.push("run_command");
    v.push("todoread");
    v.push("todowrite");
    v.push("lsp");
    v.push("ast_grep");
    v
}

/// The tools a profile gets: the common set, plus the raw-RPC and
/// scene-spawning tools for the `Bevy Editor Companion` profile.
pub fn profile_tool_names(profile_name: &str) -> (r: Vec<&'static str>)
    ensures
        r@.len() == if profile_name@ == "Bevy Editor Companion"@ {
            14nat
        } else {
            12nat
        },
{
    let mut v = tool_names();
    v.push("batch_run");
    v.push("bevy_spawn_primitive");
    if str_eq(profile_name, "Bevy Editor Companion") {
        v.push("bevy_rpc");
        v.push("bevy_spawn_scene");
    }
    v
}

/// The position of `name` among `names`, compared exactly.
pub fn find_tool(names: &Vec<String>, name: &str) -> (r: Option<usize>)
    ensures
        match r {
            Some(i) => i < names@.len() && names@[i as int]@ == name@ && forall|j: int|
                0 <= j < i ==> names@[j]@ != name@,
            None => forall|j: int| 0 <= j < names@.len() ==> names@[j]@ != name@,
        },
{
    let mut i: usize = 0;
    while i < names.len()
        invariant
            i <= names@.len(),
            forall|j: int| 0 <= j < i ==> names@[j]@ != name@,
        decreases names@.len() - i,
    {
        if str_eq(names[i].as_str(), name) {
            return Some(i);
        }
        i += 1;
    }
    None
}

/// The string argument `key`, or the error `message`.
pub fn required_str(args: &JsonValue, key: &str, message: &str) -> (r: Result<String, String>)
    ensures
        match str_member(*args, key@) {
            Some(v) => r matches Ok(s) && s@ == v,
            None => r matches Err(m) && m@ == message@,
        },
{
    match get_string(args, key) {
        Some(s) => Ok(s),
        None => Err(String::from_str(message)),
    }
}

fn item_message(i: usize, tail: &str) -> (r: String)
    ensures
        r@ == "Item #"@ + dec(i as nat) + tail@,
{
    let mut m = chars_of("Item #");
    let d = decimal_chars(i as u64);
    append_chars(&mut m, &d);
    append_str(&mut m, tail);
    string_of(&m)
}

fn edit_message(i: usize, tail: &str) -> (r: String)
    ensures
        r@ == "Edit #"@ + dec(i as nat) + tail@,
{
    let mut m = chars_of("Edit #");
    let d = decimal_chars(i as u64);
    append_chars(&mut m, &d);
    append_str(&mut m, tail);
    string_of(&m)
}

/// The edits of a `multi_edit` call: each needs `old_string` and
/// `new_string`; `replace_all` defaults to false.
pub fn parse_edits(args: &JsonValue) -> (r: Result<Vec<Edit>, String>)
    ensures
        args.field("edits"@) is None ==> (r matches Err(m) && m@ == "Missing 'edits'"@),
        r matches Ok(edits) ==> args.field("edits"@) matches Some(list) && list.array_of()
            matches Some(items) && items.len() == edits@.len(),
{
    let list = match args.get("edits") {
        Some(v) => match v.as_array() {
            Some(a) => a,
            None => {
                return Err(String::from_str("Missing 'edits'"));
            },
        },
        None => {
            return Err(String::from_str("Missing 'edits'"));
        },
    };
    let mut out: Vec<Edit> = Vec::new();
    let mut i: usize = 0;
    while i < list.len()
        invariant
            i <= list@.len(),
            out@.len() == i,
            args.field("edits"@) is Some && args.field("edits"@)->Some_0.array_of() == Some(list@),
        decreases list@.len() - i,
    {
        let e = &list[i];
        let old_string = match get_string(e, "old_string") {
            Some(s) => s,
            None => {
                return Err(edit_message(i, ": Missing 'old_string'"));
            },
        };
        let new_string = match get_string(e, "new_string") {
            Some(s) => s,
            None => {
                return Err(edit_message(i, ": Missing 'new_string'"));
            },
        };
        let replace_all = match e.get("replace_all") {
            Some(b) => match b.as_bool() {
                Some(x) => x,
                None => false,
            },
            None => false,
        };
        out.push(Edit { old_string, new_string, replace_all });
        i += 1;
    }
    Ok(out)
}

/// The todo items of a `todowrite` call: each needs string `id`, `content`,
/// `status` and `priority`.
pub fn parse_todos(v: &JsonValue) -> (r: Result<Vec<TodoItem>, String>)
    ensures
        v.array_of() is None ==> r is Err,
        r matches Ok(items) ==> v.array_of() matches Some(list) && list.len() == items@.len(),
{
    let list = match v.as_array() {
        Some(a) => a,
        None => {
            return Err(String::from_str("Invalid todo format: expected an array"));
        },
    };
    let mut out: Vec<TodoItem> = Vec::new();
    let mut i: usize = 0;
    while i < list.len()
        invariant
            i <= list@.len(),
            out@.len() == i,
        decreases list@.len() - i,
    {
        let t = &list[i];
        let id = get_string(t, "id");
        let content = get_string(t, "content");
        let status = get_string(t, "status");
        let priority = get_string(t, "priority");
        match (id, content, status, priority) {
            (Some(id), Some(content), Some(status), Some(priority)) => {
                out.push(TodoItem { id, content, status, priority });
            },
            _ => {
                return Err(item_message(i, ": Invalid todo format: id, content, status and priority must be strings"));
            },
        }
        i += 1;
    }
    Ok(out)
}

/// The items of a `batch_run` call: each a tool name and its parameters.
pub fn batch_items(args: JsonValue) -> (r: Result<Vec<(String, JsonValue)>, String>)
    ensures
        args.field("tools"@) is None ==> (r matches Err(m) && m@
            == "Missing or invalid 'tools' argument"@),
        r matches Ok(items) ==> args.field("tools"@) matches Some(list) && list.array_of()
            matches Some(elems) && elems.len() == items@.len(),
{
    let list = match args.take("tools") {
        Some(JsonValue::Array(a)) => a,
        _ => {
            return Err(String::from_str("Missing or invalid 'tools' argument"));
        },
    };
    let n = list.len();
    let mut rest = list;
    let mut out: Vec<(String, JsonValue)> = Vec::new();
    let mut i: usize = 0;
    while rest.len() > 0
        invariant
            out@.len() == i,
            i + rest@.len() == n,
            args.field("tools"@) is Some && args.field("tools"@)->Some_0.array_of() is Some
                && args.field("tools"@)->Some_0.array_of()->Some_0.len() == n,
        decreases rest@.len(),
    {
        let item = rest.remove(0);
        let name = match get_string(&item, "tool") {
            Some(s) => s,
            None => {
                return Err(item_message(i, ": Missing 'tool' name"));
            },
        };
        let params = match item.take("parameters") {
            Some(p) => p,
            None => {
                return Err(item_message(i, ": Missing 'parameters'"));
            },
        };
        out.push((name, params));
        i = i + 1;
    }
    Ok(out)
}

/// The record of one batch item: `{tool, status: "success", output}` or
/// `{tool, status: "error", error}`.
pub fn batch_record(tool: &str, outcome: Result<String, String>) -> (r: JsonValue)
    ensures
        str_member(r, "tool"@) == Some(tool@),
        str_member(r, "status"@) == Some(
            if outcome is Ok {
                "success"@
            } else {
                "error"@
            },
        ),
        match outcome {
            Ok(out) => str_member(r, "output"@) == Some(out@) && r.field("error"@) is None,
            Err(err) => str_member(r, "error"@) == Some(err@) && r.field("output"@) is None,
        },
{
    broadcast use crate::json::lemma_entries_get_push;
    proof {
        reveal_strlit("output");
        reveal_strlit("error");
        reveal_strlit("status");
        reveal_strlit("tool");
        assert("output"@.len() == 6 && "error"@.len() == 5);
        assert("output"@[0] != "status"@[0]);
    }
    let ok = outcome.is_ok();
    let mut e: Vec<(String, JsonValue)> = Vec::new();
    e.push(member("tool", JsonValue::from_str(tool)));
    e.push(member("status", JsonValue::from_str(if ok {
        "success"
    } else {
        "error"
    })));
    match outcome {
        Ok(out) => e.push(member("output", JsonValue::Str(out))),
        Err(err) => e.push(member("error", JsonValue::Str(err))),
    }
    proof {
        reveal_strlit("tool");
        reveal_strlit("status");
        assert("tool"@.len() == 4 && "status"@.len() == 6);
        crate::dap_flows::lemma_entries_get_at(e@, "tool"@, 0);
        crate::dap_flows::lemma_entries_get_at(e@, "status"@, 1);
    }
    JsonValue::Object(e)
}

/// The record of an item naming no registered tool.
pub fn missing_tool_message(name: &str) -> (r: String)
    ensures
        r@ == "Tool '"@ + name@ + "' not found"@,
{
    let mut m = chars_of("Tool '");
    append_str(&mut m, name);
    append_str(&mut m, "' not found");
    string_of(&m)
}

/// The arguments of an LSP call.
pub struct LspArgs {
    pub command: String,
    pub path: String,
    pub line: Option<u32>,
    pub character: Option<u32>,
}

/// Decodes the arguments of an LSP call: `command` and `path` are required;
/// `line` and `character` are optional 0-based coordinates.
pub fn lsp_args(args: &JsonValue) -> (r: Result<LspArgs, String>)
    ensures
        str_member(*args, "command"@) is None ==> (r matches Err(m) && m@ == "Missing command"@),
        str_member(*args, "command"@) is Some && str_member(*args, "path"@) is None ==> (
        r matches Err(m) && m@ == "Missing path"@),
        r matches Ok(a) ==> Some(a.command@) == str_member(*args, "command"@) && Some(a.path@)
            == str_member(*args, "path"@),
{
    let command = required_str(args, "command", "Missing command")?;
    let path = required_str(args, "path", "Missing path")?;
    let line = match args.get("line") {
        Some(v) => match v.as_u64() {
            Some(n) => Some(#[verifier::truncate] (n as u32)),
            None => None,
        },
        None => None,
    };
    let character = match args.get("character") {
        Some(v) => match v.as_u64() {
            Some(n) => Some(#[verifier::truncate] (n as u32)),
            None => None,
        },
        None => None,
    };
    Ok(LspArgs { command, path, line, character })
}

/// One `ast-grep` match line: `File: <file>:<1-based line>\nMatch:\n<text>\n\n`.
fn ast_grep_entry(m: &JsonValue, out: &mut Vec<char>) {
    let file = match get_string(m, "file") {
        Some(f) => f,
        None => String::from_str("<unknown>"),
    };
    let text = match get_string(m, "text") {
        Some(t) => t,
        None => String::new(),
    };
    let line = match m.get("range") {
        Some(r) => match r.get("start") {
            Some(s) => match s.get("line") {
                Some(l) => match l.as_u64() {
                    Some(n) => n,
                    None => 0,
                },
                None => 0,
            },
            None => 0,
        },
        None => 0,
    };
    append_str(out, "File: ");
    append_str(out, file.as_str());
    append_str(out, ":");
    let d = decimal_chars(if line < u64::MAX { line + 1 } else { line });
    append_chars(out, &d);
    append_str(out, "\nMatch:\n");
    append_str(out, text.as_str());
    append_str(out, "\n\n");
}

/// The report of `ast-grep --json` output: `None` when it is not a JSON
/// array (the raw output is shown instead), a notice for no match, else one
/// entry per match.
pub fn format_ast_grep(output: &JsonValue) -> (r: Option<String>)
    ensures
        output.array_of() is None ==> r is None,
        output.array_of() matches Some(l) && l.len() == 0 ==> (r matches Some(s) && s@
            == "No matches found."@),
{
    match output.as_array() {
        None => None,
        Some(list) => {
            if list.len() == 0 {
                return Some(String::from_str("No matches found."));
            }
            let mut out: Vec<char> = Vec::new();
            let mut i: usize = 0;
            while i < list.len()
                invariant
                    i <= list@.len(),
                decreases list@.len() - i,
            {
                ast_grep_entry(&list[i], &mut out);
                i += 1;
            }
            Some(string_of(&out))
        },
    }
}

/// The `ast-grep` command-line arguments: `run --pattern P --lang L [path] --json`;
/// the path is left out when it is `.`.
pub fn ast_grep_command_args(pattern: &str, lang: &str, path: &str) -> (r: Vec<String>)
    ensures
        r@.len() == if path@ == "."@ {
            6nat
        } else {
            7nat
        },
        r@[0]@ == "run"@,
        r@[1]@ == "--pattern"@,
        r@[2]@ == pattern@,
        r@[3]@ == "--lang"@,
        r@[4]@ == lang@,
        path@ != "."@ ==> r@[5]@ == path@,
        r@[r@.len() - 1]@ == "--json"@,
{
    let mut v: Vec<String> = Vec::new();
    v.push(String::from_str("run"));
    v.push(String::from_str("--pattern"));
    v.push(String::from_str(pattern));
    v.push(String::from_str("--lang"));
    v.push(String::from_str(lang));
    if !str_eq(path, ".") {
        v.push(String::from_str(path));
    }
    v.push(String::from_str("--json"));
    v
}

/// Uploads a local asset to the game runtime.
pub struct BevyUploadAssetTool;

/// Sends a raw JSON-RPC request to the game runtime.
pub struct BevyRpcTool;

/// Spawns a scene entity with a transform.
pub struct BevySpawnSceneTool;

/// Despawns every entity the assistant spawned.
pub struct BevyClearSceneTool;

/// Spawns a primitive shape.
pub struct BevySpawnPrimitiveTool;

/// Converts a video with FFmpeg.
pub struct VideoConvertTool;

/// Trims a video with FFmpeg.
pub struct VideoCutTool;

/// Turns a video into a GIF with FFmpeg.
pub struct VideoGifTool;

/// Reads video metadata with ffprobe.
pub struct VideoProbeTool;

/// The FFmpeg arguments of a conversion: H.264 at quality `crf` with
/// `preset`, overwriting the output.
pub fn video_convert_args(input: &str, output: &str, crf: i64, preset: &str) -> (r: Vec<String>)
    ensures
        r@.len() == 10,
        r@[1]@ == input@,
        r@[3]@ == "libx264"@,
        r@[5]@ == signed_text(crf as int),
        r@[7]@ == preset@,
        r@[9]@ == output@,
{
    let mut v: Vec<String> = Vec::new();
    v.push(String::from_str("-i"));
    v.push(String::from_str(input));
    v.push(String::from_str("-c:v"));
    v.push(String::from_str("libx264"));
    v.push(String::from_str("-crf"));
    let digits = signed_i64_text(crf);
    v.push(digits);
    v.push(String::from_str("-preset"));
    v.push(String::from_str(preset));
    v.push(String::from_str("-y"));
    v.push(String::from_str(output));
    v
}

/// The decimal text of a signed integer.
pub open spec fn signed_text(n: int) -> Seq<char> {
    if n < 0 {
        "-"@ + dec((-n) as nat)
    } else {
        dec(n as nat)
    }
}

fn signed_i64_text(n: i64) -> (r: String)
    ensures
        r@ == signed_text(n as int),
{
    proof {
        reveal_strlit("-");
    }
    if n < 0 {
        let mut m = chars_of("-");
        let d = decimal_chars(if n == i64::MIN { 9223372036854775808u64 } else { (-n) as u64 });
        append_chars(&mut m, &d);
        string_of(&m)
    } else {
        let d = decimal_chars(n as u64);
        string_of(&d)
    }
}

/// The FFmpeg filter of a GIF conversion: palette generation at `fps` frames
/// per second, scaled to `width` pixels.
pub fn gif_filter(fps: i64, width: i64) -> (r: String)
    ensures
        r@ == "fps="@ + signed_text(fps as int) + ",scale="@ + signed_text(width as int)
            + ":-1:flags=lanczos,split[s0][s1];[s0]palettegen[p];[s1][p]paletteuse"@,
{
    let mut m = chars_of("fps=");
    let f = signed_i64_text(fps);
    append_str(&mut m, f.as_str());
    append_str(&mut m, ",scale=");
    let w = signed_i64_text(width);
    append_str(&mut m, w.as_str());
    append_str(&mut m, ":-1:flags=lanczos,split[s0][s1];[s0]palettegen[p];[s1][p]paletteuse");
    string_of(&m)
}

} // verus!
