use axiom_bridge::edit::{edit_content, edit_failure_message, multi_edit, Edit};
use axiom_bridge::json::JsonValue;
use axiom_bridge::prompts::{get_context_prompt, get_default_agents, get_system_prompt, AgentProfile, HYBRID_MODE};
use axiom_bridge::tool_args::{batch_items, batch_record, find_tool, parse_edits, parse_todos};
use axiom_bridge::tools::{
    classify_command, count_active, finish_cd, CdOutcome, format_glob_results, resolve_cd_path, todo_write_report,
    update_env_from_command, LockRegistry, ShellCommand, ShellState, TodoItem,
};

fn rt_obj(pairs: Vec<(&str, JsonValue)>) -> JsonValue {
    JsonValue::Object(pairs.into_iter().map(|(k, v)| (k.to_string(), v)).collect())
}

fn rt_edit(old: &str, new: &str, all: bool) -> Edit {
    Edit { old_string: old.to_string(), new_string: new.to_string(), replace_all: all }
}

fn rt_env(state: &ShellState, key: &str) -> Option<String> {
    state.env_vars.iter().find(|(k, _)| k == key).map(|(_, v)| v.clone())
}

#[test]
fn multi_edit_with_missing_old_string_changes_nothing() {
    let content = "A";
    let edits = vec![rt_edit("A", "B", false), rt_edit("Z", "Y", false)];
    assert_eq!(multi_edit(content, &edits), Err(1));
    assert_eq!(edit_failure_message(1), "Edit #1: 'old_string' not found in content");
}

#[test]
fn multi_edit_applies_edits_in_order() {
    let edits = vec![rt_edit("a", "b", true), rt_edit("bb", "c", false)];
    assert_eq!(multi_edit("aa-aa", &edits), Ok("c-bb".to_string()));
    let chained = vec![rt_edit("x", "yz", false), rt_edit("z", "!", false)];
    assert_eq!(multi_edit("x", &chained), Ok("y!".to_string()));
    assert_eq!(multi_edit("abc", &vec![rt_edit("", "-", true)]), Ok("-a-b-c-".to_string()));
}

#[test]
fn edit_replaces_first_occurrence_only() {
    assert_eq!(edit_content("one two one", "one", "1"), Ok("1 two one".to_string()));
    assert_eq!(edit_content("abc", "z", "y"), Err("old_string not found in file content".to_string()));
}

#[test]
fn lock_acquire_then_release_restores_registry() {
    let mut reg = LockRegistry::new();
    let held = reg.try_acquire("/tmp/a").unwrap();
    let guard = reg.try_acquire("/tmp/b").unwrap();
    assert!(reg.try_acquire("/tmp/b").is_none());
    assert_eq!(reg.paths.len(), 2);
    reg.release(guard);
    assert_eq!(reg.paths, vec!["/tmp/a".to_string()]);
    reg.release(held);
    assert!(reg.paths.is_empty());
}

#[test]
fn shell_cd_resolution_and_export() {
    let mut state = ShellState { cwd: "/tmp".to_string(), env_vars: Vec::new() };
    match classify_command("cd /var") {
        ShellCommand::ChangeDir(t) => {
            let p = resolve_cd_path(&state.cwd, &t, None).unwrap();
            assert_eq!(p, "/var");
            let done = finish_cd(&mut state, &p, CdOutcome::Resolved { path: p.clone(), is_dir: true });
            assert_eq!(done, Ok("Changed directory to: /var".to_string()));
        }
        ShellCommand::Run => panic!("a standalone cd is handled by the session"),
    }
    assert_eq!(state.cwd, "/var");
    match classify_command("cd /does/not/exist") {
        ShellCommand::ChangeDir(t) => {
            let p = resolve_cd_path(&state.cwd, &t, None).unwrap();
            let err = finish_cd(&mut state, &p, CdOutcome::Missing("No such file or directory (os error 2)".to_string()));
            assert_eq!(err, Err("Directory not found: /does/not/exist (No such file or directory (os error 2))".to_string()));
        }
        ShellCommand::Run => panic!("a standalone cd is handled by the session"),
    }
    assert_eq!(state.cwd, "/var");
    let not_dir = finish_cd(&mut state, "/etc/hosts", CdOutcome::Resolved { path: "/etc/hosts".to_string(), is_dir: false });
    assert_eq!(not_dir, Err("Path is not a directory: /etc/hosts".to_string()));
    assert_eq!(state.cwd, "/var");
    assert!(matches!(classify_command("pwd"), ShellCommand::Run));
    assert!(matches!(classify_command("mkdir foo && cd foo"), ShellCommand::Run));
    match classify_command("  cd  ") {
        ShellCommand::ChangeDir(t) => assert_eq!(t, "~"),
        ShellCommand::Run => panic!("bare cd goes home"),
    }
    assert_eq!(resolve_cd_path("/var", "log", None), Ok("/var/log".to_string()));
    assert_eq!(resolve_cd_path("/", "etc", None), Ok("/etc".to_string()));
    assert_eq!(resolve_cd_path("/var", "~", Some("/home/u".to_string())), Ok("/home/u".to_string()));
    assert_eq!(resolve_cd_path("/var", "~", None), Err("Could not determine home directory".to_string()));

    update_env_from_command("export FOO=\"a b\"", &mut state, false);
    assert_eq!(rt_env(&state, "FOO"), Some("a b".to_string()));
    update_env_from_command("export FOO='c'", &mut state, false);
    assert_eq!(rt_env(&state, "FOO"), Some("c".to_string()));
    assert_eq!(state.env_vars.len(), 1);
    update_env_from_command("echo hi", &mut state, false);
    assert_eq!(state.env_vars.len(), 1);
    update_env_from_command("SET Bar = 1", &mut state, true);
    assert_eq!(rt_env(&state, "Bar"), Some("1".to_string()));
    assert_eq!(state.cwd, "/var");
}

#[test]
fn glob_report_limits_and_notices() {
    assert_eq!(format_glob_results(&vec![]), "No files found matching the pattern.");
    assert_eq!(format_glob_results(&vec!["a.rs".to_string(), "b.rs".to_string()]), "a.rs\nb.rs");
    let many: Vec<String> = (0..52).map(|i| format!("f{i}")).collect();
    let report = format_glob_results(&many);
    assert!(report.starts_with("f0\nf1\n"));
    assert!(report.contains("f49\n\n(Truncated. Showing 50 of 52 results. Refine your pattern.)"));
    assert!(!report.contains("f50"));
}

#[test]
fn todo_reports_active_items() {
    let items = parse_todos(&JsonValue::Array(vec![
        rt_obj(vec![("id", JsonValue::Str("1".into())), ("content", JsonValue::Str("a".into())), ("status", JsonValue::Str("pending".into())), ("priority", JsonValue::Str("high".into()))]),
        rt_obj(vec![("id", JsonValue::Str("2".into())), ("content", JsonValue::Str("b".into())), ("status", JsonValue::Str("completed".into())), ("priority", JsonValue::Str("low".into()))]),
    ]))
    .unwrap();
    assert_eq!(count_active(&items), 1);
    assert_eq!(todo_write_report(&items), "Todo list updated. 1 active tasks remaining.");
    let empty: Vec<TodoItem> = Vec::new();
    assert_eq!(count_active(&empty), 0);
    assert!(parse_todos(&JsonValue::Null).is_err());
}

#[test]
fn edits_and_batch_items_are_decoded() {
    let args = rt_obj(vec![("edits", JsonValue::Array(vec![
        rt_obj(vec![("old_string", JsonValue::Str("A".into())), ("new_string", JsonValue::Str("B".into()))]),
        rt_obj(vec![("old_string", JsonValue::Str("Z".into()))]),
    ]))]);
    assert_eq!(parse_edits(&args).err(), Some("Edit #1: Missing 'new_string'".to_string()));
    assert_eq!(parse_edits(&rt_obj(vec![])).err(), Some("Missing 'edits'".to_string()));

    let batch = rt_obj(vec![("tools", JsonValue::Array(vec![
        rt_obj(vec![("tool", JsonValue::Str("glob".into())), ("parameters", rt_obj(vec![]))]),
    ]))]);
    let items = batch_items(batch).ok().unwrap();
    assert_eq!(items.len(), 1);
    assert_eq!(items[0].0, "glob");
    let names = vec!["read_file".to_string(), "glob".to_string()];
    assert_eq!(find_tool(&names, "glob"), Some(1));
    assert_eq!(find_tool(&names, "nope"), None);
    let rec = batch_record("glob", Err("boom".to_string()));
    assert_eq!(rec.get("status").unwrap().as_str().unwrap(), "error");
    assert_eq!(rec.get("error").unwrap().as_str().unwrap(), "boom");
}

#[test]
fn prompt_is_assembled_in_order() {
    let p = get_system_prompt("BASE", "Other", "Pokemon Gen9", "ROLE");
    assert!(p.starts_with("BASE\n\n"));
    assert!(p.contains(HYBRID_MODE));
    assert!(p.contains(get_context_prompt("Pokemon Gen9")));
    assert!(p.ends_with("\n\n\n# AGENT ROLE & IDENTITY\nROLE\n"));
    assert_eq!(get_context_prompt("General"), "");
    let agents = get_default_agents();
    assert_eq!(agents.len(), 4);
    assert_eq!(agents[0].name, "General Assistant");
    assert_eq!(AgentProfile::default().name, "Axiom");
}

#[test]
fn profile_tools_add_editor_extras() {
    let general = axiom_bridge::tool_args::profile_tool_names("General");
    let editor = axiom_bridge::tool_args::profile_tool_names("Bevy Editor Companion");
    assert_eq!(general.len(), 12);
    assert_eq!(editor.len(), 14);
    assert!(editor.contains(&"bevy_rpc"));
    assert!(!general.contains(&"bevy_rpc"));
}
