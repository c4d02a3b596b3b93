use enigma::cmd_executor::{
    command_plan, command_prompt, command_report, discover_next_dir, is_container_dir,
    is_established_dir, missing_commands_message, no_commands_message, parse_failure,
    project_markers, set_cwd_footer, strip_verbatim_prefix, summary_entry, CommandOutcome,
    EXPERT_HEAD,
};
use enigma::json::{JsonKind, JsonValue};

fn s(v: &str) -> JsonValue {
    JsonValue { kind: JsonKind::Str(v.to_string()), text: format!("\"{}\"", v) }
}

fn arr(items: Vec<JsonValue>) -> JsonValue {
    JsonValue { kind: JsonKind::Array(items), text: "[]".to_string() }
}

fn obj(members: Vec<(&str, JsonValue)>) -> JsonValue {
    JsonValue {
        kind: JsonKind::Object(members.into_iter().map(|(k, v)| (k.to_string(), v)).collect()),
        text: "{}".to_string(),
    }
}

#[test]
fn expert_prompt_embeds_everything() {
    let p = command_prompt("list files", "[ctx]", "[tree]", "./sandbox");
    assert!(p.starts_with(EXPERT_HEAD));
    assert!(p.contains("[ctx]"));
    assert!(p.contains("[tree]"));
    assert!(p.contains("list files"));
    assert_eq!(p.matches("./sandbox").count() >= 2, true);
}

#[test]
fn established_directories() {
    assert!(!is_established_dir("./sandbox"));
    assert!(!is_established_dir("."));
    assert!(is_established_dir("sandbox/app"));
    assert_eq!(parse_failure("eof"), "❌ Could not parse AI response as JSON: eof");
}

#[test]
fn plan_resolves_workdir_and_files() {
    let doc = obj(vec![
        ("workdir", s("app")),
        (
            "files",
            arr(vec![
                obj(vec![("path", s("main.rs")), ("content", s("fn main() {}"))]),
                obj(vec![("content", s("no path"))]),
                obj(vec![("path", s("/abs/x.txt"))]),
            ]),
        ),
        ("commands", arr(vec![s("cargo build"), obj(vec![]), s("cargo run")])),
    ]);
    let plan = command_plan(&doc, "./sandbox");
    assert_eq!(plan.workdir, "sandbox/app");
    assert_eq!(plan.files.len(), 2);
    assert_eq!(plan.skipped_files, 1);
    assert_eq!(plan.files[0].path, "sandbox/app/main.rs");
    assert_eq!(plan.files[0].content, "fn main() {}");
    assert_eq!(plan.files[1].path, "/abs/x.txt");
    assert_eq!(plan.files[1].content, "");
    assert_eq!(plan.commands, Some(vec!["cargo build".to_string(), "cargo run".to_string()]));
}

#[test]
fn plan_without_commands_or_workdir() {
    let plan = command_plan(&obj(vec![]), "./sandbox/proj");
    assert_eq!(plan.workdir, "sandbox/proj");
    assert!(plan.commands.is_none());
    assert!(plan.files.is_empty());
    let same = command_plan(&obj(vec![("workdir", s("sandbox"))]), "./sandbox/proj");
    assert_eq!(same.workdir, "sandbox/proj");
    let deeper = command_plan(&obj(vec![("workdir", s("sandbox/proj/sub"))]), "./sandbox/proj");
    assert_eq!(deeper.workdir, "sandbox/proj/sub");
    assert!(missing_commands_message().len() > 0);
    assert!(no_commands_message().len() > 0);
}

#[test]
fn report_of_finished_command() {
    let o = CommandOutcome::Finished {
        stdout: b"hi\n".to_vec(),
        stderr: Vec::new(),
        killed: false,
        status: "exit code: 0".to_string(),
    };
    let r = command_report("echo hi", &o);
    assert_eq!(r.output, "STDOUT:\nhi\n\nExit code: exit code: 0\n");
    assert_eq!(
        r.log,
        "Command: echo hi\nSTDOUT:\nhi\n\nExit code: exit code: 0\n----------------------------------------\n"
    );
    assert_eq!(r.stdout, "hi\n");
    assert_eq!(r.stderr, "");
}

#[test]
fn report_of_killed_and_failed_commands() {
    let o = CommandOutcome::Finished {
        stdout: Vec::new(),
        stderr: vec![0xFF],
        killed: true,
        status: "exit code: 1".to_string(),
    };
    let r = command_report("sleep", &o);
    assert_eq!(
        r.output,
        "⏱️ Command 'sleep' killed after 300s timeout\nSTDERR:\n\u{FFFD}\nExit code: exit code: 1\n"
    );
    let f = command_report("x", &CommandOutcome::SpawnFailed("not found".to_string()));
    assert_eq!(f.output, "❌ Failed to spawn 'x': not found\n");
    assert_eq!(f.log, "Failed to spawn 'x': not found\n");
    let c = command_report("y", &CommandOutcome::CollectFailed("pipe".to_string()));
    assert_eq!(c.output, "❌ Failed to collect output for 'y': pipe\n");
    assert_eq!(summary_entry("ls", "out"), "Command: ls\nout\n");
}

#[test]
fn next_directory_after_commands() {
    assert!(is_container_dir("./sandbox"));
    assert!(is_container_dir("C:\\work\\sandbox"));
    assert!(!is_container_dir("sandbox/app"));
    let probes = vec![("./sandbox/a".to_string(), false), ("./sandbox/b".to_string(), true)];
    assert_eq!(discover_next_dir("./sandbox", &probes), "./sandbox/b");
    assert_eq!(discover_next_dir("sandbox/app", &probes), "sandbox/app");
    assert_eq!(discover_next_dir("./sandbox", &vec![]), "./sandbox");
    assert_eq!(strip_verbatim_prefix("\\\\?\\C:\\x"), "C:\\x");
    assert_eq!(strip_verbatim_prefix("C:\\x"), "C:\\x");
    assert_eq!(set_cwd_footer("sandbox/b"), "\nSET_CWD: sandbox/b\n");
    assert_eq!(project_markers()[0], "Cargo.toml");
}
