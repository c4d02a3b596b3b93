//! The command executor's decisions: the prompt that asks the model for a
//! command plan, how the plan's JSON is read (working directory, files to
//! write, commands to run), how a command's outcome is reported and logged,
//! and where the next step continues.
//!
//! Spawning processes, the timeout watchdog and the file system stay with the
//! caller, which hands back what happened.

use vstd::prelude::*;
use vstd::string::*;
use crate::text::{
    decimal, decode_lossy, ends_with, extend_chars, extend_str, from_chars, has_prefix_str,
    has_suffix_str, slice_chars, starts_with, string_views, to_chars, chars_eq_str, utf8_lossy,
    contains, lemma_find_from, occurs_at,
};
use crate::paths::{is_rooted, path_join, resolve_file_path, resolve_workdir, resolved_workdir};
use crate::json::{as_array, as_str, at_key, get, get_array, get_str, get_str_or, opt, opt_str, str_or, JsonValue};

verus! {

// ───────────────────────── the command prompt ─────────────────────────

/// The command expert prompt, up to the search context.
pub const EXPERT_HEAD: &'static str = "You are 'Enigma Command Expert', a broad and extremely capable Windows PowerUser and DevOps Administrator.\nYour goal is to fulfill the user's request using Windows CMD or PowerShell.\n\nRESOURCES AT YOUR DISPOSAL:\n- Semantic Search Context (indexed workspace paths): ";

/// Between the search context and the local tree.
pub const EXPERT_TREE: &'static str = "\n- Local Project Tree (ephemeral sandbox or established workdir): ";

/// Between the local tree and the request.
pub const EXPERT_REQUEST: &'static str = "\n\nCONTEXT SELECTION RULES:\n- You can work in either the ephemeral './sandbox' or within absolute workspace paths found in the Search Context.\n- Use absolute paths for existing project files, and './sandbox' for new experiments or isolated tasks.\n\nUSER REQUEST: ";

/// Between the request and the working directory of the example.
pub const EXPERT_FORMAT: &'static str = "\n\nRespond with ONLY a valid JSON object in this EXACT format:\n{\n\"workdir\": \"";

/// Between the example's working directory and the rules' mention of it.
pub const EXPERT_RULES: &'static str = "\",\n\"files\": [\n{ \"path\": \"script.ps1\", \"content\": \"...\" }\n],\n\"commands\": [\n\"powershell -ExecutionPolicy Bypass -File script.ps1\"\n]\n}\n\nCRITICAL RULES:\n1. DO NOT recreate files, folders, or projects that you can already see in the Search Context.\n2. Use the 'files' array ONLY for temporary scripts or small configuration edits required for the command.\n3. NEVER use 'cd' as a command. Set the 'workdir' field instead.\n4. Use relative paths for files ONLY if they are intended for the 'workdir' you specify.\n5. Ignore large build artifacts (e.g., 'target/', 'dist/', 'bin/'), internal caches, or dependency lockfiles unless explicitly troubleshooting a build failure.\n6. SPATIAL AWARENESS: Default to working in '";

/// The rest of the rules.
pub const EXPERT_TAIL: &'static str = "'. If you create a project (e.g., 'cargo new X'), you MUST specify 'X' as your 'workdir' for any related tasks in this step. Our system will automatically track this for future steps.\n7. Return ONLY the JSON object, nothing else.";

/// The command-expert prompt for a request.
pub open spec fn command_prompt_text(
    task: Seq<char>,
    context: Seq<char>,
    local_tree: Seq<char>,
    default_workdir: Seq<char>,
) -> Seq<char> {
    EXPERT_HEAD@ + context + EXPERT_TREE@ + local_tree + EXPERT_REQUEST@ + task + EXPERT_FORMAT@
        + default_workdir + EXPERT_RULES@ + default_workdir + EXPERT_TAIL@
}

/// Builds the command-expert prompt: the request, the search context, the
/// JSON listing of the local tree and the directory the step starts in.
pub fn command_prompt(task: &str, context: &str, local_tree: &str, default_workdir: &str) -> (r:
    String)
    ensures
        r@ == command_prompt_text(task@, context@, local_tree@, default_workdir@),
{
    let mut t: Vec<char> = Vec::new();
    extend_str(&mut t, EXPERT_HEAD);
    extend_str(&mut t, context);
    extend_str(&mut t, EXPERT_TREE);
    extend_str(&mut t, local_tree);
    extend_str(&mut t, EXPERT_REQUEST);
    extend_str(&mut t, task);
    extend_str(&mut t, EXPERT_FORMAT);
    extend_str(&mut t, default_workdir);
    extend_str(&mut t, EXPERT_RULES);
    extend_str(&mut t, default_workdir);
    extend_str(&mut t, EXPERT_TAIL);
    from_chars(&t)
}

/// The step works in an established directory rather than the sandbox root
/// (`./sandbox`) or the current directory (`.`): its own listing is the local
/// context then.
pub fn is_established_dir(dir: &str) -> (b: bool)
    ensures
        b == (dir@ != "./sandbox"@ && dir@ != "."@),
{
    let d = to_chars(dir);
    !chars_eq_str(&d, "./sandbox") && !chars_eq_str(&d, ".")
}

/// The answer when the model's reply is not JSON.
pub fn parse_failure(error: &str) -> (r: String)
    ensures
        r@ == "❌ Could not parse AI response as JSON: "@ + error@,
{
    let mut t: Vec<char> = Vec::new();
    extend_str(&mut t, "❌ Could not parse AI response as JSON: ");
    extend_str(&mut t, error);
    from_chars(&t)
}

// ───────────────────────── reading a command plan ─────────────────────────

/// A file the plan asks to write.
pub struct PlanFile {
    pub path: String,
    pub content: String,
}

/// A command plan as read from the model's JSON.
pub struct CommandPlan {
    /// The resolved working directory.
    pub workdir: String,
    /// The files to write, paths resolved against `workdir`.
    pub files: Vec<PlanFile>,
    /// File entries dropped for lack of a string `path`.
    pub skipped_files: usize,
    /// The commands to run, `None` when the plan has no `commands` array.
    pub commands: Option<Vec<String>>,
}

/// A plan file's path: absolute as given, else under the working directory.
pub open spec fn plan_path(workdir: Seq<char>, path: Seq<char>) -> Seq<char> {
    if is_rooted(path) {
        path
    } else {
        path_join(workdir, path)
    }
}

/// The files of the first `n` entries: those with a string `path`, resolved
/// against `workdir`, with their `content` (empty when missing).
pub open spec fn plan_files(entries: Seq<JsonValue>, workdir: Seq<char>, n: nat) -> Seq<
    (Seq<char>, Seq<char>),
>
    decreases n,
{
    if n == 0 {
        Seq::empty()
    } else {
        let prev = plan_files(entries, workdir, (n - 1) as nat);
        let e = Some(entries[n - 1]);
        match as_str(at_key(e, "path"@)) {
            Some(p) => prev.push((plan_path(workdir, p), str_or(e, "content"@, ""@))),
            None => prev,
        }
    }
}

/// The strings among the first `n` entries, in order.
pub open spec fn plan_commands(entries: Seq<JsonValue>, n: nat) -> Seq<Seq<char>>
    decreases n,
{
    if n == 0 {
        Seq::empty()
    } else {
        let prev = plan_commands(entries, (n - 1) as nat);
        match as_str(Some(entries[n - 1])) {
            Some(c) => prev.push(c),
            None => prev,
        }
    }
}

/// The path and content views of plan files.
pub open spec fn file_views(files: Seq<PlanFile>) -> Seq<(Seq<char>, Seq<char>)> {
    files.map_values(|f: PlanFile| (f.path@, f.content@))
}

/// The file entries of a plan (none without a `files` array).
pub open spec fn file_entries(parsed: JsonValue) -> Seq<JsonValue> {
    match as_array(at_key(Some(parsed), "files"@)) {
        Some(es) => es,
        None => Seq::empty(),
    }
}

/// Reads the model's command plan, starting from `default_workdir`.
pub fn command_plan(parsed: &JsonValue, default_workdir: &str) -> (r: CommandPlan)
    ensures
        r.workdir@ == resolved_workdir(default_workdir@, as_str(at_key(Some(*parsed), "workdir"@))),
        file_views(r.files@) == plan_files(
            file_entries(*parsed),
            r.workdir@,
            file_entries(*parsed).len(),
        ),
        r.skipped_files + r.files@.len() == file_entries(*parsed).len(),
        r.commands matches Some(cs) ==> as_array(at_key(Some(*parsed), "commands"@)) matches Some(
            es,
        ) && string_views(cs@) == plan_commands(es, es.len()),
        r.commands is None <==> as_array(at_key(Some(*parsed), "commands"@)) is None,
{
    let root = Some(parsed);
    let requested = get_str(get(root, "workdir"));
    let workdir = resolve_workdir(default_workdir, requested);
    proof {
        assert(opt_str(requested) == as_str(at_key(Some(*parsed), "workdir"@)));
    }
    let mut files: Vec<PlanFile> = Vec::new();
    let mut skipped: usize = 0;
    match get_array(get(root, "files")) {
        None => {
            assert(file_entries(*parsed) =~= Seq::<JsonValue>::empty());
        },
        Some(entries) => {
            let n = entries.len();
            for i in 0..n
                invariant
                    n == entries@.len(),
                    entries@ == file_entries(*parsed),
                    file_views(files@) == plan_files(entries@, workdir@, i as nat),
                    skipped + files@.len() == i,
            {
                let e = Some(&entries[i]);
                match get_str(get(e, "path")) {
                    None => {
                        skipped = skipped + 1;
                    },
                    Some(p) => {
                        let path = resolve_file_path(workdir.as_str(), p);
                        let content = get_str_or(e, "content", "").to_owned();
                        let ghost before = file_views(files@);
                        files.push(PlanFile { path, content });
                        assert(file_views(files@) =~= before.push((path@, content@)));
                    },
                }
            }
        },
    }
    let commands = match get_array(get(root, "commands")) {
        None => None,
        Some(entries) => {
            let mut cs: Vec<String> = Vec::new();
            let n = entries.len();
            for i in 0..n
                invariant
                    n == entries@.len(),
                    string_views(cs@) == plan_commands(entries@, i as nat),
            {
                match get_str(Some(&entries[i])) {
                    None => {},
                    Some(c) => {
                        let ghost before = string_views(cs@);
                        cs.push(c.to_owned());
                        assert(string_views(cs@) =~= before.push(c@));
                    },
                }
            }
            Some(cs)
        },
    };
    CommandPlan { workdir, files, skipped_files: skipped, commands }
}

/// The answer when the plan has no `commands` array.
pub fn missing_commands_message() -> (r: String)
    ensures
        r@ == "⚠️ No 'commands' array found in AI response."@,
{
    "⚠️ No 'commands' array found in AI response.".to_owned()
}

/// The answer when the plan's command list is empty.
pub fn no_commands_message() -> (r: String)
    ensures
        r@ == "ℹ️ No commands to run."@,
{
    "ℹ️ No commands to run.".to_owned()
}

// ───────────────────────── reporting a command ─────────────────────────

/// Seconds after which a running command is killed.
pub const CMD_TIMEOUT_SECS: u64 = 300;

/// What became of one command.
pub enum CommandOutcome {
    /// The process could not be started; the error's text.
    SpawnFailed(String),
    /// The process ended (or was killed): its raw output, whether the
    /// watchdog killed it, and how its exit status displays.
    Finished { stdout: Vec<u8>, stderr: Vec<u8>, killed: bool, status: String },
    /// Its output could not be collected; the error's text.
    CollectFailed(String),
}

/// What is reported of a command: the text added to the step's output, the
/// text appended to the command log, and its decoded output streams.
pub struct CommandReport {
    pub output: String,
    pub log: String,
    pub stdout: String,
    pub stderr: String,
}

/// The note that a command was killed by the watchdog.
pub open spec fn killed_note(cmd: Seq<char>) -> Seq<char> {
    "⏱️ Command '"@ + cmd + "' killed after "@ + decimal(CMD_TIMEOUT_SECS as nat) + "s timeout"@
}

/// A labelled stream, or nothing when it is empty.
pub open spec fn stream_block(label: Seq<char>, text: Seq<char>) -> Seq<char> {
    if text.len() == 0 {
        Seq::empty()
    } else {
        label + text + "\n"@
    }
}

/// The text a command adds to the step's output.
pub open spec fn report_output(cmd: Seq<char>, o: CommandOutcome) -> Seq<char> {
    match o {
        CommandOutcome::SpawnFailed(e) => "❌ Failed to spawn '"@ + cmd + "': "@ + e@ + "\n"@,
        CommandOutcome::Finished { stdout, stderr, killed, status } => (if killed {
            killed_note(cmd) + "\n"@
        } else {
            Seq::empty()
        }) + stream_block("STDOUT:\n"@, utf8_lossy(stdout@)) + stream_block(
            "STDERR:\n"@,
            utf8_lossy(stderr@),
        ) + "Exit code: "@ + status@ + "\n"@,
        CommandOutcome::CollectFailed(e) => "❌ Failed to collect output for '"@ + cmd + "': "@
            + e@ + "\n"@,
    }
}

/// A finished command's step output keeps both of its streams, each
/// whatever the other holds: it ends with the decoded stderr, when there is
/// any, under `STDERR:` and followed by the exit code, and it holds the
/// decoded stdout, when there is any, under `STDOUT:`.
pub proof fn law_finished_report_keeps_streams(
    cmd: Seq<char>,
    stdout: Vec<u8>,
    stderr: Vec<u8>,
    killed: bool,
    status: String,
)
    ensures
        utf8_lossy(stderr@).len() > 0 ==> ends_with(
            report_output(cmd, (CommandOutcome::Finished { stdout, stderr, killed, status })),
            "STDERR:\n"@ + utf8_lossy(stderr@) + "\n"@ + "Exit code: "@ + status@ + "\n"@,
        ),
        utf8_lossy(stdout@).len() > 0 ==> contains(
            report_output(cmd, (CommandOutcome::Finished { stdout, stderr, killed, status })),
            "STDOUT:\n"@ + utf8_lossy(stdout@) + "\n"@,
        ),
{
    let o = CommandOutcome::Finished { stdout, stderr, killed, status };
    let r = report_output(cmd, o);
    let k = if killed {
        killed_note(cmd) + "\n"@
    } else {
        Seq::<char>::empty()
    };
    let so = stream_block("STDOUT:\n"@, utf8_lossy(stdout@));
    let se = stream_block("STDERR:\n"@, utf8_lossy(stderr@));
    let ex = "Exit code: "@ + status@ + "\n"@;
    assert(r == k + so + se + "Exit code: "@ + status@ + "\n"@);
    assert(r =~= (k + so) + (se + ex));
    if utf8_lossy(stderr@).len() > 0 {
        let tail = "STDERR:\n"@ + utf8_lossy(stderr@) + "\n"@ + "Exit code: "@ + status@ + "\n"@;
        assert(se + ex =~= tail);
        assert(r.subrange(r.len() - tail.len(), r.len() as int) =~= tail);
    }
    if utf8_lossy(stdout@).len() > 0 {
        let p = "STDOUT:\n"@ + utf8_lossy(stdout@) + "\n"@;
        assert(so == p);
        assert(r =~= k + p + (se + ex));
        assert(r.subrange(k.len() as int, (k.len() + p.len()) as int) =~= p);
        assert(occurs_at(r, p, k.len() as int));
        lemma_find_from(r, p, 0);
    }
}

/// The text a command appends to the command log.
pub open spec fn report_log(cmd: Seq<char>, o: CommandOutcome) -> Seq<char> {
    match o {
        CommandOutcome::SpawnFailed(e) => "Failed to spawn '"@ + cmd + "': "@ + e@ + "\n"@,
        CommandOutcome::Finished { stdout, stderr, killed, status } => (if killed {
            killed_note(cmd) + "\n"@
        } else {
            Seq::empty()
        }) + "Command: "@ + cmd + "\n"@ + stream_block("STDOUT:\n"@, utf8_lossy(stdout@))
            + stream_block("STDERR:\n"@, utf8_lossy(stderr@)) + "Exit code: "@ + status@ + "\n"@
            + "----------------------------------------\n"@,
        CommandOutcome::CollectFailed(e) => "Failed to collect output for '"@ + cmd + "': "@ + e@
            + "\n"@,
    }
}

fn push_stream(t: &mut Vec<char>, label: &str, text: &str)
    ensures
        final(t)@ == old(t)@ + stream_block(label@, text@),
{
    if !text.is_empty() {
        extend_str(t, label);
        extend_str(t, text);
        extend_str(t, "\n");
    } else {
        assert(old(t)@ + Seq::<char>::empty() =~= old(t)@);
    }
}

fn failure_line(head: &str, cmd: &str, error: &str) -> (r: String)
    ensures
        r@ == head@ + cmd@ + "': "@ + error@ + "\n"@,
{
    let mut t: Vec<char> = Vec::new();
    extend_str(&mut t, head);
    extend_str(&mut t, cmd);
    extend_str(&mut t, "': ");
    extend_str(&mut t, error);
    extend_str(&mut t, "\n");
    from_chars(&t)
}

/// Reports a command's outcome (see `report_output` and `report_log`); the
/// streams are decoded as UTF-8, invalid sequences replaced.
pub fn command_report(cmd: &str, outcome: &CommandOutcome) -> (r: CommandReport)
    ensures
        r.output@ == report_output(cmd@, *outcome),
        r.log@ == report_log(cmd@, *outcome),
        outcome matches CommandOutcome::Finished { stdout, stderr, .. } ==> r.stdout@ == utf8_lossy(
            stdout@,
        ) && r.stderr@ == utf8_lossy(stderr@),
{
    let mut out: Vec<char> = Vec::new();
    let mut log: Vec<char> = Vec::new();
    match outcome {
        CommandOutcome::SpawnFailed(e) => CommandReport {
            output: failure_line("❌ Failed to spawn '", cmd, e.as_str()),
            log: failure_line("Failed to spawn '", cmd, e.as_str()),
            stdout: String::new(),
            stderr: String::new(),
        },
        CommandOutcome::Finished { stdout, stderr, killed, status } => {
            let so = decode_lossy(stdout.as_slice());
            let se = decode_lossy(stderr.as_slice());
            if *killed {
                let mut note: Vec<char> = Vec::new();
                extend_str(&mut note, "⏱️ Command '");
                extend_str(&mut note, cmd);
                extend_str(&mut note, "' killed after ");
                let d = crate::text::decimal_chars(CMD_TIMEOUT_SECS);
                extend_chars(&mut note, &d);
                extend_str(&mut note, "s timeout");
                extend_str(&mut note, "\n");
                extend_chars(&mut out, &note);
                extend_chars(&mut log, &note);
            }
            push_stream(&mut out, "STDOUT:\n", so.as_str());
            push_stream(&mut out, "STDERR:\n", se.as_str());
            extend_str(&mut out, "Exit code: ");
            extend_str(&mut out, status.as_str());
            extend_str(&mut out, "\n");
            extend_str(&mut log, "Command: ");
            extend_str(&mut log, cmd);
            extend_str(&mut log, "\n");
            push_stream(&mut log, "STDOUT:\n", so.as_str());
            push_stream(&mut log, "STDERR:\n", se.as_str());
            extend_str(&mut log, "Exit code: ");
            extend_str(&mut log, status.as_str());
            extend_str(&mut log, "\n");
            extend_str(&mut log, "----------------------------------------\n");
            CommandReport { output: from_chars(&out), log: from_chars(&log), stdout: so, stderr: se }
        },
        CommandOutcome::CollectFailed(e) => CommandReport {
            output: failure_line("❌ Failed to collect output for '", cmd, e.as_str()),
            log: failure_line("Failed to collect output for '", cmd, e.as_str()),
            stdout: String::new(),
            stderr: String::new(),
        },
    }
}

/// The entry a command adds to the step summary.
pub fn summary_entry(cmd: &str, output: &str) -> (r: String)
    ensures
        r@ == "Command: "@ + cmd@ + "\n"@ + output@ + "\n"@,
{
    let mut t: Vec<char> = Vec::new();
    extend_str(&mut t, "Command: ");
    extend_str(&mut t, cmd);
    extend_str(&mut t, "\n");
    extend_str(&mut t, output);
    extend_str(&mut t, "\n");
    from_chars(&t)
}

// ───────────────────────── where the next step continues ─────────────────────────

/// The directory is a container of projects (the sandbox) rather than a
/// project of its own.
pub open spec fn container_dir(dir: Seq<char>) -> bool {
    ||| dir == "./sandbox"@
    ||| dir == "sandbox"@
    ||| ends_with(dir, "/sandbox"@)
    ||| ends_with(dir, "\\sandbox"@)
}

/// Tests `container_dir`.
pub fn is_container_dir(dir: &str) -> (b: bool)
    ensures
        b == container_dir(dir@),
{
    let d = to_chars(dir);
    chars_eq_str(&d, "./sandbox") || chars_eq_str(&d, "sandbox") || has_suffix_str(&d, "/sandbox")
        || has_suffix_str(&d, "\\sandbox")
}

/// The files whose presence marks a directory as a project.
pub fn project_markers() -> (r: Vec<&'static str>)
    ensures
        r@.len() == 5,
        r@[0]@ == "Cargo.toml"@,
        r@[1]@ == "package.json"@,
        r@[2]@ == "go.mod"@,
        r@[3]@ == "requirements.txt"@,
        r@[4]@ == ".git"@,
{
    let mut r: Vec<&'static str> = Vec::new();
    r.push("Cargo.toml");
    r.push("package.json");
    r.push("go.mod");
    r.push("requirements.txt");
    r.push(".git");
    r
}

/// A path without the `\\?\` prefix of Windows verbatim paths.
pub open spec fn without_verbatim(p: Seq<char>) -> Seq<char> {
    if starts_with(p, "\\\\?\\"@) {
        p.skip(4)
    } else {
        p
    }
}

/// Removes the `\\?\` prefix of a Windows verbatim path.
pub fn strip_verbatim_prefix(p: &str) -> (r: String)
    ensures
        r@ == without_verbatim(p@),
{
    let v = to_chars(p);
    proof {
        reveal_strlit("\\\\?\\");
    }
    if has_prefix_str(&v, "\\\\?\\") {
        let rest = slice_chars(&v, 4, v.len());
        assert(rest@ =~= v@.skip(4));
        from_chars(&rest)
    } else {
        from_chars(&v)
    }
}

/// The directory the next step continues in: in a container directory, the
/// first subdirectory found with a project marker (`probes` lists each
/// subdirectory and whether it has one), else the working directory itself;
/// without a verbatim prefix.
pub open spec fn next_step_dir(workdir: Seq<char>, probes: Seq<(Seq<char>, bool)>) -> Seq<char> {
    let found = first_marked(probes);
    without_verbatim(
        if container_dir(workdir) && found is Some {
            probes[found.unwrap() as int].0
        } else {
            workdir
        },
    )
}

/// Index of the first probe with a project marker.
pub open spec fn first_marked(probes: Seq<(Seq<char>, bool)>) -> Option<nat>
    decreases probes.len(),
{
    if probes.len() == 0 {
        None
    } else if probes[0].1 {
        Some(0)
    } else {
        match first_marked(probes.drop_first()) {
            Some(i) => Some(i + 1),
            None => None,
        }
    }
}

/// The views of directory probes.
pub open spec fn probe_views(v: Seq<(String, bool)>) -> Seq<(Seq<char>, bool)> {
    v.map_values(|p: (String, bool)| (p.0@, p.1))
}

proof fn lemma_first_marked(probes: Seq<(Seq<char>, bool)>)
    ensures
        first_marked(probes) matches Some(i) ==> i < probes.len() && probes[i as int].1 && forall|
            j: int,
        | 0 <= j < i ==> !(#[trigger] probes[j]).1,
        first_marked(probes) is None ==> forall|j: int| 0 <= j < probes.len() ==> !(#[trigger] probes[j]).1,
    decreases probes.len(),
{
    if probes.len() > 0 && !probes[0].1 {
        lemma_first_marked(probes.drop_first());
        assert forall|j: int| 1 <= j < probes.len() implies probes[j] == probes.drop_first()[j - 1] by {}
    }
}

/// Chooses where the next step continues (see `next_step_dir`).
pub fn discover_next_dir(workdir: &str, probes: &Vec<(String, bool)>) -> (r: String)
    ensures
        r@ == next_step_dir(workdir@, probe_views(probes@)),
{
    let ghost pv = probe_views(probes@);
    proof {
        lemma_first_marked(pv);
    }
    let mut chosen: Option<usize> = None;
    if is_container_dir(workdir) {
        let n = probes.len();
        let mut i: usize = 0;
        while i < n && chosen.is_none()
            invariant
                n == probes@.len(),
                pv == probe_views(probes@),
                i <= n,
                chosen is None ==> forall|j: int| 0 <= j < i ==> !(#[trigger] pv[j]).1,
                chosen matches Some(c) ==> c < n && pv[c as int].1 && forall|j: int|
                    0 <= j < c ==> !(#[trigger] pv[j]).1,
                first_marked(pv) matches Some(k) ==> k < pv.len() && pv[k as int].1 && forall|
                    j: int,
                | 0 <= j < k ==> !(#[trigger] pv[j]).1,
                first_marked(pv) is None ==> forall|j: int| 0 <= j < pv.len() ==> !(#[trigger] pv[j]).1,
            decreases n - i,
        {
            assert(pv[i as int] == (probes@[i as int].0@, probes@[i as int].1));
            if probes[i].1 {
                chosen = Some(i);
            }
            i += 1;
        }
        proof {
            match chosen {
                Some(c) => {
                    if first_marked(pv) != Some(c as nat) {
                        let k = first_marked(pv);
                        if k is Some {
                            assert(!pv[k.unwrap() as int].1 || k.unwrap() >= c);
                        }
                    }
                },
                None => {},
            }
        }
    }
    let dir = match chosen {
        Some(c) => probes[c].0.as_str(),
        None => workdir,
    };
    strip_verbatim_prefix(dir)
}

/// The line that tells the plan runner where the next step continues.
pub fn set_cwd_footer(cwd: &str) -> (r: String)
    ensures
        r@ == "\nSET_CWD: "@ + cwd@ + "\n"@,
{
    let mut t: Vec<char> = Vec::new();
    extend_str(&mut t, "\nSET_CWD: ");
    extend_str(&mut t, cwd);
    extend_str(&mut t, "\n");
    from_chars(&t)
}

} // verus!
