//! How one step of a plan is carried out, by category: what context an
//! analysis step gathers, the prompts each kind of step sends, when an
//! analysis answer asks for file contents, and the answers a step gives.

use vstd::prelude::*;
use crate::text::{
    contains, contains_str, ends_with, extend_str, from_chars, has_prefix_str, has_suffix_str,
    lowercase, starts_with, to_chars, to_lowercase, trim, trim_chars,
};
use crate::cmd_executor::is_established_dir;
use crate::search_model::{json_string_array, parse_string_array};
use crate::text::string_views;

verus! {

// ───────────────────────── analysis steps ─────────────────────────

/// Where an analysis step takes its context from.
pub enum AnalysisScope {
    /// The listing of the step's own directory.
    Local,
    /// A search of the workspace.
    Search,
}

/// The request asks for a search beyond the current directory.
pub open spec fn forces_global(prompt: Seq<char>) -> bool {
    contains(lowercase(prompt), "search global"@) || contains(lowercase(prompt), "search project"@)
}

/// The scope of an analysis step and the label its context is given under:
/// an established directory's own listing unless a global search is asked
/// for, else a search.
pub fn analysis_scope(prompt: &str, cwd: &str) -> (r: (AnalysisScope, &'static str))
    ensures
        r.0 is Local <==> (cwd@ != "./sandbox"@ && cwd@ != "."@ && !forces_global(prompt@)),
        r.1@ == if r.0 is Local {
            "Local Context (Current Dir)"@
        } else if forces_global(prompt@) {
            "Global Search Context"@
        } else {
            "Action+Search Context"@
        },
{
    let low = to_chars(to_lowercase(prompt).as_str());
    let force_global = contains_str(&low, "search global") || contains_str(&low, "search project");
    if is_established_dir(cwd) && !force_global {
        (AnalysisScope::Local, "Local Context (Current Dir)")
    } else if force_global {
        (AnalysisScope::Search, "Global Search Context")
    } else {
        (AnalysisScope::Search, "Action+Search Context")
    }
}

/// The analysis prompt, up to the request.
pub const ANALYSIS_HEAD: &'static str = "Help me with this request: '";

/// Between the request and the context's label.
pub const ANALYSIS_LABEL: &'static str = "'. Use the following context (";

/// Between the label and the context.
pub const ANALYSIS_CONTEXT: &'static str = "):\n";

/// Between the context and the working directory.
pub const ANALYSIS_RULES: &'static str = "\n\nCRITICAL INSTRUCTION:\n1. If you found file paths in the context, you MUST explicitly write out the absolute JSON paths in your response!\n2. IGNORE project-specific build artifacts, internal cache/temp files, or dependency lockfiles.\n3. SPATIAL AWARENESS: The current default directory is ";

/// After the working directory.
pub const ANALYSIS_TAIL: &'static str = ".\n4. SCOPED READING: If you need to see the full content of specific files to understand where to edit, respond ONLY with a JSON array of strings containing the file paths, e.g., [\"src/main.rs\", \"Cargo.toml\"].";

/// The prompt of an analysis step.
pub fn analysis_prompt(prompt: &str, label: &str, context: &str, cwd: &str) -> (r: String)
    ensures
        r@ == ANALYSIS_HEAD@ + prompt@ + ANALYSIS_LABEL@ + label@ + ANALYSIS_CONTEXT@ + context@
            + ANALYSIS_RULES@ + cwd@ + ANALYSIS_TAIL@,
{
    let mut t: Vec<char> = Vec::new();
    extend_str(&mut t, ANALYSIS_HEAD);
    extend_str(&mut t, prompt);
    extend_str(&mut t, ANALYSIS_LABEL);
    extend_str(&mut t, label);
    extend_str(&mut t, ANALYSIS_CONTEXT);
    extend_str(&mut t, context);
    extend_str(&mut t, ANALYSIS_RULES);
    extend_str(&mut t, cwd);
    extend_str(&mut t, ANALYSIS_TAIL);
    from_chars(&t)
}

/// The answer looks like a JSON array (of file paths to fetch).
pub open spec fn asks_for_files(answer: Seq<char>) -> bool {
    starts_with(trim(answer), "["@) && ends_with(trim(answer), "]"@)
}

/// Tests `asks_for_files`.
pub fn wants_file_fetch(answer: &str) -> (b: bool)
    ensures
        b == asks_for_files(answer@),
{
    let v = to_chars(answer);
    let t = trim_chars(&v);
    has_prefix_str(&t, "[") && has_suffix_str(&t, "]")
}

/// The file paths an analysis answer asks to see: when the answer looks like
/// a JSON array, its trimmed text parsed as an array of strings.
pub fn requested_paths(answer: &str) -> (r: Option<Vec<String>>)
    ensures
        !asks_for_files(answer@) ==> r is None,
        asks_for_files(answer@) ==> (r is None <==> json_string_array(trim(answer@)) is None),
        r matches Some(v) ==> json_string_array(trim(answer@)) == Some(string_views(v@)),
{
    if !wants_file_fetch(answer) {
        return None;
    }
    let v = to_chars(answer);
    let t = from_chars(&trim_chars(&v));
    parse_string_array(t.as_str())
}

/// The analysis prompt with the fetched files' contents appended.
pub fn with_scoped_contents(prompt: &str, contents_json: &str) -> (r: String)
    ensures
        r@ == prompt@ + "\n\nSCOPED FILE CONTENTS:\n"@ + contents_json@,
{
    let mut t: Vec<char> = Vec::new();
    extend_str(&mut t, prompt);
    extend_str(&mut t, "\n\nSCOPED FILE CONTENTS:\n");
    extend_str(&mut t, contents_json);
    from_chars(&t)
}

// ───────────────────────── execution and creation steps ─────────────────────────

/// The context an execution step passes to the command executor.
pub fn execution_context(cwd: &str, tree_json: &str) -> (r: String)
    ensures
        r@ == "Current Working Directory: "@ + cwd@ + "\nContents of this directory:\n"@
            + tree_json@
            + "\n\nSee prior chain context in prompt. Respond with the requested execution logic."@,
{
    let mut t: Vec<char> = Vec::new();
    extend_str(&mut t, "Current Working Directory: ");
    extend_str(&mut t, cwd);
    extend_str(&mut t, "\nContents of this directory:\n");
    extend_str(&mut t, tree_json);
    extend_str(&mut t, "\n\nSee prior chain context in prompt. Respond with the requested execution logic.");
    from_chars(&t)
}

/// The file-generator prompt, up to the working directory.
pub const GENERATOR_HEAD: &'static str = "You are a file generator. Output ONLY a valid JSON array — no explanation, no markdown fences.\n\nENVIRONMENT:\n- Current Working Directory: ";

/// Between the working directory and the files already there.
pub const GENERATOR_FILES: &'static str = "\n- Files already in this folder:\n";

/// Between the files and the task.
pub const GENERATOR_SCHEMA: &'static str = "\n\nOBJECT SCHEMA:\n- \"path\": (required) relative file path.\n- \"op\": \"overwrite\" (default), \"append\", \"patch\", \"insert_at\".\n- \"content\": Full text (for overwrite/append/insert_at).\n- \"search\": Text to find (for \"patch\").\n- \"replace\": Text to replace with (for \"patch\").\n- \"line\": Line number (1-indexed, for \"insert_at\").\n\nRULES:\n- Use \"patch\" for modifying large existing files to be more reliable.\n- Do NOT wrap in markdown fences. Do NOT add any text before or after the JSON array.\n\nTask: ";

/// The prompt of a content-creation step.
pub fn generator_prompt(cwd: &str, tree_json: &str, prompt: &str) -> (r: String)
    ensures
        r@ == GENERATOR_HEAD@ + cwd@ + GENERATOR_FILES@ + tree_json@ + GENERATOR_SCHEMA@ + prompt@,
{
    let mut t: Vec<char> = Vec::new();
    extend_str(&mut t, GENERATOR_HEAD);
    extend_str(&mut t, cwd);
    extend_str(&mut t, GENERATOR_FILES);
    extend_str(&mut t, tree_json);
    extend_str(&mut t, GENERATOR_SCHEMA);
    extend_str(&mut t, prompt);
    from_chars(&t)
}

/// The answer of a content-creation step that wrote its files: what was done
/// and the directory the plan continues in.
pub fn creation_done(prompt: &str, dir: &str) -> (r: String)
    ensures
        r@ == "✅ Content creation complete for: "@ + prompt@ + "\nSET_CWD: "@ + dir@,
{
    let mut t: Vec<char> = Vec::new();
    extend_str(&mut t, "✅ Content creation complete for: ");
    extend_str(&mut t, prompt);
    extend_str(&mut t, "\nSET_CWD: ");
    extend_str(&mut t, dir);
    from_chars(&t)
}

/// The answer of a content-creation step whose files could not be written.
pub fn creation_failed(error: &str) -> (r: String)
    ensures
        r@ == "❌ Content creation failed: "@ + error@,
{
    let mut t: Vec<char> = Vec::new();
    extend_str(&mut t, "❌ Content creation failed: ");
    extend_str(&mut t, error);
    from_chars(&t)
}

// ───────────────────────── Spotify and chat steps ─────────────────────────

/// The answer of a Spotify step that was carried out.
pub fn spotify_done(prompt: &str) -> (r: String)
    ensures
        r@ == "🎵 Spotify command processed: "@ + prompt@,
{
    let mut t: Vec<char> = Vec::new();
    extend_str(&mut t, "🎵 Spotify command processed: ");
    extend_str(&mut t, prompt);
    from_chars(&t)
}

/// The answer of a Spotify step when Spotify is not authorised.
pub const SPOTIFY_NOT_AUTHORISED: &'static str = "❌ Spotify not authorised.";

/// The prompt of a chat step (category 1 or any unknown category).
pub fn chat_step_prompt(prompt: &str, cwd: &str) -> (r: String)
    ensures
        r@ == "Assist with this request: '"@ + prompt@ + "'. Current base directory context: "@
            + cwd@ + "."@,
{
    let mut t: Vec<char> = Vec::new();
    extend_str(&mut t, "Assist with this request: '");
    extend_str(&mut t, prompt);
    extend_str(&mut t, "'. Current base directory context: ");
    extend_str(&mut t, cwd);
    extend_str(&mut t, ".");
    from_chars(&t)
}

} // verus!
