//! The Brain orchestrator's own logic: sub-tasks and their results, how a
//! step's output is judged and cleaned, how prior steps are fed into the next
//! one, how a run is synthesised, rolled back, reviewed, and how plans are
//! written down and found again.

use vstd::prelude::*;
use crate::model::RequestTracker;
use crate::paths::{normalize, normalize_chars};
use crate::text::{
    occurs_at, chars_eq_str, strip_prefixes, strip_prefixes_chars, contains, contains_str, decimal, decimal_chars, ends_with, extend_chars,
    extend_str, find, find_char, find_str, from_chars, has_prefix_str, has_suffix_str, join,
    join_chars, lemma_find_from, lines, slice_chars, split_lines, starts_with, to_chars, trim,
    trim_chars, views, is_ws, trim_start, trim_end, lemma_decimal_digits, lemma_digit_zero,
};
use vstd::string::*;

verus! {

// ───────────────────────── types ─────────────────────────

/// One focused step produced by the decomposer.
#[derive(Debug, Clone)]
pub struct SubTask {
    pub step: u32,
    /// Short human-readable label, e.g. "Search context".
    pub intent: String,
    /// The focused, self-contained prompt for this step.
    pub prompt: String,
    /// Which AI function handles the step (1-5).
    pub category: u64,
    /// Estimated number of AI calls the step will consume.
    pub estimated_calls: u32,
}

/// How a step ended.
#[derive(Debug, Clone, PartialEq)]
pub enum StepStatus {
    /// No hard error was detected.
    Success,
    /// A hard error; the string is the reason.
    Failed(String),
}

/// The result of one executed sub-task.
#[derive(Debug, Clone)]
pub struct StepResult {
    pub task: SubTask,
    pub output: String,
    pub cwd: String,
    pub status: StepStatus,
}

impl SubTask {
    /// A copy of the sub-task.
    pub fn duplicate(&self) -> (r: SubTask)
        ensures
            r == *self,
    {
        SubTask {
            step: self.step,
            intent: self.intent.clone(),
            prompt: self.prompt.clone(),
            category: self.category,
            estimated_calls: self.estimated_calls,
        }
    }
}

impl StepStatus {
    /// A copy of the status.
    pub fn duplicate(&self) -> (r: StepStatus)
        ensures
            r == *self,
    {
        match self {
            StepStatus::Success => StepStatus::Success,
            StepStatus::Failed(m) => StepStatus::Failed(m.clone()),
        }
    }
}

impl StepResult {
    /// A copy of the result.
    pub fn duplicate(&self) -> (r: StepResult)
        ensures
            r == *self,
    {
        StepResult {
            task: self.task.duplicate(),
            output: self.output.clone(),
            cwd: self.cwd.clone(),
            status: self.status.duplicate(),
        }
    }
}

// ───────────────────────── categories and configuration ─────────────────────────

/// The label of an AI function category; unknown categories are chat.
pub open spec fn category_label_spec(cat: u64) -> Seq<char> {
    if cat == 2 {
        "Analyze Project / Knowledge"@
    } else if cat == 3 {
        "Execute Tasks"@
    } else if cat == 4 {
        "Generate Content / Files"@
    } else if cat == 5 {
        "Spotify Integration"@
    } else {
        "General Chat"@
    }
}

/// The label of an AI function category (1 chat, 2 analysis, 3 execution,
/// 4 content, 5 Spotify; anything else is chat).
pub fn category_label(cat: u64) -> (r: &'static str)
    ensures
        r@ == category_label_spec(cat),
{
    match cat {
        2 => "Analyze Project / Knowledge",
        3 => "Execute Tasks",
        4 => "Generate Content / Files",
        5 => "Spotify Integration",
        _ => "General Chat",
    }
}

/// The category a sub-task gets when the planner leaves it out: chat.
pub fn default_category() -> (r: u64)
    ensures
        r == 1,
{
    1
}

/// The call estimate a sub-task gets when the planner leaves it out.
pub fn default_calls() -> (r: u32)
    ensures
        r == 1,
{
    1
}

/// The step cap used when the tracker sets none.
pub const DEFAULT_MAX_STEPS: u32 = 16;

/// The maximum number of decomposition steps: the tracker's setting, or 16
/// when it is 0.
pub fn load_max_steps(tracker: &RequestTracker) -> (r: u32)
    ensures
        r == if tracker.max_steps == 0 {
            DEFAULT_MAX_STEPS
        } else {
            tracker.max_steps
        },
{
    if tracker.max_steps == 0 {
        DEFAULT_MAX_STEPS
    } else {
        tracker.max_steps
    }
}

/// The maximum number of rollbacks the tracker allows.
pub fn load_max_rollbacks(tracker: &RequestTracker) -> (r: u32)
    ensures
        r == tracker.max_rollbacks,
{
    tracker.max_rollbacks
}

/// The maximum number of review retries the tracker allows.
pub fn load_max_retries(tracker: &RequestTracker) -> (r: u8)
    ensures
        r == tracker.max_retries,
{
    tracker.max_retries
}

// ───────────────────────── summaries and cleaning ─────────────────────────

/// `Step <n> [<intent>]: <prompt>\nOutput: <output>`.
pub open spec fn summary_spec(r: StepResult) -> Seq<char> {
    "Step "@ + decimal(r.task.step as nat) + " ["@ + r.task.intent@ + "]: "@ + r.task.prompt@
        + "\nOutput: "@ + r.output@
}

/// Lines that carry execution bookkeeping rather than content.
pub open spec fn is_sentinel_line(l: Seq<char>) -> bool {
    ||| starts_with(l, "SET_CWD:"@)
    ||| starts_with(l, "Exit code:"@)
    ||| starts_with(l, "STDOUT:"@)
    ||| starts_with(l, "STDERR:"@)
    ||| starts_with(l, "Command:"@)
}

/// The output's lines without bookkeeping lines, joined with `\n`.
pub open spec fn clean_spec(output: Seq<char>) -> Seq<char> {
    join(lines(output).filter(|l: Seq<char>| !is_sentinel_line(l)), "\n"@)
}

proof fn lemma_sentinel_shorter(x: Seq<char>)
    requires
        x.len() > 0,
        is_sentinel_line(x.drop_last()),
    ensures
        is_sentinel_line(x),
{
    let l = x.drop_last();
    assert forall|p: Seq<char>| starts_with(l, p) implies starts_with(x, p) by {
        assert(x.subrange(0, p.len() as int) =~= l.subrange(0, p.len() as int));
    }
}

/// Cleaning removes every bookkeeping line: no line of a cleaned output is
/// a `SET_CWD:`, `Exit code:`, `STDOUT:`, `STDERR:` or `Command:` line.
pub proof fn law_clean_output_has_no_bookkeeping(output: Seq<char>)
    ensures
        forall|k: int|
            0 <= k < lines(clean_spec(output)).len() ==> !is_sentinel_line(
                #[trigger] lines(clean_spec(output))[k],
            ),
{
    let pred = |l: Seq<char>| !is_sentinel_line(l);
    let all = lines(output);
    let kept = all.filter(pred);
    assert("\n"@ =~= seq!['\n']) by {
        reveal_strlit("\n");
    }
    crate::text::lemma_lines_one_line(output);
    assert forall|i: int| 0 <= i < kept.len() implies crate::text::one_line(#[trigger] kept[i])
        && !is_sentinel_line(kept[i]) by {
        all.lemma_filter_pred(pred, i);
        assert(kept.contains(kept[i]));
        all.lemma_filter_contains_rev(pred, kept[i]);
        let j = choose|j: int| 0 <= j < all.len() && all[j] == kept[i];
        assert(crate::text::one_line(all[j]));
    }
    crate::text::lemma_lines_of_join(kept);
    let ls = lines(clean_spec(output));
    assert forall|k: int| 0 <= k < ls.len() implies !is_sentinel_line(#[trigger] ls[k]) by {
        let i = choose|i: int|
            0 <= i < kept.len() && (#[trigger] lines(join(kept, seq!['\n']))[k] == kept[i] || (
            kept[i].len() > 0 && lines(join(kept, seq!['\n']))[k] == kept[i].drop_last()));
        if ls[k] != kept[i] && is_sentinel_line(ls[k]) {
            lemma_sentinel_shorter(kept[i]);
        }
    }
}

/// Tests `is_sentinel_line`.
pub fn sentinel_line(l: &Vec<char>) -> (b: bool)
    ensures
        b == is_sentinel_line(l@),
{
    has_prefix_str(l, "SET_CWD:") || has_prefix_str(l, "Exit code:") || has_prefix_str(l, "STDOUT:")
        || has_prefix_str(l, "STDERR:") || has_prefix_str(l, "Command:")
}

/// The lines of `output` that are not bookkeeping lines.
pub fn content_lines(output: &str) -> (r: Vec<Vec<char>>)
    ensures
        views(r@) == lines(output@).filter(|l: Seq<char>| !is_sentinel_line(l)),
{
    let ov = to_chars(output);
    let ls = split_lines(&ov);
    let ghost all = views(ls@);
    let ghost pred = |l: Seq<char>| !is_sentinel_line(l);
    let mut kept: Vec<Vec<char>> = Vec::new();
    let n = ls.len();
    assert(all.take(0) =~= Seq::<Seq<char>>::empty());
    for i in 0..n
        invariant
            n == ls@.len(),
            all == views(ls@),
            pred == (|l: Seq<char>| !is_sentinel_line(l)),
            views(kept@) == all.take(i as int).filter(pred),
    {
        assert(all.take(i + 1) =~= all.take(i as int).push(all[i as int]));
        assert(all[i as int] == ls@[i as int]@);
        proof {
            all.take(i as int).lemma_filter_push(all[i as int], pred);
        }
        if !sentinel_line(&ls[i]) {
            let ghost before = views(kept@);
            kept.push(slice_chars(&ls[i], 0, ls[i].len()));
            assert(ls@[i as int]@.subrange(0, ls@[i as int]@.len() as int) =~= all[i as int]);
            assert(views(kept@) =~= before.push(all[i as int]));
        }
    }
    assert(all.take(n as int) =~= all);
    kept
}

/// A text without its bookkeeping lines (see `clean_spec`).
pub fn clean_text(text: &str) -> (r: String)
    ensures
        r@ == clean_spec(text@),
{
    let kept = content_lines(text);
    let mut sep: Vec<char> = Vec::new();
    extend_str(&mut sep, "\n");
    let j = join_chars(&kept, &sep);
    from_chars(&j)
}

impl StepResult {
    /// One-line summary used in context chains and review prompts.
    pub fn summary(&self) -> (r: String)
        ensures
            r@ == summary_spec(*self),
    {
        let mut v: Vec<char> = Vec::new();
        extend_str(&mut v, "Step ");
        extend_chars(&mut v, &decimal_chars(self.task.step as u64));
        extend_str(&mut v, " [");
        extend_str(&mut v, self.task.intent.as_str());
        extend_str(&mut v, "]: ");
        extend_str(&mut v, self.task.prompt.as_str());
        extend_str(&mut v, "\nOutput: ");
        extend_str(&mut v, self.output.as_str());
        from_chars(&v)
    }

    /// True exactly on a hard failure.
    pub fn is_hard_failure(&self) -> (b: bool)
        ensures
            b == (self.status is Failed),
    {
        match &self.status {
            StepStatus::Failed(_) => true,
            StepStatus::Success => false,
        }
    }

    /// The output without bookkeeping lines (`SET_CWD:`, `Exit code:`,
    /// `STDOUT:`, `STDERR:`, `Command:`).
    pub fn clean_output(&self) -> (r: String)
        ensures
            r@ == clean_spec(self.output@),
    {
        clean_text(self.output.as_str())
    }
}

// ───────────────────────── step status ─────────────────────────

/// The first line that contains `p`.
pub open spec fn first_line_containing(ls: Seq<Seq<char>>, p: Seq<char>) -> Option<Seq<char>>
    decreases ls.len(),
{
    if ls.len() == 0 {
        None
    } else if contains(ls[0], p) {
        Some(ls[0])
    } else {
        first_line_containing(ls.drop_first(), p)
    }
}

/// An exit code text that reports success.
pub open spec fn exit_ok(code: Seq<char>) -> bool {
    code == "0"@ || ends_with(code, ": 0"@) || code == "exit status: 0"@
}

/// The reason of the first `Exit code:` line that reports a failure.
pub open spec fn exit_failure(ls: Seq<Seq<char>>) -> Option<Seq<char>>
    decreases ls.len(),
{
    if ls.len() == 0 {
        None
    } else if starts_with(ls[0], "Exit code:"@) && !exit_ok(
        trim(strip_prefixes(ls[0], "Exit code:"@)),
    ) {
        Some("Non-zero "@ + ls[0])
    } else {
        exit_failure(ls.drop_first())
    }
}

/// The failure reason a step's output shows, if any: a content-creation or
/// spawn failure (the first line with `❌`), a PowerShell error record, or a
/// non-zero exit code.
pub open spec fn failure_of(output: Seq<char>) -> Option<Seq<char>> {
    if contains(output, "❌ Content creation failed"@) || contains(output, "Failed to spawn"@) {
        Some(
            match first_line_containing(lines(output), "❌"@) {
                Some(l) => l,
                None => "unknown"@,
            },
        )
    } else if contains(output, "FullyQualifiedErrorId"@) || (contains(output, "At line:"@)
        && contains(output, "char:"@) && contains(output, "CategoryInfo"@)) {
        Some("PowerShell error record detected"@)
    } else {
        exit_failure(lines(output))
    }
}

/// The failure reason a status carries.
pub open spec fn status_reason(s: StepStatus) -> Option<Seq<char>> {
    match s {
        StepStatus::Success => None,
        StepStatus::Failed(m) => Some(m@),
    }
}

fn first_line_with(ls: &Vec<Vec<char>>, p: &str) -> (r: Option<usize>)
    ensures
        r matches Some(i) ==> i < ls@.len() && first_line_containing(views(ls@), p@) == Some(
            ls@[i as int]@,
        ),
        r is None ==> first_line_containing(views(ls@), p@) is None,
{
    let n = ls.len();
    let ghost all = views(ls@);
    assert(all.skip(0) =~= all);
    for i in 0..n
        invariant
            n == ls@.len(),
            all == views(ls@),
            first_line_containing(all, p@) == first_line_containing(all.skip(i as int), p@),
    {
        assert(all.skip(i as int).drop_first() =~= all.skip(i + 1));
        if contains_str(&ls[i], p) {
            return Some(i);
        }
    }
    assert(all.skip(n as int) =~= Seq::<Seq<char>>::empty());
    None
}

fn exit_code_ok(code: &Vec<char>) -> (b: bool)
    ensures
        b == exit_ok(code@),
{
    chars_eq_str(code, "0") || has_suffix_str(code, ": 0") || chars_eq_str(code, "exit status: 0")
}

proof fn lemma_no_failed_exit(ls: Seq<Seq<char>>)
    requires
        forall|k: int|
            0 <= k < ls.len() && starts_with(#[trigger] ls[k], "Exit code:"@) ==> exit_ok(
                trim(strip_prefixes(ls[k], "Exit code:"@)),
            ),
    ensures
        exit_failure(ls) is None,
    decreases ls.len(),
{
    if ls.len() > 0 {
        assert forall|k: int|
            0 <= k < ls.drop_first().len() && starts_with(
                #[trigger] ls.drop_first()[k],
                "Exit code:"@,
            ) implies exit_ok(trim(strip_prefixes(ls.drop_first()[k], "Exit code:"@))) by {
            assert(ls.drop_first()[k] == ls[k + 1]);
        }
        lemma_no_failed_exit(ls.drop_first());
    }
}

/// Output that is merely informational never fails a step: without a
/// content-creation or spawn failure, without a PowerShell error record, and
/// with every `Exit code:` line reporting success, the step succeeds,
/// whatever else (such as STDERR text) the output holds.
pub proof fn law_informational_output_passes(output: Seq<char>)
    requires
        !contains(output, "❌ Content creation failed"@),
        !contains(output, "Failed to spawn"@),
        !contains(output, "FullyQualifiedErrorId"@),
        !(contains(output, "At line:"@) && contains(output, "char:"@) && contains(
            output,
            "CategoryInfo"@,
        )),
        forall|k: int|
            0 <= k < lines(output).len() && starts_with(#[trigger] lines(output)[k], "Exit code:"@)
                ==> exit_ok(trim(strip_prefixes(lines(output)[k], "Exit code:"@))),
    ensures
        failure_of(output) is None,
{
    lemma_no_failed_exit(lines(output));
}

/// An `exit status: N` code (how a process status reads on Unix), or a bare
/// number `N`, reports success exactly when `N` is zero.
pub proof fn law_exit_number_ok_only_when_zero(n: nat)
    ensures
        exit_ok("exit status: "@ + decimal(n)) <==> n == 0,
        exit_ok(decimal(n)) <==> n == 0,
{
    reveal_strlit("exit status: ");
    reveal_strlit("exit status: 0");
    reveal_strlit("0");
    reveal_strlit(": 0");
    lemma_decimal_digits(n);
    lemma_digit_zero(n % 10);
    let d = decimal(n);
    let s = "exit status: "@ + d;
    assert(s.len() == d.len() + 13);
    assert(s.last() == d.last());
    if n == 0 {
        assert(d =~= seq!['0']);
        assert(s =~= "exit status: 0"@);
        assert(d =~= "0"@);
    } else {
        if s == "exit status: 0"@ {
            assert(s[13] == d[0]);
            assert(d.last() == d[0]);
        }
        if ends_with(s, ": 0"@) {
            assert(s.subrange(s.len() - 3, s.len() as int)[2] == s.last());
            assert(s.subrange(s.len() - 3, s.len() as int)[1] == s[s.len() - 2]);
            if d.len() >= 2 {
                assert(s[s.len() - 2] == d[d.len() - 2]);
            } else {
                assert(s[s.len() - 2] == ' ');
            }
        }
        if d == "0"@ {
            assert(d.last() == d[0]);
        }
        if ends_with(d, ": 0"@) {
            assert(d.subrange(d.len() - 3, d.len() as int)[0] == d[d.len() - 3]);
        }
        if d == "exit status: 0"@ {
            assert(d[0] == 'e');
        }
    }
}

proof fn lemma_exit_failure_at(ls: Seq<Seq<char>>, k: int)
    requires
        0 <= k < ls.len(),
        forall|j: int| 0 <= j < k ==> !starts_with(#[trigger] ls[j], "Exit code:"@),
        starts_with(ls[k], "Exit code:"@),
        !exit_ok(trim(strip_prefixes(ls[k], "Exit code:"@))),
    ensures
        exit_failure(ls) == Some("Non-zero "@ + ls[k]),
    decreases k,
{
    if k > 0 {
        assert(!starts_with(ls[0], "Exit code:"@));
        assert forall|j: int| 0 <= j < k - 1 implies !starts_with(
            #[trigger] ls.drop_first()[j],
            "Exit code:"@,
        ) by {
            assert(ls.drop_first()[j] == ls[j + 1]);
        }
        assert(ls.drop_first()[k - 1] == ls[k]);
        lemma_exit_failure_at(ls.drop_first(), k - 1);
    }
}

proof fn lemma_exit_status_line(n: nat)
    ensures
        starts_with("Exit code: exit status: "@ + decimal(n), "Exit code:"@),
        trim(strip_prefixes("Exit code: exit status: "@ + decimal(n), "Exit code:"@))
            == "exit status: "@ + decimal(n),
{
    reveal_strlit("Exit code: exit status: ");
    reveal_strlit("Exit code:");
    reveal_strlit("exit status: ");
    lemma_decimal_digits(n);
    let l = "Exit code: exit status: "@ + decimal(n);
    let p = "Exit code:"@;
    let c = "exit status: "@ + decimal(n);
    assert(l.subrange(0, 10) =~= p);
    let rest = l.skip(10);
    assert(rest =~= seq![' '] + c);
    if starts_with(rest, p) {
        assert(rest.subrange(0, 10)[0] == rest[0]);
    }
    assert(strip_prefixes(rest, p) == rest);
    assert(strip_prefixes(l, p) == rest);
    assert(rest.drop_first() =~= c);
    assert(is_ws(rest[0]));
    assert(!is_ws(c[0]));
    assert(trim_start(c) == c);
    assert(trim_start(rest) == c);
    assert(c.last() == decimal(n).last());
    assert(!is_ws(c.last()));
    assert(trim_end(c) == c);
}

/// A step whose output reports a non-zero `exit status: N` fails: without a
/// content-creation or spawn failure and without a PowerShell error record,
/// when the first `Exit code:` line of the output reads
/// `Exit code: exit status: N` with `N` other than zero, the step fails with
/// `Non-zero ` followed by that line.
pub proof fn law_nonzero_exit_status_fails(output: Seq<char>, k: int, n: nat)
    requires
        !contains(output, "❌ Content creation failed"@),
        !contains(output, "Failed to spawn"@),
        !contains(output, "FullyQualifiedErrorId"@),
        !(contains(output, "At line:"@) && contains(output, "char:"@) && contains(
            output,
            "CategoryInfo"@,
        )),
        0 <= k < lines(output).len(),
        forall|j: int| 0 <= j < k ==> !starts_with(#[trigger] lines(output)[j], "Exit code:"@),
        lines(output)[k] == "Exit code: exit status: "@ + decimal(n),
        n != 0,
    ensures
        failure_of(output) == Some("Non-zero Exit code: exit status: "@ + decimal(n)),
{
    reveal_strlit("Non-zero ");
    reveal_strlit("Exit code: exit status: ");
    reveal_strlit("Non-zero Exit code: exit status: ");
    lemma_exit_status_line(n);
    law_exit_number_ok_only_when_zero(n);
    lemma_exit_failure_at(lines(output), k);
    assert("Non-zero "@ + ("Exit code: exit status: "@ + decimal(n)) =~= "Non-zero Exit code: exit status: "@
        + decimal(n));
}

/// The status a step's output shows (see `failure_of`).
pub fn detect_step_status(output: &str) -> (r: StepStatus)
    ensures
        status_reason(r) == failure_of(output@),
{
    let ov = to_chars(output);
    if contains_str(&ov, "❌ Content creation failed") || contains_str(&ov, "Failed to spawn") {
        let ls = split_lines(&ov);
        return match first_line_with(&ls, "❌") {
            Some(i) => StepStatus::Failed(from_chars(&ls[i])),
            None => StepStatus::Failed("unknown".to_owned()),
        };
    }
    if contains_str(&ov, "FullyQualifiedErrorId") || (contains_str(&ov, "At line:") && contains_str(
        &ov,
        "char:",
    ) && contains_str(&ov, "CategoryInfo")) {
        return StepStatus::Failed("PowerShell error record detected".to_owned());
    }
    let ls = split_lines(&ov);
    let n = ls.len();
    let ghost all = views(ls@);
    assert(all.skip(0) =~= all);
    assert(failure_of(output@) == exit_failure(lines(output@)));
    for i in 0..n
        invariant
            n == ls@.len(),
            all == views(ls@),
            all == lines(output@),
            failure_of(output@) == exit_failure(lines(output@)),
            exit_failure(all) == exit_failure(all.skip(i as int)),
    {
        assert(all.skip(i as int).drop_first() =~= all.skip(i + 1));
        assert(all.skip(i as int)[0] == ls@[i as int]@);
        if has_prefix_str(&ls[i], "Exit code:") {
            let stripped = strip_prefixes_chars(&ls[i], "Exit code:");
            let code = trim_chars(&stripped);
            if !exit_code_ok(&code) {
                assert(starts_with(all.skip(i as int)[0], "Exit code:"@));
                assert(!exit_ok(trim(strip_prefixes(all.skip(i as int)[0], "Exit code:"@))));
                assert(exit_failure(all.skip(i as int)) == Some("Non-zero "@ + ls@[i as int]@));
                let mut m: Vec<char> = Vec::new();
                extend_str(&mut m, "Non-zero ");
                extend_chars(&mut m, &ls[i]);
                return StepStatus::Failed(from_chars(&m));
            }
        }
    }
    assert(all.skip(n as int) =~= Seq::<Seq<char>>::empty());
    StepStatus::Success
}


// ───────────────────────── synthesis ─────────────────────────

/// Opening of the synthesis prompt, up to the original request.
pub const SYNTH_HEAD: &'static str = "You are 'Enigma Brain'. Below are the sequential results of a multi-step task.\n\nOriginal Request: \"";

/// Between the original request and the step results.
pub const SYNTH_MID: &'static str = "\"\n\nStep Results:\n";

/// Closing instructions of the synthesis prompt.
pub const SYNTH_TAIL: &'static str = "\n\nYour job: Write a single, coherent, friendly response that:\n1. Summarises what was accomplished across all steps.\n2. Highlights any important outputs (file paths, command outputs, data found).\n3. If any step failed or had no output, mention it briefly.\n4. Keep it concise — no repetition.";

/// Separator between step blocks and summaries.
pub const STEP_SEPARATOR: &'static str = "\n---\n";

/// What the synthesiser does with a run's results.
#[derive(Debug, Clone, PartialEq)]
pub enum Synthesis {
    /// The final response, ready as it is.
    Final(String),
    /// Ask the model (with the "Helpful" persona) this prompt; its answer is
    /// the final response.
    Ask(String),
}

/// One step's block in the synthesis prompt.
pub open spec fn step_block_spec(r: StepResult) -> Seq<char> {
    "Step "@ + decimal(r.task.step as nat) + ": ["@ + r.task.intent@ + "] ("@ + category_label_spec(
        r.task.category,
    ) + ")\nPrompt: "@ + r.task.prompt@ + "\nResult:\n"@ + clean_spec(r.output@) + "\n"@
}

/// The characters a synthesis carries, and whether it is final.
pub open spec fn synthesis_view(s: Synthesis) -> (bool, Seq<char>) {
    match s {
        Synthesis::Final(x) => (true, x@),
        Synthesis::Ask(x) => (false, x@),
    }
}

/// The synthesis of a run, as characters: a single step's output is final
/// once cleaned, trimmed and cleaned again (so that no bookkeeping line is
/// left, not even one the trim exposes); several steps go to the model.
pub open spec fn synthesis_chars(original: Seq<char>, results: Seq<StepResult>) -> (bool, Seq<char>) {
    if results.len() == 1 {
        (true, clean_spec(trim(clean_spec(results[0].output@))))
    } else {
        (
            false,
            SYNTH_HEAD@ + original + SYNTH_MID@ + join(
                results.map_values(|r: StepResult| step_block_spec(r)),
                STEP_SEPARATOR@,
            ) + SYNTH_TAIL@,
        )
    }
}

fn step_block(r: &StepResult) -> (v: Vec<char>)
    ensures
        v@ == step_block_spec(*r),
{
    let mut v: Vec<char> = Vec::new();
    extend_str(&mut v, "Step ");
    extend_chars(&mut v, &decimal_chars(r.task.step as u64));
    extend_str(&mut v, ": [");
    extend_str(&mut v, r.task.intent.as_str());
    extend_str(&mut v, "] (");
    extend_str(&mut v, category_label(r.task.category));
    extend_str(&mut v, ")\nPrompt: ");
    extend_str(&mut v, r.task.prompt.as_str());
    extend_str(&mut v, "\nResult:\n");
    let c = r.clean_output();
    extend_str(&mut v, c.as_str());
    extend_str(&mut v, "\n");
    v
}

/// Merges a run's step outputs into the final answer, or into the prompt
/// that asks the model for it (see `synthesis_chars`). A single step's answer
/// is always clean: none of its lines is a bookkeeping line.
pub fn synthesise(original_prompt: &str, results: &[StepResult]) -> (r: Synthesis)
    ensures
        synthesis_view(r) == synthesis_chars(original_prompt@, results@),
        results@.len() == 1 ==> forall|k: int|
            0 <= k < lines(synthesis_view(r).1).len() ==> !is_sentinel_line(
                #[trigger] lines(synthesis_view(r).1)[k],
            ),
{
    if results.len() == 1 {
        let c = results[0].clean_output();
        let cv = to_chars(c.as_str());
        let t = from_chars(&trim_chars(&cv));
        let cleaned = clean_text(t.as_str());
        proof {
            law_clean_output_has_no_bookkeeping(t@);
        }
        return Synthesis::Final(cleaned);
    }
    let mut blocks: Vec<Vec<char>> = Vec::new();
    let n = results.len();
    let ghost all = results@.map_values(|r: StepResult| step_block_spec(r));
    for i in 0..n
        invariant
            n == results@.len(),
            all == results@.map_values(|r: StepResult| step_block_spec(r)),
            views(blocks@) == all.take(i as int),
    {
        let ghost before = views(blocks@);
        blocks.push(step_block(&results[i]));
        assert(views(blocks@) =~= before.push(all[i as int]));
        assert(all.take(i + 1) =~= all.take(i as int).push(all[i as int]));
    }
    assert(all.take(n as int) =~= all);
    let sep = to_chars(STEP_SEPARATOR);
    let body = join_chars(&blocks, &sep);
    let mut v: Vec<char> = Vec::new();
    extend_str(&mut v, SYNTH_HEAD);
    extend_str(&mut v, original_prompt);
    extend_str(&mut v, SYNTH_MID);
    extend_chars(&mut v, &body);
    extend_str(&mut v, SYNTH_TAIL);
    Synthesis::Ask(from_chars(&v))
}


// ───────────────────────── executing a plan ─────────────────────────

/// Most characters of prior-step context handed to a step.
pub const MAX_PRIOR_CTX_CHARS: usize = 8000;

/// Heading in front of the prior-step context.
pub const CONTEXT_HEAD: &'static str = "\n\n[Prior step context — use this to inform your response]:\n";

/// Marker in front of context whose beginning was cut off.
pub const CONTEXT_TRUNCATED: &'static str = "[…prior context truncated…]\n";

/// Marker of the line that reports a step's new working directory.
pub const SET_CWD_MARKER: &'static str = "SET_CWD: ";

/// The context kept for a step: all of it when it has at most
/// `MAX_PRIOR_CTX_CHARS` characters, otherwise its last `MAX_PRIOR_CTX_CHARS`
/// characters after a truncation marker.
pub open spec fn capped(raw: Seq<char>) -> Seq<char> {
    if raw.len() <= MAX_PRIOR_CTX_CHARS {
        raw
    } else {
        CONTEXT_TRUNCATED@ + raw.skip(raw.len() - MAX_PRIOR_CTX_CHARS)
    }
}

/// All summaries of the given results, separated.
pub open spec fn summaries(all: Seq<StepResult>) -> Seq<char> {
    join(all.map_values(|r: StepResult| summary_spec(r)), STEP_SEPARATOR@)
}

/// The prior-step context appended to a step's prompt: nothing before the
/// first result, otherwise a heading and the (capped) summaries.
pub open spec fn prior_context(all: Seq<StepResult>) -> Seq<char> {
    if all.len() == 0 {
        Seq::empty()
    } else {
        CONTEXT_HEAD@ + capped(summaries(all))
    }
}

/// The working directory after a step's output: the path on its first
/// `SET_CWD: ` line (up to the line end, trimmed, normalised), if non-empty.
pub open spec fn cwd_after(cwd: Seq<char>, output: Seq<char>) -> Seq<char> {
    match find(output, SET_CWD_MARKER@) {
        None => cwd,
        Some(p) => {
            let rest = output.skip((p + SET_CWD_MARKER@.len()) as int);
            let line = match find(rest, "\n"@) {
                Some(e) => rest.take(e as int),
                None => rest,
            };
            let t = trim(line);
            if t.len() == 0 {
                cwd
            } else {
                normalize(t)
            }
        },
    }
}

/// Context chaining stays within its budget: what a step receives of the
/// prior results is either all of their summaries, when they have at most
/// `MAX_PRIOR_CTX_CHARS` characters, or the truncation marker followed by
/// exactly their last `MAX_PRIOR_CTX_CHARS` characters.
pub proof fn law_prior_context_within_budget(all: Seq<StepResult>)
    ensures
        all.len() == 0 ==> prior_context(all) == Seq::<char>::empty(),
        all.len() > 0 ==> {
            let raw = summaries(all);
            &&& raw.len() <= MAX_PRIOR_CTX_CHARS ==> prior_context(all) == CONTEXT_HEAD@ + raw
            &&& raw.len() > MAX_PRIOR_CTX_CHARS ==> {
                let kept = raw.skip(raw.len() - MAX_PRIOR_CTX_CHARS);
                &&& prior_context(all) == CONTEXT_HEAD@ + CONTEXT_TRUNCATED@ + kept
                &&& kept.len() == MAX_PRIOR_CTX_CHARS
                &&& raw == raw.take(raw.len() - MAX_PRIOR_CTX_CHARS) + kept
            }
        },
{
    if all.len() > 0 {
        let raw = summaries(all);
        if raw.len() > MAX_PRIOR_CTX_CHARS {
            let kept = raw.skip(raw.len() - MAX_PRIOR_CTX_CHARS);
            assert(CONTEXT_HEAD@ + (CONTEXT_TRUNCATED@ + kept) =~= CONTEXT_HEAD@ + CONTEXT_TRUNCATED@
                + kept);
            assert(raw =~= raw.take(raw.len() - MAX_PRIOR_CTX_CHARS) + kept);
        }
    }
}

fn summaries_chars(prior: &Vec<StepResult>, done: &Vec<StepResult>) -> (v: Vec<char>)
    ensures
        v@ == summaries(prior@ + done@),
{
    let ghost all = prior@ + done@;
    let ghost sums = all.map_values(|r: StepResult| summary_spec(r));
    let mut parts: Vec<Vec<char>> = Vec::new();
    let n = prior.len();
    for i in 0..n
        invariant
            n == prior@.len(),
            all == prior@ + done@,
            sums == all.map_values(|r: StepResult| summary_spec(r)),
            views(parts@) == sums.take(i as int),
    {
        let ghost before = views(parts@);
        let s = prior[i].summary();
        parts.push(to_chars(s.as_str()));
        assert(all[i as int] == prior@[i as int]);
        assert(views(parts@) =~= before.push(sums[i as int]));
        assert(sums.take(i + 1) =~= sums.take(i as int).push(sums[i as int]));
    }
    let m = done.len();
    for j in 0..m
        invariant
            n == prior@.len(),
            m == done@.len(),
            all == prior@ + done@,
            sums == all.map_values(|r: StepResult| summary_spec(r)),
            views(parts@) == sums.take(n + j),
    {
        let ghost before = views(parts@);
        let s = done[j].summary();
        parts.push(to_chars(s.as_str()));
        assert(all[n + j] == done@[j as int]);
        assert(views(parts@) =~= before.push(sums[n + j]));
        assert(sums.take(n + j + 1) =~= sums.take(n + j).push(sums[n + j]));
    }
    assert(sums.take(n + m) =~= sums);
    let sep = to_chars(STEP_SEPARATOR);
    join_chars(&parts, &sep)
}

/// The prior-step context for the given results (see `prior_context`).
pub fn prior_context_chars(prior: &Vec<StepResult>, done: &Vec<StepResult>) -> (v: Vec<char>)
    ensures
        v@ == prior_context(prior@ + done@),
{
    let mut v: Vec<char> = Vec::new();
    if prior.len() == 0 && done.len() == 0 {
        assert(prior@ + done@ =~= Seq::<StepResult>::empty());
        return v;
    }
    let raw = summaries_chars(prior, done);
    extend_str(&mut v, CONTEXT_HEAD);
    if raw.len() <= MAX_PRIOR_CTX_CHARS {
        extend_chars(&mut v, &raw);
    } else {
        extend_str(&mut v, CONTEXT_TRUNCATED);
        let tail = slice_chars(&raw, raw.len() - MAX_PRIOR_CTX_CHARS, raw.len());
        assert(tail@ =~= raw@.skip(raw@.len() - MAX_PRIOR_CTX_CHARS));
        extend_chars(&mut v, &tail);
    }
    v
}

/// The working directory after a step's output (see `cwd_after`).
pub fn next_cwd(cwd: &str, output: &str) -> (r: String)
    ensures
        r@ == cwd_after(cwd@, output@),
{
    let ov = to_chars(output);
    match find_str(&ov, SET_CWD_MARKER) {
        None => cwd.to_owned(),
        Some(p) => {
            proof {
                lemma_find_from(ov@, SET_CWD_MARKER@, 0);
            }
            let m = to_chars(SET_CWD_MARKER);
            assert(occurs_at(ov@, SET_CWD_MARKER@, p as int));
            assert(m@.len() == SET_CWD_MARKER@.len());
            let total = ov.len();
            let ml = m.len();
            assert(p + ml <= total);
            let rest = slice_chars(&ov, p + ml, total);
            assert(rest@ =~= ov@.skip(p + SET_CWD_MARKER@.len()));
            let line = match find_str(&rest, "\n") {
                Some(e) => {
                    proof {
                        lemma_find_from(rest@, "\n"@, 0);
                    }
                    let l = slice_chars(&rest, 0, e);
                    assert(l@ =~= rest@.take(e as int));
                    l
                },
                None => rest,
            };
            let t = trim_chars(&line);
            if t.len() == 0 {
                cwd.to_owned()
            } else {
                let nrm = normalize_chars(&t);
                from_chars(&nrm)
            }
        },
    }
}

/// A step's request to the dispatcher: its category and enriched prompt.
#[derive(Debug, Clone)]
pub struct StepRequest {
    pub category: u64,
    pub prompt: String,
}

/// The state of executing a plan step by step. The caller dispatches each
/// request and feeds the output back.
#[derive(Debug)]
pub struct PlanRun {
    pub tasks: Vec<SubTask>,
    pub prior: Vec<StepResult>,
    pub results: Vec<StepResult>,
    pub cwd: String,
    pub interrupted: bool,
}

impl PlanRun {
    /// Results line up with the tasks; the run stopped exactly when the last
    /// result failed; every earlier result succeeded.
    pub open spec fn wf(&self) -> bool {
        &&& self.results@.len() <= self.tasks@.len()
        &&& forall|i: int|
            0 <= i < self.results@.len() ==> (#[trigger] self.results@[i]).task == self.tasks@[i]
        &&& forall|i: int|
            0 <= i < self.results@.len() - 1 ==> (#[trigger] self.results@[i]).status is Success
        &&& self.interrupted <==> (self.results@.len() > 0 && self.results@.last().status is Failed)
    }

    /// No step is left to run.
    pub open spec fn finished(&self) -> bool {
        self.interrupted || self.results@.len() == self.tasks@.len()
    }

    /// Starts a run of `tasks` after `prior` results, in `initial_cwd`.
    pub fn new(tasks: Vec<SubTask>, prior: Vec<StepResult>, initial_cwd: String) -> (r: PlanRun)
        ensures
            r.wf(),
            r.tasks == tasks,
            r.prior == prior,
            r.results@.len() == 0,
            r.cwd == initial_cwd,
            !r.interrupted,
    {
        PlanRun { tasks, prior, results: Vec::new(), cwd: initial_cwd, interrupted: false }
    }

    /// Whether no step is left to run.
    pub fn is_finished(&self) -> (b: bool)
        ensures
            b == self.finished(),
    {
        self.interrupted || self.results.len() == self.tasks.len()
    }

    /// The next step's category and prompt: the step's prompt followed by
    /// the context of all prior and earlier results.
    pub fn request(&self) -> (r: StepRequest)
        requires
            self.wf(),
            !self.finished(),
        ensures
            r.category == self.tasks@[self.results@.len() as int].category,
            r.prompt@ == self.tasks@[self.results@.len() as int].prompt@ + prior_context(
                self.prior@ + self.results@,
            ),
    {
        let k = self.results.len();
        let task = &self.tasks[k];
        let mut v = to_chars(task.prompt.as_str());
        let ctx = prior_context_chars(&self.prior, &self.results);
        extend_chars(&mut v, &ctx);
        StepRequest { category: task.category, prompt: from_chars(&v) }
    }

    /// Records the dispatcher's output for the next step: the result is
    /// appended with the step's task, the output, the working directory after
    /// it and its status; a failed step stops the run.
    pub fn record(&mut self, output: String)
        requires
            old(self).wf(),
            !old(self).finished(),
        ensures
            final(self).wf(),
            final(self).tasks == old(self).tasks,
            final(self).prior == old(self).prior,
            final(self).cwd@ == cwd_after(old(self).cwd@, output@),
            final(self).results@.len() == old(self).results@.len() + 1,
            final(self).results@.drop_last() == old(self).results@,
            final(self).results@.last().task == old(self).tasks@[old(self).results@.len() as int],
            final(self).results@.last().output == output,
            final(self).results@.last().cwd@ == cwd_after(old(self).cwd@, output@),
            status_reason(final(self).results@.last().status) == failure_of(output@),
            final(self).interrupted == (final(self).results@.last().status is Failed),
    {
        let k = self.results.len();
        let new_cwd = next_cwd(self.cwd.as_str(), output.as_str());
        let status = detect_step_status(output.as_str());
        let failed = match &status {
            StepStatus::Failed(_) => true,
            StepStatus::Success => false,
        };
        let task = self.tasks[k].duplicate();
        self.cwd = new_cwd.clone();
        let ghost before = self.results@;
        self.results.push(StepResult { task, output, cwd: new_cwd, status });
        assert(self.results@.drop_last() =~= before);
        self.interrupted = failed;
    }

    /// Ends the run: its new results, the final working directory, and
    /// whether a failed step stopped it.
    pub fn finish(self) -> (r: (Vec<StepResult>, String, bool))
        requires
            self.wf(),
        ensures
            r.0 == self.results,
            r.1 == self.cwd,
            r.2 == self.interrupted,
    {
        (self.results, self.cwd, self.interrupted)
    }
}


// ───────────────────────── parsing numbers ─────────────────────────

/// `c` is an ASCII digit.
pub open spec fn is_digit(c: char) -> bool {
    '0' <= c <= '9'
}

/// The value of a string of decimal digits.
pub open spec fn digits_value(s: Seq<char>) -> nat
    decreases s.len(),
{
    if s.len() == 0 {
        0
    } else {
        digits_value(s.drop_last()) * 10 + ((s.last() as u32) - ('0' as u32)) as nat
    }
}

/// The digits part of a number: without a leading `+`.
pub open spec fn unsigned_digits(s: Seq<char>) -> Seq<char> {
    if s.len() > 0 && s[0] == '+' {
        s.drop_first()
    } else {
        s
    }
}

/// Every character is an ASCII digit.
pub open spec fn all_digits(d: Seq<char>) -> bool {
    forall|i: int| 0 <= i < d.len() ==> is_digit(#[trigger] d[i])
}

/// What `str::parse::<u32>` returns: an optional `+`, then one or more
/// digits whose value fits in a `u32`.
pub open spec fn parse_u32_spec(s: Seq<char>) -> Option<u32> {
    let d = unsigned_digits(s);
    if d.len() == 0 || !all_digits(d) || digits_value(d) > u32::MAX {
        None
    } else {
        Some(digits_value(d) as u32)
    }
}

/// Parses an unsigned 32-bit decimal number (see `parse_u32_spec`).
pub fn parse_u32(s: &Vec<char>) -> (r: Option<u32>)
    ensures
        r == parse_u32_spec(s@),
{
    let start: usize = if s.len() > 0 && s[0] == '+' {
        1
    } else {
        0
    };
    let d = slice_chars(s, start, s.len());
    assert(d@ =~= unsigned_digits(s@));
    if d.len() == 0 {
        return None;
    }
    let mut acc: u64 = 0;
    let mut over = false;
    let n = d.len();
    assert(d@.take(0) =~= Seq::<char>::empty());
    for i in 0..n
        invariant
            n == d@.len(),
            d@ == unsigned_digits(s@),
            forall|k: int| 0 <= k < i ==> is_digit(#[trigger] d@[k]),
            !over ==> acc == digits_value(d@.take(i as int)) && acc <= u32::MAX,
            over ==> digits_value(d@.take(i as int)) > u32::MAX,
    {
        let c = d[i];
        if !('0' <= c && c <= '9') {
            assert(!is_digit(d@[i as int]));
            assert(!all_digits(d@));
            return None;
        }
        assert(d@.take(i + 1).drop_last() =~= d@.take(i as int));
        assert(d@.take(i + 1).last() == c);
        if !over {
            let v = acc * 10 + ((c as u32) - ('0' as u32)) as u64;
            if v > 0xFFFF_FFFF {
                over = true;
            } else {
                acc = v;
            }
        }
    }
    assert(d@.take(n as int) =~= d@);
    if over {
        None
    } else {
        Some(acc as u32)
    }
}

// ───────────────────────── rollback ─────────────────────────

/// Marker of the rollback target in an assessor's answer.
pub const ROLLBACK_MARKER: &'static str = "ROLLBACK: ";

/// The first line of `s` (empty when there is none).
pub open spec fn first_line(s: Seq<char>) -> Seq<char> {
    if lines(s).len() > 0 {
        lines(s)[0]
    } else {
        Seq::empty()
    }
}

/// The step to fall back to: the last result's step, or 1.
pub open spec fn fallback_step(results: Seq<StepResult>) -> u32 {
    if results.len() > 0 {
        results.last().task.step
    } else {
        1
    }
}

/// The step a rollback returns to: the number after `ROLLBACK: ` on its line,
/// or the last result's step when it is missing or not a number.
pub open spec fn rollback_target_spec(review: Seq<char>, results: Seq<StepResult>) -> u32 {
    match find(review, ROLLBACK_MARKER@) {
        Some(p) => match parse_u32_spec(
            trim(first_line(review.skip((p + ROLLBACK_MARKER@.len()) as int))),
        ) {
            Some(v) => v,
            None => fallback_step(results),
        },
        None => fallback_step(results),
    }
}

fn first_line_chars(s: &Vec<char>) -> (r: Vec<char>)
    ensures
        r@ == first_line(s@),
{
    let ls = split_lines(s);
    if ls.len() > 0 {
        slice_chars(&ls[0], 0, ls[0].len())
    } else {
        Vec::new()
    }
}

/// The step a rollback returns to (see `rollback_target_spec`).
pub fn rollback_target(review: &str, results: &[StepResult]) -> (r: u32)
    ensures
        r == rollback_target_spec(review@, results@),
{
    let fallback = if results.len() > 0 {
        results[results.len() - 1].task.step
    } else {
        1
    };
    let rv = to_chars(review);
    match find_str(&rv, ROLLBACK_MARKER) {
        Some(p) => {
            proof {
                lemma_find_from(rv@, ROLLBACK_MARKER@, 0);
            }
            let m = to_chars(ROLLBACK_MARKER);
            let total = rv.len();
            let ml = m.len();
            assert(p + ml <= total);
            let rest = slice_chars(&rv, p + ml, total);
            assert(rest@ =~= rv@.skip((p + ROLLBACK_MARKER@.len()) as int));
            let line = first_line_chars(&rest);
            let t = trim_chars(&line);
            match parse_u32(&t) {
                Some(v) => v,
                None => fallback,
            }
        },
        None => fallback,
    }
}

/// Marker of the assessor's reasoning.
pub const REASONING_MARKER: &'static str = "REASONING: ";

/// The assessor's reasoning: the rest of the line after `REASONING: `,
/// trimmed; `None` without the marker.
pub open spec fn rollback_reasoning_spec(review: Seq<char>) -> Option<Seq<char>> {
    match find(review, REASONING_MARKER@) {
        Some(p) => Some(trim(first_line(review.skip((p + REASONING_MARKER@.len()) as int)))),
        None => None,
    }
}

/// The assessor's reasoning (see `rollback_reasoning_spec`).
pub fn rollback_reasoning(review: &str) -> (r: Option<String>)
    ensures
        r matches Some(s) ==> rollback_reasoning_spec(review@) == Some(s@),
        r is None <==> rollback_reasoning_spec(review@) is None,
{
    let rv = to_chars(review);
    match find_str(&rv, REASONING_MARKER) {
        Some(p) => {
            proof {
                lemma_find_from(rv@, REASONING_MARKER@, 0);
            }
            let m = to_chars(REASONING_MARKER);
            let total = rv.len();
            let ml = m.len();
            let rest = slice_chars(&rv, p + ml, total);
            assert(rest@ =~= rv@.skip((p + REASONING_MARKER@.len()) as int));
            let line = first_line_chars(&rest);
            let t = trim_chars(&line);
            Some(from_chars(&t))
        },
        None => None,
    }
}

/// The working directory a rollback returns to when no result is kept.
pub const SANDBOX_DIR: &'static str = "./sandbox";

/// The results kept by a rollback: those of steps before the target.
pub open spec fn kept_results(results: Seq<StepResult>, target: u32) -> Seq<StepResult> {
    results.filter(|r: StepResult| r.task.step < target)
}

/// Rolls back to `target`: keeps the results of earlier steps, in order, and
/// returns to the last kept result's directory (the sandbox when none is
/// kept).
pub fn apply_rollback(results: &Vec<StepResult>, target: u32) -> (r: (Vec<StepResult>, String))
    ensures
        r.0@ == kept_results(results@, target),
        r.1@ == if r.0@.len() > 0 {
            r.0@.last().cwd@
        } else {
            SANDBOX_DIR@
        },
{
    let ghost pred = |r: StepResult| r.task.step < target;
    let mut kept: Vec<StepResult> = Vec::new();
    let n = results.len();
    assert(results@.take(0) =~= Seq::<StepResult>::empty());
    for i in 0..n
        invariant
            n == results@.len(),
            pred == (|r: StepResult| r.task.step < target),
            kept@ == results@.take(i as int).filter(pred),
    {
        assert(results@.take(i + 1) =~= results@.take(i as int).push(results@[i as int]));
        proof {
            results@.take(i as int).lemma_filter_push(results@[i as int], pred);
        }
        if results[i].task.step < target {
            kept.push(results[i].duplicate());
        }
    }
    assert(results@.take(n as int) =~= results@);
    let cwd = if kept.len() > 0 {
        kept[kept.len() - 1].cwd.clone()
    } else {
        SANDBOX_DIR.to_owned()
    };
    (kept, cwd)
}

/// Opening of the rollback prompt, up to the original request.
pub const ROLLBACK_HEAD: &'static str = "You are 'Enigma Brain — Dynamic Rollback Assessor'.\nOriginal Request: \"";

/// Between the request and the working directory.
pub const ROLLBACK_CWD: &'static str = "\"\nCurrent Working Directory: \"";

/// Between the working directory and the plan.
pub const ROLLBACK_PLAN: &'static str = "\"\n\nThe active execution plan was:\n";

/// Between the plan and the step log.
pub const ROLLBACK_LOG: &'static str = "\n\nExecution halted because the very last step in this log failed:\n";

/// Closing instructions of the rollback prompt.
pub const ROLLBACK_TAIL: &'static str = "\n\nYour task:\n1. ROOT CAUSE ANALYSIS: Identify exactly why the failure happened. Trace back the logic. Was it a wrong path in Step 2? A missing module from Step 1?\n2. OPTIMAL ROLLBACK: Decide the most logical step to jump back to. Do not just pick the previous step if the error has deeper roots. Minimise redundant rework while ensuring a solid fix.\n3. REASONING: Briefly explain your chosen rollback point (e.g. \"Missing dependency in Step 2 requires re-running setup\").\n4. COMPLETE RESPONSE: Output exactly 'REASONING: <your_reasoning>' followed by 'ROLLBACK: <step_number>', then the new JSON array of SubTasks to FIX the problem AND COMPLETELY FINISH the plan.\n   IMPORTANT: Number your replacement tasks starting from the ROLLBACK step number so they do not collide with retained step results.\n\nFormat:\nREASONING: Short explanation here.\nROLLBACK: 2\n{\n  \"tasks\": [\n    { \"step\": 2, \"intent\": \"Short label\", \"prompt\": \"Focused sub-prompt here\", \"category\": 4, \"estimated_calls\": 1 },\n    ... (all remaining steps to finish original objective)\n  ]\n}\n";

/// `Step <n> [Cat <c>]: <intent>` for one planned task.
pub open spec fn plan_line_spec(t: SubTask) -> Seq<char> {
    "Step "@ + decimal(t.step as nat) + " [Cat "@ + decimal(t.category as nat) + "]: "@ + t.intent@
}

/// The rollback assessor's prompt for a halted run.
pub open spec fn rollback_prompt_spec(
    prompt: Seq<char>,
    cwd: Seq<char>,
    tasks: Seq<SubTask>,
    results: Seq<StepResult>,
) -> Seq<char> {
    ROLLBACK_HEAD@ + prompt + ROLLBACK_CWD@ + cwd + ROLLBACK_PLAN@ + join(
        tasks.map_values(|t: SubTask| plan_line_spec(t)),
        "\n"@,
    ) + ROLLBACK_LOG@ + summaries(results) + ROLLBACK_TAIL@
}

fn plan_line(t: &SubTask) -> (v: Vec<char>)
    ensures
        v@ == plan_line_spec(*t),
{
    let mut v: Vec<char> = Vec::new();
    extend_str(&mut v, "Step ");
    extend_chars(&mut v, &decimal_chars(t.step as u64));
    extend_str(&mut v, " [Cat ");
    extend_chars(&mut v, &decimal_chars(t.category));
    extend_str(&mut v, "]: ");
    extend_str(&mut v, t.intent.as_str());
    v
}

/// The rollback assessor's prompt (see `rollback_prompt_spec`).
pub fn rollback_prompt(prompt: &str, cwd: &str, tasks: &Vec<SubTask>, results: &Vec<StepResult>) -> (r:
    String)
    ensures
        r@ == rollback_prompt_spec(prompt@, cwd@, tasks@, results@),
{
    let ghost all = tasks@.map_values(|t: SubTask| plan_line_spec(t));
    let mut parts: Vec<Vec<char>> = Vec::new();
    let n = tasks.len();
    for i in 0..n
        invariant
            n == tasks@.len(),
            all == tasks@.map_values(|t: SubTask| plan_line_spec(t)),
            views(parts@) == all.take(i as int),
    {
        let ghost before = views(parts@);
        parts.push(plan_line(&tasks[i]));
        assert(views(parts@) =~= before.push(all[i as int]));
        assert(all.take(i + 1) =~= all.take(i as int).push(all[i as int]));
    }
    assert(all.take(n as int) =~= all);
    let nl = to_chars("\n");
    let plan = join_chars(&parts, &nl);
    let empty: Vec<StepResult> = Vec::new();
    let log = summaries_chars(results, &empty);
    assert(results@ + empty@ =~= results@);
    let mut v: Vec<char> = Vec::new();
    extend_str(&mut v, ROLLBACK_HEAD);
    extend_str(&mut v, prompt);
    extend_str(&mut v, ROLLBACK_CWD);
    extend_str(&mut v, cwd);
    extend_str(&mut v, ROLLBACK_PLAN);
    extend_chars(&mut v, &plan);
    extend_str(&mut v, ROLLBACK_LOG);
    extend_chars(&mut v, &log);
    extend_str(&mut v, ROLLBACK_TAIL);
    from_chars(&v)
}

/// The label a rollback plan is written under: `[ROLLBACK TO <n>]`.
pub fn rollback_label(target: u32) -> (r: String)
    ensures
        r@ == "[ROLLBACK TO "@ + decimal(target as nat) + "]"@,
{
    let mut v: Vec<char> = Vec::new();
    extend_str(&mut v, "[ROLLBACK TO ");
    extend_chars(&mut v, &decimal_chars(target as u64));
    extend_str(&mut v, "]");
    from_chars(&v)
}

// ───────────────────────── JSON object slices and decomposition ─────────────────────────

/// The text between the first `{` and the last `}` (inclusive) of a model
/// answer; the whole answer trimmed when there is no such span.
pub open spec fn braced_spec(raw: Seq<char>) -> Seq<char> {
    let start: int = match find(raw, "{"@) {
        Some(i) => i as int,
        None => 0,
    };
    let end: int = match rfind_spec_brace(raw) {
        Some(i) => i + 1,
        None => raw.len() as int,
    };
    if start < end {
        raw.subrange(start, end)
    } else {
        trim(raw)
    }
}

/// The last position of `}`.
pub open spec fn rfind_spec_brace(raw: Seq<char>) -> Option<int> {
    match crate::text::rfind(raw, "}"@) {
        Some(i) => Some(i as int),
        None => None,
    }
}

/// The braced span of a model answer (see `braced_spec`).
pub fn braced_slice(raw: &str) -> (r: String)
    ensures
        r@ == braced_spec(raw@),
{
    let rv = to_chars(raw);
    let start = match find_char(&rv, '{') {
        Some(i) => i,
        None => 0,
    };
    assert(seq!['{'] =~= "{"@) by {
        reveal_strlit("{");
    }
    assert(seq!['}'] =~= "}"@) by {
        reveal_strlit("}");
    }
    let end = match crate::text::rfind_char(&rv, '}') {
        Some(i) => {
            proof {
                crate::text::lemma_rfind_upto(rv@, seq!['}'], rv@.len() - 1);
            }
            let total = rv.len();
            assert(i < total);
            i + 1
        },
        None => rv.len(),
    };
    proof {
        match find(rv@, seq!['{']) {
            Some(i) => {
                lemma_find_from(rv@, seq!['{'], 0);
            },
            None => {},
        }
    }
    if start < end {
        let s = slice_chars(&rv, start, end);
        from_chars(&s)
    } else {
        let t = trim_chars(&rv);
        from_chars(&t)
    }
}

/// The single step used when decomposition yields no plan.
pub open spec fn fallback_task(prompt: Seq<char>, t: SubTask) -> bool {
    &&& t.step == 1
    &&& t.intent@ == "Direct Execution"@
    &&& t.prompt@ == prompt
    &&& t.category == 1
    &&& t.estimated_calls == 1
}

/// The number of tasks a plan of `n` tasks keeps under the step limit.
pub open spec fn kept_steps(n: nat, max_steps: u32) -> nat {
    if n <= max_steps {
        n
    } else {
        max_steps as nat
    }
}

/// The decomposed plan: the first `max_steps` of the parsed tasks when there
/// are any, otherwise a single direct-execution step for the whole prompt.
pub fn plan_or_fallback(parsed: Option<Vec<SubTask>>, prompt: &str, max_steps: u32) -> (r: Vec<
    SubTask,
>)
    requires
        max_steps >= 1,
    ensures
        1 <= r@.len() <= max_steps,
        (parsed matches Some(ts) && ts@.len() > 0) ==> r@ == parsed->0@.take(
            kept_steps(parsed->0@.len(), max_steps) as int,
        ),
        !(parsed matches Some(ts) && ts@.len() > 0) ==> r@.len() == 1 && fallback_task(
            prompt@,
            r@[0],
        ),
{
    match parsed {
        Some(ts) if ts.len() > 0 => {
            let n: usize = if (ts.len() as u64) <= (max_steps as u64) {
                ts.len()
            } else {
                max_steps as usize
            };
            let mut r: Vec<SubTask> = Vec::new();
            for i in 0..n
                invariant
                    n <= ts@.len(),
                    r@ == ts@.take(i as int),
            {
                r.push(ts[i].duplicate());
                assert(ts@.take(i + 1) =~= ts@.take(i as int).push(ts@[i as int]));
            }
            r
        },
        _ => {
            let mut r: Vec<SubTask> = Vec::new();
            r.push(
                SubTask {
                    step: 1,
                    intent: "Direct Execution".to_owned(),
                    prompt: prompt.to_owned(),
                    category: 1,
                    estimated_calls: 1,
                },
            );
            r
        },
    }
}


/// Opening of the decomposition prompt, up to the step limit.
pub const DECOMPOSE_HEAD: &'static str = "You are 'Enigma Brain', an expert AI task planner and router.\nYour job: decompose the user's request into a series of clear, focused sub-tasks.\n\nAVAILABLE AI FUNCTIONS (categories):\n1 = General Chat      — greetings, simple Q&A, jokes, quick questions\n2 = Analyze/Research  — finding local files, finding movies/shows, finding information, gathering context. FEATURE: You can also request specific file contents by responding ONLY with a JSON array of paths (e.g., [\"main.rs\"]).\n3 = Execute Tasks     — running commands, opening files, system automation.\n4 = Create Content    — writing files, generating code, building scripts. FEATURE: Supports partial updates via 'op' field (\"patch\", \"append\", \"insert_at\", \"overwrite\"). Use absolute paths if specified by the user, otherwise default to relative paths.\n5 = Spotify           — controlling Spotify playback only\n\nRULES:\n1. Each sub-task must have ONE specific goal.\n2. Assign the best-fit category (1-5) to each step.\n3. Set estimated_calls to the number of AI calls you expect (1-3 typical).\n4. Keep \"prompt\" concise and self-contained. Include filenames/keywords from the original.\n5. Order steps logically: gather context → act → confirm/summarise.\n6. CRITICAL: For ANY task that requires reading, modifying, opening, executing, or interacting with specific local files, you MUST create a Category 2 step FIRST to search for the exact file path, followed by the execution/content step.\n7. SCOPED READING: If you need to see a file's code before editing it, use Category 2 and specify the file path.\n8. RELIABLE EDITING: Use Category 4 with op: \"patch\" to modify specific blocks in large existing files.\n9. Limit to MAX ";

/// Between the step limit and the user's request.
pub const DECOMPOSE_MID: &'static str = " steps. Simple tasks = 1 step.\n10. SPATIAL AWARENESS: If a step involves creating a project or folder (e.g., 'cargo new X'), you MUST assume that subsequent steps will execute *inside* that subdirectory. Write your prompts relative to that new root.\n11. DO NOT generate redundant 'cd' or 'folder setup' steps if the project already exists in the search results.\n12. Return ONLY a valid JSON object, nothing else:\n{\n  \"tasks\": [\n    { \"step\": 1, \"intent\": \"Search context\", \"prompt\": \"Find path for X\", \"category\": 2, \"estimated_calls\": 2 },\n    ...\n  ]\n}\n\nUser Request: \"";

/// After the user's request.
pub const DECOMPOSE_TAIL: &'static str = "\"\n";

/// Opening of the review prompt, up to the original request.
pub const REVIEW_HEAD: &'static str = "You are 'Enigma Brain — Inspector'.\n\nOriginal Request: \"";

/// Between the request and the working directory.
pub const REVIEW_CWD: &'static str = "\"\n\nCurrent working directory: \"";

/// Between the working directory and the step results.
pub const REVIEW_RESULTS: &'static str = "\"\n\nBelow are all the step results from the last execution:\n";

/// Closing instructions of the review prompt.
pub const REVIEW_TAIL: &'static str = "\n\nYour task:\n1. Check every step for failures, errors, or incomplete output.\n2. Pay special attention to 'Exit code: exit code: 1' or any line starting with 'error:' — these indicate real failures.\n3. If ALL steps succeeded and the output is correct, respond with exactly: OK\n4. If ANY step failed, respond with a corrective request describing ONLY what needs to be fixed. Include the exact error message and the file/command it came from. Be specific.\n\nRespond with either 'OK' or a corrective request. Nothing else.";

/// The prompt asking the model to decompose `prompt` into at most
/// `max_steps` steps.
pub fn decompose_request(prompt: &str, max_steps: u32) -> (r: String)
    ensures
        r@ == DECOMPOSE_HEAD@ + decimal(max_steps as nat) + DECOMPOSE_MID@ + prompt@ + DECOMPOSE_TAIL@,
{
    let mut v: Vec<char> = Vec::new();
    extend_str(&mut v, DECOMPOSE_HEAD);
    extend_chars(&mut v, &decimal_chars(max_steps as u64));
    extend_str(&mut v, DECOMPOSE_MID);
    extend_str(&mut v, prompt);
    extend_str(&mut v, DECOMPOSE_TAIL);
    from_chars(&v)
}

// ───────────────────────── review ─────────────────────────

/// The inspector accepts the run: its trimmed answer is "ok" in any ASCII
/// case, or starts with "OK".
pub open spec fn review_accepts_spec(review: Seq<char>) -> bool {
    crate::text::eq_ignore_ascii_case(trim(review), "ok"@) || starts_with(trim(review), "OK"@)
}

/// Whether the inspector accepts the run (see `review_accepts_spec`).
pub fn review_accepts(review: &str) -> (b: bool)
    ensures
        b == review_accepts_spec(review@),
{
    let rv = to_chars(review);
    let t = trim_chars(&rv);
    let ok = to_chars("ok");
    crate::text::chars_eq_ignore_ascii_case(&t, &ok) || has_prefix_str(&t, "OK")
}

/// The inspector's prompt over all results of a run.
pub fn review_prompt(original: &str, cwd: &str, results: &Vec<StepResult>) -> (r: String)
    ensures
        r@ == REVIEW_HEAD@ + original@ + REVIEW_CWD@ + cwd@ + REVIEW_RESULTS@ + summaries(results@)
            + REVIEW_TAIL@,
{
    let empty: Vec<StepResult> = Vec::new();
    let log = summaries_chars(results, &empty);
    assert(results@ + empty@ =~= results@);
    let mut v: Vec<char> = Vec::new();
    extend_str(&mut v, REVIEW_HEAD);
    extend_str(&mut v, original);
    extend_str(&mut v, REVIEW_CWD);
    extend_str(&mut v, cwd);
    extend_str(&mut v, REVIEW_RESULTS);
    extend_chars(&mut v, &log);
    extend_str(&mut v, REVIEW_TAIL);
    from_chars(&v)
}

/// The label a corrective plan is written under: `[RETRY <n>] <verdict>`,
/// `n` counting review rounds from 1.
pub fn retry_label(attempt: u8, verdict: &str) -> (r: String)
    requires
        attempt < u8::MAX,
    ensures
        r@ == "[RETRY "@ + decimal(attempt as nat + 1) + "] "@ + verdict@,
{
    let mut v: Vec<char> = Vec::new();
    extend_str(&mut v, "[RETRY ");
    extend_chars(&mut v, &decimal_chars(attempt as u64 + 1));
    extend_str(&mut v, "] ");
    extend_str(&mut v, verdict);
    from_chars(&v)
}

// ───────────────────────── plan files ─────────────────────────

/// Heavy rule of the plan file.
pub const PLAN_RULE: &'static str = "═══════════════════════════════════════════════════";

/// Light rule of the plan file.
pub const PLAN_STEP_RULE: &'static str = "───────────────────────────────────────────────────";

/// Last line of the plan file.
pub const PLAN_FOOTER: &'static str = "Generated by Enigma Brain. Plan will be updated after execution.";

/// Sum of the tasks' estimated calls.
pub open spec fn calls_sum(tasks: Seq<SubTask>) -> nat
    decreases tasks.len(),
{
    if tasks.len() == 0 {
        0
    } else {
        calls_sum(tasks.drop_last()) + tasks.last().estimated_calls as nat
    }
}

/// The plan file's lines for one task.
pub open spec fn task_block(t: SubTask) -> Seq<Seq<char>> {
    seq![
        "Step "@ + decimal(t.step as nat) + ": ["@ + t.intent@ + "]"@,
        "  Function : "@ + category_label_spec(t.category) + " (cat "@ + decimal(t.category as nat)
            + ")"@,
        "  Est calls: "@ + decimal(t.estimated_calls as nat),
        "  Prompt   : "@ + t.prompt@,
        PLAN_STEP_RULE@,
    ]
}

/// The plan file's lines for all tasks.
pub open spec fn task_blocks(tasks: Seq<SubTask>) -> Seq<Seq<char>>
    decreases tasks.len(),
{
    if tasks.len() == 0 {
        Seq::empty()
    } else {
        task_blocks(tasks.drop_last()) + task_block(tasks.last())
    }
}

/// The plan file's heading lines.
pub open spec fn plan_header(prompt: Seq<char>, tasks: Seq<SubTask>, filename: Seq<char>) -> Seq<
    Seq<char>,
> {
    seq![
        PLAN_RULE@,
        " 🧠 ENIGMA BRAIN — EXECUTION PLAN"@,
        PLAN_RULE@,
        " Request : "@ + prompt,
        " Steps   : "@ + decimal(tasks.len()),
        " Est. AI calls: "@ + decimal(calls_sum(tasks)),
        " File    : "@ + filename,
        PLAN_STEP_RULE@,
    ]
}

/// The plan file's content.
pub open spec fn plan_content_spec(prompt: Seq<char>, tasks: Seq<SubTask>, filename: Seq<char>) -> Seq<
    char,
> {
    join(
        plan_header(prompt, tasks, filename) + task_blocks(tasks) + seq![Seq::empty(), PLAN_FOOTER@],
        "\n"@,
    )
}

/// Sum of the tasks' estimated calls.
pub fn total_estimated_calls(tasks: &Vec<SubTask>) -> (r: u32)
    requires
        calls_sum(tasks@) <= u32::MAX,
    ensures
        r == calls_sum(tasks@),
{
    let mut acc: u32 = 0;
    let n = tasks.len();
    assert(tasks@.take(0) =~= Seq::<SubTask>::empty());
    for i in 0..n
        invariant
            n == tasks@.len(),
            calls_sum(tasks@) <= u32::MAX,
            acc == calls_sum(tasks@.take(i as int)),
    {
        assert(tasks@.take(i + 1).drop_last() =~= tasks@.take(i as int));
        proof {
            lemma_calls_sum_prefix(tasks@, i + 1);
        }
        acc = acc + tasks[i].estimated_calls;
    }
    assert(tasks@.take(n as int) =~= tasks@);
    acc
}

proof fn lemma_calls_sum_prefix(tasks: Seq<SubTask>, k: int)
    requires
        0 <= k <= tasks.len(),
    ensures
        calls_sum(tasks.take(k)) <= calls_sum(tasks),
    decreases tasks.len(),
{
    if k < tasks.len() {
        assert(tasks.drop_last().take(k) =~= tasks.take(k));
        lemma_calls_sum_prefix(tasks.drop_last(), k);
    } else {
        assert(tasks.take(k) =~= tasks);
    }
}

/// The plan file's name for a timestamp.
pub fn plan_filename(timestamp: &str) -> (r: String)
    ensures
        r@ == "plans/plan_"@ + timestamp@ + ".txt"@,
{
    let mut v: Vec<char> = Vec::new();
    extend_str(&mut v, "plans/plan_");
    extend_str(&mut v, timestamp);
    extend_str(&mut v, ".txt");
    from_chars(&v)
}

/// The content of the plan file for a request and its tasks.
pub fn plan_content(original_prompt: &str, tasks: &Vec<SubTask>, filename: &str) -> (r: String)
    requires
        calls_sum(tasks@) <= u32::MAX,
    ensures
        r@ == plan_content_spec(original_prompt@, tasks@, filename@),
{
    let total = total_estimated_calls(tasks);
    let mut ls: Vec<Vec<char>> = Vec::new();
    ls.push(to_chars(PLAN_RULE));
    ls.push(to_chars(" 🧠 ENIGMA BRAIN — EXECUTION PLAN"));
    ls.push(to_chars(PLAN_RULE));
    let mut l = to_chars(" Request : ");
    extend_str(&mut l, original_prompt);
    ls.push(l);
    let mut l = to_chars(" Steps   : ");
    extend_chars(&mut l, &decimal_chars(tasks.len() as u64));
    ls.push(l);
    let mut l = to_chars(" Est. AI calls: ");
    extend_chars(&mut l, &decimal_chars(total as u64));
    ls.push(l);
    let mut l = to_chars(" File    : ");
    extend_str(&mut l, filename);
    ls.push(l);
    ls.push(to_chars(PLAN_STEP_RULE));
    let ghost header = plan_header(original_prompt@, tasks@, filename@);
    assert(views(ls@) =~= header);
    let n = tasks.len();
    assert(tasks@.take(0) =~= Seq::<SubTask>::empty());
    for i in 0..n
        invariant
            n == tasks@.len(),
            header == plan_header(original_prompt@, tasks@, filename@),
            views(ls@) == header + task_blocks(tasks@.take(i as int)),
    {
        let t = &tasks[i];
        let ghost before = views(ls@);
        let mut l = to_chars("Step ");
        extend_chars(&mut l, &decimal_chars(t.step as u64));
        extend_str(&mut l, ": [");
        extend_str(&mut l, t.intent.as_str());
        extend_str(&mut l, "]");
        ls.push(l);
        let mut l = to_chars("  Function : ");
        extend_str(&mut l, category_label(t.category));
        extend_str(&mut l, " (cat ");
        extend_chars(&mut l, &decimal_chars(t.category));
        extend_str(&mut l, ")");
        ls.push(l);
        let mut l = to_chars("  Est calls: ");
        extend_chars(&mut l, &decimal_chars(t.estimated_calls as u64));
        ls.push(l);
        let mut l = to_chars("  Prompt   : ");
        extend_str(&mut l, t.prompt.as_str());
        ls.push(l);
        ls.push(to_chars(PLAN_STEP_RULE));
        assert(tasks@.take(i + 1).drop_last() =~= tasks@.take(i as int));
        assert(tasks@.take(i + 1).last() == tasks@[i as int]);
        assert(views(ls@) =~= before + task_block(tasks@[i as int]));
    }
    assert(tasks@.take(n as int) =~= tasks@);
    let ghost before = views(ls@);
    ls.push(Vec::new());
    ls.push(to_chars(PLAN_FOOTER));
    assert(views(ls@) =~= before + seq![Seq::<char>::empty(), PLAN_FOOTER@]);
    let nl = to_chars("\n");
    let c = join_chars(&ls, &nl);
    from_chars(&c)
}

// ───────────────────────── finding the latest plan ─────────────────────────

/// Lexicographic order on characters (the order of UTF-8 bytes).
pub open spec fn lex_lt(a: Seq<char>, b: Seq<char>) -> bool
    decreases a.len(),
{
    if a.len() == 0 {
        b.len() > 0
    } else if b.len() == 0 {
        false
    } else if a[0] != b[0] {
        (a[0] as u32) < (b[0] as u32)
    } else {
        lex_lt(a.drop_first(), b.drop_first())
    }
}

/// `lex_lt` is transitive.
pub proof fn lemma_lex_lt_trans(a: Seq<char>, b: Seq<char>, c: Seq<char>)
    requires
        lex_lt(a, b),
        lex_lt(b, c),
    ensures
        lex_lt(a, c),
    decreases a.len(),
{
    if a.len() > 0 && b.len() > 0 && c.len() > 0 && a[0] == b[0] && b[0] == c[0] {
        lemma_lex_lt_trans(a.drop_first(), b.drop_first(), c.drop_first());
    }
}

fn lex_less(a: &Vec<char>, b: &Vec<char>) -> (r: bool)
    ensures
        r == lex_lt(a@, b@),
{
    let mut i: usize = 0;
    assert(a@.skip(0) =~= a@);
    assert(b@.skip(0) =~= b@);
    loop
        invariant
            i <= a@.len(),
            i <= b@.len(),
            lex_lt(a@, b@) == lex_lt(a@.skip(i as int), b@.skip(i as int)),
        decreases a@.len() - i,
    {
        if i == a.len() {
            return i < b.len();
        }
        if i == b.len() {
            return false;
        }
        if a[i] != b[i] {
            return (a[i] as u32) < (b[i] as u32);
        }
        assert(a@.skip(i as int).drop_first() =~= a@.skip(i + 1));
        assert(b@.skip(i as int).drop_first() =~= b@.skip(i + 1));
        i += 1;
    }
}

/// A file name of a written plan.
pub open spec fn is_plan_name(n: Seq<char>) -> bool {
    starts_with(n, "plan_"@)
}

/// Name `i` is a plan's name and no plan name sorts after it.
pub open spec fn is_latest_plan(names: Seq<Seq<char>>, i: int) -> bool {
    &&& 0 <= i < names.len()
    &&& is_plan_name(names[i])
    &&& forall|j: int| 0 <= j < names.len() && is_plan_name(#[trigger] names[j]) ==> !lex_lt(names[i], names[j])
}

/// `lex_lt` is total on distinct sequences.
pub proof fn lemma_lex_lt_total(a: Seq<char>, b: Seq<char>)
    requires
        a != b,
    ensures
        lex_lt(a, b) || lex_lt(b, a),
    decreases a.len(),
{
    if a.len() > 0 && b.len() > 0 && a[0] == b[0] {
        if a.drop_first() == b.drop_first() {
            assert(a =~= seq![a[0]] + a.drop_first());
            assert(b =~= seq![b[0]] + b.drop_first());
        }
        lemma_lex_lt_total(a.drop_first(), b.drop_first());
    } else if a.len() == 0 && b.len() == 0 {
        assert(a =~= b);
    } else if a.len() > 0 && b.len() > 0 {
        vstd::utf8::char_u32_cast(a[0], a[0] as u32);
        vstd::utf8::char_u32_cast(b[0], b[0] as u32);
        assert((a[0] as u32) != (b[0] as u32));
    }
}

/// Reading a plan back gives the one just written: when the name written is
/// a plan's name and no plan name sorts after it, the plan `latest_plan`
/// picks has that very name (so `plan_reply` answers with that file's text),
/// and with no plan name at all `plan_reply` answers `NO_PLANS`.
pub proof fn law_latest_plan_is_the_last_written(names: Seq<Seq<char>>, written: int, picked: int)
    requires
        is_latest_plan(names, written),
        is_latest_plan(names, picked),
    ensures
        names[picked] == names[written],
{
    if names[picked] != names[written] {
        lemma_lex_lt_total(names[picked], names[written]);
    }
}

/// The latest plan among the file names of the plans folder: the name that
/// sorts last among those starting with `plan_`.
pub fn latest_plan(names: &Vec<String>) -> (r: Option<usize>)
    ensures
        r matches Some(i) ==> i < names@.len() && is_plan_name(names@[i as int]@) && forall|j: int|
            0 <= j < names@.len() && is_plan_name(#[trigger] names@[j]@) ==> !lex_lt(
                names@[i as int]@,
                names@[j]@,
            ),
        r is None ==> forall|j: int| 0 <= j < names@.len() ==> !is_plan_name(#[trigger] names@[j]@),
        r matches Some(i) ==> is_latest_plan(crate::text::string_views(names@), i as int),
{
    let mut best: Option<usize> = None;
    let n = names.len();
    for i in 0..n
        invariant
            n == names@.len(),
            best matches Some(b) ==> b < i && is_plan_name(names@[b as int]@) && forall|j: int|
                0 <= j < i && is_plan_name(#[trigger] names@[j]@) ==> !lex_lt(
                    names@[b as int]@,
                    names@[j]@,
                ),
            best is None ==> forall|j: int| 0 <= j < i ==> !is_plan_name(#[trigger] names@[j]@),
    {
        let cv = to_chars(names[i].as_str());
        if has_prefix_str(&cv, "plan_") {
            match best {
                None => {
                    proof {
                        lemma_lex_lt_irrefl(names@[i as int]@);
                    }
                    best = Some(i);
                },
                Some(b) => {
                    let bv = to_chars(names[b].as_str());
                    if lex_less(&bv, &cv) {
                        proof {
                            assert forall|j: int|
                                0 <= j < i + 1 && is_plan_name(#[trigger] names@[j]@) implies !lex_lt(
                                names@[i as int]@,
                                names@[j]@,
                            ) by {
                                if j < i && lex_lt(names@[i as int]@, names@[j]@) {
                                    lemma_lex_lt_trans(names@[b as int]@, names@[i as int]@, names@[j]@);
                                }
                                if j == i {
                                    lemma_lex_lt_irrefl(names@[i as int]@);
                                }
                            }
                        }
                        best = Some(i);
                    }
                },
            }
        }
    }
    best
}

/// The answer when the latest plan file could not be read.
pub const PLAN_UNREADABLE: &'static str = "Error reading plan.";

/// The answer when no plan has been written yet.
pub const NO_PLANS: &'static str = "No plans found. Run a Brain prompt first.";

/// What showing the latest plan answers: `latest` is `None` when the plans
/// folder holds no plan, `Some(None)` when the latest one could not be read,
/// and `Some(Some(text))` when it was read.
pub fn plan_reply(latest: Option<Option<String>>) -> (r: String)
    ensures
        latest is None ==> r@ == NO_PLANS@,
        latest matches Some(None) ==> r@ == PLAN_UNREADABLE@,
        latest matches Some(Some(t)) ==> r@ == t@,
{
    match latest {
        None => NO_PLANS.to_string(),
        Some(None) => PLAN_UNREADABLE.to_string(),
        Some(Some(t)) => t,
    }
}

/// `lex_lt` is irreflexive.
pub proof fn lemma_lex_lt_irrefl(a: Seq<char>)
    ensures
        !lex_lt(a, a),
    decreases a.len(),
{
    if a.len() > 0 {
        lemma_lex_lt_irrefl(a.drop_first());
    }
}


// ───────────────────────── the rollback loop ─────────────────────────

/// What the rollback loop asks its caller to do next.
pub enum LoopAction {
    /// Run the loop's tasks from its directory after its results (a
    /// `PlanRun`), then call `after_batch`.
    Execute,
    /// Ask the rollback assessor with this prompt, then call
    /// `after_assessment`.
    Assess(String),
    /// Stop: the loop's results and directory are final.
    Finished,
}

/// Executing a plan with rollbacks: the tasks to run next, the directory and
/// results so far, and how many rollbacks may still be made.
pub struct RollbackLoop {
    pub prompt: String,
    pub tasks: Vec<SubTask>,
    pub cwd: String,
    pub results: Vec<StepResult>,
    pub rollbacks_left: u32,
}

impl RollbackLoop {
    /// Takes a batch's outcome: its results are appended and its final
    /// directory kept. A halted batch goes to the assessor while rollbacks
    /// are left; otherwise the loop is finished.
    pub fn after_batch(&mut self, batch: Vec<StepResult>, cwd: String, halted: bool) -> (a:
        LoopAction)
        ensures
            final(self).results@ == old(self).results@ + batch@,
            final(self).cwd == cwd,
            final(self).tasks == old(self).tasks,
            final(self).prompt == old(self).prompt,
            final(self).rollbacks_left == old(self).rollbacks_left,
            (halted && old(self).rollbacks_left > 0) <==> a is Assess,
            a matches LoopAction::Assess(p) ==> p@ == rollback_prompt_spec(
                old(self).prompt@,
                cwd@,
                old(self).tasks@,
                final(self).results@,
            ),
            !(a is Assess) ==> a is Finished,
    {
        let mut batch = batch;
        let ghost before = self.results@;
        let ghost added = batch@;
        self.results.append(&mut batch);
        assert(self.results@ =~= before + added);
        self.cwd = cwd;
        if halted && self.rollbacks_left > 0 {
            LoopAction::Assess(
                rollback_prompt(self.prompt.as_str(), self.cwd.as_str(), &self.tasks, &self.results),
            )
        } else {
            LoopAction::Finished
        }
    }

    /// Acts on the assessor's answer. An empty answer finishes the loop and
    /// changes nothing. Otherwise the loop rolls back to the answer's target
    /// step (returned): only results of earlier steps stay, and the directory
    /// returns to the last kept one. Then a non-empty replacement plan
    /// (parsed by the caller from the answer's braced span) becomes the tasks
    /// and costs one rollback; without one the loop is finished.
    pub fn after_assessment(&mut self, review: &str, plan: Option<Vec<SubTask>>) -> (r: (
        Option<u32>,
        LoopAction,
    ))
        requires
            old(self).rollbacks_left > 0,
        ensures
            final(self).prompt == old(self).prompt,
            trim(review@).len() == 0 ==> {
                &&& r.0 is None
                &&& r.1 is Finished
                &&& final(self).results == old(self).results
                &&& final(self).cwd == old(self).cwd
                &&& final(self).tasks == old(self).tasks
                &&& final(self).rollbacks_left == old(self).rollbacks_left
            },
            trim(review@).len() > 0 ==> {
                let target = rollback_target_spec(review@, old(self).results@);
                let kept = kept_results(old(self).results@, target);
                &&& r.0 == Some(target)
                &&& final(self).results@ == kept
                &&& final(self).cwd@ == (if kept.len() > 0 {
                    kept.last().cwd@
                } else {
                    SANDBOX_DIR@
                })
                &&& (plan matches Some(ts) && ts@.len() > 0) ==> {
                    &&& final(self).tasks == plan->0
                    &&& final(self).rollbacks_left == old(self).rollbacks_left - 1
                    &&& r.1 is Execute
                }
                &&& !(plan matches Some(ts) && ts@.len() > 0) ==> {
                    &&& final(self).tasks == old(self).tasks
                    &&& final(self).rollbacks_left == old(self).rollbacks_left
                    &&& r.1 is Finished
                }
            },
    {
        let rv = to_chars(review);
        let t = trim_chars(&rv);
        if t.len() == 0 {
            return (None, LoopAction::Finished);
        }
        let target = rollback_target(review, self.results.as_slice());
        let (kept, cwd) = apply_rollback(&self.results, target);
        self.results = kept;
        self.cwd = cwd;
        match plan {
            Some(ts) => {
                if ts.len() > 0 {
                    self.tasks = ts;
                    self.rollbacks_left = self.rollbacks_left - 1;
                    (Some(target), LoopAction::Execute)
                } else {
                    (Some(target), LoopAction::Finished)
                }
            },
            None => (Some(target), LoopAction::Finished),
        }
    }
}

// ───────────────────────── the review loop ─────────────────────────

/// What the review loop asks its caller to do next.
pub enum ReviewAction {
    /// Ask the inspector (with the "Quick" persona) this prompt, then call
    /// `after_review` with its answer.
    Review(String),
    /// Decompose `request` into a corrective plan, write it under `label`,
    /// execute it after the loop's results from its directory (with
    /// rollbacks), then call `after_correction`.
    Correct { request: String, label: String },
    /// Stop reviewing: the last synthesis is the answer.
    Done,
}

/// Reviewing a run's results and correcting them, at most `max_retries`
/// times: the request, the directory and results so far, and the number of
/// rounds already made.
pub struct ReviewLoop {
    pub prompt: String,
    pub cwd: String,
    pub results: Vec<StepResult>,
    pub attempt: u8,
    pub max_retries: u8,
}

/// The directory a review round works in: the loop's directory, or, when it
/// no longer exists and the last result's directory does, that one.
pub open spec fn review_cwd(
    cwd: Seq<char>,
    results: Seq<StepResult>,
    cwd_exists: bool,
    last_cwd_exists: bool,
) -> Seq<char> {
    if !cwd_exists && results.len() > 0 && last_cwd_exists {
        results.last().cwd@
    } else {
        cwd
    }
}

impl ReviewLoop {
    /// Starts a review round. `cwd_exists` tells whether the loop's directory
    /// exists, `last_cwd_exists` whether the last result's directory does.
    /// Once `max_retries` rounds were made the loop is done and unchanged;
    /// otherwise the directory is restored (see `review_cwd`) and the
    /// inspector is asked about all results.
    pub fn next_round(&mut self, cwd_exists: bool, last_cwd_exists: bool) -> (a: ReviewAction)
        ensures
            final(self).prompt == old(self).prompt,
            final(self).results == old(self).results,
            final(self).attempt == old(self).attempt,
            final(self).max_retries == old(self).max_retries,
            old(self).attempt >= old(self).max_retries ==> a is Done && final(self).cwd == old(self).cwd,
            old(self).attempt < old(self).max_retries ==> {
                &&& final(self).cwd@ == review_cwd(
                    old(self).cwd@,
                    old(self).results@,
                    cwd_exists,
                    last_cwd_exists,
                )
                &&& a matches ReviewAction::Review(p) && p@ == REVIEW_HEAD@ + old(self).prompt@
                    + REVIEW_CWD@ + final(self).cwd@ + REVIEW_RESULTS@ + summaries(
                    old(self).results@,
                ) + REVIEW_TAIL@
            },
    {
        if self.attempt >= self.max_retries {
            return ReviewAction::Done;
        }
        let n = self.results.len();
        if !cwd_exists && n > 0 && last_cwd_exists {
            self.cwd = self.results[n - 1].cwd.clone();
        }
        ReviewAction::Review(review_prompt(self.prompt.as_str(), self.cwd.as_str(), &self.results))
    }

    /// Acts on the inspector's answer: an accepting answer (see
    /// `review_accepts_spec`) ends the loop; any other answer, trimmed, is
    /// the corrective request, its plan labelled `[RETRY <round>]`.
    pub fn after_review(&mut self, review: &str) -> (a: ReviewAction)
        requires
            old(self).attempt < old(self).max_retries,
        ensures
            final(self).prompt == old(self).prompt,
            final(self).results == old(self).results,
            final(self).cwd == old(self).cwd,
            final(self).max_retries == old(self).max_retries,
            review_accepts_spec(review@) ==> a is Done && final(self).attempt == final(self).max_retries,
            !review_accepts_spec(review@) ==> {
                &&& final(self).attempt == old(self).attempt
                &&& a matches ReviewAction::Correct { request, label } && request@ == trim(review@)
                    && label@ == "[RETRY "@ + decimal(old(self).attempt as nat + 1) + "] "@ + trim(
                    review@,
                )
            },
    {
        if review_accepts(review) {
            self.attempt = self.max_retries;
            return ReviewAction::Done;
        }
        let rv = to_chars(review);
        let t = trim_chars(&rv);
        let verdict = from_chars(&t);
        let label = retry_label(self.attempt, verdict.as_str());
        ReviewAction::Correct { request: verdict, label }
    }

    /// Records the corrective run: its results (all results so far) and its
    /// final directory; one more round has been made.
    pub fn after_correction(&mut self, results: Vec<StepResult>, cwd: String)
        requires
            old(self).attempt < old(self).max_retries,
        ensures
            final(self).prompt == old(self).prompt,
            final(self).results == results,
            final(self).cwd == cwd,
            final(self).attempt == old(self).attempt + 1,
            final(self).max_retries == old(self).max_retries,
    {
        self.results = results;
        self.cwd = cwd;
        self.attempt = self.attempt + 1;
    }
}

/// A rollback keeps exactly the results of the steps before its target, in
/// their order: every kept result is one of the earlier results with a step
/// below the target, and every such result is kept.
pub proof fn law_rollback_keeps_earlier_steps(results: Seq<StepResult>, target: u32)
    ensures
        forall|i: int|
            0 <= i < kept_results(results, target).len() ==> (#[trigger] kept_results(
                results,
                target,
            )[i]).task.step < target && results.contains(kept_results(results, target)[i]),
        forall|i: int|
            0 <= i < results.len() && (#[trigger] results[i]).task.step < target ==> kept_results(
                results,
                target,
            ).contains(results[i]),
{
    let pred = |r: StepResult| r.task.step < target;
    assert forall|i: int|
        0 <= i < kept_results(results, target).len() implies (#[trigger] kept_results(
        results,
        target,
    )[i]).task.step < target && results.contains(kept_results(results, target)[i]) by {
        results.lemma_filter_pred(pred, i);
        let k = results.filter(pred);
        assert(k.contains(k[i]));
        results.lemma_filter_contains_rev(pred, k[i]);
    }
    assert forall|i: int|
        0 <= i < results.len() && (#[trigger] results[i]).task.step < target implies kept_results(
        results,
        target,
    ).contains(results[i]) by {
        results.lemma_filter_contains(pred, i);
    }
}

} // verus!
