use enigma::brain::{
    apply_rollback, braced_slice, category_label, decompose_request, default_calls,
    default_category, detect_step_status, latest_plan, load_max_retries, load_max_rollbacks,
    load_max_steps, next_cwd, parse_u32, plan_content, plan_filename, plan_or_fallback,
    plan_reply, review_accepts, review_prompt, retry_label, rollback_label, ReviewAction, ReviewLoop, rollback_prompt,
    rollback_reasoning, rollback_target, synthesise, total_estimated_calls, LoopAction, PlanRun,
    RollbackLoop, StepResult, StepStatus, SubTask, Synthesis, DECOMPOSE_HEAD, NO_PLANS,
    PLAN_UNREADABLE, ROLLBACK_HEAD,
};
use enigma::model::RequestTracker;

fn task(step: u32, intent: &str, prompt: &str, category: u64) -> SubTask {
    SubTask {
        step,
        intent: intent.to_string(),
        prompt: prompt.to_string(),
        category,
        estimated_calls: 1,
    }
}

fn result(step: u32, output: &str, cwd: &str, ok: bool) -> StepResult {
    StepResult {
        task: task(step, "I", "P", 1),
        output: output.to_string(),
        cwd: cwd.to_string(),
        status: if ok { StepStatus::Success } else { StepStatus::Failed("x".to_string()) },
    }
}

#[test]
fn labels_of_categories() {
    assert_eq!(category_label(2), "Analyze Project / Knowledge");
    assert_eq!(category_label(5), "Spotify Integration");
    assert_eq!(category_label(9), "General Chat");
    assert_eq!(default_category(), 1);
    assert_eq!(default_calls(), 1);
}

#[test]
fn limits_from_tracker() {
    let mut t = RequestTracker::default_state("2024-01-01");
    assert_eq!(load_max_steps(&t), 16);
    t.max_steps = 5;
    t.max_rollbacks = 2;
    t.max_retries = 3;
    assert_eq!(load_max_steps(&t), 5);
    assert_eq!(load_max_rollbacks(&t), 2);
    assert_eq!(load_max_retries(&t), 3);
}

#[test]
fn summary_and_failure_flag() {
    let r = StepResult {
        task: task(3, "Search", "Find x", 2),
        output: "found".to_string(),
        cwd: ".".to_string(),
        status: StepStatus::Failed("boom".to_string()),
    };
    assert_eq!(r.summary(), "Step 3 [Search]: Find x\nOutput: found");
    assert!(r.is_hard_failure());
    assert!(!result(1, "", ".", true).is_hard_failure());
}

#[test]
fn cleaning_drops_bookkeeping_lines() {
    let r = result(
        1,
        "Command: ls\nSTDOUT:\na.txt\nExit code: 0\nSET_CWD: ./x\nall good",
        ".",
        true,
    );
    assert_eq!(r.clean_output(), "a.txt\nall good");
    let only = result(1, "Exit code: 0\n", ".", true);
    assert_eq!(only.clean_output(), "");
}

#[test]
fn status_from_exit_codes() {
    assert_eq!(detect_step_status("Exit code: 0\nok"), StepStatus::Success);
    assert_eq!(detect_step_status("Exit code: exit code: 0"), StepStatus::Success);
    assert_eq!(detect_step_status("Exit code: exit status: 0"), StepStatus::Success);
    assert_eq!(
        detect_step_status("a\nExit code: exit code: 1\n"),
        StepStatus::Failed("Non-zero Exit code: exit code: 1".to_string())
    );
    assert_eq!(detect_step_status("no exit line"), StepStatus::Success);
}

#[test]
fn status_from_failures_and_powershell() {
    assert_eq!(
        detect_step_status("x\n❌ Content creation failed: disk\n"),
        StepStatus::Failed("❌ Content creation failed: disk".to_string())
    );
    assert_eq!(
        detect_step_status("Failed to spawn cmd"),
        StepStatus::Failed("unknown".to_string())
    );
    assert_eq!(
        detect_step_status("+ FullyQualifiedErrorId : X"),
        StepStatus::Failed("PowerShell error record detected".to_string())
    );
}

#[test]
fn single_step_synthesis_is_final() {
    let one = vec![result(1, "Exit code: 0\n  hello  \n", ".", true)];
    assert_eq!(synthesise("q", &one), Synthesis::Final("hello".to_string()));
    let bare = vec![result(1, "Exit code: 0", ".", true)];
    assert_eq!(synthesise("q", &bare), Synthesis::Final(String::new()));
    let exposed = vec![result(1, "  Exit code: 1\n  hello\n", ".", true)];
    assert_eq!(synthesise("q", &exposed), Synthesis::Final("  hello".to_string()));
}

#[test]
fn multi_step_synthesis_asks_model() {
    let two = vec![result(1, "a", ".", true), result(2, "STDOUT:\nb", ".", true)];
    match synthesise("do it", &two) {
        Synthesis::Ask(p) => {
            assert!(p.starts_with("You are 'Enigma Brain'. Below are the sequential results"));
            assert!(p.contains("Original Request: \"do it\""));
            assert!(p.contains(
                "Step 1: [I] (General Chat)\nPrompt: P\nResult:\na\n\n---\nStep 2: [I] (General Chat)\nPrompt: P\nResult:\nb\n"
            ));
            assert!(p.ends_with("4. Keep it concise — no repetition."));
        }
        Synthesis::Final(_) => panic!("two steps go to the model"),
    }
}

#[test]
fn working_directory_follows_set_cwd() {
    assert_eq!(next_cwd("./sandbox", "made\nSET_CWD: ./sandbox/app/../app2 \nmore"), "sandbox/app2");
    assert_eq!(next_cwd("./sandbox", "nothing"), "./sandbox");
    assert_eq!(next_cwd("./sandbox", "SET_CWD:    \n"), "./sandbox");
}

#[test]
fn plan_run_chains_context_and_stops_on_failure() {
    let tasks = vec![task(1, "A", "first", 2), task(2, "B", "second", 3), task(3, "C", "third", 1)];
    let mut run = PlanRun::new(tasks, Vec::new(), "./sandbox".to_string());
    assert!(!run.is_finished());
    let req = run.request();
    assert_eq!(req.category, 2);
    assert_eq!(req.prompt, "first");
    run.record("SET_CWD: ./sandbox/p\nok".to_string());
    assert_eq!(run.cwd, "sandbox/p");
    let req2 = run.request();
    assert_eq!(req2.category, 3);
    assert_eq!(
        req2.prompt,
        "second\n\n[Prior step context — use this to inform your response]:\nStep 1 [A]: first\nOutput: SET_CWD: ./sandbox/p\nok"
    );
    run.record("Exit code: 2".to_string());
    assert!(run.is_finished());
    let (results, cwd, halted) = run.finish();
    assert_eq!(results.len(), 2);
    assert!(halted);
    assert_eq!(cwd, "sandbox/p");
    assert_eq!(results[1].status, StepStatus::Failed("Non-zero Exit code: 2".to_string()));
}

#[test]
fn long_context_keeps_its_tail() {
    let big = "x".repeat(9000);
    let prior = vec![result(1, &big, ".", true)];
    let run = PlanRun::new(vec![task(2, "B", "go", 1)], prior, ".".to_string());
    let p = run.request().prompt;
    assert!(p.starts_with("go\n\n[Prior step context — use this to inform your response]:\n[…prior context truncated…]\n"));
    assert!(p.ends_with(&"x".repeat(100)));
    let head = "go\n\n[Prior step context — use this to inform your response]:\n[…prior context truncated…]\n";
    assert_eq!(p.chars().count() - head.chars().count(), 8000);
}

#[test]
fn context_is_capped_by_characters() {
    let summary_head = "Step 1 [I]: P\nOutput: ";
    let wide = "é".repeat(8000 - summary_head.chars().count());
    let prior = vec![result(1, &wide, ".", true)];
    let run = PlanRun::new(vec![task(2, "B", "go", 1)], prior, ".".to_string());
    let p = run.request().prompt;
    assert_eq!(p, format!("go\n\n[Prior step context — use this to inform your response]:\n{}{}", summary_head, wide));
    let over = format!("{}é", wide);
    let prior2 = vec![result(1, &over, ".", true)];
    let run2 = PlanRun::new(vec![task(2, "B", "go", 1)], prior2, ".".to_string());
    let p2 = run2.request().prompt;
    let kept: String = format!("{}{}", summary_head, over).chars().skip(1).collect();
    assert_eq!(p2, format!("go\n\n[Prior step context — use this to inform your response]:\n[…prior context truncated…]\n{}", kept));
}

#[test]
fn numbers_parse_like_str_parse() {
    let d = |s: &str| s.chars().collect::<Vec<char>>();
    assert_eq!(parse_u32(&d("42")), Some(42));
    assert_eq!(parse_u32(&d("+7")), Some(7));
    assert_eq!(parse_u32(&d("4294967295")), Some(u32::MAX));
    assert_eq!(parse_u32(&d("4294967296")), None);
    assert_eq!(parse_u32(&d("")), None);
    assert_eq!(parse_u32(&d("-1")), None);
    assert_eq!(parse_u32(&d("1a")), None);
}

#[test]
fn rollback_target_and_reasoning() {
    let results = vec![result(1, "", "a", true), result(4, "", "b", false)];
    assert_eq!(rollback_target("REASONING: bad path\nROLLBACK: 2\n{}", &results), 2);
    assert_eq!(rollback_target("ROLLBACK: two", &results), 4);
    assert_eq!(rollback_target("nothing", &results), 4);
    assert_eq!(rollback_target("nothing", &[]), 1);
    assert_eq!(rollback_reasoning("x REASONING:  missing dep \nROLLBACK: 1"), Some("missing dep".to_string()));
    assert_eq!(rollback_reasoning("no marker"), None);
    assert_eq!(rollback_label(3), "[ROLLBACK TO 3]");
}

#[test]
fn rollback_keeps_earlier_steps() {
    let results = vec![result(1, "o1", "d1", true), result(2, "o2", "d2", true), result(3, "o3", "d3", false)];
    let (kept, cwd) = apply_rollback(&results, 3);
    assert_eq!(kept.len(), 2);
    assert_eq!(kept[1].output, "o2");
    assert_eq!(cwd, "d2");
    let (none, cwd0) = apply_rollback(&results, 1);
    assert!(none.is_empty());
    assert_eq!(cwd0, "./sandbox");
}

#[test]
fn rollback_prompt_lists_plan_and_log() {
    let p = rollback_prompt("req", "cwd", &vec![task(1, "Find", "p", 2), task(2, "Make", "q", 4)], &vec![result(1, "out", ".", false)]);
    assert!(p.starts_with(ROLLBACK_HEAD));
    assert!(p.contains("Original Request: \"req\"\nCurrent Working Directory: \"cwd\""));
    assert!(p.contains("The active execution plan was:\nStep 1 [Cat 2]: Find\nStep 2 [Cat 4]: Make\n\n"));
    assert!(p.contains("the very last step in this log failed:\nStep 1 [I]: P\nOutput: out\n\nYour task:"));
}

#[test]
fn rollback_loop_flow() {
    let mut lp = RollbackLoop {
        prompt: "req".to_string(),
        tasks: vec![task(1, "A", "a", 1), task(2, "B", "b", 1)],
        cwd: "./sandbox".to_string(),
        results: Vec::new(),
        rollbacks_left: 1,
    };
    let batch = vec![result(1, "ok", "d1", true), result(2, "Exit code: 1", "d2", false)];
    let a = lp.after_batch(batch, "d2".to_string(), true);
    assert!(matches!(a, LoopAction::Assess(_)));
    let (target, next) = lp.after_assessment("ROLLBACK: 2\n{...}", Some(vec![task(2, "B2", "b2", 3)]));
    assert_eq!(target, Some(2));
    assert!(matches!(next, LoopAction::Execute));
    assert_eq!(lp.results.len(), 1);
    assert_eq!(lp.cwd, "d1");
    assert_eq!(lp.rollbacks_left, 0);
    assert_eq!(lp.tasks[0].intent, "B2");
    let again = lp.after_batch(vec![result(2, "Exit code: 1", "d1", false)], "d1".to_string(), true);
    assert!(matches!(again, LoopAction::Finished));
    assert_eq!(lp.results.len(), 2);
}

#[test]
fn empty_assessment_finishes_loop() {
    let mut lp = RollbackLoop {
        prompt: "req".to_string(),
        tasks: vec![task(1, "A", "a", 1)],
        cwd: "c".to_string(),
        results: vec![result(1, "x", "c", false)],
        rollbacks_left: 2,
    };
    let (target, next) = lp.after_assessment("   \n", None);
    assert_eq!(target, None);
    assert!(matches!(next, LoopAction::Finished));
    assert_eq!(lp.results.len(), 1);
    assert_eq!(lp.rollbacks_left, 2);
}

#[test]
fn braced_span_and_fallback_plan() {
    assert_eq!(braced_slice("Sure! {\"tasks\": []} done"), "{\"tasks\": []}");
    assert_eq!(braced_slice("  no braces  "), "  no braces  ");
    assert_eq!(braced_slice("  "), "  ");
    assert_eq!(braced_slice("} backwards {"), "} backwards {");
    let fb = plan_or_fallback(None, "do x", 16);
    assert_eq!(fb.len(), 1);
    assert_eq!(fb[0].intent, "Direct Execution");
    assert_eq!(fb[0].prompt, "do x");
    assert_eq!(fb[0].category, 1);
    let empty = plan_or_fallback(Some(Vec::new()), "y", 3);
    assert_eq!(empty[0].prompt, "y");
    let kept = plan_or_fallback(Some(vec![task(1, "A", "a", 3), task(2, "B", "b", 4)]), "z", 16);
    let cut = plan_or_fallback(Some(vec![task(1, "A", "a", 3), task(2, "B", "b", 4), task(3, "C", "c", 1)]), "z", 2);
    assert_eq!(cut.len(), 2);
    assert_eq!(cut[1].intent, "B");
    assert_eq!(kept.len(), 2);
}

#[test]
fn decompose_prompt_names_step_limit() {
    let p = decompose_request("build site", 5);
    assert!(p.starts_with(DECOMPOSE_HEAD));
    assert!(p.contains("9. Limit to MAX 5 steps. Simple tasks = 1 step."));
    assert!(p.ends_with("User Request: \"build site\"\n"));
}

#[test]
fn review_verdicts() {
    assert!(review_accepts("  ok "));
    assert!(review_accepts("Ok"));
    assert!(review_accepts("OK, all done"));
    assert!(!review_accepts("ok, but fix x"));
    assert!(!review_accepts("Fix the import"));
    let p = review_prompt("r", "c", &vec![result(1, "o", ".", true)]);
    assert!(p.contains("Original Request: \"r\"\n\nCurrent working directory: \"c\""));
    assert!(p.contains("last execution:\nStep 1 [I]: P\nOutput: o\n\nYour task:"));
    assert_eq!(retry_label(0, "fix it"), "[RETRY 1] fix it");
}

#[test]
fn plan_files() {
    assert_eq!(plan_filename("20260412_184810"), "plans/plan_20260412_184810.txt");
    let tasks = vec![task(1, "Search", "find", 2), SubTask { estimated_calls: 3, ..task(2, "Write", "make", 4) }];
    assert_eq!(total_estimated_calls(&tasks), 4);
    let c = plan_content("req", &tasks, "plans/plan_x.txt");
    assert!(c.contains(" 🧠 ENIGMA BRAIN — EXECUTION PLAN"));
    assert!(c.contains(" Request : req\n"));
    assert!(c.contains(" Steps   : 2\n"));
    assert!(c.contains(" Est. AI calls: 4\n"));
    assert!(c.ends_with("\nGenerated by Enigma Brain. Plan will be updated after execution."));
}

#[test]
fn latest_plan_by_name() {
    let names: Vec<String> = vec!["plan_20240101_000000.txt", "notes.txt", "plan_20250101_000000.txt", "plan_2024.txt"]
        .into_iter()
        .map(String::from)
        .collect();
    assert_eq!(latest_plan(&names), Some(2));
    assert_eq!(latest_plan(&vec!["a.txt".to_string()]), None);
    assert_eq!(plan_reply(None), NO_PLANS);
    assert_eq!(plan_reply(Some(None)), PLAN_UNREADABLE);
    assert_eq!(plan_reply(Some(Some("text".to_string()))), "text");
}

#[test]
fn review_loop_rounds() {
    let mut lp = ReviewLoop {
        prompt: "req".to_string(),
        cwd: "gone".to_string(),
        results: vec![result(1, "o", "kept", true)],
        attempt: 0,
        max_retries: 1,
    };
    match lp.next_round(false, true) {
        ReviewAction::Review(p) => assert!(p.contains("Current working directory: \"kept\"")),
        _ => panic!("a round is left"),
    }
    assert_eq!(lp.cwd, "kept");
    match lp.after_review("  Fix the import in main.rs \n") {
        ReviewAction::Correct { request, label } => {
            assert_eq!(request, "Fix the import in main.rs");
            assert_eq!(label, "[RETRY 1] Fix the import in main.rs");
        }
        _ => panic!("a corrective request"),
    }
    lp.after_correction(vec![result(1, "o", "kept", true), result(2, "fixed", "kept", true)], "kept".to_string());
    assert_eq!(lp.attempt, 1);
    assert!(matches!(lp.next_round(true, true), ReviewAction::Done));
}

#[test]
fn review_loop_stops_on_ok() {
    let mut lp = ReviewLoop {
        prompt: "req".to_string(),
        cwd: "here".to_string(),
        results: Vec::new(),
        attempt: 0,
        max_retries: 3,
    };
    assert!(matches!(lp.next_round(false, false), ReviewAction::Review(_)));
    assert_eq!(lp.cwd, "here");
    assert!(matches!(lp.after_review("OK"), ReviewAction::Done));
    assert!(matches!(lp.next_round(true, false), ReviewAction::Done));
    let mut none = ReviewLoop { prompt: "r".to_string(), cwd: ".".to_string(), results: Vec::new(), attempt: 0, max_retries: 0 };
    assert!(matches!(none.next_round(true, true), ReviewAction::Done));
}

#[test]
fn informational_stderr_does_not_fail_a_step() {
    let out = "Command: cargo build\nSTDERR:\nwarning: unused variable\nerror: this is only text\nExit code: exit code: 0\n";
    assert_eq!(detect_step_status(out), StepStatus::Success);
}
