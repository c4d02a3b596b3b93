use enigma::json::{JsonKind, JsonNumber, JsonValue};
use enigma::model::{
    chat_endpoint, chat_reply, default_mode, default_retries, enriched_prompt,
    exhausted_message, gemini_reply, gemini_url, groq_reply, health_check_keys, persona_prefix,
    provider_table, set_control, set_control_with_persona, start_prompt, throttle_wait_nanos,
    Backend, RequestTracker, EYES_LIMIT,
};
use enigma::router::{
    chat_prompt, filter_prompt, menu_choice, menu_text, parse_args, prompt_line, route_banner,
    route_category, route_of, router_prompt, toggled_persona, MenuChoice, PromptLine, Route,
    ROUTER_HEAD,
};
use enigma::search_model::{
    indexed_paths, string_array, chosen_paths, extract_json_array, fuzzy_search, keyword_prompt, score_path, top_paths,
    validation_prompt,
};
use enigma::steps::{
    requested_paths, analysis_prompt, analysis_scope, chat_step_prompt, creation_done, creation_failed,
    wants_file_fetch, with_scoped_contents, AnalysisScope,
};
use enigma::styles::{get_numbered_item, style_inline, styled_lines, StyledLine};

fn s(v: &str) -> JsonValue {
    JsonValue { kind: JsonKind::Str(v.to_string()), text: format!("\"{}\"", v) }
}

fn n(v: u64) -> JsonValue {
    JsonValue { kind: JsonKind::Number(JsonNumber::PosInt(v)), text: v.to_string() }
}

fn arr(items: Vec<JsonValue>) -> JsonValue {
    JsonValue { kind: JsonKind::Array(items), text: "[...]".to_string() }
}

fn obj(members: Vec<(&str, JsonValue)>, text: &str) -> JsonValue {
    JsonValue {
        kind: JsonKind::Object(members.into_iter().map(|(k, v)| (k.to_string(), v)).collect()),
        text: text.to_string(),
    }
}

fn strings(v: &[&str]) -> Vec<String> {
    v.iter().map(|x| x.to_string()).collect()
}

// ── model ──

#[test]
fn persona_prefixes() {
    assert!(persona_prefix("Helpful").starts_with("You are a detailed, conversational"));
    assert!(persona_prefix("Quick").starts_with("You are a quick AI assistant."));
    assert!(persona_prefix("SpotifyBrain").starts_with("You are a quick AI assistant."));
    assert_eq!(enriched_prompt("Quick", "hi", false), "hi");
    assert_eq!(enriched_prompt("Quick", "hi", true), format!("{}hi", persona_prefix("Quick")));
    assert_eq!(default_mode(), "Brain");
    assert_eq!(default_retries(), 1);
    assert!(exhausted_message().starts_with("❌ All providers exhausted"));
}

#[test]
fn tracker_resets_on_a_new_day() {
    let mut t = RequestTracker::default_state("2024-01-01");
    let table = provider_table();
    t.usage.insert(table[0].id, 3);
    t.eyes_calls = 7;
    assert!(!t.check_reset("2024-01-01"));
    assert_eq!(t.slot_usage(&table[0]), 3);
    assert!(t.check_reset("2024-01-02"));
    assert_eq!(t.slot_usage(&table[0]), 0);
    assert_eq!(t.eyes_calls, 0);
    assert_eq!(t.last_reset_date, "2024-01-02");
}

#[test]
fn loaded_tracker_gets_quick_persona() {
    let mut old = RequestTracker::default_state("2024-01-01");
    old.max_steps = 4;
    old.persona = "Helpful".to_string();
    let (t, reset) = RequestTracker::new(Some(old), "2024-01-01");
    assert!(!reset);
    assert_eq!(t.persona, "Quick");
    assert_eq!(t.max_steps, 4);
    let (fresh, r2) = RequestTracker::new(None, "2024-05-05");
    assert!(!r2);
    assert_eq!(fresh.last_reset_date, "2024-05-05");
}

#[test]
fn provider_selection_skips_exhausted_unhealthy_and_keyless() {
    let table = provider_table();
    let mut keys: Vec<String> = table.iter().map(|_| "k".to_string()).collect();
    let mut t = RequestTracker::default_state("d");
    assert_eq!(t.next_provider(&table, &keys, 0), Some(0));
    keys[0] = String::new();
    assert_eq!(t.next_provider(&table, &keys, 0), Some(1));
    t.validate_mode = true;
    t.record_key_health(table[1].id, false, false);
    assert!(!t.is_healthy(table[1].id));
    assert_eq!(t.next_provider(&table, &keys, 0), Some(2));
    for _ in 0..table[2].limit {
        assert!(t.can_use(&table[2]));
        t.record_success(&table[2]);
    }
    assert!(!t.can_use(&table[2]));
    assert_eq!(t.remaining(&table[2]), 0);
    assert_eq!(t.next_provider(&table, &keys, 0), Some(3));
    let none: Vec<String> = table.iter().map(|_| String::new()).collect();
    assert_eq!(t.next_provider(&table, &none, 0), None);
}

#[test]
fn auth_errors_mark_slots_unhealthy() {
    let table = provider_table();
    let mut t = RequestTracker::default_state("d");
    t.validate_mode = true;
    t.record_failure(&table[0], "timeout");
    assert!(t.is_healthy(table[0].id));
    t.record_failure(&table[0], "HTTP 403 Forbidden");
    assert!(!t.is_healthy(table[0].id));
    t.validate_mode = false;
    assert!(t.is_healthy(table[0].id));
}

#[test]
fn prompt_sessions() {
    let t = RequestTracker::default_state("d");
    let mut session = set_control_with_persona(t, "hello", "Helpful");
    assert_eq!(session.tracker.persona, "Helpful");
    assert_eq!(session.prompt, format!("{}hello", persona_prefix("Helpful")));
    assert_eq!(session.tracker.requests_per_prompt, 1);
    let table = provider_table();
    let keys: Vec<String> = table.iter().map(|_| "k".to_string()).collect();
    let first = session.next_slot(&table, &keys).unwrap();
    session.failed(first, &table[first], "401 Unauthorized");
    assert_eq!(session.from, first + 1);
    let second = session.next_slot(&table, &keys).unwrap();
    assert_eq!(second, first + 1);
    session.succeeded(&table[second]);
    assert_eq!(session.tracker.slot_usage(&table[second]), 1);
    let q = set_control(RequestTracker::default_state("d"), "x");
    assert_eq!(q.tracker.persona, "Quick");
    let plain = start_prompt(RequestTracker::default_state("d"), "raw", false);
    assert_eq!(plain.prompt, "raw");
}

#[test]
fn eyes_calls_are_limited() {
    let mut t = RequestTracker::default_state("d");
    assert_eq!(t.remaining_eyes(), EYES_LIMIT);
    for _ in 0..EYES_LIMIT {
        assert!(t.can_use_eyes());
        t.record_eyes_call();
    }
    assert!(!t.can_use_eyes());
    assert_eq!(t.remaining_eyes(), 0);
}

#[test]
fn throttling_waits_out_the_gap() {
    assert_eq!(throttle_wait_nanos(None, 500), 0);
    assert_eq!(throttle_wait_nanos(Some(200_000_000), 500), 300_000_000);
    assert_eq!(throttle_wait_nanos(Some(900_000_000), 500), 0);
}

#[test]
fn providers_and_endpoints() {
    let table = provider_table();
    assert_eq!(table.len(), 23);
    assert!(health_check_keys().len() > 0);
    assert_eq!(chat_endpoint(Backend::Gemini("gemini-2.5-flash")), None);
    assert_eq!(
        chat_endpoint(Backend::Cerebras),
        Some(("https://api.cerebras.ai/v1/chat/completions", "gpt-oss-120b"))
    );
    assert_eq!(
        gemini_url("gemini-2.5-flash"),
        "https://generativelanguage.googleapis.com/v1beta/models/gemini-2.5-flash:generateContent"
    );
}

#[test]
fn provider_answers() {
    let gem = obj(
        vec![(
            "candidates",
            arr(vec![obj(
                vec![("content", obj(vec![("parts", arr(vec![obj(vec![("text", s("hi"))], "")]))], ""))],
                "",
            )]),
        )],
        "",
    );
    assert_eq!(gemini_reply(&gem), Ok("hi".to_string()));
    let err = obj(vec![("error", obj(vec![("code", n(429))], "{\"code\":429}"))], "");
    assert_eq!(gemini_reply(&err), Err("API Error: {\"code\":429}".to_string()));
    assert_eq!(gemini_reply(&obj(vec![], "{}")), Ok("No response".to_string()));
    let chat = obj(
        vec![("choices", arr(vec![obj(vec![("message", obj(vec![("content", s("yo"))], ""))], "")]))],
        "",
    );
    assert_eq!(chat_reply(&chat, "Cerebras API Error: "), Ok("yo".to_string()));
    let cerr = obj(vec![("error", obj(vec![("message", s("quota"))], ""))], "");
    assert_eq!(chat_reply(&cerr, "Mistral API Error: "), Err("Mistral API Error: \"quota\"".to_string()));
    assert_eq!(groq_reply(false, "500", "down", Err("x")), Err("Groq API error 500: down".to_string()));
    assert_eq!(groq_reply(true, "200", "", Err("eof")), Err("Failed to parse JSON: eof".to_string()));
    assert_eq!(groq_reply(true, "200", "", Ok(&chat)), Ok("yo".to_string()));
    let odd = obj(vec![], "{\"weird\":true}");
    assert_eq!(groq_reply(true, "200", "", Ok(&odd)), Err("Unexpected response: {\"weird\":true}".to_string()));
}

// ── router ──

#[test]
fn prompt_lines() {
    assert!(matches!(prompt_line("  quit \n"), PromptLine::Quit));
    assert!(matches!(prompt_line("exit"), PromptLine::Quit));
    assert!(matches!(prompt_line("   "), PromptLine::Empty));
    match prompt_line("  play music\n") {
        PromptLine::Request(t) => assert_eq!(t, "play music"),
        _ => panic!("request expected"),
    }
}

#[test]
fn command_line_options() {
    let o = parse_args(&strings(&["prog", "--persona", "Helpful", "--prompt", "hi", "--url", "http://x", "--stray"]));
    assert_eq!(o.persona, "Helpful");
    assert_eq!(o.task, Some("hi".to_string()));
    assert_eq!(o.target_url, "http://x");
    assert!(o.filter.is_none() && o.brain_task.is_none());
    let f = parse_args(&strings(&["prog", "--filter", "req", "out", "--brain", "plan it"]));
    assert_eq!(f.filter, Some(("req".to_string(), "out".to_string())));
    assert_eq!(f.brain_task, Some("plan it".to_string()));
    assert_eq!(f.persona, "Quick");
    let short = parse_args(&strings(&["prog", "--filter", "only"]));
    assert!(short.filter.is_none());
}

#[test]
fn menu() {
    assert!(matches!(menu_choice(" 1 "), MenuChoice::Chat));
    assert!(matches!(menu_choice("7"), MenuChoice::Brain));
    assert!(matches!(menu_choice("quit"), MenuChoice::Exit));
    assert!(matches!(menu_choice("9"), MenuChoice::Unknown));
    assert_eq!(toggled_persona("Quick"), "Helpful");
    assert_eq!(toggled_persona("Helpful"), "Quick");
    let m = menu_text("Quick");
    assert!(m.contains(&format!("║ [Mode: {:<32}] ║", "Quick Assistant")));
    assert!(m.contains("5. 🎭 Switch to Helpful   Persona"));
}

#[test]
fn routing() {
    assert!(router_prompt("hello").starts_with(ROUTER_HEAD));
    assert!(router_prompt("hello").ends_with("User Request: \"hello\"\n    "));
    let parsed = obj(vec![("thought", s("t")), ("category", n(4))], "");
    assert_eq!(route_category(Some(&parsed), "ignored"), 4);
    assert_eq!(route_category(Some(&obj(vec![], "")), "3"), 1);
    assert_eq!(route_category(None, "I pick 3 or maybe 2"), 2);
    assert_eq!(route_category(None, "none"), 1);
    assert!(matches!(route_of(5), Route::Spotify));
    assert!(matches!(route_of(7), Route::Chat));
    assert_eq!(route_banner(&Route::Action), "🛠️ Enigma Action:");
    assert!(filter_prompt("r", "o").ends_with("Technical output to process:\no"));
    assert!(chat_prompt("t", "c").len() > 0);
}

// ── steps ──

#[test]
fn analysis_steps() {
    let (scope, label) = analysis_scope("explain this", "sandbox/app");
    assert!(matches!(scope, AnalysisScope::Local));
    assert_eq!(label, "Local Context (Current Dir)");
    let (g, gl) = analysis_scope("Search Global for x", "sandbox/app");
    assert!(matches!(g, AnalysisScope::Search));
    assert_eq!(gl, "Global Search Context");
    let (_, sl) = analysis_scope("find x", "./sandbox");
    assert_eq!(sl, "Action+Search Context");
    let p = analysis_prompt("q", "L", "ctx", "./sandbox");
    assert!(p.starts_with("Help me with this request: 'q'. Use the following context (L):\nctx"));
    assert!(wants_file_fetch("  [\"src/main.rs\"] "));
    assert!(!wants_file_fetch("The file is [here]."));
    assert_eq!(with_scoped_contents("p", "[]"), "p\n\nSCOPED FILE CONTENTS:\n[]");
    assert_eq!(creation_done("x", "d"), "✅ Content creation complete for: x\nSET_CWD: d");
    assert_eq!(creation_failed("e"), "❌ Content creation failed: e");
    assert_eq!(chat_step_prompt("p", "c"), "Assist with this request: 'p'. Current base directory context: c.");
}

// ── search ──

#[test]
fn keyword_arrays_from_answers() {
    assert_eq!(extract_json_array("Sure: ```json\n[\"auth\", \"test\"]\n```"), strings(&["auth", "test"]));
    assert_eq!(extract_json_array("[\"a\"]"), strings(&["a"]));
    assert!(extract_json_array("no array").is_empty());
    assert!(extract_json_array("[1, 2]").is_empty());
    assert!(keyword_prompt("auth").contains("Break the user's request 'auth' down"));
    assert!(validation_prompt("q", &strings(&["a/b", "c"])).ends_with("Paths: [\"a/b\", \"c\"]"));
}

#[test]
fn path_scores() {
    let ks = strings(&["auth", "Controller"]);
    assert_eq!(score_path("src/Auth/controller.py", &ks), Some(Some(4280)));
    assert_eq!(score_path("readme.md", &strings(&["zzzz"])), Some(None));
    match score_path("src/ctrl.rs", &strings(&["sctl"])) {
        Some(Some(v)) => assert!(v > 0),
        _ => panic!("a fuzzy match scores"),
    }
}

#[test]
fn ranking_is_descending_and_stable() {
    let ks = strings(&["main"]);
    let paths = strings(&["a/main.rs", "b.txt", "main/src/main.rs", "c/main.rs"]);
    let ranked = fuzzy_search(&ks, &paths);
    let scores: Vec<i64> = ranked.iter().map(|x| x.1).collect();
    for w in scores.windows(2) {
        assert!(w[0] >= w[1]);
    }
    let names: Vec<&str> = ranked.iter().map(|x| x.0.as_str()).collect();
    assert_eq!(names, vec!["a/main.rs", "main/src/main.rs", "c/main.rs"]);
    assert_eq!(top_paths(&ranked, 2), strings(&["a/main.rs", "main/src/main.rs"]));
    assert_eq!(chosen_paths(Vec::new(), &strings(&["1", "2", "3", "4", "5", "6"])), strings(&["1", "2", "3", "4", "5"]));
    assert_eq!(chosen_paths(strings(&["v"]), &strings(&["1"])), strings(&["v"]));
}

// ── styles ──

#[test]
fn numbered_items() {
    assert_eq!(get_numbered_item("12. Twelve"), Some("Twelve"));
    assert_eq!(get_numbered_item("1.x"), None);
    assert_eq!(get_numbered_item("a. b"), None);
    assert_eq!(get_numbered_item("3. "), Some(""));
    assert_eq!(get_numbered_item("3."), None);
}

#[test]
fn inline_styling_keeps_text() {
    let out = style_inline("Run `cargo build` then **check** it");
    let plain = out.replace("\u{1b}[100;33m", "").replace("\u{1b}[1;37m", "").replace("\u{1b}[0m", "");
    assert_eq!(plain, "Run cargo build then check it");
    assert_eq!(style_inline("no markers"), "no markers");
    let nested = style_inline("a**b*c**d");
    let nested_plain = nested.replace("\u{1b}[1;37m", "").replace("\u{1b}[0m", "");
    assert_eq!(nested_plain, "ab*cd");
    assert_eq!(style_inline("one * star"), "one * star");
    let open = style_inline("unclosed `tick");
    let open_plain = open.replace("\u{1b}[100;33m", "").replace("\u{1b}[0m", "");
    assert_eq!(open_plain, "unclosed tick");
}

#[test]
fn line_classification() {
    let ls = styled_lines("# Title\n- item\n2. second\n---\n\n```rust\nlet x = 1;\n```\nplain");
    assert_eq!(ls.len(), 9);
    assert!(matches!(&ls[0], StyledLine::Heading(1, t) if t == "Title"));
    assert!(matches!(&ls[1], StyledLine::Bullet(t) if t == "item"));
    assert!(matches!(&ls[2], StyledLine::Numbered(t) if t == "second"));
    assert!(matches!(&ls[3], StyledLine::Rule));
    assert!(matches!(&ls[4], StyledLine::Blank));
    assert!(matches!(&ls[5], StyledLine::FenceOpen(t) if t == "rust"));
    assert!(matches!(&ls[6], StyledLine::Code(t) if t == "let x = 1;"));
    assert!(matches!(&ls[7], StyledLine::FenceClose));
    assert!(matches!(&ls[8], StyledLine::Text(t) if t == "plain"));
    let bare = styled_lines("```\n# not a heading");
    assert!(matches!(&bare[0], StyledLine::FenceOpen(t) if t == "code"));
    assert!(matches!(&bare[1], StyledLine::Code(_)));
}

#[test]
fn json_accessors_read_missing_as_null() {
    use_json_accessors();
}

fn use_json_accessors() {
    let doc = obj(vec![("a", obj(vec![("b", n(7))], "{\"b\":7}")), ("s", s("x"))], "");
    assert_eq!(enigma::json::get_u64_or(enigma::json::get(Some(&doc), "a"), "b", 0), 7);
    assert_eq!(enigma::json::get_u64_or(Some(&doc), "missing", 3), 3);
    assert_eq!(enigma::json::get_str_or(Some(&doc), "s", "d"), "x");
    assert_eq!(enigma::json::get_str_or(Some(&doc), "a", "d"), "d");
    assert_eq!(enigma::json::display_text(enigma::json::get(Some(&doc), "a")), "{\"b\":7}");
    assert_eq!(enigma::json::display_text(enigma::json::get(Some(&doc), "zz")), "null");
    assert!(enigma::json::index(enigma::json::get(Some(&doc), "s"), 0).is_none());
}

#[test]
fn requested_and_indexed_paths() {
    assert_eq!(requested_paths("  [\"src/main.rs\", \"Cargo.toml\"] \n"), Some(strings(&["src/main.rs", "Cargo.toml"])));
    assert_eq!(requested_paths("Read [src/main.rs]"), None);
    assert_eq!(requested_paths("[1, 2]"), None);
    assert_eq!(indexed_paths("[\"a\", \"b/c\"]"), strings(&["a", "b/c"]));
    assert!(indexed_paths("{}").is_empty());
    assert_eq!(string_array("[\"x\"]"), Some(strings(&["x"])));
    assert_eq!(string_array("not json"), None);
}

#[test]
fn failed_keys_are_skipped() {
    let table = provider_table();
    let keys: Vec<String> = table.iter().map(|_| "k".to_string()).collect();
    let mut t = RequestTracker::default_state("d");
    t.validate_mode = true;
    t.record_key_health("GROQ_KEY", false, false);
    assert!(!t.is_healthy("GROQ_KEY"));
    assert_eq!(t.next_provider(&table, &keys, 0), Some(1));
    t.record_key_health("GROQ_KEY2", true, false);
    assert_eq!(t.next_provider(&table, &keys, 0), Some(2));
}

#[test]
fn session_steps_keep_the_prompt_count_and_settings() {
    let mut t = RequestTracker::default_state("d");
    t.max_steps = 7;
    let mut session = set_control_with_persona(t, "hi", "Helpful");
    let table = provider_table();
    session.failed(0, &table[0], "500 server error");
    session.succeeded(&table[1]);
    assert_eq!(session.tracker.requests_per_prompt, 1);
    assert_eq!(session.tracker.persona, "Helpful");
    assert_eq!(session.tracker.max_steps, 7);
    session.tracker.record_key_health("GROQ_KEY", true, false);
    assert_eq!(session.tracker.requests_per_prompt, 1);
    assert_eq!(session.tracker.slot_usage(&table[1]), 1);
}
