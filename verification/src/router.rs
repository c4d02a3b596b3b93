//! The assistant's front door: command-line options, the interactive menu,
//! the lines typed at its prompts, the router that sends a request to one of
//! the assistant's modes, and the prompts those modes send to the model.

use vstd::prelude::*;
use vstd::string::*;
use crate::text::{
    chars_eq_str, contains, extend_str, find_char, from_chars, lemma_contains_char, to_chars, trim,
    trim_chars,
};
use crate::json::{opt, u64_or, get_u64_or, JsonValue};

verus! {

// ───────────────────────── prompt lines ─────────────────────────

/// What a line typed at an interactive prompt asks for.
pub enum PromptLine {
    /// `quit` or `exit`.
    Quit,
    /// Nothing but whitespace.
    Empty,
    /// A request: the trimmed line.
    Request(String),
}

/// Reads a line typed at an interactive prompt.
pub fn prompt_line(input: &str) -> (r: PromptLine)
    ensures
        r is Quit <==> (trim(input@) == "quit"@ || trim(input@) == "exit"@),
        r is Empty <==> trim(input@).len() == 0,
        r matches PromptLine::Request(t) ==> t@ == trim(input@),
{
    let v = to_chars(input);
    let t = trim_chars(&v);
    proof {
        reveal_strlit("quit");
        reveal_strlit("exit");
    }
    if chars_eq_str(&t, "quit") || chars_eq_str(&t, "exit") {
        PromptLine::Quit
    } else if t.len() == 0 {
        PromptLine::Empty
    } else {
        PromptLine::Request(from_chars(&t))
    }
}

// ───────────────────────── command line ─────────────────────────

/// The options given on the command line.
pub struct CliOptions {
    pub persona: String,
    pub target_url: String,
    /// `--prompt`: a request to route and answer without the menu.
    pub task: Option<String>,
    /// `--filter`: an original request and a technical output to rephrase.
    pub filter: Option<(String, String)>,
    /// `--brain`: a request for the multi-step planner.
    pub brain_task: Option<String>,
}

/// The options as character sequences.
pub struct CliView {
    pub persona: Seq<char>,
    pub target_url: Seq<char>,
    pub task: Option<Seq<char>>,
    pub filter: Option<(Seq<char>, Seq<char>)>,
    pub brain_task: Option<Seq<char>>,
}

/// The view of parsed options.
pub open spec fn cli_view(o: CliOptions) -> CliView {
    CliView {
        persona: o.persona@,
        target_url: o.target_url@,
        task: match o.task {
            Some(t) => Some(t@),
            None => None,
        },
        filter: match o.filter {
            Some(f) => Some((f.0@, f.1@)),
            None => None,
        },
        brain_task: match o.brain_task {
            Some(t) => Some(t@),
            None => None,
        },
    }
}

/// The options before any argument is read.
pub open spec fn default_cli() -> CliView {
    CliView { persona: "Quick"@, target_url: ""@, task: None, filter: None, brain_task: None }
}

/// Scans the arguments from position `i`: a known flag followed by enough
/// values takes them (a later flag overriding an earlier one), anything else
/// is skipped.
pub open spec fn scan_args(args: Seq<Seq<char>>, i: int, o: CliView) -> CliView
    decreases args.len() - i,
{
    if i < 0 || i >= args.len() {
        o
    } else if args[i] == "--persona"@ && i + 1 < args.len() {
        scan_args(
            args,
            i + 2,
            CliView { persona: args[i + 1], target_url: o.target_url, task: o.task, filter: o.filter, brain_task: o.brain_task },
        )
    } else if args[i] == "--prompt"@ && i + 1 < args.len() {
        scan_args(
            args,
            i + 2,
            CliView { persona: o.persona, target_url: o.target_url, task: Some(args[i + 1]), filter: o.filter, brain_task: o.brain_task },
        )
    } else if args[i] == "--filter"@ && i + 2 < args.len() {
        scan_args(
            args,
            i + 3,
            CliView { persona: o.persona, target_url: o.target_url, task: o.task, filter: Some((args[i + 1], args[i + 2])), brain_task: o.brain_task },
        )
    } else if args[i] == "--url"@ && i + 1 < args.len() {
        scan_args(
            args,
            i + 2,
            CliView { persona: o.persona, target_url: args[i + 1], task: o.task, filter: o.filter, brain_task: o.brain_task },
        )
    } else if args[i] == "--brain"@ && i + 1 < args.len() {
        scan_args(
            args,
            i + 2,
            CliView { persona: o.persona, target_url: o.target_url, task: o.task, filter: o.filter, brain_task: Some(args[i + 1]) },
        )
    } else {
        scan_args(args, i + 1, o)
    }
}

/// The views of strings.
pub open spec fn arg_views(v: Seq<String>) -> Seq<Seq<char>> {
    v.map_values(|s: String| s@)
}

/// Parses the command line (`args[0]` is the program).
pub fn parse_args(args: &Vec<String>) -> (r: CliOptions)
    ensures
        cli_view(r) == scan_args(arg_views(args@), 1, default_cli()),
{
    let ghost av = arg_views(args@);
    let mut o = CliOptions {
        persona: "Quick".to_owned(),
        target_url: "".to_owned(),
        task: None,
        filter: None,
        brain_task: None,
    };
    let n = args.len();
    let mut i: usize = 1;
    while i < n
        invariant
            n == args@.len(),
            av == arg_views(args@),
            1 <= i,
            scan_args(av, 1, default_cli()) == scan_args(av, i as int, cli_view(o)),
        decreases n - i,
    {
        let a = to_chars(args[i].as_str());
        assert(av[i as int] == args@[i as int]@);
        if chars_eq_str(&a, "--persona") && i + 1 < n {
            o.persona = args[i + 1].clone();
            i = i + 2;
        } else if chars_eq_str(&a, "--prompt") && i + 1 < n {
            o.task = Some(args[i + 1].clone());
            i = i + 2;
        } else if chars_eq_str(&a, "--filter") && n - i > 2 {
            o.filter = Some((args[i + 1].clone(), args[i + 2].clone()));
            i = i + 3;
        } else if chars_eq_str(&a, "--url") && i + 1 < n {
            o.target_url = args[i + 1].clone();
            i = i + 2;
        } else if chars_eq_str(&a, "--brain") && i + 1 < n {
            o.brain_task = Some(args[i + 1].clone());
            i = i + 2;
        } else {
            i = i + 1;
        }
    }
    o
}

// ───────────────────────── the menu ─────────────────────────

/// What a menu choice selects.
pub enum MenuChoice {
    Chat,
    Analyze,
    Execute,
    Create,
    SwitchPersona,
    Spotify,
    Brain,
    Exit,
    Unknown,
}

/// Reads a menu choice (`1` to `8`, or `quit`/`exit`).
pub fn menu_choice(line: &str) -> (r: MenuChoice)
    ensures
        r is Chat <==> trim(line@) == "1"@,
        r is Analyze <==> trim(line@) == "2"@,
        r is Execute <==> trim(line@) == "3"@,
        r is Create <==> trim(line@) == "4"@,
        r is SwitchPersona <==> trim(line@) == "5"@,
        r is Spotify <==> trim(line@) == "6"@,
        r is Brain <==> trim(line@) == "7"@,
        r is Exit <==> (trim(line@) == "8"@ || trim(line@) == "quit"@ || trim(line@) == "exit"@),
{
    let v = to_chars(line);
    let t = trim_chars(&v);
    proof {
        reveal_strlit("1");
        reveal_strlit("2");
        reveal_strlit("3");
        reveal_strlit("4");
        reveal_strlit("5");
        reveal_strlit("6");
        reveal_strlit("7");
        reveal_strlit("8");
        reveal_strlit("quit");
        reveal_strlit("exit");
        assert("1"@[0] == '1' && "2"@[0] == '2' && "3"@[0] == '3' && "4"@[0] == '4');
        assert("5"@[0] == '5' && "6"@[0] == '6' && "7"@[0] == '7' && "8"@[0] == '8');
        assert("quit"@[0] == 'q' && "exit"@[0] == 'e');
    }
    if chars_eq_str(&t, "1") {
        MenuChoice::Chat
    } else if chars_eq_str(&t, "2") {
        MenuChoice::Analyze
    } else if chars_eq_str(&t, "3") {
        MenuChoice::Execute
    } else if chars_eq_str(&t, "4") {
        MenuChoice::Create
    } else if chars_eq_str(&t, "5") {
        MenuChoice::SwitchPersona
    } else if chars_eq_str(&t, "6") {
        MenuChoice::Spotify
    } else if chars_eq_str(&t, "7") {
        MenuChoice::Brain
    } else if chars_eq_str(&t, "8") || chars_eq_str(&t, "quit") || chars_eq_str(&t, "exit") {
        MenuChoice::Exit
    } else {
        MenuChoice::Unknown
    }
}

/// The other persona: "Helpful" after "Quick", "Quick" after anything else.
pub fn toggled_persona(persona: &str) -> (r: String)
    ensures
        r@ == if persona@ == "Quick"@ {
            "Helpful"@
        } else {
            "Quick"@
        },
{
    let p = to_chars(persona);
    if chars_eq_str(&p, "Quick") {
        "Helpful".to_owned()
    } else {
        "Quick".to_owned()
    }
}

/// `s` padded with spaces on the right to at least `width` characters.
pub open spec fn pad_right(s: Seq<char>, width: nat) -> Seq<char> {
    if s.len() >= width {
        s
    } else {
        s + Seq::new((width - s.len()) as nat, |i: int| ' ')
    }
}

/// The menu up to the persona.
pub const MENU_HEAD: &'static str = "\n╔══════════════════════════════════════════╗\n║       🌌 Enigma AI Assistant 🌌         ║\n╠══════════════════════════════════════════╣\n║ [Mode: ";

/// The menu between the persona and the persona offered.
pub const MENU_MID: &'static str = "] ║\n╠══════════════════════════════════════════╣\n║  1. 💬 Quick AI Chat                     ║\n║  2. 🔍 Analyze Project / Knowledge       ║\n║  3. 🛠️  Execute Tasks                    ║\n║  4. ✍️  Generate Content / Files          ║\n║  5. 🎭 Switch to ";

/// The rest of the menu.
pub const MENU_TAIL: &'static str = " Persona      ║\n║  6. 🎵 Spotify Integration               ║\n║  7. 🧠 Brain Mode (Multi-Step)           ║\n║  8. 🚪 Exit                              ║\n╚══════════════════════════════════════════╝\n";

/// The persona the menu offers to switch to, padded to the menu's width.
pub open spec fn offered_persona(persona: Seq<char>) -> Seq<char> {
    if persona == "Quick"@ {
        "Helpful  "@
    } else {
        "Quick    "@
    }
}

/// The main menu for the persona in use.
pub open spec fn menu_text_spec(persona: Seq<char>) -> Seq<char> {
    MENU_HEAD@ + pad_right(persona + " Assistant"@, 32) + MENU_MID@ + offered_persona(persona)
        + MENU_TAIL@
}

/// The main menu for the persona in use.
pub fn menu_text(persona: &str) -> (r: String)
    ensures
        r@ == menu_text_spec(persona@),
{
    let mut mode: Vec<char> = Vec::new();
    extend_str(&mut mode, persona);
    extend_str(&mut mode, " Assistant");
    let ghost m = mode@;
    let mut t: Vec<char> = Vec::new();
    extend_str(&mut t, MENU_HEAD);
    let len = mode.len();
    crate::text::extend_chars(&mut t, &mode);
    if len < 32 {
        let ghost before = t@;
        let mut k: usize = len;
        while k < 32
            invariant
                len <= k <= 32,
                len == m.len(),
                t@ == before + Seq::new((k - len) as nat, |i: int| ' '),
            decreases 32 - k,
        {
            t.push(' ');
            assert(before + Seq::new((k + 1 - len) as nat, |i: int| ' ') =~= before + Seq::new(
                (k - len) as nat,
                |i: int| ' ',
            ).push(' '));
            k = k + 1;
        }
    }
    extend_str(&mut t, MENU_MID);
    let p = to_chars(persona);
    if chars_eq_str(&p, "Quick") {
        extend_str(&mut t, "Helpful  ");
    } else {
        extend_str(&mut t, "Quick    ");
    }
    extend_str(&mut t, MENU_TAIL);
    from_chars(&t)
}

// ───────────────────────── routing ─────────────────────────

/// Some character of `s` is `c`.
pub open spec fn mentions(s: Seq<char>, c: char) -> bool {
    exists|i: int| 0 <= i < s.len() && s[i] == c
}

/// A reply that is not JSON routes to the lowest of the category digits 2,
/// 3, 4 and 5 that it mentions, and to general chat (1) when it mentions none
/// of them; so each of the four is reachable, a reply `5` routing to Spotify.
pub proof fn law_fallback_routes_by_lowest_digit(reply: Seq<char>)
    ensures
        mentions(reply, '2') ==> route_category_spec(None, reply) == 2,
        !mentions(reply, '2') && mentions(reply, '3') ==> route_category_spec(None, reply) == 3,
        !mentions(reply, '2') && !mentions(reply, '3') && mentions(reply, '4')
            ==> route_category_spec(None, reply) == 4,
        !mentions(reply, '2') && !mentions(reply, '3') && !mentions(reply, '4') && mentions(
            reply,
            '5',
        ) ==> route_category_spec(None, reply) == 5,
        !mentions(reply, '2') && !mentions(reply, '3') && !mentions(reply, '4') && !mentions(
            reply,
            '5',
        ) ==> route_category_spec(None, reply) == 1,
{
    lemma_contains_char(reply, '2');
    lemma_contains_char(reply, '3');
    lemma_contains_char(reply, '4');
    lemma_contains_char(reply, '5');
}

/// The mode a request is routed to.
pub enum Route {
    Chat,
    Analysis,
    Action,
    Creation,
    Spotify,
}

/// The router's instructions, up to the request.
pub const ROUTER_HEAD: &'static str = "\n        Examine the user request and categorize it into exactly one of these 5 categories.\n        Return ONLY a JSON object with \"thought\" (your reasoning) and \"category\" (1-5).\n\n        CATEGORIES:\n        1: General Chat / Quick Question\n           - Use for: Greetings, \"Who are you?\", simple math, or broad non-technical questions.\n           - Example: \"Hello\", \"What time is it?\", \"Tell me a joke\".\n        2: Research / Analysis / Synthesis\n           - Use for: Explaining concepts, summarizing projects/files, finding information, or analyzing data/logs.\n           - Example: \"What does this project do?\", \"Summarize these logs\", \"Explain how the networking works\".\n        3: System Tasks / Command Execution / Local Media\n           - Use for: Running commands, managing the filesystem, checking system status, or technical automation.\n           - IMPORTANT: Use this for playing LOCAL files (Movies, MP4, MKV, local MP3) and opening documents (PDF, DOCX, TXT).\n           - Example: \"List files in Desktop\", \"Play movie.mp4\", \"Open report.pdf\", \"Run the local server\".\n        4: Content Creation / Modification\n           - Use for: Writing documents, editing files, generating code, creating scripts, or fixing specific content.\n           - Example: \"Write a report on today's logs\", \"Add a new feature\", \"Edit the configuration file\".\n        5: Spotify API / Music Streaming\n           - Use for: ONLY controlling music playback via Spotify API, searching Spotify playlists, or managing your Spotify library.\n           - DO NOT use for local files or 'tracking' non-music items.\n           - Example: \"Show my playlists on Spotify\", \"Search for jazz music\", \"Play some Chill vibes\".\n\n        User Request: \"";

/// The router's instructions after the request.
pub const ROUTER_TAIL: &'static str = "\"\n    ";

/// The prompt asking the model to categorise a request.
pub fn router_prompt(task: &str) -> (r: String)
    ensures
        r@ == ROUTER_HEAD@ + task@ + ROUTER_TAIL@,
{
    let mut t: Vec<char> = Vec::new();
    extend_str(&mut t, ROUTER_HEAD);
    extend_str(&mut t, task);
    extend_str(&mut t, ROUTER_TAIL);
    from_chars(&t)
}

/// The category read from a reply that is not JSON: the first of `2`, `3`,
/// `4`, `5` the reply contains, else 1.
pub open spec fn fallback_category_spec(reply: Seq<char>) -> u64 {
    if contains(reply, seq!['2']) {
        2
    } else if contains(reply, seq!['3']) {
        3
    } else if contains(reply, seq!['4']) {
        4
    } else if contains(reply, seq!['5']) {
        5
    } else {
        1
    }
}

/// The category of the router's reply: its JSON `category` (1 when missing),
/// or, when the reply is not JSON, the first category digit it mentions.
pub open spec fn route_category_spec(parsed: Option<JsonValue>, reply: Seq<char>) -> u64 {
    match parsed {
        Some(v) => u64_or(Some(v), "category"@, 1),
        None => fallback_category_spec(reply),
    }
}

/// Reads the router's reply; `parsed` is its JSON when it parsed.
pub fn route_category(parsed: Option<&JsonValue>, reply: &str) -> (r: u64)
    ensures
        r == route_category_spec(opt(parsed), reply@),
{
    match parsed {
        Some(v) => get_u64_or(Some(v), "category", 1),
        None => {
            let v = to_chars(reply);
            if find_char(&v, '2').is_some() {
                2
            } else if find_char(&v, '3').is_some() {
                3
            } else if find_char(&v, '4').is_some() {
                4
            } else if find_char(&v, '5').is_some() {
                5
            } else {
                1
            }
        },
    }
}

/// The mode of a category: 2 analysis, 3 action, 4 creation, 5 Spotify,
/// anything else chat.
pub fn route_of(category: u64) -> (r: Route)
    ensures
        r is Analysis <==> category == 2,
        r is Action <==> category == 3,
        r is Creation <==> category == 4,
        r is Spotify <==> category == 5,
        r is Chat <==> !(2 <= category <= 5),
{
    if category == 2 {
        Route::Analysis
    } else if category == 3 {
        Route::Action
    } else if category == 4 {
        Route::Creation
    } else if category == 5 {
        Route::Spotify
    } else {
        Route::Chat
    }
}

/// The banner announcing a mode.
pub fn route_banner(route: &Route) -> (r: &'static str)
    ensures
        r@ == match route {
            Route::Analysis => "🔍 Enigma Analysis:"@,
            Route::Action => "🛠️ Enigma Action:"@,
            Route::Creation => "✍️ Enigma Creation:"@,
            Route::Spotify => "🎵 Enigma Spotify:"@,
            Route::Chat => "💬 Enigma Chat:"@,
        },
{
    match route {
        Route::Analysis => "🔍 Enigma Analysis:",
        Route::Action => "🛠️ Enigma Action:",
        Route::Creation => "✍️ Enigma Creation:",
        Route::Spotify => "🎵 Enigma Spotify:",
        Route::Chat => "💬 Enigma Chat:",
    }
}

// ───────────────────────── the modes' prompts ─────────────────────────

/// Asks for the files of a tree relevant to a request.
pub const ANALYSIS_FILTER: &'static str = "Return ONLY a valid JSON array, no markdown, no explanation, no decorators.Filter this file tree to only documents or projects relevant to this request: ";

/// Asks for the files of a tree related to a topic.
pub const CREATION_LISTING: &'static str = "Return ONLY a valid JSON array, no markdown, no explanation, no decorators.List any documents or files related to this topic: ";

/// Asks for the files to write, as a JSON array.
pub const CREATION_FILES: &'static str = "Return ONLY a valid JSON array of objects, each with 'path' and 'content'. No markdown, no explanation. Task: ";

/// The rephrasing instructions, up to the original request.
pub const FILTER_HEAD: &'static str = "You are an expert communicator. Convert the following technical output into a clean, friendly response for the user. The user's original request was: '";

/// The rephrasing instructions after the original request.
pub const FILTER_TAIL: &'static str = "'.\n\nSTRICT RULES:\n1. NEVER include base64, hex, binary data, or encoded strings. If you see long strings of random characters, IGNORE them entirely.\n2. If the output is JSON with file paths/content, extract ONLY the human-readable text message - not file paths or binary content.\n3. For voice note requests, extract and return the EXACT, FULL message that should be spoken. DO NOT output a confirmation like 'Your voice note is ready!'. The text you output will be directly read aloud by TTS. Preserve all details.\n4. If the output is already natural language, return it as-is (refined if needed, but keeping details intact).\n5. Never mention JSON, base64, binary, or technical implementation details.\n\nTechnical output to process:\n";

fn concat2(a: &str, b: &str) -> (r: String)
    ensures
        r@ == a@ + b@,
{
    let mut t: Vec<char> = Vec::new();
    extend_str(&mut t, a);
    extend_str(&mut t, b);
    from_chars(&t)
}

fn concat4(a: &str, b: &str, c: &str, d: &str) -> (r: String)
    ensures
        r@ == a@ + b@ + c@ + d@,
{
    let mut t: Vec<char> = Vec::new();
    extend_str(&mut t, a);
    extend_str(&mut t, b);
    extend_str(&mut t, c);
    extend_str(&mut t, d);
    from_chars(&t)
}

/// The analysis mode's first prompt: pick the relevant files of the tree.
pub fn analysis_filter_prompt(tree_json: &str) -> (r: String)
    ensures
        r@ == ANALYSIS_FILTER@ + tree_json@,
{
    concat2(ANALYSIS_FILTER, tree_json)
}

/// The analysis mode's second prompt: the request with the files' contents.
pub fn analysis_help_prompt(task: &str, files_json: &str) -> (r: String)
    ensures
        r@ == "Help me with this request: '"@ + task@
            + "'. Use the following project/file context if helpful:\n"@ + files_json@,
{
    concat4(
        "Help me with this request: '",
        task,
        "'. Use the following project/file context if helpful:\n",
        files_json,
    )
}

/// The prompt asking to rephrase a technical output for the user.
pub fn filter_prompt(original: &str, output: &str) -> (r: String)
    ensures
        r@ == FILTER_HEAD@ + original@ + FILTER_TAIL@ + output@,
{
    concat4(FILTER_HEAD, original, FILTER_TAIL, output)
}

/// The creation mode's first prompt: list the files related to the topic.
pub fn creation_listing_prompt(tree_json: &str) -> (r: String)
    ensures
        r@ == CREATION_LISTING@ + tree_json@,
{
    concat2(CREATION_LISTING, tree_json)
}

/// The creation mode's second prompt: the files to write for the task, with
/// the related files as context.
pub fn creation_files_prompt(task: &str, listing: &str) -> (r: String)
    ensures
        r@ == CREATION_FILES@ + task@ + ". Check this project tree for context: "@ + listing@,
{
    concat4(CREATION_FILES, task, ". Check this project tree for context: ", listing)
}

/// The chat mode's prompt.
pub fn chat_prompt(task: &str, context: &str) -> (r: String)
    ensures
        r@ == "Assist with this request: '"@ + task@ + "'. Use this context if relevant: "@
            + context@,
{
    concat4("Assist with this request: '", task, "'. Use this context if relevant: ", context)
}

/// The request the menu's analysis entry makes.
pub const MENU_ANALYSIS_TASK: &'static str = "Provide a supportive summary and help with the project.";

/// The request the interactive code analyser makes.
pub const CODE_ANALYSIS_TASK: &'static str = "Analyze these files and suggest general improvements.";

/// The answer when Spotify has not been authorised yet.
pub const SPOTIFY_UNAUTHORISED: &'static str = "❌ Spotify is not authorized. Please run the assistant and select option 6 first.";

} // verus!
