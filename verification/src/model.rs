//! Provider bookkeeping: the provider table, the daily usage tracker and the
//! decisions `smart_prompt` makes between model calls (which provider to try
//! next, what a success or a failure records, how long to wait).

use vstd::prelude::*;
use crate::table::KeyTable;
use crate::text::{chars_eq_str, contains, contains_str, extend_str, from_chars, to_chars};
use crate::json::{at_index, at_key, display, display_text, get, get_str, get_str_or, index, opt, str_or, JsonValue};

verus! {

/// Which chat API a provider slot talks to.
#[derive(Clone, Copy, Debug, PartialEq, Eq)]
pub enum Backend {
    Gemini(&'static str),
    Groq,
    Cerebras,
    Mistral,
    OpenRouterGpt,
    OpenRouterNemotron,
}

/// One provider slot: an API key on a backend with a daily call limit.
#[derive(Clone, Copy, Debug)]
pub struct ProviderSlot {
    pub id: &'static str,
    pub label: &'static str,
    pub limit: u32,
    /// Name of the API key constant the slot uses.
    pub key_name: &'static str,
    pub backend: Backend,
    pub throttle_ms: Option<u64>,
}

/// The persisted usage tracker (`tracker.json`) plus the persona in use.
#[derive(Debug)]
pub struct RequestTracker {
    pub usage: KeyTable<u32>,
    pub eyes_calls: u32,
    pub last_reset_date: String,
    pub task_mode: String,
    pub requests_per_prompt: u32,
    pub max_steps: u32,
    pub max_retries: u8,
    pub max_rollbacks: u32,
    pub validate_mode: bool,
    pub key_health: KeyTable<bool>,
    pub persona: String,
}

/// Daily limit of rerank ("eyes") calls.
pub const EYES_LIMIT: u32 = 50;

/// Prefix given to prompts for the "Helpful" persona.
pub open spec fn helpful_prefix() -> Seq<char> {
    "You are a detailed, conversational AI collaborator. Explain your reasoning and provide thorough answers. "@
}

/// Prefix given to prompts for every other persona.
pub open spec fn quick_prefix() -> Seq<char> {
    "You are a quick AI assistant. Be concise, direct, and efficient. Avoid unnecessary fluff. "@
}

/// The prompt prefix of a persona.
pub open spec fn persona_prefix_spec(persona: Seq<char>) -> Seq<char> {
    if persona == "Helpful"@ {
        helpful_prefix()
    } else {
        quick_prefix()
    }
}

/// The prompt prefix of a persona.
pub fn persona_prefix(persona: &str) -> (r: &'static str)
    ensures
        r@ == persona_prefix_spec(persona@),
{
    let pv = to_chars(persona);
    if chars_eq_str(&pv, "Helpful") {
        "You are a detailed, conversational AI collaborator. Explain your reasoning and provide thorough answers. "
    } else {
        "You are a quick AI assistant. Be concise, direct, and efficient. Avoid unnecessary fluff. "
    }
}

/// The prompt sent to a provider: the persona prefix in front when asked for.
pub fn enriched_prompt(persona: &str, prompt: &str, inject_persona: bool) -> (r: String)
    ensures
        r@ == if inject_persona {
            persona_prefix_spec(persona@) + prompt@
        } else {
            prompt@
        },
{
    let mut v: Vec<char> = Vec::new();
    if inject_persona {
        extend_str(&mut v, persona_prefix(persona));
    }
    extend_str(&mut v, prompt);
    assert(inject_persona || v@ =~= prompt@);
    from_chars(&v)
}

/// The default task mode.
pub fn default_mode() -> (r: String)
    ensures
        r@ == "Brain"@,
{
    "Brain".to_owned()
}

/// The default number of review retries.
pub fn default_retries() -> (r: u8)
    ensures
        r == 1,
{
    1
}

/// The answer given when no provider could be used.
pub fn exhausted_message() -> (r: String)
    ensures
        r@ == "❌ All providers exhausted for today. Try again tomorrow!"@,
{
    "❌ All providers exhausted for today. Try again tomorrow!".to_owned()
}

/// Number of provider slots.
pub open spec fn provider_count() -> nat {
    23
}

/// The `i`-th provider slot: its id, daily limit, throttle gap, label, the
/// name of its API key and its backend.
pub open spec fn provider_spec(i: int) -> (Seq<char>, u32, Option<u64>, Seq<char>, Seq<char>, Backend) {
    if i == 0 { ("groq_1"@, 250, None, "Groq v1"@, "GROQ_KEY"@, Backend::Groq) }
    else if i == 1 { ("groq_2"@, 250, None, "Groq v2"@, "GROQ_KEY2"@, Backend::Groq) }
    else if i == 2 { ("groq_3"@, 250, None, "Groq v3"@, "GROQ_KEY3"@, Backend::Groq) }
    else if i == 3 { ("groq_4"@, 250, None, "Groq v4"@, "GROQ_KEY4"@, Backend::Groq) }
    else if i == 4 { ("or_gpt_1"@, 250, None, "OpenAI GPT-OSS v1"@, "OPEN_ROUTER_KEY"@, Backend::OpenRouterGpt) }
    else if i == 5 { ("or_gpt_2"@, 250, None, "OpenAI GPT-OSS v2"@, "GPT_120_KEY2"@, Backend::OpenRouterGpt) }
    else if i == 6 { ("or_gpt_3"@, 250, None, "OpenAI GPT-OSS v3"@, "GPT_120_KEY3"@, Backend::OpenRouterGpt) }
    else if i == 7 { ("or_gpt_4"@, 250, None, "OpenAI GPT-OSS v4"@, "GPT_120_KEY4"@, Backend::OpenRouterGpt) }
    else if i == 8 { ("or_nemo_1"@, 250, None, "Nvidia Nemotron v1"@, "OPEN_ROUTER_KEY"@, Backend::OpenRouterNemotron) }
    else if i == 9 { ("flash_lite_1"@, 1000, None, "Gemini Flash-Lite v1"@, "GEMINI_KEY"@, Backend::Gemini("gemini-2.5-flash-lite")) }
    else if i == 10 { ("flash_lite_2"@, 1000, None, "Gemini Flash-Lite v2"@, "GEMINI_KEY2"@, Backend::Gemini("gemini-2.5-flash-lite")) }
    else if i == 11 { ("flash_lite_3"@, 1000, None, "Gemini Flash-Lite v3"@, "GEMINI_KEY3"@, Backend::Gemini("gemini-2.5-flash-lite")) }
    else if i == 12 { ("flash_lite_4"@, 1000, None, "Gemini Flash-Lite v4"@, "GEMINI_KEY4"@, Backend::Gemini("gemini-2.5-flash-lite")) }
    else if i == 13 { ("flash_1"@, 250, None, "Gemini Flash v1"@, "GEMINI_KEY"@, Backend::Gemini("gemini-2.5-flash")) }
    else if i == 14 { ("flash_2"@, 250, None, "Gemini Flash v2"@, "GEMINI_KEY2"@, Backend::Gemini("gemini-2.5-flash")) }
    else if i == 15 { ("flash_3"@, 250, None, "Gemini Flash v3"@, "GEMINI_KEY3"@, Backend::Gemini("gemini-2.5-flash")) }
    else if i == 16 { ("flash_4"@, 250, None, "Gemini Flash v4"@, "GEMINI_KEY4"@, Backend::Gemini("gemini-2.5-flash")) }
    else if i == 17 { ("pro_1"@, 250, None, "Gemini Pro v1"@, "GEMINI_KEY"@, Backend::Gemini("gemini-2.5-pro")) }
    else if i == 18 { ("pro_2"@, 250, None, "Gemini Pro v2"@, "GEMINI_KEY2"@, Backend::Gemini("gemini-2.5-pro")) }
    else if i == 19 { ("pro_3"@, 250, None, "Gemini Pro v3"@, "GEMINI_KEY3"@, Backend::Gemini("gemini-2.5-pro")) }
    else if i == 20 { ("pro_4"@, 250, None, "Gemini Pro v4"@, "GEMINI_KEY4"@, Backend::Gemini("gemini-2.5-pro")) }
    else if i == 21 { ("cerebras"@, 250, Some(1100), "Cerebras Llama 70B"@, "CEREBRAS_KEY"@, Backend::Cerebras) }
    else { ("mistral"@, 250, Some(1100), "Mistral Small"@, "MISTRAL_KEY"@, Backend::Mistral) }
}

fn slot(
    id: &'static str,
    label: &'static str,
    limit: u32,
    key_name: &'static str,
    backend: Backend,
    throttle_ms: Option<u64>,
) -> (s: ProviderSlot)
    ensures
        s.id == id,
        s.label == label,
        s.limit == limit,
        s.key_name == key_name,
        s.backend == backend,
        s.throttle_ms == throttle_ms,
{
    ProviderSlot { id, label, limit, key_name, backend, throttle_ms }
}

/// The provider slots in the order they are tried.
pub fn provider_table() -> (t: Vec<ProviderSlot>)
    ensures
        t@.len() == provider_count(),
        forall|i: int|
            0 <= i < t@.len() ==> (#[trigger] t@[i]).id@ == provider_spec(i).0 && t@[i].limit
                == provider_spec(i).1 && t@[i].throttle_ms == provider_spec(i).2 && t@[i].label@
                == provider_spec(i).3 && t@[i].key_name@ == provider_spec(i).4 && t@[i].backend
                == provider_spec(i).5,
        ids_fix_limits(t@),
{
    let mut t: Vec<ProviderSlot> = Vec::new();
    t.push(slot("groq_1", "Groq v1", 250, "GROQ_KEY", Backend::Groq, None));
    t.push(slot("groq_2", "Groq v2", 250, "GROQ_KEY2", Backend::Groq, None));
    t.push(slot("groq_3", "Groq v3", 250, "GROQ_KEY3", Backend::Groq, None));
    t.push(slot("groq_4", "Groq v4", 250, "GROQ_KEY4", Backend::Groq, None));
    t.push(slot("or_gpt_1", "OpenAI GPT-OSS v1", 250, "OPEN_ROUTER_KEY", Backend::OpenRouterGpt, None));
    t.push(slot("or_gpt_2", "OpenAI GPT-OSS v2", 250, "GPT_120_KEY2", Backend::OpenRouterGpt, None));
    t.push(slot("or_gpt_3", "OpenAI GPT-OSS v3", 250, "GPT_120_KEY3", Backend::OpenRouterGpt, None));
    t.push(slot("or_gpt_4", "OpenAI GPT-OSS v4", 250, "GPT_120_KEY4", Backend::OpenRouterGpt, None));
    t.push(slot("or_nemo_1", "Nvidia Nemotron v1", 250, "OPEN_ROUTER_KEY", Backend::OpenRouterNemotron, None));
    t.push(slot("flash_lite_1", "Gemini Flash-Lite v1", 1000, "GEMINI_KEY", Backend::Gemini("gemini-2.5-flash-lite"), None));
    t.push(slot("flash_lite_2", "Gemini Flash-Lite v2", 1000, "GEMINI_KEY2", Backend::Gemini("gemini-2.5-flash-lite"), None));
    t.push(slot("flash_lite_3", "Gemini Flash-Lite v3", 1000, "GEMINI_KEY3", Backend::Gemini("gemini-2.5-flash-lite"), None));
    t.push(slot("flash_lite_4", "Gemini Flash-Lite v4", 1000, "GEMINI_KEY4", Backend::Gemini("gemini-2.5-flash-lite"), None));
    t.push(slot("flash_1", "Gemini Flash v1", 250, "GEMINI_KEY", Backend::Gemini("gemini-2.5-flash"), None));
    t.push(slot("flash_2", "Gemini Flash v2", 250, "GEMINI_KEY2", Backend::Gemini("gemini-2.5-flash"), None));
    t.push(slot("flash_3", "Gemini Flash v3", 250, "GEMINI_KEY3", Backend::Gemini("gemini-2.5-flash"), None));
    t.push(slot("flash_4", "Gemini Flash v4", 250, "GEMINI_KEY4", Backend::Gemini("gemini-2.5-flash"), None));
    t.push(slot("pro_1", "Gemini Pro v1", 250, "GEMINI_KEY", Backend::Gemini("gemini-2.5-pro"), None));
    t.push(slot("pro_2", "Gemini Pro v2", 250, "GEMINI_KEY2", Backend::Gemini("gemini-2.5-pro"), None));
    t.push(slot("pro_3", "Gemini Pro v3", 250, "GEMINI_KEY3", Backend::Gemini("gemini-2.5-pro"), None));
    t.push(slot("pro_4", "Gemini Pro v4", 250, "GEMINI_KEY4", Backend::Gemini("gemini-2.5-pro"), None));
    t.push(slot("cerebras", "Cerebras Llama 70B", 250, "CEREBRAS_KEY", Backend::Cerebras, Some(1100)));
    t.push(slot("mistral", "Mistral Small", 250, "MISTRAL_KEY", Backend::Mistral, Some(1100)));
    proof {
        lemma_provider_ids_fix_limits();
        assert forall|a: int, b: int|
            0 <= a < t@.len() && 0 <= b < t@.len() && (#[trigger] t@[a]).id@ == (#[trigger] t@[b]).id@
            implies t@[a].limit == t@[b].limit by {
            assert(provider_spec(a).0 == provider_spec(b).0);
        }
    }
    t
}

/// A key the health check pings, by constant name.
#[derive(Clone, Copy, Debug)]
pub struct HealthKey {
    pub name: &'static str,
    pub backend: Backend,
}

/// The keys the health check pings, in order.
pub fn health_check_keys() -> (r: Vec<HealthKey>)
    ensures
        r@.len() == 12,
        r@[0].name@ == "GEMINI_KEY"@ && r@[1].name@ == "GEMINI_KEY2"@ && r@[2].name@ == "GEMINI_KEY3"@
            && r@[3].name@ == "GEMINI_KEY4"@,
        r@[4].name@ == "GROQ_KEY"@ && r@[5].name@ == "GROQ_KEY2"@ && r@[6].name@ == "GROQ_KEY3"@
            && r@[7].name@ == "GROQ_KEY4"@,
        r@[8].name@ == "OPEN_ROUTER_KEY"@ && r@[9].name@ == "GPT_120_KEY2"@ && r@[10].name@
            == "GPT_120_KEY3"@ && r@[11].name@ == "GPT_120_KEY4"@,
        forall|i: int| 0 <= i < 4 ==> (#[trigger] r@[i]).backend == Backend::Gemini("gemini-2.5-flash-lite"),
        forall|i: int| 4 <= i < 8 ==> (#[trigger] r@[i]).backend == Backend::Groq,
        forall|i: int| 8 <= i < 12 ==> (#[trigger] r@[i]).backend == Backend::OpenRouterGpt,
{
    let mut r: Vec<HealthKey> = Vec::new();
    r.push(HealthKey { name: "GEMINI_KEY", backend: Backend::Gemini("gemini-2.5-flash-lite") });
    r.push(HealthKey { name: "GEMINI_KEY2", backend: Backend::Gemini("gemini-2.5-flash-lite") });
    r.push(HealthKey { name: "GEMINI_KEY3", backend: Backend::Gemini("gemini-2.5-flash-lite") });
    r.push(HealthKey { name: "GEMINI_KEY4", backend: Backend::Gemini("gemini-2.5-flash-lite") });
    r.push(HealthKey { name: "GROQ_KEY", backend: Backend::Groq });
    r.push(HealthKey { name: "GROQ_KEY2", backend: Backend::Groq });
    r.push(HealthKey { name: "GROQ_KEY3", backend: Backend::Groq });
    r.push(HealthKey { name: "GROQ_KEY4", backend: Backend::Groq });
    r.push(HealthKey { name: "OPEN_ROUTER_KEY", backend: Backend::OpenRouterGpt });
    r.push(HealthKey { name: "GPT_120_KEY2", backend: Backend::OpenRouterGpt });
    r.push(HealthKey { name: "GPT_120_KEY3", backend: Backend::OpenRouterGpt });
    r.push(HealthKey { name: "GPT_120_KEY4", backend: Backend::OpenRouterGpt });
    r
}

/// How long to wait before calling a throttled provider again: the rest of
/// the gap since its last call, nothing when the gap has passed or there was
/// no call.
pub fn throttle_wait_nanos(elapsed_nanos: Option<u64>, gap_ms: u64) -> (r: u64)
    requires
        gap_ms <= u64::MAX / 1_000_000,
    ensures
        r == match elapsed_nanos {
            Some(e) => if e < gap_ms * 1_000_000 {
                gap_ms * 1_000_000 - e
            } else {
                0
            },
            None => 0,
        },
{
    match elapsed_nanos {
        Some(e) => {
            let gap = gap_ms * 1_000_000;
            if e < gap {
                gap - e
            } else {
                0
            }
        },
        None => 0,
    }
}

impl RequestTracker {
    /// Usage of a slot today (0 when it was not used).
    pub open spec fn usage_of(&self, id: Seq<char>) -> u32 {
        if self.usage@.contains_key(id) {
            self.usage@[id]
        } else {
            0
        }
    }

    /// `other` has the same counters and settings as `self`: everything but
    /// the usage counts and the key health.
    pub open spec fn same_settings(&self, other: RequestTracker) -> bool {
        &&& other.eyes_calls == self.eyes_calls
        &&& other.last_reset_date@ == self.last_reset_date@
        &&& other.task_mode@ == self.task_mode@
        &&& other.requests_per_prompt == self.requests_per_prompt
        &&& other.max_steps == self.max_steps
        &&& other.max_retries == self.max_retries
        &&& other.max_rollbacks == self.max_rollbacks
        &&& other.validate_mode == self.validate_mode
        &&& other.persona@ == self.persona@
    }

    /// A key or slot id is considered healthy.
    pub open spec fn healthy(&self, id: Seq<char>) -> bool {
        !self.validate_mode || !self.key_health@.contains_key(id) || self.key_health@[id]
    }

    /// A slot may be tried: under its limit, with a key, and healthy both as
    /// a slot (no authorisation failure recorded for it) and through its key
    /// (the health check did not mark its key failed).
    pub open spec fn eligible(&self, s: ProviderSlot, key: Seq<char>) -> bool {
        self.usage_of(s.id@) < s.limit && self.healthy(s.id@) && self.healthy(s.key_name@)
            && key.len() > 0
    }

    /// The tracker a fresh start uses on `today`.
    pub fn default_state(today: &str) -> (t: RequestTracker)
        ensures
            t.usage@ == Map::<Seq<char>, u32>::empty(),
            t.eyes_calls == 0,
            t.last_reset_date@ == today@,
            t.task_mode@ == "Brain"@,
            t.requests_per_prompt == 0,
            t.max_steps == 0,
            t.max_retries == 1,
            t.max_rollbacks == 0,
            !t.validate_mode,
            t.key_health@ == Map::<Seq<char>, bool>::empty(),
            t.persona@ == "Quick"@,
    {
        RequestTracker {
            usage: KeyTable::new(),
            eyes_calls: 0,
            last_reset_date: today.to_owned(),
            task_mode: "Brain".to_owned(),
            requests_per_prompt: 0,
            max_steps: 0,
            max_retries: 1,
            max_rollbacks: 0,
            validate_mode: false,
            key_health: KeyTable::new(),
            persona: "Quick".to_owned(),
        }
    }

    /// Starts a new day: on a date other than the last reset, usage and eyes
    /// calls go back to zero and the date is recorded. Returns whether it
    /// reset (the tracker is then to be saved).
    pub fn check_reset(&mut self, today: &str) -> (reset: bool)
        ensures
            reset == (old(self).last_reset_date@ != today@),
            reset ==> final(self).usage@ == Map::<Seq<char>, u32>::empty()
                && final(self).eyes_calls == 0 && final(self).last_reset_date@ == today@,
            !reset ==> final(self).usage@ == old(self).usage@ && final(self).eyes_calls == old(
                self,
            ).eyes_calls && final(self).last_reset_date@ == old(self).last_reset_date@,
            final(self).key_health@ == old(self).key_health@,
            final(self).max_steps == old(self).max_steps,
            final(self).max_retries == old(self).max_retries,
            final(self).max_rollbacks == old(self).max_rollbacks,
            final(self).validate_mode == old(self).validate_mode,
            final(self).requests_per_prompt == old(self).requests_per_prompt,
            final(self).task_mode@ == old(self).task_mode@,
            final(self).persona@ == old(self).persona@,
    {
        let today_s = today.to_owned();
        if self.last_reset_date != today_s {
            self.usage.clear();
            self.eyes_calls = 0;
            self.last_reset_date = today_s;
            true
        } else {
            false
        }
    }

    /// The tracker for a run: the one loaded from disk (or the default state
    /// when there is none), reset if it is from another day, with the "Quick"
    /// persona. The flag tells whether the reset happened.
    pub fn new(loaded: Option<RequestTracker>, today: &str) -> (r: (RequestTracker, bool))
        ensures
            r.0.persona@ == "Quick"@,
            r.0.last_reset_date@ == today@,
            r.1 == match loaded {
                Some(t) => t.last_reset_date@ != today@,
                None => false,
            },
            match loaded {
                Some(t) => {
                    &&& r.0.max_steps == t.max_steps
                    &&& r.0.max_retries == t.max_retries
                    &&& r.0.max_rollbacks == t.max_rollbacks
                    &&& r.0.validate_mode == t.validate_mode
                    &&& r.0.key_health@ == t.key_health@
                    &&& r.0.task_mode@ == t.task_mode@
                    &&& r.0.requests_per_prompt == t.requests_per_prompt
                    &&& r.0.usage@ == (if r.1 {
                        Map::<Seq<char>, u32>::empty()
                    } else {
                        t.usage@
                    })
                    &&& r.0.eyes_calls == (if r.1 {
                        0
                    } else {
                        t.eyes_calls
                    })
                },
                None => {
                    &&& r.0.max_steps == 0
                    &&& r.0.max_retries == 1
                    &&& r.0.max_rollbacks == 0
                    &&& !r.0.validate_mode
                    &&& r.0.task_mode@ == "Brain"@
                    &&& r.0.requests_per_prompt == 0
                    &&& r.0.key_health@ == Map::<Seq<char>, bool>::empty()
                    &&& r.0.usage@ == Map::<Seq<char>, u32>::empty()
                    &&& r.0.eyes_calls == 0
                },
            },
    {
        let mut t = match loaded {
            Some(t) => t,
            None => RequestTracker::default_state(today),
        };
        let reset = t.check_reset(today);
        t.persona = "Quick".to_owned();
        (t, reset)
    }

    /// Calls made today through a slot.
    pub fn slot_usage(&self, slot: &ProviderSlot) -> (n: u32)
        ensures
            n == self.usage_of(slot.id@),
    {
        match self.usage.get(slot.id) {
            Some(n) => n,
            None => 0,
        }
    }

    /// The slot is under its daily limit.
    pub fn can_use(&self, slot: &ProviderSlot) -> (b: bool)
        ensures
            b == (self.usage_of(slot.id@) < slot.limit),
    {
        self.slot_usage(slot) < slot.limit
    }

    /// Rerank calls remain today.
    pub fn can_use_eyes(&self) -> (b: bool)
        ensures
            b == (self.eyes_calls < EYES_LIMIT),
    {
        self.eyes_calls < EYES_LIMIT
    }

    /// Healthy unless validation is on and the key was marked failed.
    pub fn is_healthy(&self, key_id: &str) -> (b: bool)
        ensures
            b == self.healthy(key_id@),
    {
        if !self.validate_mode {
            return true;
        }
        match self.key_health.get(key_id) {
            Some(h) => h,
            None => true,
        }
    }

    /// Records the outcome of pinging a key: an empty key is unhealthy
    /// without a ping, otherwise the ping's result counts.
    pub fn record_key_health(&mut self, name: &str, key_empty: bool, ping_ok: bool)
        ensures
            final(self).key_health@ == old(self).key_health@.insert(name@, !key_empty && ping_ok),
            final(self).usage@ == old(self).usage@,
            final(self).validate_mode == old(self).validate_mode,
            old(self).same_settings(*final(self)),
    {
        self.key_health.insert(name, !key_empty && ping_ok);
    }

    /// Counts one more prompt.
    pub fn begin_prompt(&mut self)
        requires
            old(self).requests_per_prompt < u32::MAX,
        ensures
            final(self).requests_per_prompt == old(self).requests_per_prompt + 1,
            final(self).usage@ == old(self).usage@,
            final(self).key_health@ == old(self).key_health@,
            final(self).validate_mode == old(self).validate_mode,
            final(self).persona == old(self).persona,
            final(self).eyes_calls == old(self).eyes_calls,
            final(self).last_reset_date == old(self).last_reset_date,
            final(self).max_steps == old(self).max_steps,
            final(self).max_retries == old(self).max_retries,
            final(self).max_rollbacks == old(self).max_rollbacks,
    {
        self.requests_per_prompt = self.requests_per_prompt + 1;
    }

    /// The first slot at or after `from` that may be tried; `keys[i]` is the
    /// API key of `table[i]`.
    pub fn next_provider(&self, table: &Vec<ProviderSlot>, keys: &Vec<String>, from: usize) -> (r:
        Option<usize>)
        requires
            keys@.len() == table@.len(),
        ensures
            r matches Some(i) ==> from <= i < table@.len() && self.eligible(table@[i as int], keys@[i as int]@)
                && forall|j: int| from <= j < i ==> !self.eligible(#[trigger] table@[j], keys@[j]@),
            r is None ==> forall|j: int|
                from <= j < table@.len() ==> !self.eligible(#[trigger] table@[j], keys@[j]@),
    {
        let mut i = from;
        while i < table.len()
            invariant
                keys@.len() == table@.len(),
                from <= i,
                forall|j: int| from <= j < i ==> !self.eligible(#[trigger] table@[j], keys@[j]@),
            decreases table@.len() - i,
        {
            let s = &table[i];
            if self.can_use(s) && self.is_healthy(s.id) && self.is_healthy(s.key_name)
                && !keys[i].as_str().is_empty() {
                return Some(i);
            }
            i += 1;
        }
        None
    }

    /// Records a successful call through a slot: its usage goes up by one.
    pub fn record_success(&mut self, slot: &ProviderSlot)
        requires
            old(self).usage_of(slot.id@) < slot.limit,
        ensures
            final(self).usage@ == old(self).usage@.insert(slot.id@, (old(self).usage_of(slot.id@)
                + 1) as u32),
            final(self).key_health@ == old(self).key_health@,
            final(self).validate_mode == old(self).validate_mode,
            final(self).eyes_calls == old(self).eyes_calls,
            old(self).same_settings(*final(self)),
    {
        let n = self.slot_usage(slot);
        self.usage.insert(slot.id, n + 1);
    }

    /// Records a failed call through a slot: an error mentioning 403 or 401
    /// marks the slot unhealthy; anything else changes nothing.
    pub fn record_failure(&mut self, slot: &ProviderSlot, error: &str)
        ensures
            final(self).key_health@ == if contains(error@, "403"@) || contains(error@, "401"@) {
                old(self).key_health@.insert(slot.id@, false)
            } else {
                old(self).key_health@
            },
            final(self).usage@ == old(self).usage@,
            final(self).validate_mode == old(self).validate_mode,
            final(self).eyes_calls == old(self).eyes_calls,
            old(self).same_settings(*final(self)),
    {
        let ev = to_chars(error);
        if contains_str(&ev, "403") || contains_str(&ev, "401") {
            self.key_health.insert(slot.id, false);
        }
    }
}


impl RequestTracker {
    /// Counts one rerank ("eyes") call.
    pub fn record_eyes_call(&mut self)
        requires
            old(self).eyes_calls < u32::MAX,
        ensures
            final(self).eyes_calls == old(self).eyes_calls + 1,
            final(self).usage@ == old(self).usage@,
            final(self).key_health@ == old(self).key_health@,
    {
        self.eyes_calls = self.eyes_calls + 1;
    }

    /// Calls left today through a slot (none once the limit is reached).
    pub fn remaining(&self, slot: &ProviderSlot) -> (n: u32)
        ensures
            n == if self.usage_of(slot.id@) < slot.limit {
                slot.limit - self.usage_of(slot.id@)
            } else {
                0
            },
    {
        let used = self.slot_usage(slot);
        if used < slot.limit {
            slot.limit - used
        } else {
            0
        }
    }

    /// Rerank calls left today.
    pub fn remaining_eyes(&self) -> (n: u32)
        ensures
            n == if self.eyes_calls < EYES_LIMIT {
                EYES_LIMIT - self.eyes_calls
            } else {
                0
            },
    {
        if self.eyes_calls < EYES_LIMIT {
            EYES_LIMIT - self.eyes_calls
        } else {
            0
        }
    }
}

// ───────────────────────── one prompt across the providers ─────────────────────────

/// Answering one prompt: the tracker, the prompt as sent, and the first
/// slot not yet tried. The caller asks for the next slot, calls it, and
/// reports the outcome.
pub struct PromptSession {
    pub tracker: RequestTracker,
    pub prompt: String,
    pub from: usize,
}

/// Starts answering `prompt` (with the persona's prefix when asked for):
/// the prompt is counted and no slot is tried yet.
pub fn start_prompt(tracker: RequestTracker, prompt: &str, inject_persona: bool) -> (s:
    PromptSession)
    requires
        tracker.requests_per_prompt < u32::MAX,
    ensures
        s.prompt@ == if inject_persona {
            persona_prefix_spec(tracker.persona@) + prompt@
        } else {
            prompt@
        },
        s.from == 0,
        s.tracker.requests_per_prompt == tracker.requests_per_prompt + 1,
        s.tracker.usage@ == tracker.usage@,
        s.tracker.key_health@ == tracker.key_health@,
        s.tracker.validate_mode == tracker.validate_mode,
        s.tracker.persona == tracker.persona,
        s.tracker.eyes_calls == tracker.eyes_calls,
{
    let mut tracker = tracker;
    let sent = enriched_prompt(tracker.persona.as_str(), prompt, inject_persona);
    tracker.begin_prompt();
    PromptSession { tracker, prompt: sent, from: 0 }
}

/// Starts answering `prompt` as `persona`, its prefix in front.
pub fn set_control_with_persona(tracker: RequestTracker, prompt: &str, persona: &str) -> (s:
    PromptSession)
    requires
        tracker.requests_per_prompt < u32::MAX,
    ensures
        s.prompt@ == persona_prefix_spec(persona@) + prompt@,
        s.tracker.persona@ == persona@,
        s.from == 0,
        s.tracker.requests_per_prompt == tracker.requests_per_prompt + 1,
        s.tracker.usage@ == tracker.usage@,
        s.tracker.key_health@ == tracker.key_health@,
        s.tracker.validate_mode == tracker.validate_mode,
{
    let mut tracker = tracker;
    tracker.persona = persona.to_owned();
    start_prompt(tracker, prompt, true)
}

/// Starts answering `prompt` as the "Quick" persona.
pub fn set_control(tracker: RequestTracker, prompt: &str) -> (s: PromptSession)
    requires
        tracker.requests_per_prompt < u32::MAX,
    ensures
        s.prompt@ == quick_prefix() + prompt@,
        s.tracker.persona@ == "Quick"@,
        s.from == 0,
        s.tracker.requests_per_prompt == tracker.requests_per_prompt + 1,
        s.tracker.usage@ == tracker.usage@,
        s.tracker.key_health@ == tracker.key_health@,
{
    proof {
        reveal_strlit("Quick");
        reveal_strlit("Helpful");
        assert("Quick"@[0] == 'Q' && "Helpful"@[0] == 'H');
    }
    set_control_with_persona(tracker, prompt, "Quick")
}

impl PromptSession {
    /// The next slot to call (see `RequestTracker::next_provider`).
    pub fn next_slot(&self, table: &Vec<ProviderSlot>, keys: &Vec<String>) -> (r: Option<usize>)
        requires
            keys@.len() == table@.len(),
        ensures
            r matches Some(i) ==> self.from <= i < table@.len() && self.tracker.eligible(
                table@[i as int],
                keys@[i as int]@,
            ) && forall|j: int|
                self.from <= j < i ==> !self.tracker.eligible(#[trigger] table@[j], keys@[j]@),
            r is None ==> forall|j: int|
                self.from <= j < table@.len() ==> !self.tracker.eligible(#[trigger] table@[j], keys@[j]@),
    {
        self.tracker.next_provider(table, keys, self.from)
    }

    /// The slot answered: its usage goes up by one (the caller saves the
    /// tracker and returns the answer).
    pub fn succeeded(&mut self, slot: &ProviderSlot)
        requires
            old(self).tracker.usage_of(slot.id@) < slot.limit,
        ensures
            final(self).tracker.usage@ == old(self).tracker.usage@.insert(
                slot.id@,
                (old(self).tracker.usage_of(slot.id@) + 1) as u32,
            ),
            final(self).tracker.key_health@ == old(self).tracker.key_health@,
            old(self).tracker.same_settings(final(self).tracker),
            final(self).prompt == old(self).prompt,
            final(self).from == old(self).from,
    {
        self.tracker.record_success(slot);
    }

    /// The slot at `index` failed with `error`: an authorisation error marks
    /// it unhealthy, and the next slot is tried after it.
    pub fn failed(&mut self, index: usize, slot: &ProviderSlot, error: &str)
        requires
            index < usize::MAX,
        ensures
            final(self).tracker.key_health@ == if contains(error@, "403"@) || contains(
                error@,
                "401"@,
            ) {
                old(self).tracker.key_health@.insert(slot.id@, false)
            } else {
                old(self).tracker.key_health@
            },
            final(self).tracker.usage@ == old(self).tracker.usage@,
            old(self).tracker.same_settings(final(self).tracker),
            final(self).from == index + 1,
            final(self).prompt == old(self).prompt,
    {
        self.tracker.record_failure(slot, error);
        self.from = index + 1;
    }
}

/// A slot is never used past its daily limit: counting a call through a slot
/// that `next_provider` may pick (as `succeeded` does) leaves its count at
/// most the limit and every other slot's count unchanged.
pub proof fn law_usage_within_limit(t: RequestTracker, s: ProviderSlot, key: Seq<char>)
    requires
        t.eligible(s, key),
    ensures
        ({
            let after = t.usage@.insert(s.id@, (t.usage_of(s.id@) + 1) as u32);
            &&& after[s.id@] <= s.limit
            &&& after[s.id@] == t.usage_of(s.id@) + 1
            &&& forall|id: Seq<char>| id != s.id@ ==> #[trigger] after.contains_key(id) == t.usage@.contains_key(id)
                && (after.contains_key(id) ==> after[id] == t.usage@[id])
        }),
{
}

/// Provider slots that share an id share their daily limit.
pub proof fn lemma_provider_ids_fix_limits()
    ensures
        forall|a: int, b: int|
            0 <= a < provider_count() && 0 <= b < provider_count() && #[trigger] provider_spec(a).0
                == #[trigger] provider_spec(b).0 ==> provider_spec(a).1 == provider_spec(b).1,
{
    assert forall|a: int, b: int|
        0 <= a < provider_count() && 0 <= b < provider_count() && provider_spec(a).0 == provider_spec(b).0
        implies provider_spec(a).1 == provider_spec(b).1 by {
        reveal_strlit("groq_1");
        reveal_strlit("groq_2");
        reveal_strlit("groq_3");
        reveal_strlit("groq_4");
        reveal_strlit("or_gpt_1");
        reveal_strlit("or_gpt_2");
        reveal_strlit("or_gpt_3");
        reveal_strlit("or_gpt_4");
        reveal_strlit("or_nemo_1");
        reveal_strlit("flash_lite_1");
        reveal_strlit("flash_lite_2");
        reveal_strlit("flash_lite_3");
        reveal_strlit("flash_lite_4");
        reveal_strlit("flash_1");
        reveal_strlit("flash_2");
        reveal_strlit("flash_3");
        reveal_strlit("flash_4");
        reveal_strlit("pro_1");
        reveal_strlit("pro_2");
        reveal_strlit("pro_3");
        reveal_strlit("pro_4");
        reveal_strlit("cerebras");
        reveal_strlit("mistral");
            assert(9 <= a <= 12 ==> provider_spec(a).0.len() == 12 && provider_spec(a).1 == 1000);
        assert(!(9 <= a <= 12) ==> provider_spec(a).0.len() < 12 && provider_spec(a).1 == 250);
        assert(9 <= b <= 12 ==> provider_spec(b).0.len() == 12 && provider_spec(b).1 == 1000);
        assert(!(9 <= b <= 12) ==> provider_spec(b).0.len() < 12 && provider_spec(b).1 == 250);
    }
}

/// Calls counted under `id` in a usage map (0 when absent).
pub open spec fn count_in(usage: Map<Seq<char>, u32>, id: Seq<char>) -> int {
    if usage.contains_key(id) {
        usage[id] as int
    } else {
        0
    }
}

/// Every slot of the table is within its daily limit.
pub open spec fn within_limits(usage: Map<Seq<char>, u32>, table: Seq<ProviderSlot>) -> bool {
    forall|j: int| 0 <= j < table.len() ==> count_in(usage, (#[trigger] table[j]).id@) <= table[j].limit
}

/// Slots of the table that share an id share their daily limit.
pub open spec fn ids_fix_limits(table: Seq<ProviderSlot>) -> bool {
    forall|a: int, b: int|
        0 <= a < table.len() && 0 <= b < table.len() && (#[trigger] table[a]).id@ == (
        #[trigger] table[b]).id@ ==> table[a].limit == table[b].limit
}

/// One round of answering a prompt, on the usage counts: the slot `i` was
/// called, which `next_slot` only offers when it is under its limit; a
/// success counts one call (`succeeded`), a failure counts none (`failed`).
pub open spec fn usage_round(
    u0: Map<Seq<char>, u32>,
    u1: Map<Seq<char>, u32>,
    table: Seq<ProviderSlot>,
    i: int,
    success: bool,
) -> bool {
    &&& 0 <= i < table.len()
    &&& count_in(u0, table[i].id@) < table[i].limit
    &&& u1 == if success {
        u0.insert(table[i].id@, (count_in(u0, table[i].id@) + 1) as u32)
    } else {
        u0
    }
}

/// Over a whole prompt, no slot goes past its daily limit: starting within
/// the limits, every round (a call only through a slot under its limit, as
/// `next_slot` offers, then counted on success as `succeeded` does, or not
/// at all as `failed` does) keeps every slot within its limit. The provider
/// table meets `ids_fix_limits` (see `provider_table`).
pub proof fn law_prompt_keeps_limits(
    usages: Seq<Map<Seq<char>, u32>>,
    rounds: Seq<(int, bool)>,
    table: Seq<ProviderSlot>,
)
    requires
        usages.len() == rounds.len() + 1,
        ids_fix_limits(table),
        within_limits(usages[0], table),
        forall|k: int|
            0 <= k < rounds.len() ==> usage_round(
                #[trigger] usages[k],
                usages[k + 1],
                table,
                rounds[k].0,
                rounds[k].1,
            ),
    ensures
        forall|k: int| 0 <= k < usages.len() ==> within_limits(#[trigger] usages[k], table),
    decreases rounds.len(),
{
    if rounds.len() > 0 {
        let n = rounds.len() - 1;
        law_prompt_keeps_limits(usages.take(n + 1), rounds.take(n), table);
        assert forall|k: int| 0 <= k < usages.len() implies within_limits(#[trigger] usages[k], table) by {
            if k <= n {
                assert(usages.take(n + 1)[k] == usages[k]);
            } else {
                assert(usages.take(n + 1)[n] == usages[n]);
                assert(usage_round(usages[n], usages[n + 1], table, rounds[n].0, rounds[n].1));
                let i = rounds[n].0;
                let u0 = usages[n];
                assert forall|j: int| 0 <= j < table.len() implies count_in(
                    usages[k],
                    (#[trigger] table[j]).id@,
                ) <= table[j].limit by {
                    if rounds[n].1 && table[j].id@ == table[i].id@ {
                        assert(table[j].limit == table[i].limit);
                    }
                }
            }
        }
    }
}

// ───────────────────────── provider replies ─────────────────────────

/// The generateContent endpoint of a Gemini model.
pub fn gemini_url(model: &str) -> (r: String)
    ensures
        r@ == "https://generativelanguage.googleapis.com/v1beta/models/"@ + model@
            + ":generateContent"@,
{
    let mut t: Vec<char> = Vec::new();
    extend_str(&mut t, "https://generativelanguage.googleapis.com/v1beta/models/");
    extend_str(&mut t, model);
    extend_str(&mut t, ":generateContent");
    from_chars(&t)
}

/// The chat-completions endpoint and model of a backend (Gemini has its own
/// endpoint per model).
pub fn chat_endpoint(backend: Backend) -> (r: Option<(&'static str, &'static str)>)
    ensures
        r is None <==> backend is Gemini,
        backend is Groq ==> r == Some(
            ("https://api.groq.com/openai/v1/chat/completions", "openai/gpt-oss-120b"),
        ),
        backend is Cerebras ==> r == Some(
            ("https://api.cerebras.ai/v1/chat/completions", "gpt-oss-120b"),
        ),
        backend is Mistral ==> r == Some(
            ("https://api.mistral.ai/v1/chat/completions", "mistral-7b-instruct-v0.1.Q4_0.gguf"),
        ),
        backend is OpenRouterGpt ==> r == Some(
            ("https://openrouter.ai/api/v1/chat/completions", "openai/gpt-oss-120b:free"),
        ),
        backend is OpenRouterNemotron ==> r == Some(
            ("https://openrouter.ai/api/v1/chat/completions", "nvidia/nemotron-3-super-120b-a12b:free"),
        ),
{
    match backend {
        Backend::Gemini(_) => None,
        Backend::Groq => Some(("https://api.groq.com/openai/v1/chat/completions", "openai/gpt-oss-120b")),
        Backend::Cerebras => Some(("https://api.cerebras.ai/v1/chat/completions", "gpt-oss-120b")),
        Backend::Mistral => Some(
            ("https://api.mistral.ai/v1/chat/completions", "mistral-7b-instruct-v0.1.Q4_0.gguf"),
        ),
        Backend::OpenRouterGpt => Some(
            ("https://openrouter.ai/api/v1/chat/completions", "openai/gpt-oss-120b:free"),
        ),
        Backend::OpenRouterNemotron => Some(
            ("https://openrouter.ai/api/v1/chat/completions", "nvidia/nemotron-3-super-120b-a12b:free"),
        ),
    }
}

/// The text of a Gemini answer (`No response` when it has none).
pub open spec fn gemini_text(result: JsonValue) -> Seq<char> {
    str_or(
        at_index(
            at_key(
                at_key(at_index(at_key(Some(result), "candidates"@), 0), "content"@),
                "parts"@,
            ),
            0,
        ),
        "text"@,
        "No response"@,
    )
}

/// Reads a Gemini answer: its `error`, displayed, as an API error, else its
/// text.
pub fn gemini_reply(result: &JsonValue) -> (r: Result<String, String>)
    ensures
        at_key(Some(*result), "error"@) is Some ==> (r matches Err(e) && e@ == "API Error: "@
            + display(at_key(Some(*result), "error"@))),
        at_key(Some(*result), "error"@) is None ==> (r matches Ok(t) && t@ == gemini_text(*result)),
{
    let root = Some(result);
    let err = get(root, "error");
    if err.is_some() {
        let shown = display_text(err);
        let mut t: Vec<char> = Vec::new();
        extend_str(&mut t, "API Error: ");
        extend_str(&mut t, shown.as_str());
        return Err(from_chars(&t));
    }
    let part = index(get(get(index(get(root, "candidates"), 0), "content"), "parts"), 0);
    Ok(get_str_or(part, "text", "No response").to_owned())
}

/// The message content of a chat-completions answer, if it is a string.
pub open spec fn chat_content(result: JsonValue) -> Option<Seq<char>> {
    crate::json::as_str(
        at_key(at_key(at_index(at_key(Some(result), "choices"@), 0), "message"@), "content"@),
    )
}

fn chat_content_exec(result: &JsonValue) -> (r: Option<&str>)
    ensures
        opt_str(r) == chat_content(*result),
{
    get_str(get(get(index(get(Some(result), "choices"), 0), "message"), "content"))
}

/// An optional string slice as characters.
pub open spec fn opt_str(v: Option<&str>) -> Option<Seq<char>> {
    match v {
        Some(x) => Some(x@),
        None => None,
    }
}

/// Reads a chat-completions answer (Cerebras, Mistral, OpenRouter): its
/// `error` message, displayed after the provider's label, else its content
/// (`No response` when it has none).
pub fn chat_reply(result: &JsonValue, error_label: &str) -> (r: Result<String, String>)
    ensures
        at_key(Some(*result), "error"@) is Some ==> (r matches Err(e) && e@ == error_label@
            + display(at_key(at_key(Some(*result), "error"@), "message"@))),
        at_key(Some(*result), "error"@) is None ==> (r matches Ok(t) && t@ == match chat_content(
            *result,
        ) {
            Some(c) => c,
            None => "No response"@,
        }),
{
    let root = Some(result);
    let err = get(root, "error");
    if err.is_some() {
        let shown = display_text(get(err, "message"));
        let mut t: Vec<char> = Vec::new();
        extend_str(&mut t, error_label);
        extend_str(&mut t, shown.as_str());
        return Err(from_chars(&t));
    }
    match chat_content_exec(result) {
        Some(c) => Ok(c.to_owned()),
        None => Ok("No response".to_owned()),
    }
}

/// Reads a Groq answer from its status, its body text and the body parsed
/// as JSON (or the parse error's text).
pub fn groq_reply(status_ok: bool, status: &str, body: &str, parsed: Result<&JsonValue, &str>) -> (r:
    Result<String, String>)
    ensures
        !status_ok ==> (r matches Err(e) && e@ == "Groq API error "@ + status@ + ": "@ + body@),
        status_ok ==> match parsed {
            Err(pe) => r matches Err(e) && e@ == "Failed to parse JSON: "@ + pe@,
            Ok(v) => match chat_content(*v) {
                Some(c) => r matches Ok(t) && t@ == c,
                None => r matches Err(e) && e@ == "Unexpected response: "@ + v.text@,
            },
        },
{
    if !status_ok {
        let mut t: Vec<char> = Vec::new();
        extend_str(&mut t, "Groq API error ");
        extend_str(&mut t, status);
        extend_str(&mut t, ": ");
        extend_str(&mut t, body);
        return Err(from_chars(&t));
    }
    match parsed {
        Err(pe) => {
            let mut t: Vec<char> = Vec::new();
            extend_str(&mut t, "Failed to parse JSON: ");
            extend_str(&mut t, pe);
            Err(from_chars(&t))
        },
        Ok(v) => match chat_content_exec(v) {
            Some(c) => Ok(c.to_owned()),
            None => {
                let mut t: Vec<char> = Vec::new();
                extend_str(&mut t, "Unexpected response: ");
                extend_str(&mut t, v.text.as_str());
                Err(from_chars(&t))
            },
        },
    }
}

} // verus!
