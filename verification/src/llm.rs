//! The two-tier LLM review of requests that no rule caught: its settings,
//! the outcomes of each tier, the chat endpoint, and the extraction of the
//! JSON answer from a model's reply.
//!
//! The HTTP calls and the scoring inputs (floating point) are the caller's.
use vstd::prelude::*;
use crate::text::{chars_of, string_from_chars, append_chars, vec_eq, trim, trim_spec};
use crate::regex_ops::{regex_group1, regex_group1_texts, regex_find, regex_first_match};
use crate::json::{is_json, json_parses, json_error, json_parse_error, json_str_member, str_member,
    json_array_member, array_member, option_views};
use crate::settings::Settings;

verus! {

/// Model, endpoint and key of the quick and the deep tier.
#[derive(Debug, Clone)]
pub struct LlmConfig {
    pub quick_model: String,
    pub quick_base_url: String,
    pub quick_api_key: String,
    pub deep_model: String,
    pub deep_base_url: String,
    pub deep_api_key: String,
}

/// The texts of a configuration, in field order.
pub open spec fn config_texts(c: LlmConfig) -> Seq<Seq<char>> {
    seq![c.quick_model@, c.quick_base_url@, c.quick_api_key@, c.deep_model@, c.deep_base_url@, c.deep_api_key@]
}

impl LlmConfig {
    /// A configuration from its six texts.
    pub fn new(
        quick_model: String,
        quick_base_url: String,
        quick_api_key: String,
        deep_model: String,
        deep_base_url: String,
        deep_api_key: String,
    ) -> (c: Self)
        ensures
            c.quick_model == quick_model,
            c.quick_base_url == quick_base_url,
            c.quick_api_key == quick_api_key,
            c.deep_model == deep_model,
            c.deep_base_url == deep_base_url,
            c.deep_api_key == deep_api_key,
    {
        LlmConfig { quick_model, quick_base_url, quick_api_key, deep_model, deep_base_url, deep_api_key }
    }

    /// The tiers' settings as the firewall settings give them.
    pub fn from_settings(settings: &Settings) -> (c: Self)
        ensures
            config_texts(c) == seq![settings.llm_quick_model@, settings.llm_quick_base_url@,
                settings.llm_quick_api_key@, settings.llm_deep_model@, settings.llm_deep_base_url@,
                settings.llm_deep_api_key@],
    {
        let c = LlmConfig {
            quick_model: settings.llm_quick_model.clone(),
            quick_base_url: settings.llm_quick_base_url.clone(),
            quick_api_key: settings.llm_quick_api_key.clone(),
            deep_model: settings.llm_deep_model.clone(),
            deep_base_url: settings.llm_deep_base_url.clone(),
            deep_api_key: settings.llm_deep_api_key.clone(),
        };
        assert(config_texts(c) =~= seq![settings.llm_quick_model@, settings.llm_quick_base_url@,
            settings.llm_quick_api_key@, settings.llm_deep_model@, settings.llm_deep_base_url@,
            settings.llm_deep_api_key@]);
        c
    }

    /// A copy with the same texts.
    pub fn duplicate(&self) -> (c: Self)
        ensures
            config_texts(c) == config_texts(*self),
    {
        let c = LlmConfig {
            quick_model: self.quick_model.clone(),
            quick_base_url: self.quick_base_url.clone(),
            quick_api_key: self.quick_api_key.clone(),
            deep_model: self.deep_model.clone(),
            deep_base_url: self.deep_base_url.clone(),
            deep_api_key: self.deep_api_key.clone(),
        };
        assert(config_texts(c) =~= config_texts(*self));
        c
    }
}

/// The deep tier's answer: `hacker` or `normal`, the attack types and an analysis.
#[derive(Debug, Clone)]
pub struct Tier2Result {
    pub result_type: String,
    pub attack_types: Vec<String>,
    pub analysis: String,
}

impl Tier2Result {
    /// Whether the deep tier judged the request an attack (`hacker`).
    pub fn is_hacker(&self) -> (b: bool)
        ensures
            b == (self.result_type@ == "hacker"@),
    {
        let t = chars_of(self.result_type.as_str());
        let h = chars_of("hacker");
        vec_eq(&t, &h)
    }

    /// Whether the deep tier judged the request benign (`normal`).
    pub fn is_normal(&self) -> (b: bool)
        ensures
            b == (self.result_type@ == "normal"@),
    {
        let t = chars_of(self.result_type.as_str());
        let n = chars_of("normal");
        vec_eq(&t, &n)
    }
}

/// The outcome of the pipeline.
#[derive(Debug, Clone)]
pub enum LlmResult {
    /// The quick tier found the request safe.
    Safe,
    /// The quick tier flagged it and the deep tier answered.
    Suspicious(Tier2Result),
    /// A tier failed, or the deep tier lacked its context.
    Error(String),
}

/// The quick tier.
#[derive(Debug, Clone)]
pub struct Tier1QuickEval {
    pub config: LlmConfig,
}

impl Tier1QuickEval {
    /// The quick tier with its configuration.
    pub fn new(config: LlmConfig) -> (t: Self)
        ensures
            t.config == config,
    {
        Tier1QuickEval { config }
    }
}

/// The deep tier.
#[derive(Debug, Clone)]
pub struct Tier2DeepAnalysis {
    pub config: LlmConfig,
}

impl Tier2DeepAnalysis {
    /// The deep tier with its configuration.
    pub fn new(config: LlmConfig) -> (t: Self)
        ensures
            t.config == config,
    {
        Tier2DeepAnalysis { config }
    }

    /// Reads the deep tier's reply (see [`tier2_reply`]).
    pub fn parse_tier2_response(&self, response: &str) -> (r: Result<Tier2Result, String>)
        ensures
            match tier2_reply(response@) {
                Ok((t, types, analysis)) => r matches Ok(res) && res.result_type@ == t
                    && res.attack_types@.map_values(|s: String| s@) == types && res.analysis@ == analysis,
                Err(m) => r matches Err(e) && e@ == m,
            },
    {
        let cleaned = extract_json_from_response(response);
        if let Some(e) = json_parse_error(cleaned.as_str()) {
            let mut v = chars_of("Failed to parse Tier 2 response JSON: ");
            append_chars(&mut v, chars_of(e.as_str()).as_slice());
            append_chars(&mut v, chars_of(". Response: ").as_slice());
            append_chars(&mut v, chars_of(response).as_slice());
            return Err(string_from_chars(v.as_slice()));
        }
        let result_type = match str_member(cleaned.as_str(), "type") {
            Some(t) => t,
            None => return Err(String::from_str("Missing 'type' field in Tier 2 response")),
        };
        let mut attack_types: Vec<String> = Vec::new();
        if let Some(items) = array_member(cleaned.as_str(), "attack_types") {
            let ghost iv = option_views(items@);
            let mut i: usize = 0;
            assert(iv.take(0) =~= Seq::<Option<Seq<char>>>::empty());
            while i < items.len()
                invariant
                    i <= items@.len(),
                    iv == option_views(items@),
                    attack_types@.map_values(|s: String| s@) == present_texts(iv.take(i as int)),
                decreases items.len() - i,
            {
                assert(iv.take(i + 1).drop_last() =~= iv.take(i as int));
                match &items[i] {
                    Some(t) => {
                        let ghost before = attack_types@.map_values(|s: String| s@);
                        attack_types.push(t.clone());
                        assert(attack_types@.map_values(|s: String| s@) =~= before.push(t@));
                    },
                    None => {},
                }
                i = i + 1;
            }
            assert(iv.take(iv.len() as int) =~= iv);
        }
        let analysis = match str_member(cleaned.as_str(), "analysis") {
            Some(a) => a,
            None => String::from_str(""),
        };
        Ok(Tier2Result { result_type, attack_types, analysis })
    }
}

/// The texts among optional texts, in order.
pub open spec fn present_texts(v: Seq<Option<Seq<char>>>) -> Seq<Seq<char>>
    decreases v.len(),
{
    if v.len() == 0 {
        Seq::empty()
    } else {
        let prev = present_texts(v.drop_last());
        match v.last() {
            Some(t) => prev.push(t),
            None => prev,
        }
    }
}

/// What the deep tier's reply reads as: its JSON (see [`json_in_reply`])
/// must parse and hold a string `type`; `attack_types` keeps the strings of
/// an array (none when absent), `analysis` a string (empty when absent).
pub open spec fn tier2_reply(response: Seq<char>) -> Result<(Seq<char>, Seq<Seq<char>>, Seq<char>), Seq<char>> {
    let cleaned = json_in_reply(response);
    match json_error(cleaned) {
        Some(e) => Err("Failed to parse Tier 2 response JSON: "@ + e + ". Response: "@ + response),
        None => match json_str_member(cleaned, "type"@) {
            None => Err("Missing 'type' field in Tier 2 response"@),
            Some(t) => Ok((
                t,
                match json_array_member(cleaned, "attack_types"@) {
                    Some(a) => present_texts(a),
                    None => Seq::empty(),
                },
                match json_str_member(cleaned, "analysis"@) {
                    Some(a) => a,
                    None => ""@,
                },
            )),
        },
    }
}

/// Both tiers, each with a copy of one configuration.
#[derive(Debug, Clone)]
pub struct TwoTierLlmPipeline {
    pub quick_eval: Tier1QuickEval,
    pub deep_analysis: Tier2DeepAnalysis,
}

impl TwoTierLlmPipeline {
    /// The pipeline whose two tiers share `config`.
    pub fn new(config: LlmConfig) -> (p: Self)
        ensures
            config_texts(p.quick_eval.config) == config_texts(config),
            config_texts(p.deep_analysis.config) == config_texts(config),
    {
        let first = config.duplicate();
        let second = config.duplicate();
        TwoTierLlmPipeline {
            quick_eval: Tier1QuickEval::new(first),
            deep_analysis: Tier2DeepAnalysis::new(second),
        }
    }
}

/// Decides when requests go to the LLM (the decision reads floating-point
/// scores and is made by the caller).
#[derive(Debug, Clone, Copy)]
pub struct LlmTriggerConditionChecker;

/// What the pipeline does once the quick tier answered.
#[derive(Debug, Clone)]
pub enum AfterQuickTier {
    /// Run the deep tier.
    RunDeepTier,
    /// The pipeline's answer.
    Finished(LlmResult),
}

/// The text of an error message joined from a prefix and a detail.
fn prefixed(prefix: &str, detail: &str) -> (s: String)
    ensures
        s@ == prefix@ + detail@,
        detail@ == ""@ ==> s@ == prefix@,
{
    proof {
        reveal_strlit("");
    }
    assert(prefix@ + ""@ =~= prefix@);
    let mut out = chars_of(prefix);
    append_chars(&mut out, chars_of(detail).as_slice());
    string_from_chars(out.as_slice())
}

/// The pipeline's step after the quick tier: a safe verdict ends it, a
/// failure is reported, and a suspicious verdict goes to the deep tier when
/// its context is at hand.
pub fn after_quick_tier(quick: Result<bool, String>, has_context: bool) -> (a: AfterQuickTier)
    ensures
        match quick {
            Ok(true) => a matches AfterQuickTier::Finished(LlmResult::Safe),
            Ok(false) => if has_context {
                a is RunDeepTier
            } else {
                a matches AfterQuickTier::Finished(LlmResult::Error(m))
                    && m@ == "Full context required for Tier 2 analysis"@
            },
            Err(e) => a matches AfterQuickTier::Finished(LlmResult::Error(m))
                && m@ == "Tier 1 evaluation failed: "@ + e@,
        },
{
    match quick {
        Ok(safe) => {
            if safe {
                AfterQuickTier::Finished(LlmResult::Safe)
            } else if has_context {
                AfterQuickTier::RunDeepTier
            } else {
                AfterQuickTier::Finished(LlmResult::Error(prefixed("Full context required for Tier 2 analysis", "")))
            }
        },
        Err(e) => AfterQuickTier::Finished(LlmResult::Error(prefixed("Tier 1 evaluation failed: ", e.as_str()))),
    }
}

/// The pipeline's answer from the deep tier's.
pub fn after_deep_tier(deep: Result<Tier2Result, String>) -> (r: LlmResult)
    ensures
        match deep {
            Ok(t) => r == LlmResult::Suspicious(t),
            Err(e) => r matches LlmResult::Error(m) && m@ == "Tier 2 analysis failed: "@ + e@,
        },
{
    match deep {
        Ok(t) => LlmResult::Suspicious(t),
        Err(e) => LlmResult::Error(prefixed("Tier 2 analysis failed: ", e.as_str())),
    }
}

/// `s` without the trailing characters `c`.
pub open spec fn trim_end_char(s: Seq<char>, c: char) -> Seq<char>
    decreases s.len(),
{
    if s.len() > 0 && s.last() == c {
        trim_end_char(s.drop_last(), c)
    } else {
        s
    }
}

/// The chat-completions URL of an endpoint: its base without trailing
/// slashes, then `/chat/completions`.
pub open spec fn chat_url(base_url: Seq<char>) -> Seq<char> {
    trim_end_char(base_url, '/') + "/chat/completions"@
}

/// The chat-completions URL of an endpoint.
pub fn chat_completions_url(base_url: &str) -> (u: String)
    ensures
        u@ == chat_url(base_url@),
{
    let s = chars_of(base_url);
    let mut n: usize = s.len();
    assert(s@.take(n as int) =~= s@);
    while n > 0 && s[n - 1] == '/'
        invariant
            n <= s@.len(),
            trim_end_char(s@, '/') == trim_end_char(s@.take(n as int), '/'),
        decreases n,
    {
        assert(s@.take(n as int).drop_last() =~= s@.take(n - 1));
        n = n - 1;
    }
    let mut out = crate::text::slice_chars(s.as_slice(), 0, n);
    assert(out@ =~= s@.take(n as int));
    append_chars(&mut out, chars_of("/chat/completions").as_slice());
    string_from_chars(out.as_slice())
}

/// Why a call is not made: a tier without an API key.
pub fn check_api_key(api_key: &str) -> (r: Result<(), String>)
    ensures
        api_key@.len() == 0 <==> r is Err,
        r matches Err(m) ==> m@ == "API key is empty"@,
{
    if api_key.is_empty() {
        Err(prefixed("API key is empty", ""))
    } else {
        Ok(())
    }
}

/// The pattern of a fenced JSON block; group 1 is the object.
pub open spec fn json_block_pattern() -> Seq<char> {
    "```(?:json)?\\s*(\\{.*?\\})\\s*```"@
}

/// The pattern of a braced object.
pub open spec fn json_object_pattern() -> Seq<char> {
    "\\{.*?\\}"@
}

/// The JSON text in a model's reply: the trimmed reply when it is JSON,
/// else the object of its first fenced JSON block, else its first braced
/// span, else the trimmed reply.
pub open spec fn json_in_reply(reply: Seq<char>) -> Seq<char> {
    let t = trim_spec(reply);
    if json_parses(t) {
        t
    } else {
        match regex_group1_texts(json_block_pattern(), reply) {
            Some(groups) if groups.len() > 0 && groups[0] is Some => groups[0]->0,
            _ => match regex_first_match(json_object_pattern(), reply) {
                Some(Some(m)) => m,
                _ => t,
            },
        }
    }
}

/// Finds the JSON answer in a model's reply.
pub fn extract_json_from_response(response: &str) -> (j: String)
    ensures
        j@ == json_in_reply(response@),
{
    let t = string_from_chars(trim(chars_of(response).as_slice()).as_slice());
    if is_json(t.as_str()) {
        return t;
    }
    match regex_group1("```(?:json)?\\s*(\\{.*?\\})\\s*```", response) {
        Some(groups) => {
            if groups.len() > 0 {
                match &groups[0] {
                    Some(m) => {
                        return m.clone();
                    },
                    None => {},
                }
            }
        },
        None => {},
    }
    match regex_find("\\{.*?\\}", response) {
        Some(Some(m)) => m,
        _ => t,
    }
}

/// The pipeline ends at the quick tier exactly when that tier found the
/// request safe or failed, and a safe verdict is answered `Safe` whatever
/// context there is.
pub proof fn law_quick_tier_gates_deep_tier(quick: Result<bool, String>, has_context: bool, a: AfterQuickTier)
    requires
        match quick {
            Ok(true) => a matches AfterQuickTier::Finished(LlmResult::Safe),
            Ok(false) => if has_context {
                a is RunDeepTier
            } else {
                a matches AfterQuickTier::Finished(LlmResult::Error(m))
                    && m@ == "Full context required for Tier 2 analysis"@
            },
            Err(e) => a matches AfterQuickTier::Finished(LlmResult::Error(m))
                && m@ == "Tier 1 evaluation failed: "@ + e@,
        },
    ensures
        a is RunDeepTier <==> (quick == Ok::<bool, String>(false) && has_context),
{
}

} // verus!
