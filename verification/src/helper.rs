//! Decisions of the generation helper process: what each turn of its
//! request loop does, request defaults, reuse of the cached prompt prefix,
//! when the loaded model can be kept, when a generation stops, and the
//! replies it sends.
use vstd::prelude::*;

use crate::text::{
    chars_of, contains, is_blank, lemma_replace_all_empty, push_str, replace_all, replace_vec, str_eq, string_of, trim,
    trim_end, trimmed_end,
};

verus! {

/// Shortest shared prefix worth reusing from the previous prompt.
pub const MIN_PREFIX_REUSE: usize = 16;

/// Length of the common prefix of two token lists.
pub open spec fn common_prefix(a: Seq<i32>, b: Seq<i32>) -> int
    decreases a.len(),
{
    if a.len() == 0 || b.len() == 0 || a[0] != b[0] {
        0
    } else {
        1 + common_prefix(a.drop_first(), b.drop_first())
    }
}

/// Tokens of the new prompt whose cached state is kept: the common prefix
/// with the previous prompt when it has at least sixteen tokens, but never
/// the last prompt token, whose logits are needed for the first sample.
pub open spec fn prefix_hit(tokens: Seq<i32>, prev: Seq<i32>) -> int {
    let c = common_prefix(tokens, prev);
    if c >= MIN_PREFIX_REUSE && prev.len() > 0 {
        if c < tokens.len() - 1 { c } else { tokens.len() - 1 }
    } else {
        0
    }
}

/// The common prefix is at most as long as either list, and its tokens
/// agree.
pub proof fn lemma_common_prefix(a: Seq<i32>, b: Seq<i32>)
    ensures
        0 <= common_prefix(a, b) <= a.len(),
        common_prefix(a, b) <= b.len(),
        forall|i: int| 0 <= i < common_prefix(a, b) ==> a[i] == b[i],
        common_prefix(a, b) < a.len() && common_prefix(a, b) < b.len() ==> a[common_prefix(a, b)]
            != b[common_prefix(a, b)],
    decreases a.len(),
{
    if !(a.len() == 0 || b.len() == 0 || a[0] != b[0]) {
        lemma_common_prefix(a.drop_first(), b.drop_first());
        assert forall|i: int| 0 <= i < common_prefix(a, b) implies a[i] == b[i] by {
            if i > 0 {
                assert(a[i] == a.drop_first()[i - 1]);
                assert(b[i] == b.drop_first()[i - 1]);
            }
        }
    }
}

/// How many prompt tokens keep their cached state ([`prefix_hit`]).
pub fn prefix_reuse(tokens: &Vec<i32>, prev: &Vec<i32>) -> (r: usize)
    ensures
        r == prefix_hit(tokens@, prev@),
{
    let mut common: usize = 0;
    assert(tokens@.skip(0) == tokens@);
    assert(prev@.skip(0) == prev@);
    while common < tokens.len() && common < prev.len() && tokens[common] == prev[common]
        invariant
            common <= tokens@.len(),
            common <= prev@.len(),
            common_prefix(tokens@, prev@) == common + common_prefix(
                tokens@.skip(common as int),
                prev@.skip(common as int),
            ),
        decreases tokens@.len() - common,
    {
        assert(tokens@.skip(common as int).drop_first() == tokens@.skip(common + 1));
        assert(prev@.skip(common as int).drop_first() == prev@.skip(common + 1));
        common += 1;
    }
    if common >= MIN_PREFIX_REUSE && prev.len() > 0 {
        if common < tokens.len() - 1 {
            common
        } else {
            tokens.len() - 1
        }
    } else {
        0
    }
}

/// Whether the helper keeps its loaded model for a request: the same model
/// path and the same context size.
pub fn keeps_loaded_model(loaded: Option<(&str, u32)>, model_path: &str, context_size: u32) -> (r:
    bool)
    ensures
        r == match loaded {
            Some((p, c)) => p@ == model_path@ && c == context_size,
            None => false,
        },
{
    match loaded {
        Some((p, c)) => str_eq(p, model_path) && c == context_size,
        None => false,
    }
}

/// Values of a generation request after defaults: 512 tokens, a context of
/// 2048, top-k 64, no stop sequences, no streaming.
pub struct GenerateSettings {
    pub max_tokens: i32,
    pub context_size: u32,
    pub top_k: i32,
    pub stop_tokens: Vec<String>,
    pub stream: bool,
}

/// Fills in the defaults of a generation request.
pub fn generate_settings(
    max_tokens: Option<i32>,
    context_size: Option<u32>,
    top_k: Option<i32>,
    stop_tokens: Option<Vec<String>>,
    stream: Option<bool>,
) -> (r: GenerateSettings)
    ensures
        r.max_tokens == match max_tokens {
            Some(m) => m,
            None => 512,
        },
        r.context_size == match context_size {
            Some(c) => c,
            None => 2048,
        },
        r.top_k == match top_k {
            Some(k) => k,
            None => 64,
        },
        r.stop_tokens@ == match stop_tokens {
            Some(s) => s@,
            None => Seq::<String>::empty(),
        },
        r.stream == match stream {
            Some(s) => s,
            None => false,
        },
{
    GenerateSettings {
        max_tokens: match max_tokens {
            Some(m) => m,
            None => 512,
        },
        context_size: match context_size {
            Some(c) => c,
            None => 2048,
        },
        top_k: match top_k {
            Some(k) => k,
            None => 64,
        },
        stop_tokens: match stop_tokens {
            Some(s) => s,
            None => Vec::new(),
        },
        stream: match stream {
            Some(s) => s,
            None => false,
        },
    }
}

/// The first stop sequence, in list order, that occurs in `output`.
pub open spec fn first_stop(output: Seq<char>, stops: Seq<Seq<char>>, k: int) -> Option<int>
    decreases stops.len() - k,
{
    if k < 0 || k >= stops.len() {
        None
    } else if contains(output, stops[k]) {
        Some(k)
    } else {
        first_stop(output, stops, k + 1)
    }
}

/// The text generated so far and how many tokens it took.
pub struct Generation {
    pub output: String,
    pub generated: i64,
}

/// The views of a list of strings.
pub open spec fn views(v: Seq<String>) -> Seq<Seq<char>> {
    v.map_values(|s: String| s@)
}

impl Generation {
    /// Nothing generated yet.
    pub fn new() -> (r: Self)
        ensures
            r.output@.len() == 0,
            r.generated == 0,
    {
        Generation { output: String::new(), generated: 0 }
    }

    /// Whether the token budget is used up.
    pub fn at_limit(&self, max_tokens: i32) -> (r: bool)
        ensures
            r == (self.generated >= max_tokens),
    {
        self.generated >= max_tokens as i64
    }

    /// Appends the text of one generated token and checks the stop
    /// sequences in order: on the first that now occurs, every occurrence
    /// of it is removed, trailing whitespace is cut, and generation stops.
    /// Returns whether it stops.
    pub fn push_token(&mut self, text: &str, stops: &Vec<String>) -> (r: bool)
        requires
            old(self).generated < i64::MAX,
        ensures
            final(self).generated == old(self).generated + 1,
            ({
                let out = old(self).output@ + text@;
                match first_stop(out, views(stops@), 0) {
                    Some(k) => r && final(self).output@ == trim_end(
                        replace_all(out, views(stops@)[k], Seq::empty()),
                    ),
                    None => !r && final(self).output@ == out,
                }
            }),
    {
        let mut v = chars_of(self.output.as_str());
        crate::text::push_str(&mut v, text);
        let ghost out = v@;
        self.generated = self.generated + 1;
        let mut k: usize = 0;
        while k < stops.len()
            invariant
                k <= stops@.len(),
                v@ == out,
                out == old(self).output@ + text@,
                self.generated == old(self).generated + 1,
                first_stop(out, views(stops@), 0) == first_stop(out, views(stops@), k as int),
            decreases stops@.len() - k,
        {
            assert(views(stops@)[k as int] == stops@[k as int]@);
            if crate::text::vec_contains(&v, stops[k].as_str()) {
                let sv = chars_of(stops[k].as_str());
                let cut = if sv.len() == 0 {
                    proof {
                        lemma_replace_all_empty(out);
                        assert(views(stops@)[k as int] =~= Seq::<char>::empty());
                    }
                    trimmed_end(&v)
                } else {
                    proof {
                        reveal_strlit("");
                    }
                    let removed = replace_vec(&v, stops[k].as_str(), "");
                    assert(""@ =~= Seq::<char>::empty());
                    trimmed_end(&removed)
                };
                self.output = string_of(&cut);
                return true;
            }
            k += 1;
        }
        self.output = string_of(&v);
        false
    }
}


/// What the sampler gave for one position.
pub enum SamplerEvent {
    /// An end-of-generation token.
    EndOfGeneration,
    /// A token, with its decoded text.
    Token(String),
}

/// What one sampled token leads to: the text to stream to the host, if any,
/// and whether generation goes on.
pub struct SampleOutcome {
    pub streamed: Option<String>,
    pub go_on: bool,
}

impl Generation {
    /// One turn of the generation loop after the sampler picked a token
    /// (the loop samples only while the budget is not used up, see
    /// [`Generation::at_limit`]). An end-of-generation token stops it and
    /// changes nothing. Any other token's text is streamed when streaming
    /// is on and the text is not empty, and appended ([`Generation::push_token`]);
    /// a stop sequence then ends generation, and otherwise it goes on while
    /// the budget of `max_tokens` is not used up.
    pub fn on_sample(&mut self, event: SamplerEvent, max_tokens: i32, stops: &Vec<String>, stream: bool) -> (r:
        SampleOutcome)
        requires
            old(self).generated < i64::MAX,
        ensures
            match event {
                SamplerEvent::EndOfGeneration => !r.go_on && r.streamed is None && final(self).output@ == old(
                    self,
                ).output@ && final(self).generated == old(self).generated,
                SamplerEvent::Token(t) => {
                    let out = old(self).output@ + t@;
                    &&& final(self).generated == old(self).generated + 1
                    &&& (if stream && t@.len() > 0 {
                        r.streamed matches Some(x) && x@ == t@
                    } else {
                        r.streamed is None
                    })
                    &&& match first_stop(out, views(stops@), 0) {
                        Some(k) => !r.go_on && final(self).output@ == trim_end(
                            replace_all(out, views(stops@)[k], Seq::empty()),
                        ),
                        None => final(self).output@ == out && r.go_on == (final(self).generated < max_tokens),
                    }
                },
            },
    {
        match event {
            SamplerEvent::EndOfGeneration => SampleOutcome { streamed: None, go_on: false },
            SamplerEvent::Token(t) => {
                let tv = chars_of(t.as_str());
                let streamed = if stream && tv.len() > 0 {
                    Some(string_of(&tv))
                } else {
                    None
                };
                let stopped = self.push_token(t.as_str(), stops);
                let go_on = !stopped && !self.at_limit(max_tokens);
                SampleOutcome { streamed, go_on }
            },
        }
    }
}

/// The prompt tokens of the previous generation, kept so that the next
/// prompt can reuse the cached part they share.
pub struct PromptCache {
    pub prev_prompt_tokens: Vec<i32>,
}

impl PromptCache {
    /// No previous prompt.
    pub fn new() -> (r: Self)
        ensures
            r.prev_prompt_tokens@.len() == 0,
    {
        PromptCache { prev_prompt_tokens: Vec::new() }
    }

    /// How many leading tokens of `tokens` the cache still holds
    /// ([`prefix_hit`]).
    pub fn reusable(&self, tokens: &Vec<i32>) -> (r: usize)
        ensures
            r == prefix_hit(tokens@, self.prev_prompt_tokens@),
    {
        prefix_reuse(tokens, &self.prev_prompt_tokens)
    }

    /// Records the prompt just generated from, for the next request.
    pub fn remember(&mut self, tokens: Vec<i32>)
        ensures
            final(self).prev_prompt_tokens@ == tokens@,
    {
        self.prev_prompt_tokens = tokens;
    }
}

// ── The request loop ──────────────────────────────────────────────────────────

/// Idle time after which the helper exits when none is configured: thirty
/// minutes.
pub const DEFAULT_IDLE_TIMEOUT_SECS: u64 = 1800;

/// The idle timeout: the configured number of seconds, or thirty minutes.
pub fn idle_timeout_secs(configured: Option<u64>) -> (r: u64)
    ensures
        r == match configured {
            Some(s) => s,
            None => DEFAULT_IDLE_TIMEOUT_SECS,
        },
{
    match configured {
        Some(s) => s,
        None => DEFAULT_IDLE_TIMEOUT_SECS,
    }
}

/// A request the helper understood; a generation names the model to use,
/// if any.
pub enum HelperRequest {
    Generate { model_path: Option<String> },
    Ping,
    Shutdown,
}

/// What the helper does in one turn of its loop.
pub enum HelperTurn {
    /// Answer `goodbye` and exit.
    Goodbye,
    /// Exit without answering.
    Exit,
    /// Read the next line.
    Next,
    /// Note the activity and answer `pong`.
    Pong,
    /// Load the model named, when one is, then generate.
    Generate { model_path: Option<String> },
    /// Answer with an error message.
    Invalid { message: String },
}

/// Message of the error answered to a line that is not a request.
pub open spec fn invalid_request_message(e: Seq<char>) -> Seq<char> {
    "Invalid request: "@ + e
}

/// One turn of the helper's loop. Past the idle timeout it says goodbye. At
/// the end of its input or on a read error (`line` is `None`) it exits, and
/// a blank line is skipped. Otherwise `parsed`, what parsing the trimmed
/// line gave, decides: a generation, a ping answered with `pong`, a shutdown
/// answered with `goodbye`, or an error naming the parser's message.
pub fn helper_turn(idle_secs: u64, idle_timeout: u64, line: Option<&str>, parsed: Result<HelperRequest, String>) -> (r:
    HelperTurn)
    ensures
        idle_secs > idle_timeout ==> r is Goodbye,
        idle_secs <= idle_timeout ==> match line {
            None => r is Exit,
            Some(l) => if trim(l@).len() == 0 {
                r is Next
            } else {
                match parsed {
                    Ok(HelperRequest::Generate { model_path }) => r == (HelperTurn::Generate { model_path }),
                    Ok(HelperRequest::Ping) => r is Pong,
                    Ok(HelperRequest::Shutdown) => r is Goodbye,
                    Err(e) => r matches HelperTurn::Invalid { message } && message@ == invalid_request_message(e@),
                }
            },
        },
{
    if idle_secs > idle_timeout {
        return HelperTurn::Goodbye;
    }
    match line {
        None => HelperTurn::Exit,
        Some(l) => {
            let v = chars_of(l);
            if is_blank(&v) {
                return HelperTurn::Next;
            }
            match parsed {
                Ok(HelperRequest::Generate { model_path }) => HelperTurn::Generate { model_path },
                Ok(HelperRequest::Ping) => HelperTurn::Pong,
                Ok(HelperRequest::Shutdown) => HelperTurn::Goodbye,
                Err(e) => {
                    let mut m: Vec<char> = Vec::new();
                    push_str(&mut m, "Invalid request: ");
                    push_str(&mut m, e.as_str());
                    HelperTurn::Invalid { message: string_of(&m) }
                },
            }
        },
    }
}

/// The reply to a generation: its text, or an empty text with the error
/// `Generation failed: ` and the failure.
pub fn generation_reply(outcome: Result<String, String>) -> (r: (String, Option<String>))
    ensures
        match outcome {
            Ok(t) => r.0@ == t@ && r.1 is None,
            Err(e) => r.0@.len() == 0 && (r.1 matches Some(m) && m@ == "Generation failed: "@ + e@),
        },
{
    match outcome {
        Ok(t) => (t, None),
        Err(e) => {
            let mut m: Vec<char> = Vec::new();
            push_str(&mut m, "Generation failed: ");
            push_str(&mut m, e.as_str());
            (String::new(), Some(string_of(&m)))
        },
    }
}

/// The reply when the model cannot be loaded: an empty text with the error
/// `Failed to load model: ` and the failure.
pub fn load_failure_reply(e: &str) -> (r: (String, Option<String>))
    ensures
        r.0@.len() == 0,
        r.1 matches Some(m) && m@ == "Failed to load model: "@ + e@,
{
    let mut m: Vec<char> = Vec::new();
    push_str(&mut m, "Failed to load model: ");
    push_str(&mut m, e);
    (String::new(), Some(string_of(&m)))
}

} // verus!
