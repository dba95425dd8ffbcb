//! The line protocol with the generation helper process, seen from the
//! application: what each line of the helper means, and what an exchange
//! does with it.
use vstd::prelude::*;

use crate::text::{chars_of, push_str, str_eq, string_of, trim, trimmed};

verus! {

/// What the `Debug` formatting of a string writes (quoted and escaped).
pub uninterp spec fn str_debug(s: Seq<char>) -> Seq<char>;

/// `s` is a run of consecutive characters of `p`.
pub open spec fn part_of(s: Seq<char>, p: Seq<char>) -> bool {
    exists|i: int| 0 <= i && i + s.len() <= p.len() && #[trigger] p.subrange(i, i + s.len()) == s
}

/// A stem found for `p`: none, or a part of `p`.
pub open spec fn stem_within(stem: Option<Seq<char>>, p: Seq<char>) -> bool {
    match stem {
        Some(s) => part_of(s, p),
        None => true,
    }
}

/// Index of the last `/` of `p`, or -1.
pub open spec fn last_slash(p: Seq<char>) -> int
    decreases p.len(),
{
    if p.len() == 0 {
        -1
    } else if p.last() == '/' {
        p.len() - 1
    } else {
        last_slash(p.drop_last())
    }
}

/// Index of the last `.` of `n`, or -1.
pub open spec fn last_dot(n: Seq<char>) -> int
    decreases n.len(),
{
    if n.len() == 0 {
        -1
    } else if n.last() == '.' {
        n.len() - 1
    } else {
        last_dot(n.drop_last())
    }
}

/// The last component of a path written with `/` separators: the last
/// piece between separators that is neither empty nor `.` (repeated
/// separators, a trailing separator and `.` pieces are skipped).
pub open spec fn last_component(p: Seq<char>) -> Option<Seq<char>>
    decreases p.len(),
{
    let i = last_slash(p);
    let piece = p.skip(i + 1);
    if piece.len() > 0 && piece != seq!['.'] {
        Some(piece)
    } else if i < 0 || i >= p.len() {
        None
    } else {
        last_component(p.take(i))
    }
}

/// The stem of a file name: the whole name when it has no `.` or only a
/// leading one, otherwise the part before its last `.`.
pub open spec fn name_stem(n: Seq<char>) -> Seq<char> {
    if last_dot(n) <= 0 {
        n
    } else {
        n.take(last_dot(n))
    }
}

/// A path that reads the same on every platform: no `\`, no `:` (no drive
/// or device prefix) and no leading `//` (no network prefix), so that `/`
/// alone separates its components.
pub open spec fn plain_path(p: Seq<char>) -> bool {
    &&& !p.contains('\\')
    &&& !p.contains(':')
    &&& !(p.len() >= 2 && p[0] == '/' && p[1] == '/')
}

/// The file stem of a plain path: none when its last component is missing
/// or `..`, else the [`name_stem`] of that component.
pub open spec fn path_stem(p: Seq<char>) -> Option<Seq<char>> {
    match last_component(p) {
        Some(n) => if n == seq!['.', '.'] {
            None
        } else {
            Some(name_stem(n))
        },
        None => None,
    }
}

/// A stem that `Path::file_stem` may give for `p`: a part of `p`, and for a
/// plain path exactly [`path_stem`].
pub open spec fn stem_ok(stem: Option<Seq<char>>, p: Seq<char>) -> bool {
    &&& stem_within(stem, p)
    &&& plain_path(p) ==> stem == path_stem(p)
}

/// Calls `Path::file_stem` on `p` and keeps the stem when it is valid text.
/// The stem is a portion of the path's last component, so it is a part of
/// `p`. For a plain path, where `/` is the only separator on every platform,
/// it is as the documentation of `Path::components`, `Path::file_name` and
/// `Path::file_stem` describes it ([`path_stem`]); for other paths which part
/// it is depends on the platform's separators and prefixes, and is left
/// unsaid.
#[verifier::external_body]
fn file_stem_of(p: &str) -> (r: Option<String>)
    ensures
        stem_ok(ov(r), p@),
{
    std::path::Path::new(p).file_stem().and_then(|s| s.to_str()).map(|s| s.to_string())
}

/// Formats `s` with `Debug`; the result is named [`str_debug`].
#[verifier::external_body]
fn debug_of(s: &str) -> (r: String)
    ensures
        r@ == str_debug(s@),
{
    format!("{:?}", s)
}

/// The fields of one JSON line of the helper that the application reads;
/// each is present when the line holds it with the expected JSON type.
pub struct HelperMessage {
    pub kind: Option<String>,
    pub text: Option<String>,
    pub error: Option<String>,
    pub message: Option<String>,
    pub model_path: Option<String>,
    pub phase: Option<String>,
    pub elapsed_ms: Option<u64>,
}

impl View for HelperMessage {
    type V = (
        Option<Seq<char>>,
        Option<Seq<char>>,
        Option<Seq<char>>,
        Option<Seq<char>>,
        Option<Seq<char>>,
        Option<Seq<char>>,
        Option<u64>,
    );

    /// The fields as text: type, text, error, message, model path, phase,
    /// and the elapsed milliseconds.
    open spec fn view(&self) -> Self::V {
        (
            ov(self.kind),
            ov(self.text),
            ov(self.error),
            ov(self.message),
            ov(self.model_path),
            ov(self.phase),
            self.elapsed_ms,
        )
    }
}

/// What decoding a line with `serde_json::from_str` and reading its fields
/// gives: the fields of [`HelperMessage`] as text, or the decoder's error
/// message.
pub uninterp spec fn json_helper_fields(line: Seq<char>) -> Result<
    (
        Option<Seq<char>>,
        Option<Seq<char>>,
        Option<Seq<char>>,
        Option<Seq<char>>,
        Option<Seq<char>>,
        Option<Seq<char>>,
        Option<u64>,
    ),
    Seq<char>,
>;

/// Decodes `line` as JSON with `serde_json::from_str` and reads the fields
/// of a helper line: `type`, `text`, `error`, `message`, `model_path` and
/// `phase` when they are strings, `elapsed_ms` when it is an unsigned
/// integer. The result, or the decoder's error message, is named
/// [`json_helper_fields`].
#[verifier::external_body]
fn decode_helper_json(line: &str) -> (r: Result<HelperMessage, String>)
    ensures
        json_helper_fields(line@) == match r {
            Ok(m) => Ok(m@),
            Err(e) => Err(e@),
        },
{
    let v: serde_json::Value = serde_json::from_str(line).map_err(|e| e.to_string())?;
    let s = |k: &str| v.get(k).and_then(|t| t.as_str()).map(|t| t.to_string());
    let elapsed_ms = v.get("elapsed_ms").and_then(|x| x.as_u64());
    Ok(HelperMessage {
        kind: s("type"),
        text: s("text"),
        error: s("error"),
        message: s("message"),
        model_path: s("model_path"),
        phase: s("phase"),
        elapsed_ms,
    })
}

/// One line of the helper, understood.
pub enum HelperLine {
    /// An incremental piece of text of a streaming request.
    Token(String),
    /// Progress of a model load.
    ModelLoading { model: String, phase: String, elapsed_ms: Option<u64>, message: Option<String> },
    /// The end of the request: its text or its error.
    Done(Result<String, String>),
}

/// The view of an optional string.
pub open spec fn ov(o: Option<String>) -> Option<Seq<char>> {
    match o {
        Some(s) => Some(s@),
        None => None,
    }
}

/// The text of an optional string, empty when absent.
pub open spec fn or_empty(o: Option<Seq<char>>) -> Seq<char> {
    match o {
        Some(s) => s,
        None => Seq::empty(),
    }
}

/// The model name shown for a load: the stem of the model path, or the
/// path itself when it has none.
pub open spec fn model_name_of(path: Seq<char>, stem: Option<Seq<char>>) -> Seq<char> {
    match stem {
        Some(s) => s,
        None => path,
    }
}

/// The error of an unknown line, with the `Debug` form of its type.
pub open spec fn unknown_line_error(kind: Option<Seq<char>>) -> Seq<char> {
    "本地推理引擎返回了未知消息: "@ + match kind {
        Some(k) => "Some("@ + str_debug(k) + ")"@,
        None => "None"@,
    }
}

/// `r` is what the message `m` means, `stem` being the stem of its model
/// path: a `token` line gives its text; a `response` line gives its text,
/// or an error when it carries a non-empty one; an `error` line gives an
/// error with its message (or "未知错误"); a `model-loading` line gives the
/// load progress, named by [`model_name_of`]; any other line is an error.
pub open spec fn classified(m: HelperMessage, stem: Option<Seq<char>>, r: Result<HelperLine, String>) -> bool {
    let kind = ov(m.kind);
    if kind == Some("token"@) {
        r matches Ok(HelperLine::Token(t)) && t@ == or_empty(ov(m.text))
    } else if kind == Some("response"@) {
        match ov(m.error) {
            Some(e) if e.len() > 0 => r matches Ok(HelperLine::Done(Err(x))) && x@ == "本地推理生成失败: "@
                + e,
            _ => r matches Ok(HelperLine::Done(Ok(t))) && t@ == or_empty(ov(m.text)),
        }
    } else if kind == Some("error"@) {
        r matches Ok(HelperLine::Done(Err(x))) && x@ == "本地推理引擎错误: "@ + match ov(m.message) {
            Some(s) => s,
            None => "未知错误"@,
        }
    } else if kind == Some("model-loading"@) {
        r matches Ok(HelperLine::ModelLoading { model, phase, elapsed_ms, message }) && model@
            == model_name_of(or_empty(ov(m.model_path)), stem) && phase@ == or_empty(ov(m.phase))
            && elapsed_ms == m.elapsed_ms && ov(message) == ov(m.message)
    } else {
        r matches Err(x) && x@ == unknown_line_error(kind)
    }
}

fn text_or_empty(o: Option<String>) -> (r: String)
    ensures
        r@ == or_empty(ov(o)),
{
    match o {
        Some(s) => s,
        None => String::new(),
    }
}

fn is_kind(kind: &Option<String>, name: &str) -> (r: bool)
    ensures
        r == (ov(*kind) == Some(name@)),
{
    match kind {
        Some(k) => str_eq(k.as_str(), name),
        None => false,
    }
}

/// Error for a line that is not JSON, with the decoder's message.
pub open spec fn invalid_data_error(e: Seq<char>) -> Seq<char> {
    "本地推理引擎返回了无效数据: "@ + e
}

/// What a raw line of the helper means: the trimmed line is decoded as JSON
/// ([`json_helper_fields`]); a line that does not decode is an error with
/// the decoder's message, and the fields of one that does are
/// [`classified`], the model name of a load coming from `Path::file_stem`.
pub fn parse_helper_response(line: &str) -> (r: Result<HelperLine, String>)
    ensures
        match json_helper_fields(trim(line@)) {
            Err(e) => r matches Err(x) && x@ == invalid_data_error(e),
            Ok(f) => exists|m: HelperMessage, stem: Option<Seq<char>>|
                #![trigger classified(m, stem, r)]
                m@ == f && stem_ok(stem, or_empty(f.4)) && classified(m, stem, r),
        },
{
    let v = chars_of(line);
    let t = trimmed(&v);
    let ts = string_of(&t);
    match decode_helper_json(ts.as_str()) {
        Err(e) => {
            let mut x: Vec<char> = Vec::new();
            push_str(&mut x, "本地推理引擎返回了无效数据: ");
            push_str(&mut x, e.as_str());
            Err(string_of(&x))
        },
        Ok(m) => {
            let ghost m0 = m;
            let r = classify_helper_message(m);
            proof {
                let stem = choose|stem: Option<Seq<char>>|
                    #[trigger] stem_ok(stem, or_empty(ov(m0.model_path))) && classified(m0, stem, r);
                assert(classified(m0, stem, r));
            }
            r
        },
    }
}

/// What the fields of a helper line mean; the stem of a `model-loading`
/// line's model path is taken from `Path::file_stem`.
pub fn classify_helper_message(m: HelperMessage) -> (r: Result<HelperLine, String>)
    ensures
        exists|stem: Option<Seq<char>>| #[trigger] stem_ok(stem, or_empty(ov(m.model_path)))
            && classified(m, stem, r),
{
    let ghost path = or_empty(ov(m.model_path));
    proof {
        reveal_strlit("");
    }
    let stem = match &m.model_path {
        Some(p) => file_stem_of(p.as_str()),
        None => {
            let st = file_stem_of("");
            assert(""@ =~= path);
            st
        },
    };
    let r = helper_line(m, stem);
    assert(stem_ok(ov(stem), path));
    r
}

/// What a line of the helper means, given the stem of its model path
/// ([`classified`]).
pub fn helper_line(m: HelperMessage, stem: Option<String>) -> (r: Result<HelperLine, String>)
    ensures
        classified(m, ov(stem), r),
{
    let ghost m0 = m;
    if is_kind(&m.kind, "token") {
        return Ok(HelperLine::Token(text_or_empty(m.text)));
    }
    if is_kind(&m.kind, "response") {
        match &m.error {
            Some(e) => {
                if chars_of(e.as_str()).len() > 0 {
                    let mut x: Vec<char> = Vec::new();
                    push_str(&mut x, "本地推理生成失败: ");
                    push_str(&mut x, e.as_str());
                    return Ok(HelperLine::Done(Err(string_of(&x))));
                }
            },
            None => {},
        }
        return Ok(HelperLine::Done(Ok(text_or_empty(m.text))));
    }
    if is_kind(&m.kind, "error") {
        let mut x: Vec<char> = Vec::new();
        push_str(&mut x, "本地推理引擎错误: ");
        match &m.message {
            Some(s) => push_str(&mut x, s.as_str()),
            None => push_str(&mut x, "未知错误"),
        }
        return Ok(HelperLine::Done(Err(string_of(&x))));
    }
    if is_kind(&m.kind, "model-loading") {
        let path = text_or_empty(m.model_path);
        let model = match stem {
            Some(s) => s,
            None => path,
        };
        return Ok(
            HelperLine::ModelLoading {
                model,
                phase: text_or_empty(m.phase),
                elapsed_ms: m.elapsed_ms,
                message: m.message,
            },
        );
    }
    let mut x: Vec<char> = Vec::new();
    push_str(&mut x, "本地推理引擎返回了未知消息: ");
    match &m.kind {
        Some(k) => {
            push_str(&mut x, "Some(");
            let d = debug_of(k.as_str());
            push_str(&mut x, d.as_str());
            push_str(&mut x, ")");
        },
        None => push_str(&mut x, "None"),
    }
    assert(x@ =~= unknown_line_error(ov(m0.kind)));
    Err(string_of(&x))
}

// ── One exchange ──────────────────────────────────────────────────────────────

/// State of one request/response exchange: the model whose load started
/// and has not yet been reported finished.
pub struct HelperExchange {
    pub pending_load: Option<String>,
}

/// What the application does with one understood line.
pub enum ExchangeStep {
    /// Hand the text to the streaming callback, if there is one.
    Token(String),
    /// Report load progress to the front end.
    Loading { model: String, phase: String, elapsed_ms: Option<u64>, message: Option<String> },
    /// The exchange ends with `result`; when it failed while a load was
    /// pending, that load is first reported failed.
    Finish { result: Result<String, String>, failed_load: Option<String> },
}

impl HelperExchange {
    /// An exchange that has seen no line yet.
    pub fn new() -> (r: Self)
        ensures
            r.pending_load is None,
    {
        HelperExchange { pending_load: None }
    }

    /// Handles one understood line. A load that starts becomes pending and
    /// any other load phase clears it; a failed end reports the pending
    /// load as failed.
    pub fn on_line(&mut self, line: HelperLine) -> (r: ExchangeStep)
        ensures
            match line {
                HelperLine::Token(t) => r == ExchangeStep::Token(t) && final(self).pending_load == old(
                    self,
                ).pending_load,
                HelperLine::ModelLoading { model, phase, elapsed_ms, message } => {
                    &&& r == ExchangeStep::Loading { model, phase, elapsed_ms, message }
                    &&& if phase@ == "start"@ {
                        ov(final(self).pending_load) == Some(model@)
                    } else {
                        final(self).pending_load is None
                    }
                },
                HelperLine::Done(res) => {
                    &&& final(self).pending_load is None
                    &&& match r {
                        ExchangeStep::Finish { result, failed_load } => result == res && if res is Err {
                            ov(failed_load) == ov(old(self).pending_load)
                        } else {
                            failed_load is None
                        },
                        _ => false,
                    }
                },
            },
    {
        match line {
            HelperLine::Token(t) => ExchangeStep::Token(t),
            HelperLine::ModelLoading { model, phase, elapsed_ms, message } => {
                if str_eq(phase.as_str(), "start") {
                    let v = chars_of(model.as_str());
                    self.pending_load = Some(string_of(&v));
                } else {
                    self.pending_load = None;
                }
                ExchangeStep::Loading { model, phase, elapsed_ms, message }
            },
            HelperLine::Done(res) => {
                let failed_load = if res.is_err() {
                    self.pending_load.take()
                } else {
                    self.pending_load = None;
                    None
                };
                self.pending_load = None;
                ExchangeStep::Finish { result: res, failed_load }
            },
        }
    }
}

// ── Shutting the helper down ──────────────────────────────────────────────────

/// The line that asks the helper to exit.
pub open spec fn shutdown_line() -> Seq<char> {
    "{\"type\":\"shutdown\"}"@
}

/// Takes the running helper, if any, out of its slot and hands it back with
/// the line to write to it before it is killed; the slot is left empty.
pub fn shutdown_helper<T>(slot: &mut Option<T>) -> (r: Option<(T, String)>)
    ensures
        (*final(slot)) is None,
        match *old(slot) {
            Some(h) => r matches Some((g, line)) && g == h && line@ == shutdown_line(),
            None => r is None,
        },
{
    match slot.take() {
        Some(h) => {
            let v = chars_of("{\"type\":\"shutdown\"}");
            Some((h, string_of(&v)))
        },
        None => None,
    }
}

} // verus!
