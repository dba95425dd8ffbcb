//! The speech recognition models the application offers, their status, and
//! what loading one of them involves.
use vstd::prelude::*;

use crate::text::{chars_of, is_blank, push_str, starts_with, str_eq, string_of, trim, vec_starts_with};

verus! {

/// Availability of a recognition model.
#[derive(PartialEq, Eq, Structural, Clone, Copy, Debug)]
pub enum ModelStatus {
    Loaded,
    Available,
    Missing,
    NotConfigured,
}

impl ModelStatus {
    /// Name of the status as the front end knows it.
    pub fn as_str(&self) -> (r: &'static str)
        ensures
            r@ == match self {
                ModelStatus::Loaded => "Loaded"@,
                ModelStatus::Available => "Available"@,
                ModelStatus::Missing => "Missing"@,
                ModelStatus::NotConfigured => "NotConfigured"@,
            },
    {
        match self {
            ModelStatus::Loaded => "Loaded",
            ModelStatus::Available => "Available",
            ModelStatus::Missing => "Missing",
            ModelStatus::NotConfigured => "NotConfigured",
        }
    }
}

/// One recognition model as listed for the user.
pub struct AsrModelEntry {
    pub name: &'static str,
    pub status: ModelStatus,
    pub size_mb: u32,
    pub languages: Vec<&'static str>,
    pub architecture: &'static str,
    pub description: &'static str,
    pub has_punctuation: bool,
    pub has_timestamps: bool,
    pub has_hotwords: bool,
    pub is_remote: Option<bool>,
    pub hidden: Option<bool>,
}

/// What was found about the models on this machine.
pub struct AsrProbe {
    pub sense_voice_enabled: bool,
    pub sense_voice_found: bool,
    pub offline_engine_loaded: bool,
    pub offline_model_name: Option<String>,
    pub whisper_tiny_found: bool,
    pub whisper_small_found: bool,
    pub remote_configured: bool,
    pub x_asr_found: bool,
    pub x_asr_loaded: bool,
}

/// The views of a list of string slices.
pub open spec fn strs(v: Seq<&'static str>) -> Seq<Seq<char>> {
    v.map_values(|s: &'static str| s@)
}

/// `e` is catalog row `k` with the given status.
pub open spec fn entry_is(e: AsrModelEntry, k: int, status: ModelStatus) -> bool {
    &&& e.name@ == catalog_name(k)
    &&& e.status == status
    &&& e.size_mb == catalog_size(k)
    &&& strs(e.languages@) == catalog_languages(k)
    &&& e.architecture@ == catalog_architecture(k)
    &&& e.description@ == catalog_description(k)
    &&& (e.has_punctuation, e.has_timestamps, e.has_hotwords) == catalog_flags(k)
    &&& e.is_remote == catalog_remote(k)
    &&& e.hidden == catalog_hidden(k)
}

/// Name of catalog row `k`.
pub open spec fn catalog_name(k: int) -> Seq<char> {
    if k == 0 {
        "sense-voice"@
    } else if k == 1 {
        "whisper-tiny"@
    } else if k == 2 {
        "whisper-small"@
    } else if k == 3 {
        "qwen3-asr-remote"@
    } else if k == 4 {
        "qwen3-asr-remote-streaming"@
    } else {
        "x-asr-480ms"@
    }
}

/// Approximate size in MB of catalog row `k`.
pub open spec fn catalog_size(k: int) -> u32 {
    if k == 0 {
        350u32
    } else if k == 1 {
        250u32
    } else if k == 2 {
        376u32
    } else if k == 3 {
        0u32
    } else if k == 4 {
        0u32
    } else {
        0u32
    }
}

/// Languages of catalog row `k`.
pub open spec fn catalog_languages(k: int) -> Seq<Seq<char>> {
    if k == 0 {
        seq!["zh"@, "en"@, "ja"@, "ko"@, "yue"@]
    } else if k == 1 {
        seq!["it"@, "en"@, "es"@, "fr"@, "de"@, "pt"@, "zh"@, "ja"@, "ko"@]
    } else if k == 2 {
        seq!["it"@, "en"@, "es"@, "fr"@, "de"@, "pt"@, "zh"@, "ja"@, "ko"@]
    } else if k == 3 {
        seq!["zh"@, "en"@, "yue"@, "ar"@, "de"@, "fr"@, "es"@, "pt"@, "id"@, "it"@, "ko"@, "ru"@, "th"@, "vi"@, "ja"@, "tr"@, "hi"@, "ms"@, "nl"@, "sv"@, "da"@, "fi"@, "pl"@, "cs"@, "fil"@, "fa"@, "el"@, "hu"@, "mk"@, "ro"@]
    } else if k == 4 {
        seq!["zh"@, "en"@, "yue"@, "ar"@, "de"@, "fr"@, "es"@, "pt"@, "id"@, "it"@, "ko"@, "ru"@, "th"@, "vi"@, "ja"@, "tr"@, "hi"@, "ms"@, "nl"@, "sv"@, "da"@, "fi"@, "pl"@, "cs"@, "fil"@, "fa"@, "el"@, "hu"@, "mk"@, "ro"@]
    } else {
        seq!["zh"@, "en"@]
    }
}

/// Architecture of catalog row `k`.
pub open spec fn catalog_architecture(k: int) -> Seq<char> {
    if k == 0 {
        "AED (SenseVoice via Sherpa-ONNX Rust)"@
    } else if k == 1 {
        "Whisper Tiny Multilingual (Sherpa-ONNX Rust)"@
    } else if k == 2 {
        "Whisper Small Multilingual INT8 (Sherpa-ONNX Rust)"@
    } else if k == 3 {
        "Qwen3-ASR 1.7B (Remote vLLM)"@
    } else if k == 4 {
        "Qwen3-ASR 1.7B (Remote vLLM Streaming)"@
    } else {
        "X-ASR Zipformer2 480ms"@
    }
}

/// Description of catalog row `k`.
pub open spec fn catalog_description(k: int) -> Seq<char> {
    if k == 0 {
        "多语言识别，内置自动标点、情感识别、语种检测"@
    } else if k == 1 {
        "本地多语言识别，支持意大利语；速度优先"@
    } else if k == 2 {
        "本地多语言识别，支持意大利语；准确率优先，推荐会议使用"@
    } else if k == 3 {
        "远程局域网 ASR，29种语言+方言，高精度大模型"@
    } else if k == 4 {
        "远程局域网 ASR 流式版，逐字输出，首字延迟更低"@
    } else {
        "X-ASR Zipformer2 流式识别，480ms chunk，低延迟（Rust 原生\u{FF09}"@
    }
}

/// Punctuation, timestamps and hotwords of catalog row `k`.
pub open spec fn catalog_flags(k: int) -> (bool, bool, bool) {
    if k == 0 {
        (true, true, false)
    } else if k == 1 {
        (true, false, false)
    } else if k == 2 {
        (true, false, false)
    } else if k == 3 {
        (true, true, true)
    } else if k == 4 {
        (true, true, true)
    } else {
        (true, false, false)
    }
}

/// Whether catalog row `k` is remote, when the row says.
pub open spec fn catalog_remote(k: int) -> Option<bool> {
    if k == 0 {
        None
    } else if k == 1 {
        Some(false)
    } else if k == 2 {
        Some(false)
    } else if k == 3 {
        Some(true)
    } else if k == 4 {
        Some(true)
    } else {
        Some(false)
    }
}

/// Whether catalog row `k` is hidden, when the row says.
pub open spec fn catalog_hidden(k: int) -> Option<bool> {
    if k == 0 {
        None
    } else if k == 1 {
        None
    } else if k == 2 {
        None
    } else if k == 3 {
        Some(true)
    } else if k == 4 {
        None
    } else {
        None
    }
}

fn catalog_row_0(status: ModelStatus) -> (r: AsrModelEntry)
    ensures
        entry_is(r, 0, status),
{
    let mut languages: Vec<&'static str> = Vec::new();
    languages.push("zh");
    languages.push("en");
    languages.push("ja");
    languages.push("ko");
    languages.push("yue");
    let r = AsrModelEntry {
        name: "sense-voice",
        status,
        size_mb: 350,
        languages,
        architecture: "AED (SenseVoice via Sherpa-ONNX Rust)",
        description: "多语言识别，内置自动标点、情感识别、语种检测",
        has_punctuation: true,
        has_timestamps: true,
        has_hotwords: false,
        is_remote: None,
        hidden: None,
    };
    assert(strs(r.languages@) =~= catalog_languages(0));
    r
}

fn catalog_row_1(status: ModelStatus) -> (r: AsrModelEntry)
    ensures
        entry_is(r, 1, status),
{
    let mut languages: Vec<&'static str> = Vec::new();
    languages.push("it");
    languages.push("en");
    languages.push("es");
    languages.push("fr");
    languages.push("de");
    languages.push("pt");
    languages.push("zh");
    languages.push("ja");
    languages.push("ko");
    let r = AsrModelEntry {
        name: "whisper-tiny",
        status,
        size_mb: 250,
        languages,
        architecture: "Whisper Tiny Multilingual (Sherpa-ONNX Rust)",
        description: "本地多语言识别，支持意大利语；速度优先",
        has_punctuation: true,
        has_timestamps: false,
        has_hotwords: false,
        is_remote: Some(false),
        hidden: None,
    };
    assert(strs(r.languages@) =~= catalog_languages(1));
    r
}

fn catalog_row_2(status: ModelStatus) -> (r: AsrModelEntry)
    ensures
        entry_is(r, 2, status),
{
    let mut languages: Vec<&'static str> = Vec::new();
    languages.push("it");
    languages.push("en");
    languages.push("es");
    languages.push("fr");
    languages.push("de");
    languages.push("pt");
    languages.push("zh");
    languages.push("ja");
    languages.push("ko");
    let r = AsrModelEntry {
        name: "whisper-small",
        status,
        size_mb: 376,
        languages,
        architecture: "Whisper Small Multilingual INT8 (Sherpa-ONNX Rust)",
        description: "本地多语言识别，支持意大利语；准确率优先，推荐会议使用",
        has_punctuation: true,
        has_timestamps: false,
        has_hotwords: false,
        is_remote: Some(false),
        hidden: None,
    };
    assert(strs(r.languages@) =~= catalog_languages(2));
    r
}

fn catalog_row_3(status: ModelStatus) -> (r: AsrModelEntry)
    ensures
        entry_is(r, 3, status),
{
    let mut languages: Vec<&'static str> = Vec::new();
    languages.push("zh");
    languages.push("en");
    languages.push("yue");
    languages.push("ar");
    languages.push("de");
    languages.push("fr");
    languages.push("es");
    languages.push("pt");
    languages.push("id");
    languages.push("it");
    languages.push("ko");
    languages.push("ru");
    languages.push("th");
    languages.push("vi");
    languages.push("ja");
    languages.push("tr");
    languages.push("hi");
    languages.push("ms");
    languages.push("nl");
    languages.push("sv");
    languages.push("da");
    languages.push("fi");
    languages.push("pl");
    languages.push("cs");
    languages.push("fil");
    languages.push("fa");
    languages.push("el");
    languages.push("hu");
    languages.push("mk");
    languages.push("ro");
    let r = AsrModelEntry {
        name: "qwen3-asr-remote",
        status,
        size_mb: 0,
        languages,
        architecture: "Qwen3-ASR 1.7B (Remote vLLM)",
        description: "远程局域网 ASR，29种语言+方言，高精度大模型",
        has_punctuation: true,
        has_timestamps: true,
        has_hotwords: true,
        is_remote: Some(true),
        hidden: Some(true),
    };
    assert(strs(r.languages@) =~= catalog_languages(3));
    r
}

fn catalog_row_4(status: ModelStatus) -> (r: AsrModelEntry)
    ensures
        entry_is(r, 4, status),
{
    let mut languages: Vec<&'static str> = Vec::new();
    languages.push("zh");
    languages.push("en");
    languages.push("yue");
    languages.push("ar");
    languages.push("de");
    languages.push("fr");
    languages.push("es");
    languages.push("pt");
    languages.push("id");
    languages.push("it");
    languages.push("ko");
    languages.push("ru");
    languages.push("th");
    languages.push("vi");
    languages.push("ja");
    languages.push("tr");
    languages.push("hi");
    languages.push("ms");
    languages.push("nl");
    languages.push("sv");
    languages.push("da");
    languages.push("fi");
    languages.push("pl");
    languages.push("cs");
    languages.push("fil");
    languages.push("fa");
    languages.push("el");
    languages.push("hu");
    languages.push("mk");
    languages.push("ro");
    let r = AsrModelEntry {
        name: "qwen3-asr-remote-streaming",
        status,
        size_mb: 0,
        languages,
        architecture: "Qwen3-ASR 1.7B (Remote vLLM Streaming)",
        description: "远程局域网 ASR 流式版，逐字输出，首字延迟更低",
        has_punctuation: true,
        has_timestamps: true,
        has_hotwords: true,
        is_remote: Some(true),
        hidden: None,
    };
    assert(strs(r.languages@) =~= catalog_languages(4));
    r
}

fn catalog_row_5(status: ModelStatus) -> (r: AsrModelEntry)
    ensures
        entry_is(r, 5, status),
{
    let mut languages: Vec<&'static str> = Vec::new();
    languages.push("zh");
    languages.push("en");
    let r = AsrModelEntry {
        name: "x-asr-480ms",
        status,
        size_mb: 0,
        languages,
        architecture: "X-ASR Zipformer2 480ms",
        description: "X-ASR Zipformer2 流式识别，480ms chunk，低延迟（Rust 原生\u{FF09}",
        has_punctuation: true,
        has_timestamps: false,
        has_hotwords: false,
        is_remote: Some(false),
        hidden: None,
    };
    assert(strs(r.languages@) =~= catalog_languages(5));
    r
}
/// Status of a local model: loaded, available on disk, or missing.
pub open spec fn local_status(found: bool, loaded: bool) -> ModelStatus {
    if !found {
        ModelStatus::Missing
    } else if loaded {
        ModelStatus::Loaded
    } else {
        ModelStatus::Available
    }
}

fn status_of(found: bool, loaded: bool) -> (r: ModelStatus)
    ensures
        r == local_status(found, loaded),
{
    if !found {
        ModelStatus::Missing
    } else if loaded {
        ModelStatus::Loaded
    } else {
        ModelStatus::Available
    }
}

/// Whether the offline engine holds the model `name`.
pub open spec fn holds(p: AsrProbe, name: Seq<char>) -> bool {
    match p.offline_model_name {
        Some(n) => n@ == name,
        None => false,
    }
}

/// The statuses of the catalog rows: SenseVoice, the two Whisper models,
/// the two remote models and X-ASR.
pub open spec fn catalog_status(p: AsrProbe, k: int) -> ModelStatus {
    if k == 0 {
        local_status(p.sense_voice_found, p.offline_engine_loaded)
    } else if k == 1 {
        local_status(p.whisper_tiny_found, holds(p, "whisper-tiny"@))
    } else if k == 2 {
        local_status(p.whisper_small_found, holds(p, "whisper-small"@))
    } else if k == 3 || k == 4 {
        if p.remote_configured {
            ModelStatus::Available
        } else {
            ModelStatus::NotConfigured
        }
    } else {
        local_status(p.x_asr_found, p.x_asr_loaded)
    }
}

fn holds_model(p: &AsrProbe, name: &str) -> (r: bool)
    ensures
        r == holds(*p, name@),
{
    match &p.offline_model_name {
        Some(n) => str_eq(n.as_str(), name),
        None => false,
    }
}

/// Catalog row shown at position `i`: with SenseVoice disabled its row 0
/// is left out and the others move up.
pub open spec fn catalog_row(sense_voice_enabled: bool, i: int) -> int {
    if sense_voice_enabled {
        i
    } else {
        i + 1
    }
}

/// The recognition models offered, with their status: SenseVoice (only
/// when it is enabled), Whisper Tiny and Small, the two remote Qwen3-ASR
/// models and X-ASR, in that order.
pub fn asr_model_catalog(p: &AsrProbe) -> (r: Vec<AsrModelEntry>)
    ensures
        r@.len() == if p.sense_voice_enabled {
            6int
        } else {
            5int
        },
        forall|i: int|
            0 <= i < r@.len() ==> entry_is(
                #[trigger] r@[i],
                catalog_row(p.sense_voice_enabled, i),
                catalog_status(*p, catalog_row(p.sense_voice_enabled, i)),
            ),
{
    let mut v: Vec<AsrModelEntry> = Vec::new();
    if p.sense_voice_enabled {
        v.push(catalog_row_0(status_of(p.sense_voice_found, p.offline_engine_loaded)));
    }
    let tiny = holds_model(p, "whisper-tiny");
    v.push(catalog_row_1(status_of(p.whisper_tiny_found, tiny)));
    let small = holds_model(p, "whisper-small");
    v.push(catalog_row_2(status_of(p.whisper_small_found, small)));
    let remote = if p.remote_configured {
        ModelStatus::Available
    } else {
        ModelStatus::NotConfigured
    };
    v.push(catalog_row_3(remote));
    v.push(catalog_row_4(remote));
    v.push(catalog_row_5(status_of(p.x_asr_found, p.x_asr_loaded)));
    v
}

// ── Loading a model ───────────────────────────────────────────────────────────

/// The recognition language in effect: the preference unless empty, else
/// `auto`.
pub fn language_or_auto(pref: Option<String>) -> (r: String)
    ensures
        r@ == match pref {
            Some(l) => if l@.len() > 0 {
                l@
            } else {
                "auto"@
            },
            None => "auto"@,
        },
{
    match pref {
        Some(l) => {
            if chars_of(l.as_str()).len() > 0 {
                l
            } else {
                let v = chars_of("auto");
                string_of(&v)
            }
        },
        None => {
            let v = chars_of("auto");
            string_of(&v)
        },
    }
}

/// The language given to Whisper: the preference unless empty or `auto`.
pub fn whisper_language(pref: Option<String>) -> (r: Option<String>)
    ensures
        match pref {
            Some(l) => if l@.len() > 0 && l@ != "auto"@ {
                r == Some(l)
            } else {
                r is None
            },
            None => r is None,
        },
{
    match pref {
        Some(l) => {
            if chars_of(l.as_str()).len() > 0 && !str_eq(l.as_str(), "auto") {
                Some(l)
            } else {
                None
            }
        },
        None => None,
    }
}

/// What loading a recognition model involves.
pub enum AsrLoadPlan {
    /// A remote model: nothing to load.
    Remote,
    /// The same model (and, offline, the same language) is already loaded.
    AlreadyLoaded,
    /// Load the X-ASR streaming model.
    LoadXAsr,
    /// Find the SenseVoice directory and load it.
    LoadSenseVoice,
    /// Find the directory of this Whisper model and load it.
    LoadWhisper,
    /// Find a directory with this model's name, or any valid one, and load it.
    LoadOther,
}

/// Error when SenseVoice is selected but switched off.
pub const SENSE_VOICE_DISABLED: &'static str = "SenseVoice model is currently disabled. Enable FEATURE_SENSEVOICE_ENABLED in lib.rs to use it.";

/// What is loaded now.
pub struct LoadedAsr {
    pub model_name: Option<String>,
    pub language: Option<String>,
    pub offline_loaded: bool,
    pub x_asr_loaded: bool,
}

/// The view of an optional string.
pub open spec fn ov(o: Option<String>) -> Option<Seq<char>> {
    match o {
        Some(s) => Some(s@),
        None => None,
    }
}

/// The plan for loading `name`: remote models need nothing; an X-ASR model
/// is kept when it is the loaded one; an offline model is kept when it and
/// the language `lang` are unchanged; SenseVoice needs the feature
/// switched on; Whisper and other models are looked up by name.
pub open spec fn load_plan(name: Seq<char>, loaded: LoadedAsr, lang: Seq<char>, sense_voice_enabled: bool) -> Result<AsrLoadPlan, Seq<char>> {
    if name == "qwen3-asr-remote"@ || starts_with(name, "qwen3-asr-remote"@) {
        Ok(AsrLoadPlan::Remote)
    } else if starts_with(name, "x-asr-"@) {
        if ov(loaded.model_name) == Some(name) && loaded.x_asr_loaded {
            Ok(AsrLoadPlan::AlreadyLoaded)
        } else {
            Ok(AsrLoadPlan::LoadXAsr)
        }
    } else if ov(loaded.model_name) == Some(name) && ov(loaded.language) == Some(lang)
        && loaded.offline_loaded {
        Ok(AsrLoadPlan::AlreadyLoaded)
    } else if name == "sense-voice"@ || starts_with(name, "sense"@) {
        if sense_voice_enabled {
            Ok(AsrLoadPlan::LoadSenseVoice)
        } else {
            Err(SENSE_VOICE_DISABLED@)
        }
    } else if starts_with(name, "whisper-"@) {
        Ok(AsrLoadPlan::LoadWhisper)
    } else {
        Ok(AsrLoadPlan::LoadOther)
    }
}

fn is_some_str(o: &Option<String>, s: &str) -> (r: bool)
    ensures
        r == (ov(*o) == Some(s@)),
{
    match o {
        Some(x) => str_eq(x.as_str(), s),
        None => false,
    }
}

/// Plans the loading of the recognition model `model_name` ([`load_plan`]).
pub fn plan_asr_load(model_name: &str, loaded: &LoadedAsr, lang: &str, sense_voice_enabled: bool) -> (r:
    Result<AsrLoadPlan, String>)
    ensures
        match load_plan(model_name@, *loaded, lang@, sense_voice_enabled) {
            Ok(p) => r == Ok::<AsrLoadPlan, String>(p),
            Err(e) => r matches Err(x) && x@ == e,
        },
{
    let v = chars_of(model_name);
    if str_eq(model_name, "qwen3-asr-remote") || vec_starts_with(&v, "qwen3-asr-remote") {
        return Ok(AsrLoadPlan::Remote);
    }
    if vec_starts_with(&v, "x-asr-") {
        if is_some_str(&loaded.model_name, model_name) && loaded.x_asr_loaded {
            return Ok(AsrLoadPlan::AlreadyLoaded);
        }
        return Ok(AsrLoadPlan::LoadXAsr);
    }
    if is_some_str(&loaded.model_name, model_name) && is_some_str(&loaded.language, lang)
        && loaded.offline_loaded {
        return Ok(AsrLoadPlan::AlreadyLoaded);
    }
    if str_eq(model_name, "sense-voice") || vec_starts_with(&v, "sense") {
        if sense_voice_enabled {
            return Ok(AsrLoadPlan::LoadSenseVoice);
        }
        let e = chars_of(SENSE_VOICE_DISABLED);
        return Err(string_of(&e));
    }
    if vec_starts_with(&v, "whisper-") {
        return Ok(AsrLoadPlan::LoadWhisper);
    }
    Ok(AsrLoadPlan::LoadOther)
}

/// Error when the selected offline model is not on disk.
pub fn model_not_found_error(model_name: &str, models_dir: &str) -> (r: String)
    ensures
        r@ == "Model '"@ + model_name@ + "' not found at "@ + models_dir@ + ". Download it first."@,
{
    let mut e: Vec<char> = Vec::new();
    push_str(&mut e, "Model '");
    push_str(&mut e, model_name);
    push_str(&mut e, "' not found at ");
    push_str(&mut e, models_dir);
    push_str(&mut e, ". Download it first.");
    string_of(&e)
}

/// Error when the X-ASR model is not on disk.
pub fn x_asr_not_found_error(models_dir: &str) -> (r: String)
    ensures
        r@ == "X-ASR model not found at "@ + models_dir@ + ". Download the model first."@,
{
    let mut e: Vec<char> = Vec::new();
    push_str(&mut e, "X-ASR model not found at ");
    push_str(&mut e, models_dir);
    push_str(&mut e, ". Download the model first.");
    string_of(&e)
}

/// Directory names tried first for a Whisper model, and the fragment a
/// scanned directory name must contain: Small for `whisper-small`, Tiny for
/// anything else.
pub fn whisper_dir_candidates(model_name: &str) -> (r: (Vec<&'static str>, &'static str))
    ensures
        model_name@ == "whisper-small"@ ==> strs(r.0@) == seq![
            "sherpa-onnx-whisper-small"@,
            "whisper-small"@,
        ] && r.1@ == "whisper-small"@,
        model_name@ != "whisper-small"@ ==> strs(r.0@) == seq![
            "sherpa-onnx-whisper-tiny"@,
            "whisper-tiny"@,
        ] && r.1@ == "whisper-tiny"@,
{
    let mut v: Vec<&'static str> = Vec::new();
    if str_eq(model_name, "whisper-small") {
        v.push("sherpa-onnx-whisper-small");
        v.push("whisper-small");
        assert(strs(v@) =~= seq!["sherpa-onnx-whisper-small"@, "whisper-small"@]);
        (v, "whisper-small")
    } else {
        v.push("sherpa-onnx-whisper-tiny");
        v.push("whisper-tiny");
        assert(strs(v@) =~= seq!["sherpa-onnx-whisper-tiny"@, "whisper-tiny"@]);
        (v, "whisper-tiny")
    }
}

/// The models directory in use: the one configured at start-up, or
/// `models`.
pub fn resolved_models_dir(configured: Option<String>) -> (r: String)
    ensures
        r@ == match configured {
            Some(d) => d@,
            None => "models"@,
        },
{
    match configured {
        Some(d) => d,
        None => {
            let v = chars_of("models");
            string_of(&v)
        },
    }
}

/// `path` without the Windows verbatim prefix `\\?\`.
pub fn strip_verbatim_prefix(path: &str) -> (r: String)
    ensures
        r@ == if starts_with(path@, "\\\\?\\"@) {
            path@.skip(4)
        } else {
            path@
        },
{
    let v = chars_of(path);
    proof {
        reveal_strlit("\\\\?\\");
    }
    if vec_starts_with(&v, "\\\\?\\") {
        let rest = crate::text::slice_of(&v, 4, v.len());
        string_of(&rest)
    } else {
        string_of(&v)
    }
}

/// Whether the X-ASR engine is loaded, given what its slot holds.
pub fn is_xasr_engine_loaded(loaded: &LoadedAsr) -> (r: bool)
    ensures
        r == loaded.x_asr_loaded,
{
    loaded.x_asr_loaded
}

} // verus!
