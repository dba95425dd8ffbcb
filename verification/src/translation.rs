//! Translation choices outside the Hy-MT2 prompt: the OPUS-MT directions,
//! the two-part fallback for a translation that dropped sentences, the
//! supported target languages and the settings of the translation engine.
use vstd::prelude::*;

use crate::llm::parse_direction;
use crate::text::{
    chars_of, is_whitespace, is_ws, push_str, str_eq, string_of, trim, trim_bounds,
};

verus! {

// ── OPUS-MT directions ────────────────────────────────────────────────────────

/// Direction of an OPUS-MT model, from its directory name.
#[derive(PartialEq, Eq, Structural, Clone, Copy, Debug)]
pub enum Direction {
    ZhEn,
    EnZh,
    ItEn,
}

/// The direction of the OPUS-MT model in a directory with this name:
/// `opus-mt-zh-en` and `opus-mt-it-en` are recognised, anything else is
/// English to Chinese.
pub fn direction_for_model_dir(name: Option<&str>) -> (r: Direction)
    ensures
        r == match name {
            Some(n) => if n@ == "opus-mt-zh-en"@ {
                Direction::ZhEn
            } else if n@ == "opus-mt-it-en"@ {
                Direction::ItEn
            } else {
                Direction::EnZh
            },
            None => Direction::EnZh,
        },
{
    match name {
        Some(n) => if str_eq(n, "opus-mt-zh-en") {
            Direction::ZhEn
        } else if str_eq(n, "opus-mt-it-en") {
            Direction::ItEn
        } else {
            Direction::EnZh
        },
        None => Direction::EnZh,
    }
}

// ── Two-part fallback ─────────────────────────────────────────────────────────

/// Punctuation that ends a sentence.
pub open spec fn sentence_end(c: char) -> bool {
    c == '。' || c == '！' || c == '？' || c == '.' || c == '!' || c == '?'
}

/// A character that may follow a sentence end at a boundary: whitespace, a
/// closing quote or bracket, or a character from U+4E00 on.
pub open spec fn after_boundary(c: char) -> bool {
    is_ws(c) || c == '"' || c == '\u{201D}' || c == '\u{300D}' || c == '\u{FF09}' || c >= '\u{4E00}'
}

/// A sentence boundary inside `s` before character `k`.
pub open spec fn inner_boundary(s: Seq<char>, k: int) -> bool {
    1 <= k < s.len() && sentence_end(s[k - 1]) && after_boundary(s[k])
}

/// Distance of position `k` from the middle of `s`.
pub open spec fn mid_distance(s: Seq<char>, k: int) -> int {
    let mid = s.len() as int / 2;
    if k >= mid { k - mid } else { mid - k }
}

/// The boundary before `k` (from the left) nearest the middle, the first on
/// a tie; `best` is the best so far (0 when none).
pub open spec fn nearest_boundary(s: Seq<char>, k: int, best: int) -> int
    decreases s.len() - k,
{
    if k >= s.len() || k < 1 {
        best
    } else if inner_boundary(s, k) && (best == 0 || mid_distance(s, k) < mid_distance(s, best)) {
        nearest_boundary(s, k + 1, k)
    } else {
        nearest_boundary(s, k + 1, best)
    }
}

/// The split of a text of at least 40 characters at the sentence boundary
/// nearest its middle into two trimmed parts of at least 10 characters
/// each; `None` when there is no such boundary or a part is too short.
pub open spec fn middle_split(s: Seq<char>) -> Option<(Seq<char>, Seq<char>)> {
    if s.len() < 40 {
        None
    } else {
        let b = nearest_boundary(s, 1, 0);
        if b == 0 {
            None
        } else {
            let head = trim(s.take(b));
            let tail = trim(s.skip(b));
            if head.len() < 10 || tail.len() < 10 {
                None
            } else {
                Some((head, tail))
            }
        }
    }
}

/// The boundary found lies inside the text.
pub proof fn lemma_nearest_boundary(s: Seq<char>, k: int, best: int)
    requires
        best == 0 || (1 <= best < s.len()),
    ensures
        nearest_boundary(s, k, best) == 0 || (1 <= nearest_boundary(s, k, best) < s.len()),
    decreases s.len() - k,
{
    if k < s.len() && k >= 1 {
        if inner_boundary(s, k) && (best == 0 || mid_distance(s, k) < mid_distance(s, best)) {
            lemma_nearest_boundary(s, k + 1, k);
        } else {
            lemma_nearest_boundary(s, k + 1, best);
        }
    }
}

fn is_sentence_end(c: char) -> (r: bool)
    ensures
        r == sentence_end(c),
{
    c == '。' || c == '！' || c == '？' || c == '.' || c == '!' || c == '?'
}

fn is_after_boundary(c: char) -> (r: bool)
    ensures
        r == after_boundary(c),
{
    is_whitespace(c) || c == '"' || c == '\u{201D}' || c == '\u{300D}' || c == '\u{FF09}' || c
        >= '\u{4E00}'
}

/// Splits a long text at the sentence boundary nearest its middle
/// ([`middle_split`]); the parts are slices of `text`.
pub fn split_at_sentence_middle(text: &str) -> (r: Option<(&str, &str)>)
    ensures
        match middle_split(text@) {
            Some((h, t)) => r matches Some((a, b)) && a@ == h && b@ == t,
            None => r is None,
        },
{
    let v = chars_of(text);
    let n = v.len();
    if n < 40 {
        return None;
    }
    let mid = n / 2;
    let mut best: usize = 0;
    let mut k: usize = 1;
    while k < n
        invariant
            v@ == text@,
            n == v@.len(),
            mid == n / 2,
            1 <= k <= n,
            best == 0 || (1 <= best < n),
            nearest_boundary(text@, 1, 0) == nearest_boundary(text@, k as int, best as int),
        decreases n - k,
    {
        if is_sentence_end(v[k - 1]) && is_after_boundary(v[k]) {
            let dk = if k >= mid { k - mid } else { mid - k };
            let db = if best >= mid { best - mid } else { mid - best };
            if best == 0 || dk < db {
                best = k;
            }
        }
        k += 1;
    }
    if best == 0 {
        return None;
    }
    let head_v = crate::text::slice_of(&v, 0, best);
    let tail_v = crate::text::slice_of(&v, best, n);
    let (ha, hb) = trim_bounds(&head_v, true, true);
    let (ta, tb) = trim_bounds(&tail_v, true, true);
    if hb - ha < 10 || tb - ta < 10 {
        return None;
    }
    let head = text.substring_char(ha, hb);
    let tail = text.substring_char(best + ta, best + tb);
    proof {
        assert(head_v@ == text@.take(best as int));
        assert(tail_v@ == text@.skip(best as int));
        assert(head_v@.subrange(ha as int, hb as int) == text@.subrange(ha as int, hb as int));
        assert(tail_v@.subrange(ta as int, tb as int) == text@.subrange(best + ta, best + tb));
    }
    Some((head, tail))
}

/// A character of the CJK Unified Ideographs or their Extension A.
pub open spec fn cjk_ideograph(c: char) -> bool {
    ('\u{4E00}' <= c && c <= '\u{9FFF}') || ('\u{3400}' <= c && c <= '\u{4DBF}')
}

/// Two translated parts joined: directly when both are non-empty and the
/// last character of the first or the first of the second is a CJK
/// ideograph, otherwise with a space.
pub open spec fn parts_joined(a: Seq<char>, b: Seq<char>) -> Seq<char> {
    if a.len() > 0 && b.len() > 0 && (cjk_ideograph(a.last()) || cjk_ideograph(b[0])) {
        a + b
    } else {
        a + " "@ + b
    }
}

/// Joins the translations of the two parts ([`parts_joined`]).
pub fn join_translation_parts(a: &str, b: &str) -> (r: String)
    ensures
        r@ == parts_joined(a@, b@),
{
    let av = chars_of(a);
    let bv = chars_of(b);
    let cjk_pair = av.len() > 0 && bv.len() > 0 && {
        let l = av[av.len() - 1];
        let f = bv[0];
        (('\u{4E00}' <= l && l <= '\u{9FFF}') || ('\u{3400}' <= l && l <= '\u{4DBF}')) || (('\u{4E00}'
            <= f && f <= '\u{9FFF}') || ('\u{3400}' <= f && f <= '\u{4DBF}'))
    };
    let mut out = av.clone();
    if !cjk_pair {
        push_str(&mut out, " ");
    }
    crate::text::push_all(&mut out, &bv);
    string_of(&out)
}

// ── Languages and engines ─────────────────────────────────────────────────────

/// Target languages of realtime translation.
pub open spec fn supported_targets() -> Seq<Seq<char>> {
    seq![
        "zh"@,
        "en"@,
        "ja"@,
        "ko"@,
        "fr"@,
        "de"@,
        "es"@,
        "ru"@,
        "pt"@,
        "it"@,
        "th"@,
        "vi"@,
    ]
}

/// The target languages of realtime translation, in order.
pub fn supported_target_langs() -> (r: Vec<&'static str>)
    ensures
        r@.map_values(|s: &'static str| s@) == supported_targets(),
{
    let mut v: Vec<&'static str> = Vec::new();
    v.push("zh");
    v.push("en");
    v.push("ja");
    v.push("ko");
    v.push("fr");
    v.push("de");
    v.push("es");
    v.push("ru");
    v.push("pt");
    v.push("it");
    v.push("th");
    v.push("vi");
    assert(v@.map_values(|s: &'static str| s@) =~= supported_targets());
    v
}

/// Whether `lang` is a target language of realtime translation.
pub fn is_supported_target_lang(lang: &str) -> (r: bool)
    ensures
        r == supported_targets().contains(lang@),
{
    let langs = supported_target_langs();
    let ghost views = langs@.map_values(|s: &'static str| s@);
    let mut k: usize = 0;
    while k < langs.len()
        invariant
            views == langs@.map_values(|s: &'static str| s@),
            views == supported_targets(),
            k <= langs@.len(),
            forall|j: int| 0 <= j < k ==> views[j] != lang@,
        decreases langs@.len() - k,
    {
        assert(views[k as int] == langs@[k as int]@);
        if str_eq(langs[k], lang) {
            return true;
        }
        k += 1;
    }
    false
}

/// Error for a target language that realtime translation does not offer.
pub open spec fn unsupported_target_error(lang: Seq<char>) -> Seq<char> {
    "不支持的目标语言: "@ + lang
}

/// Checks a target language setting.
pub fn check_target_lang(lang: &str) -> (r: Result<(), String>)
    ensures
        supported_targets().contains(lang@) ==> r is Ok,
        !supported_targets().contains(lang@) ==> (r matches Err(e) && e@ == unsupported_target_error(
            lang@,
        )),
{
    if is_supported_target_lang(lang) {
        Ok(())
    } else {
        let mut e: Vec<char> = Vec::new();
        push_str(&mut e, "不支持的目标语言: ");
        push_str(&mut e, lang);
        Err(string_of(&e))
    }
}

/// Checks a home language setting: `en`, `zh`, `ko` or `ja`.
pub fn check_home_lang(lang: &str) -> (r: Result<(), String>)
    ensures
        (lang@ == "en"@ || lang@ == "zh"@ || lang@ == "ko"@ || lang@ == "ja"@) ==> r is Ok,
        !(lang@ == "en"@ || lang@ == "zh"@ || lang@ == "ko"@ || lang@ == "ja"@) ==> (r matches Err(e)
            && e@ == "不支持的 home 语言: "@ + lang@),
{
    if str_eq(lang, "en") || str_eq(lang, "zh") || str_eq(lang, "ko") || str_eq(lang, "ja") {
        Ok(())
    } else {
        let mut e: Vec<char> = Vec::new();
        push_str(&mut e, "不支持的 home 语言: ");
        push_str(&mut e, lang);
        Err(string_of(&e))
    }
}

/// The engine id stored for a chosen engine: the old `hymt2` becomes
/// `hymt2-q6`; `opus`, `hymt2-q4` and `hymt2-q6` stay; others are refused.
pub fn normalize_engine_id(engine: &str) -> (r: Result<String, String>)
    ensures
        engine@ == "hymt2"@ ==> (r matches Ok(s) && s@ == "hymt2-q6"@),
        (engine@ == "opus"@ || engine@ == "hymt2-q4"@ || engine@ == "hymt2-q6"@) ==> (r matches Ok(s)
            && s@ == engine@),
        !(engine@ == "hymt2"@ || engine@ == "opus"@ || engine@ == "hymt2-q4"@ || engine@
            == "hymt2-q6"@) ==> (r matches Err(e) && e@ == "不支持的翻译引擎: "@ + engine@),
{
    proof {
        reveal_strlit("hymt2");
        reveal_strlit("opus");
        reveal_strlit("hymt2-q4");
        reveal_strlit("hymt2-q6");
    }
    if str_eq(engine, "hymt2") {
        let v = chars_of("hymt2-q6");
        Ok(string_of(&v))
    } else if str_eq(engine, "opus") || str_eq(engine, "hymt2-q4") || str_eq(engine, "hymt2-q6") {
        let v = chars_of(engine);
        Ok(string_of(&v))
    } else {
        let mut e: Vec<char> = Vec::new();
        push_str(&mut e, "不支持的翻译引擎: ");
        push_str(&mut e, engine);
        Err(string_of(&e))
    }
}

/// Error when the Hy-MT2 model of the selected engine is not installed.
pub fn hymt2_not_installed_error(engine: &str) -> (r: String)
    ensures
        r@ == (if engine@ == "hymt2-q4"@ {
            "HY-MT2-Q4"@
        } else {
            "HY-MT2-Q6"@
        }) + " 翻译模型未安装，请先到设置页下载。"@,
{
    let mut e: Vec<char> = Vec::new();
    if str_eq(engine, "hymt2-q4") {
        push_str(&mut e, "HY-MT2-Q4");
    } else {
        push_str(&mut e, "HY-MT2-Q6");
    }
    push_str(&mut e, " 翻译模型未安装，请先到设置页下载。");
    string_of(&e)
}

/// The OPUS-MT direction of a request: `auto` follows the text (Chinese
/// into English when it is mostly Chinese), `zh-en` and `en-zh` stay, others
/// are refused.
pub fn opus_direction(direction: &str, chinese_dominant: bool) -> (r: Result<&'static str, String>)
    ensures
        direction@ == "auto"@ ==> (r matches Ok(d) && d@ == if chinese_dominant {
            "zh-en"@
        } else {
            "en-zh"@
        }),
        direction@ == "zh-en"@ ==> (r matches Ok(d) && d@ == "zh-en"@),
        direction@ == "en-zh"@ ==> (r matches Ok(d) && d@ == "en-zh"@),
        !(direction@ == "auto"@ || direction@ == "zh-en"@ || direction@ == "en-zh"@) ==> (r matches Err(
            e,
        ) && e@ == "不支持的翻译方向: "@ + direction@),
{
    proof {
        reveal_strlit("auto");
        reveal_strlit("zh-en");
        reveal_strlit("en-zh");
    }
    if str_eq(direction, "auto") {
        if chinese_dominant {
            Ok("zh-en")
        } else {
            Ok("en-zh")
        }
    } else if str_eq(direction, "zh-en") {
        Ok("zh-en")
    } else if str_eq(direction, "en-zh") {
        Ok("en-zh")
    } else {
        let mut e: Vec<char> = Vec::new();
        push_str(&mut e, "不支持的翻译方向: ");
        push_str(&mut e, direction);
        Err(string_of(&e))
    }
}

/// What a Hy-MT2 text translation request resolves to.
pub enum TextTranslation {
    /// The text is blank: the answer is an empty string, and no engine is
    /// used.
    Empty,
    /// Source and target are the same: the text is returned as it is.
    Unchanged,
    /// Translate along this `"{src}-{tgt}"` direction.
    Direction(String),
}

/// The target language of a Hy-MT2 text request: an explicit target other
/// than `auto` or blank, else the target of an explicit direction, else the
/// global setting (whose `auto` means the default target for the home
/// language).
pub open spec fn resolved_target(
    target: Option<Seq<char>>,
    explicit: Option<(Seq<char>, Seq<char>)>,
    global: Seq<char>,
    home_default: Seq<char>,
) -> Seq<char> {
    match target {
        Some(t) if t != "auto"@ && trim(t).len() > 0 => t,
        _ => match explicit {
            Some((_, t)) => t,
            None => if global == "auto"@ {
                home_default
            } else {
                global
            },
        },
    }
}

/// Resolves a Hy-MT2 text translation of `text` with the engine `engine`:
/// blank text needs nothing; a model that is not `installed` is refused;
/// otherwise the source comes from the explicit direction or else from
/// `detected_source`, the target from [`resolved_target`], an unsupported
/// target is refused, and an equal source and target leave the text
/// unchanged.
pub fn resolve_text_translation(
    text: &str,
    engine: &str,
    installed: bool,
    direction: &str,
    target: Option<String>,
    detected_source: &str,
    global_target: &str,
    home_default_target: &str,
) -> (r: Result<TextTranslation, String>)
    ensures
        ({
            let explicit = crate::llm::parsed_direction(direction@);
            let src = match explicit {
                Some((s, _)) => s,
                None => detected_source@,
            };
            let tgt = resolved_target(
                match target {
                    Some(t) => Some(t@),
                    None => None,
                },
                explicit,
                global_target@,
                home_default_target@,
            );
            if trim(text@).len() == 0 {
                r matches Ok(TextTranslation::Empty)
            } else if !installed {
                r matches Err(e) && e@ == (if engine@ == "hymt2-q4"@ {
                    "HY-MT2-Q4"@
                } else {
                    "HY-MT2-Q6"@
                }) + " 翻译模型未安装，请先到设置页下载。"@
            } else if !supported_targets().contains(tgt) {
                r matches Err(e) && e@ == unsupported_target_error(tgt)
            } else if src == tgt {
                r matches Ok(TextTranslation::Unchanged)
            } else {
                r matches Ok(TextTranslation::Direction(d)) && d@ == src + "-"@ + tgt
            }
        }),
{
    let text_v = chars_of(text);
    if crate::text::is_blank(&text_v) {
        return Ok(TextTranslation::Empty);
    }
    if !installed {
        return Err(hymt2_not_installed_error(engine));
    }
    let explicit = parse_direction(direction);
    let src: &str = match explicit {
        Some((s, _)) => s,
        None => detected_source,
    };
    let explicit_target: Option<String> = match target {
        Some(t) => {
            let tv = chars_of(t.as_str());
            if !str_eq(t.as_str(), "auto") && !crate::text::is_blank(&tv) {
                Some(t)
            } else {
                None
            }
        },
        None => None,
    };
    let tgt: String = match explicit_target {
        Some(t) => t,
        None => match explicit {
            Some((_, t)) => {
                let v = chars_of(t);
                string_of(&v)
            },
            None => if str_eq(global_target, "auto") {
                let v = chars_of(home_default_target);
                string_of(&v)
            } else {
                let v = chars_of(global_target);
                string_of(&v)
            },
        },
    };
    if !is_supported_target_lang(tgt.as_str()) {
        let mut e: Vec<char> = Vec::new();
        push_str(&mut e, "不支持的目标语言: ");
        push_str(&mut e, tgt.as_str());
        return Err(string_of(&e));
    }
    if str_eq(src, tgt.as_str()) {
        return Ok(TextTranslation::Unchanged);
    }
    let mut d: Vec<char> = Vec::new();
    push_str(&mut d, src);
    push_str(&mut d, "-");
    push_str(&mut d, tgt.as_str());
    Ok(TextTranslation::Direction(string_of(&d)))
}


// ── Decoder output ────────────────────────────────────────────────────────────

/// Where the logits of the last position lie in a decoder's output of shape
/// `dims` (batch, positions, vocabulary), flattened: the last
/// `dims[2]` values of the first batch row, from `(dims[1] - 1) * dims[2]`.
/// `None` when the output is not three-dimensional or has no position.
/// The output holds at least the first batch row.
pub fn last_logits_range(dims: &Vec<i64>, logits_len: usize) -> (r: Option<(usize, usize)>)
    requires
        dims@.len() == 3 && dims@[1] != 0 ==> 0 < dims@[1] && 0 <= dims@[2] && dims@[1] * dims@[2] <= logits_len,
    ensures
        r is None <==> (dims@.len() != 3 || dims@[1] == 0),
        r matches Some((a, b)) ==> a == (dims@[1] - 1) * dims@[2] && b == a + dims@[2] && b <= logits_len,
{
    if dims.len() != 3 || dims[1] == 0 {
        return None;
    }
    let positions = dims[1];
    let vocab = dims[2];
    if vocab == 0 {
        assert((positions - 1) * vocab == 0);
        return Some((0, 0));
    }
    assert((positions - 1) * vocab + vocab == positions * vocab) by (nonlinear_arith);
    assert(0 <= (positions - 1) * vocab && positions <= positions * vocab && vocab <= positions * vocab)
        by (nonlinear_arith)
        requires
            positions > 0,
            vocab > 0,
    ;
    let p = positions as usize;
    let v = vocab as usize;
    let offset = (p - 1) * v;
    Some((offset, offset + v))
}
} // verus!
