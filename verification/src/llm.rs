//! Prompt construction and output cleanup for the Hy-MT2 translation model,
//! and the decisions around one translation request.
//!
//! The model itself runs in a separate helper process; [`translate`] and
//! [`translate_with_context`] decide what to ask it, and
//! [`GenerationRequest::finish`] turns its raw answer into the final text.
use vstd::prelude::*;

use crate::text::{
    chars_of, count_non_ws, find, find_spec, fold_range, folded, is_digit, is_whitespace,
    lemma_find_spec, lemma_find_spec_unique, lemma_pieces_push, lemma_ranges_within, occurs_at,
    contains, is_blank, join, join_ranges, lemma_trim_len, line_ranges, lines, pieces, push_all, push_range,
    push_str, ranges_within, replace_all, replace_vec, slice_of, split_str, split_str_ranges,
    starts_with, str_eq, str_eq_vec, string_of, trim, trim_end, trim_start, trimmed, trimmed_end,
    trimmed_start, vec_contains, vec_eq, vec_starts_with, word_count, words,
};

verus! {

/// Chat-template opening: begin-of-sentence and user-turn markers (full-width
/// vertical bar U+FF5C and U+2581, as in the model's tokenizer).
pub const CHAT_PREFIX: &'static str = "<\u{FF5C}hy_begin\u{2581}of\u{2581}sentence\u{FF5C}><\u{FF5C}hy_User\u{FF5C}>";

/// Chat-template assistant-turn marker that starts generation.
pub const CHAT_SUFFIX: &'static str = "<\u{FF5C}hy_Assistant\u{FF5C}>";

/// Directory of the realtime Hy-MT2 model under the models directory.
pub const MODEL_DIR: &'static str = "hy-mt2-1.8b-q6k";

/// Context window requested from the helper.
pub const CONTEXT_SIZE: u32 = 4096;

/// Top-k sampling cut-off.
pub const TOP_K: i32 = 20;

/// Number of rows of the language table.
pub const LANG_COUNT: usize = 14;

/// Language code of row `i` of the language table.
pub open spec fn lang_code(i: int) -> Seq<char> {
    if i == 0 {
        "zh"@
    } else if i == 1 {
        "en"@
    } else if i == 2 {
        "ja"@
    } else if i == 3 {
        "ko"@
    } else if i == 4 {
        "fr"@
    } else if i == 5 {
        "de"@
    } else if i == 6 {
        "es"@
    } else if i == 7 {
        "ru"@
    } else if i == 8 {
        "pt"@
    } else if i == 9 {
        "it"@
    } else if i == 10 {
        "zh-Hant"@
    } else if i == 11 {
        "yue"@
    } else if i == 12 {
        "th"@
    } else {
        "vi"@
    }
}

/// Chinese name of the language of row `i`.
pub open spec fn lang_native(i: int) -> Seq<char> {
    if i == 0 {
        "中文"@
    } else if i == 1 {
        "英语"@
    } else if i == 2 {
        "日语"@
    } else if i == 3 {
        "韩语"@
    } else if i == 4 {
        "法语"@
    } else if i == 5 {
        "德语"@
    } else if i == 6 {
        "西班牙语"@
    } else if i == 7 {
        "俄语"@
    } else if i == 8 {
        "葡萄牙语"@
    } else if i == 9 {
        "意大利语"@
    } else if i == 10 {
        "繁体中文"@
    } else if i == 11 {
        "粤语"@
    } else if i == 12 {
        "泰语"@
    } else {
        "越南语"@
    }
}

/// English name of the language of row `i`.
pub open spec fn lang_english(i: int) -> Seq<char> {
    if i == 0 {
        "Chinese"@
    } else if i == 1 {
        "English"@
    } else if i == 2 {
        "Japanese"@
    } else if i == 3 {
        "Korean"@
    } else if i == 4 {
        "French"@
    } else if i == 5 {
        "German"@
    } else if i == 6 {
        "Spanish"@
    } else if i == 7 {
        "Russian"@
    } else if i == 8 {
        "Portuguese"@
    } else if i == 9 {
        "Italian"@
    } else if i == 10 {
        "Traditional Chinese"@
    } else if i == 11 {
        "Cantonese"@
    } else if i == 12 {
        "Thai"@
    } else {
        "Vietnamese"@
    }
}

/// Row `i` of the language table: (code, Chinese name, English name).
fn lang_row(i: usize) -> (r: (&'static str, &'static str, &'static str))
    requires
        i < LANG_COUNT,
    ensures
        r.0@ == lang_code(i as int),
        r.1@ == lang_native(i as int),
        r.2@ == lang_english(i as int),
{
    if i == 0 {
        ("zh", "中文", "Chinese")
    } else if i == 1 {
        ("en", "英语", "English")
    } else if i == 2 {
        ("ja", "日语", "Japanese")
    } else if i == 3 {
        ("ko", "韩语", "Korean")
    } else if i == 4 {
        ("fr", "法语", "French")
    } else if i == 5 {
        ("de", "德语", "German")
    } else if i == 6 {
        ("es", "西班牙语", "Spanish")
    } else if i == 7 {
        ("ru", "俄语", "Russian")
    } else if i == 8 {
        ("pt", "葡萄牙语", "Portuguese")
    } else if i == 9 {
        ("it", "意大利语", "Italian")
    } else if i == 10 {
        ("zh-Hant", "繁体中文", "Traditional Chinese")
    } else if i == 11 {
        ("yue", "粤语", "Cantonese")
    } else if i == 12 {
        ("th", "泰语", "Thai")
    } else {
        ("vi", "越南语", "Vietnamese")
    }
}

/// Chinese speech-transcript instruction, part 0 (between the inserted language names).
pub const ZH_ASR_0: &'static str = "将以下";

/// Chinese speech-transcript instruction, part 1 (between the inserted language names).
pub const ZH_ASR_1: &'static str = "语音转录文本翻译为";

/// Chinese speech-transcript instruction, part 2 (between the inserted language names).
pub const ZH_ASR_2: &'static str = "。\n要求：\n1. 只输出";

/// Chinese speech-transcript instruction, part 3 (between the inserted language names).
pub const ZH_ASR_3: &'static str = "译文，严禁输出原文、双语对照、原文片段或重复原文；\n2. 直接开始翻译，不要写“翻译：\u{201D}“";

/// Chinese speech-transcript instruction, part 4 (between the inserted language names).
pub const ZH_ASR_4: &'static str = "：\u{201D}等任何前缀；\n3. 完整保留原文每一项语义，不得省略、概括、合并或添加内容；\n4. 仅在明显是语音识别错误时做最小纠正，不得改变原意；\n5. 保留有意义的感叹、重复和语气表达，同时输出流畅自然的口语翻译；\n6. 不要解释，不要备注。\n7. 数字、时间、尺寸、单位、型号、零件号必须忠实保留，不得擅自改写数值或编号；\n8. 严禁输出“来源：\u{201D}“Source:\u{201D}或“原文：\u{201D}等标签；普通可翻译的源语言词必须翻译，不得残留在译文中，只有专有名词、型号、零件号等标识可保留原文；时间可按目标语言自然表达，但数字值必须保持不变（例如 18 e 40 应表达为 18点40分，而不是改变数字\u{FF09}。";


/// Extra Chinese instruction for Italian speech translated into Chinese.
pub const ZH_ASR_ITALIAN_HINT: &'static str = "\n9. 意大利语实时口语翻译要忠实、少改写：如果片段以残句开始或结束，不要猜测缺失的主语、动作或结论，只翻译当前实际出现的内容；quasi quasi 表示“有点想/要不/也许\u{201D}的试探语气，不要译成“差不多\u{201D}或“差点\u{201D}；天气/光照语境中的 sole 表示“太阳/阳光\u{201D}。";

/// English speech-transcript instruction, part 0.
pub const EN_ASR_0: &'static str = "Translate the following ";

/// English speech-transcript instruction, part 1.
pub const EN_ASR_1: &'static str = " spoken transcript into ";

/// English speech-transcript instruction, part 2.
pub const EN_ASR_2: &'static str = ".\nRequirements:\n1. Output ONLY the ";

/// English speech-transcript instruction, part 3.
pub const EN_ASR_3: &'static str = " translation. Do NOT output the original text, bilingual pairs, source fragments, or repeated source.\n2. Start directly with the translation; do not write prefixes like \"Translation:\" or \"";

/// English speech-transcript instruction, part 4.
pub const EN_ASR_4: &'static str = ":\".\n3. Preserve every semantic unit; do not omit, summarize, merge, or add content.\n4. Correct only obvious ASR errors with the smallest possible change; do not change the meaning.\n5. Preserve meaningful interjections, repetitions, and tone while producing fluent natural speech.\n6. Do not explain or add notes.\n7. Preserve numbers, times, dimensions, units, model names, and part numbers exactly; do not alter numeric values or identifiers.\n8. Never output labels such as \"Source:\", \"Original:\", or their translated equivalents. Translate ordinary source-language words instead of leaving them in the target text; preserve source text only for proper names, model names, part numbers, and other identifiers. Render time naturally in the target language while preserving every numeric value exactly.";

/// Chinese plain-text instruction, before the target name.
pub const ZH_PLAIN_0: &'static str = "将以下文本翻译为";

/// Chinese plain-text instruction, after the target name.
pub const ZH_PLAIN_1: &'static str = "，注意只需要输出翻译后的结果，不要额外解释";

/// English plain-text instruction, before the target name.
pub const EN_PLAIN_0: &'static str = "Translate the following text into ";

/// English plain-text instruction, after the target name.
pub const EN_PLAIN_1: &'static str = ". Only output the translated result, without any additional explanation.";

/// Chinese contextual instruction, part 0.
pub const ZH_CTX_0: &'static str = "将当前";

/// Chinese contextual instruction, part 1.
pub const ZH_CTX_1: &'static str = "语音片段翻译为";

/// Chinese contextual instruction, part 2.
pub const ZH_CTX_2: &'static str = "。上一段只用于理解语境，严禁翻译或复述上一段。\n要求：\n1. 只输出当前片段的";

/// Chinese contextual instruction, part 3.
pub const ZH_CTX_3: &'static str = "译文；\n2. 根据上一段语境选择当前短语最合适的含义；\n3. 不要添加当前片段没有表达的新信息；\n4. 数字、时间、尺寸、单位、型号、零件号必须忠实保留，不得改写；\n5. 不要解释，不要备注，不要输出原文。";

/// Chinese contextual instruction, part 4.
pub const ZH_CTX_4: &'static str = "\n\n上一段（仅供语境\u{FF09}：";

/// Chinese contextual instruction, part 5.
pub const ZH_CTX_5: &'static str = "\n当前片段（只翻译这一段\u{FF09}：";

/// Chinese contextual instruction, part 6.
pub const ZH_CTX_6: &'static str = "\n\nTarget (";

/// Chinese contextual instruction, part 7.
pub const ZH_CTX_7: &'static str = "):";

/// Extra Chinese contextual instruction for Italian into Chinese.
pub const ZH_CTX_ITALIAN_HINT: &'static str = "\n6. 意大利语残句不要脑补；quasi quasi 按“有点想/要不/也许\u{201D}的语气理解；天气语境中的 sole 按“太阳/阳光\u{201D}理解。";

/// English contextual instruction, part 0.
pub const EN_CTX_0: &'static str = "Translate the current ";

/// English contextual instruction, part 1.
pub const EN_CTX_1: &'static str = " speech fragment into ";

/// English contextual instruction, part 2.
pub const EN_CTX_2: &'static str = ". The previous segment is context only; do NOT translate or repeat it.\nRequirements:\n1. Output ONLY the translation of the current fragment.\n2. Use the previous segment only to disambiguate the current short phrase.\n3. Do not add information not expressed by the current fragment.\n4. Preserve numbers, times, dimensions, units, model names, and part numbers exactly.\n5. Do not explain, annotate, or output the source text.\n\nPrevious segment (context only): ";

/// English contextual instruction, part 3.
pub const EN_CTX_3: &'static str = "\nCurrent fragment (translate only this): ";

/// English contextual instruction, part 4.
pub const EN_CTX_4: &'static str = "\n\nTarget (";

/// English contextual instruction, part 5.
pub const EN_CTX_5: &'static str = "):";

// ── Language table lookups ────────────────────────────────────────────────────

/// Index of the first table row whose code is `code`, searching from `i`.
pub open spec fn lang_index_from(code: Seq<char>, i: int) -> Option<int>
    decreases LANG_COUNT - i,
{
    if i < 0 || i >= LANG_COUNT {
        None
    } else if lang_code(i) == code {
        Some(i)
    } else {
        lang_index_from(code, i + 1)
    }
}

/// Index of the table row for `code`, if the code is in the table.
pub open spec fn lang_index(code: Seq<char>) -> Option<int> {
    lang_index_from(code, 0)
}

/// `(Chinese name, English name)` of `code`; two empty strings when the code
/// is not in the table.
pub open spec fn names_of(code: Seq<char>) -> (Seq<char>, Seq<char>) {
    match lang_index(code) {
        Some(i) => (lang_native(i), lang_english(i)),
        None => (Seq::empty(), Seq::empty()),
    }
}

/// Language names of `code`: `(Chinese name, English name)`, or two empty
/// strings for a code outside the table.
pub fn lang_names(code: &str) -> (r: (&'static str, &'static str))
    ensures
        r.0@ == names_of(code@).0,
        r.1@ == names_of(code@).1,
{
    let cv = chars_of(code);
    let mut i: usize = 0;
    while i < LANG_COUNT
        invariant
            cv@ == code@,
            i <= LANG_COUNT,
            lang_index_from(code@, 0) == lang_index_from(code@, i as int),
        decreases LANG_COUNT - i,
    {
        let row = lang_row(i);
        if str_eq_vec(row.0, &cv) {
            return (row.1, row.2);
        }
        i += 1;
    }
    proof {
        reveal_strlit("");
    }
    ("", "")
}

/// Chinese, Traditional Chinese or Cantonese.
pub open spec fn chinese_family(code: Seq<char>) -> bool {
    code == "zh"@ || code == "zh-Hant"@ || code == "yue"@
}

/// Whether `code` belongs to the Chinese family (`zh`, `zh-Hant`, `yue`),
/// which selects Chinese instructions and the echo-line filters.
pub fn is_chinese_family(code: &str) -> (r: bool)
    ensures
        r == chinese_family(code@),
{
    str_eq(code, "zh") || str_eq(code, "zh-Hant") || str_eq(code, "yue")
}

/// `d` reads `lang_code(i) + "-" + lang_code(j)`.
pub open spec fn splits_as(d: Seq<char>, i: int, j: int) -> bool {
    d == lang_code(i) + "-"@ + lang_code(j)
}

/// Some row `j` completes `d` as `lang_code(i) + "-" + lang_code(j)`.
pub open spec fn splits_with_source(d: Seq<char>, i: int) -> bool {
    exists|j: int| 0 <= j < LANG_COUNT && splits_as(d, i, j)
}

/// `d` splits as rows `(i, j)` and no earlier source row splits it.
pub open spec fn first_split(d: Seq<char>, i: int, j: int) -> bool {
    &&& 0 <= i < LANG_COUNT
    &&& 0 <= j < LANG_COUNT
    &&& splits_as(d, i, j)
    &&& forall|k: int| 0 <= k < i ==> !splits_with_source(d, k)
}

/// Parses a `"{src}-{tgt}"` direction whose two codes are both in the
/// language table. Codes may themselves contain a hyphen (`zh-Hant`), so the
/// table is matched in order instead of splitting at the first `-`; the
/// earliest source row that completes the direction wins.
pub fn parse_direction(direction: &str) -> (r: Option<(&'static str, &'static str)>)
    ensures
        match r {
            Some((a, b)) => exists|i: int, j: int|
                #[trigger] first_split(direction@, i, j) && a@ == lang_code(i) && b@ == lang_code(j),
            None => forall|i: int| 0 <= i < LANG_COUNT ==> !splits_with_source(direction@, i),
        },
        match r {
            Some((a, b)) => parsed_direction(direction@) == Some((a@, b@)),
            None => parsed_direction(direction@) is None,
        },
{
    let d = chars_of(direction);
    let dash = chars_of("-");
    let mut i: usize = 0;
    while i < LANG_COUNT
        invariant
            d@ == direction@,
            dash@ == "-"@,
            i <= LANG_COUNT,
            forall|k: int| 0 <= k < i ==> !splits_with_source(direction@, k),
        decreases LANG_COUNT - i,
    {
        let src = lang_row(i);
        let sv = chars_of(src.0);
        let mut j: usize = 0;
        while j < LANG_COUNT
            invariant
                d@ == direction@,
                sv@ == lang_code(i as int),
                src.0@ == lang_code(i as int),
                dash@ == "-"@,
                i < LANG_COUNT,
                j <= LANG_COUNT,
                forall|k: int| 0 <= k < j ==> !splits_as(direction@, i as int, k),
                forall|k: int| 0 <= k < i ==> !splits_with_source(direction@, k),
            decreases LANG_COUNT - j,
        {
            let tgt = lang_row(j);
            let mut cand: Vec<char> = Vec::new();
            push_all(&mut cand, &sv);
            push_all(&mut cand, &dash);
            push_str(&mut cand, tgt.0);
            if vec_eq(&cand, &d) {
                assert(first_split(direction@, i as int, j as int));
                proof {
                    let (i2, j2) = choose|i2: int, j2: int| first_split(direction@, i2, j2);
                    lemma_first_split_unique(direction@, i as int, j as int, i2, j2);
                }
                return Some((src.0, tgt.0));
            }
            j += 1;
        }
        assert(!splits_with_source(direction@, i as int));
        i += 1;
    }
    assert forall|i: int, j: int| !first_split(direction@, i, j) by {
        if first_split(direction@, i, j) {
            assert(splits_with_source(direction@, i));
        }
    }
    None
}

// ── Prompt construction ───────────────────────────────────────────────────────

/// The instruction of a speech-transcript prompt from `src` into `tgt`.
pub open spec fn asr_instruction(src: Seq<char>, tgt: Seq<char>) -> Seq<char> {
    let src_en = names_of(src).1;
    let tgt_en = names_of(tgt).1;
    if chinese_family(src) || chinese_family(tgt) {
        ZH_ASR_0@ + src_en + ZH_ASR_1@ + tgt_en + ZH_ASR_2@ + tgt_en + ZH_ASR_3@ + tgt_en + ZH_ASR_4@
            + if src == "it"@ && chinese_family(tgt) {
            ZH_ASR_ITALIAN_HINT@
        } else {
            Seq::empty()
        }
    } else {
        EN_ASR_0@ + src_en + EN_ASR_1@ + tgt_en + EN_ASR_2@ + tgt_en + EN_ASR_3@ + tgt_en + EN_ASR_4@
    }
}

/// The user turn of a translation prompt.
pub open spec fn prompt_user_text(text: Seq<char>, src: Seq<char>, tgt: Seq<char>, asr_mode: bool) -> Seq<char> {
    if asr_mode {
        asr_instruction(src, tgt) + "\n\nSource: "@ + text + "\n\nTarget ("@ + names_of(tgt).1 + "):"@
    } else if chinese_family(src) {
        ZH_PLAIN_0@ + names_of(tgt).0 + ZH_PLAIN_1@ + ":\n\n"@ + text
    } else {
        EN_PLAIN_0@ + names_of(tgt).1 + EN_PLAIN_1@ + ":\n\n"@ + text
    }
}

/// The full chat-template prompt produced by [`build_prompt`].
pub open spec fn prompt_spec(text: Seq<char>, src: Seq<char>, tgt: Seq<char>, asr_mode: bool) -> Seq<char> {
    CHAT_PREFIX@ + prompt_user_text(text, src, tgt, asr_mode) + CHAT_SUFFIX@
}

/// Builds the Hy-MT2 chat-template prompt. Plain mode is a one-line
/// instruction followed by the text; `asr_mode` uses the speech-transcript
/// instruction with its numbered requirements. Chinese instructions are used
/// when the source (plain mode) or either side (`asr_mode`) is Chinese-family.
pub fn build_prompt(text: &str, source_lang: &str, target_lang: &str, asr_mode: bool) -> (r: String)
    ensures
        r@ == prompt_spec(text@, source_lang@, target_lang@, asr_mode),
{
    let (tgt_native, tgt_en) = lang_names(target_lang);
    let src_zh = is_chinese_family(source_lang);
    let mut out: Vec<char> = Vec::new();
    push_str(&mut out, CHAT_PREFIX);
    let ghost base = out@;
    if asr_mode {
        let (_, src_en) = lang_names(source_lang);
        let tgt_zh = is_chinese_family(target_lang);
        if src_zh || tgt_zh {
            push_str(&mut out, ZH_ASR_0);
            push_str(&mut out, src_en);
            push_str(&mut out, ZH_ASR_1);
            push_str(&mut out, tgt_en);
            push_str(&mut out, ZH_ASR_2);
            push_str(&mut out, tgt_en);
            push_str(&mut out, ZH_ASR_3);
            push_str(&mut out, tgt_en);
            push_str(&mut out, ZH_ASR_4);
            if str_eq(source_lang, "it") && tgt_zh {
                push_str(&mut out, ZH_ASR_ITALIAN_HINT);
            }
        } else {
            push_str(&mut out, EN_ASR_0);
            push_str(&mut out, src_en);
            push_str(&mut out, EN_ASR_1);
            push_str(&mut out, tgt_en);
            push_str(&mut out, EN_ASR_2);
            push_str(&mut out, tgt_en);
            push_str(&mut out, EN_ASR_3);
            push_str(&mut out, tgt_en);
            push_str(&mut out, EN_ASR_4);
        }
        assert(out@ == base + asr_instruction(source_lang@, target_lang@));
        push_str(&mut out, "\n\nSource: ");
        push_str(&mut out, text);
        push_str(&mut out, "\n\nTarget (");
        push_str(&mut out, tgt_en);
        push_str(&mut out, "):");
    } else {
        if src_zh {
            push_str(&mut out, ZH_PLAIN_0);
            push_str(&mut out, tgt_native);
            push_str(&mut out, ZH_PLAIN_1);
        } else {
            push_str(&mut out, EN_PLAIN_0);
            push_str(&mut out, tgt_en);
            push_str(&mut out, EN_PLAIN_1);
        }
        push_str(&mut out, ":\n\n");
        push_str(&mut out, text);
    }
    assert(out@ == base + prompt_user_text(text@, source_lang@, target_lang@, asr_mode));
    push_str(&mut out, CHAT_SUFFIX);
    string_of(&out)
}

/// The full prompt produced by [`build_contextual_prompt`].
pub open spec fn contextual_prompt_spec(
    current: Seq<char>,
    context: Seq<char>,
    src: Seq<char>,
    tgt: Seq<char>,
) -> Seq<char> {
    let src_en = names_of(src).1;
    let tgt_en = names_of(tgt).1;
    if chinese_family(src) || chinese_family(tgt) {
        CHAT_PREFIX@ + ZH_CTX_0@ + src_en + ZH_CTX_1@ + tgt_en + ZH_CTX_2@ + tgt_en + ZH_CTX_3@ + (if src
            == "it"@ && chinese_family(tgt) {
            ZH_CTX_ITALIAN_HINT@
        } else {
            Seq::empty()
        }) + ZH_CTX_4@ + context + ZH_CTX_5@ + current + ZH_CTX_6@ + tgt_en + ZH_CTX_7@ + CHAT_SUFFIX@
    } else {
        CHAT_PREFIX@ + EN_CTX_0@ + src_en + EN_CTX_1@ + tgt_en + EN_CTX_2@ + context + EN_CTX_3@ + current
            + EN_CTX_4@ + tgt_en + EN_CTX_5@ + CHAT_SUFFIX@
    }
}

/// Prompt for a very short realtime fragment with the previous segment as
/// context: the model is told to use `context_before` only to disambiguate
/// and to translate `current_text` alone.
pub fn build_contextual_prompt(
    current_text: &str,
    context_before: &str,
    source_lang: &str,
    target_lang: &str,
) -> (r: String)
    ensures
        r@ == contextual_prompt_spec(current_text@, context_before@, source_lang@, target_lang@),
{
    let (_, src_en) = lang_names(source_lang);
    let (_, tgt_en) = lang_names(target_lang);
    let tgt_zh = is_chinese_family(target_lang);
    let mut out: Vec<char> = Vec::new();
    push_str(&mut out, CHAT_PREFIX);
    if is_chinese_family(source_lang) || tgt_zh {
        push_str(&mut out, ZH_CTX_0);
        push_str(&mut out, src_en);
        push_str(&mut out, ZH_CTX_1);
        push_str(&mut out, tgt_en);
        push_str(&mut out, ZH_CTX_2);
        push_str(&mut out, tgt_en);
        push_str(&mut out, ZH_CTX_3);
        let ghost before_hint = out@;
        if str_eq(source_lang, "it") && tgt_zh {
            push_str(&mut out, ZH_CTX_ITALIAN_HINT);
        } else {
            assert(out@ == before_hint + Seq::<char>::empty());
        }
        assert(out@ == before_hint + (if source_lang@ == "it"@ && chinese_family(target_lang@) {
            ZH_CTX_ITALIAN_HINT@
        } else {
            Seq::<char>::empty()
        }));
        push_str(&mut out, ZH_CTX_4);
        push_str(&mut out, context_before);
        push_str(&mut out, ZH_CTX_5);
        push_str(&mut out, current_text);
        push_str(&mut out, ZH_CTX_6);
        push_str(&mut out, tgt_en);
        push_str(&mut out, ZH_CTX_7);
    } else {
        push_str(&mut out, EN_CTX_0);
        push_str(&mut out, src_en);
        push_str(&mut out, EN_CTX_1);
        push_str(&mut out, tgt_en);
        push_str(&mut out, EN_CTX_2);
        push_str(&mut out, context_before);
        push_str(&mut out, EN_CTX_3);
        push_str(&mut out, current_text);
        push_str(&mut out, EN_CTX_4);
        push_str(&mut out, tgt_en);
        push_str(&mut out, EN_CTX_5);
    }
    push_str(&mut out, CHAT_SUFFIX);
    string_of(&out)
}

// ── Output cleanup ────────────────────────────────────────────────────────────

/// Delimiters accepted around a special token name: full-width bar, box
/// drawing bar, ASCII bar.
pub open spec fn is_token_delim(c: char) -> bool {
    c == '\u{FF5C}' || c == '\u{2502}' || c == '|'
}

/// `s` starts with a `<|hy_...|>`-style special token (any of the three
/// delimiters): `<`, a delimiter, `hy_`, then a `>` whose preceding character
/// is a delimiter.
pub open spec fn special_token(s: Seq<char>) -> bool {
    &&& s.len() >= 5
    &&& s[0] == '<'
    &&& is_token_delim(s[1])
    &&& s[2] == 'h' && s[3] == 'y' && s[4] == '_'
    &&& match find_spec(s.skip(5), seq!['>'], 0) {
        Some(e) => e > 0 && is_token_delim(s[5 + e - 1]),
        None => false,
    }
}

/// Length of the special token at the start of `s` (through its `>`).
pub open spec fn special_token_len(s: Seq<char>) -> int {
    match find_spec(s.skip(5), seq!['>'], 0) {
        Some(e) => 5 + e + 1,
        None => s.len() as int,
    }
}

/// A special token is at least six characters and fits in `s`.
pub proof fn lemma_special_token_len(s: Seq<char>)
    requires
        special_token(s),
    ensures
        6 <= special_token_len(s) <= s.len(),
{
    lemma_find_spec(s.skip(5), seq!['>'], 0);
}

/// `s` with every special token removed; other `<` characters are kept.
pub open spec fn strip_special(s: Seq<char>) -> Seq<char>
    decreases s.len(),
{
    if s.len() == 0 {
        s
    } else if special_token(s) {
        proof {
            lemma_special_token_len(s);
        }
        strip_special(s.skip(special_token_len(s)))
    } else {
        seq![s[0]] + strip_special(s.drop_first())
    }
}

/// Length of the special token starting at `v[i]`, if one starts there.
fn special_token_at(v: &Vec<char>, i: usize) -> (r: Option<usize>)
    requires
        i <= v@.len(),
    ensures
        match r {
            Some(k) => special_token(v@.skip(i as int)) && k == special_token_len(v@.skip(i as int)),
            None => !special_token(v@.skip(i as int)),
        },
{
    let ghost t = v@.skip(i as int);
    if v.len() - i < 5 {
        return None;
    }
    if !(v[i] == '<' && (v[i + 1] == '\u{FF5C}' || v[i + 1] == '\u{2502}' || v[i + 1] == '|') && v[i + 2]
        == 'h' && v[i + 3] == 'y' && v[i + 4] == '_') {
        return None;
    }
    let gt: Vec<char> = vec!['>'];
    assert(gt@ == seq!['>']);
    match find(v, &gt, i + 5) {
        Some(p) => {
            proof {
                lemma_find_spec(v@, gt@, i + 5);
                assert forall|j: int| 0 <= j < p - i - 5 implies !occurs_at(t.skip(5), gt@, j) by {
                    assert(t.skip(5).subrange(j, j + 1) == v@.subrange(i + 5 + j, i + 5 + j + 1));
                    assert(!occurs_at(v@, gt@, i + 5 + j));
                }
                assert(t.skip(5).subrange(p - i - 5, p - i - 5 + 1) == v@.subrange(p as int, p + 1));
                lemma_find_spec_unique(t.skip(5), gt@, 0, Some(p - i - 5));
            }
            if p > i + 5 && (v[p - 1] == '\u{FF5C}' || v[p - 1] == '\u{2502}' || v[p - 1] == '|') {
                Some(p - i + 1)
            } else {
                None
            }
        },
        None => {
            proof {
                lemma_find_spec(v@, gt@, i + 5);
                assert forall|j: int| 0 <= j implies !occurs_at(t.skip(5), gt@, j) by {
                    if j + 1 <= t.skip(5).len() {
                        assert(t.skip(5).subrange(j, j + 1) == v@.subrange(i + 5 + j, i + 5 + j + 1));
                        assert(!occurs_at(v@, gt@, i + 5 + j));
                    }
                }
                lemma_find_spec_unique(t.skip(5), gt@, 0, None);
            }
            None
        },
    }
}

/// Whether `s` starts with a `<｜hy_...｜>` / `<|hy_...|>` / `<│hy_...│>`
/// special token.
pub fn is_hy_special_token(s: &str) -> (r: bool)
    ensures
        r == special_token(s@),
{
    let v = chars_of(s);
    assert(v@.skip(0) == v@);
    special_token_at(&v, 0).is_some()
}

/// Removes `<｜hy_...｜>`-style special tokens (three delimiter variants);
/// a `<` that does not open such a token is kept.
pub fn strip_special_tokens(text: &str) -> (r: String)
    ensures
        r@ == strip_special(text@),
{
    let v = chars_of(text);
    let out = strip_special_vec(&v);
    string_of(&out)
}

fn strip_special_vec(v: &Vec<char>) -> (r: Vec<char>)
    ensures
        r@ == strip_special(v@),
{
    let n = v.len();
    let mut out: Vec<char> = Vec::new();
    let mut i: usize = 0;
    assert(v@.skip(0) == v@);
    while i < n
        invariant
            i <= n == v@.len(),
            strip_special(v@) == out@ + strip_special(v@.skip(i as int)),
        decreases n - i,
    {
        let ghost rest = v@.skip(i as int);
        match special_token_at(v, i) {
            Some(k) => {
                proof {
                    lemma_special_token_len(rest);
                    assert(rest.skip(k as int) == v@.skip(i + k));
                }
                i = i + k;
            },
            None => {
                assert(rest.drop_first() == v@.skip(i + 1));
                assert(rest[0] == v@[i as int]);
                let ghost before = out@;
                out.push(v[i]);
                assert(out@ + strip_special(v@.skip(i + 1)) == before + (seq![v@[i as int]]
                    + strip_special(v@.skip(i + 1))));
                i += 1;
            },
        }
    }
    assert(v@.skip(n as int) == Seq::<char>::empty());
    out
}

// ── Character classes used by the output filters ─────────────────────────────

/// Code points of the CJK ideograph, CJK punctuation, kana and Hangul blocks
/// that make a line count as CJK.
pub open spec fn cjk_char(c: char) -> bool {
    ||| ('\u{4E00}' <= c && c <= '\u{9FFF}')
    ||| ('\u{3000}' <= c && c <= '\u{303F}')
    ||| ('\u{3040}' <= c && c <= '\u{309F}')
    ||| ('\u{30A0}' <= c && c <= '\u{30FF}')
    ||| ('\u{AC00}' <= c && c <= '\u{D7AF}')
}

/// `s` is non-empty and every character of it is a [`cjk_char`] (a line
/// holding a space is not all-CJK).
pub open spec fn all_cjk(s: Seq<char>) -> bool {
    s.len() > 0 && forall|i: int| 0 <= i < s.len() ==> cjk_char(#[trigger] s[i])
}

fn cjk_at(c: char) -> (r: bool)
    ensures
        r == cjk_char(c),
{
    ('\u{4E00}' <= c && c <= '\u{9FFF}') || ('\u{3000}' <= c && c <= '\u{303F}') || ('\u{3040}' <= c
        && c <= '\u{309F}') || ('\u{30A0}' <= c && c <= '\u{30FF}') || ('\u{AC00}' <= c && c
        <= '\u{D7AF}')
}

fn all_cjk_vec(v: &Vec<char>) -> (r: bool)
    ensures
        r == all_cjk(v@),
{
    if v.len() == 0 {
        return false;
    }
    let mut i: usize = 0;
    while i < v.len()
        invariant
            i <= v@.len(),
            forall|j: int| 0 <= j < i ==> cjk_char(#[trigger] v@[j]),
        decreases v@.len() - i,
    {
        if !cjk_at(v[i]) {
            return false;
        }
        i += 1;
    }
    true
}

/// Whether the whole of `s` is CJK text.
pub fn is_all_cjk(s: &str) -> (r: bool)
    ensures
        r == all_cjk(s@),
{
    let v = chars_of(s);
    all_cjk_vec(&v)
}

/// ASCII letters, Latin-1 Supplement through Latin Extended-B (U+00C0 to
/// U+024F) and Latin Extended Additional.
pub open spec fn latin_letter(c: char) -> bool {
    ||| ('A' <= c && c <= 'Z')
    ||| ('a' <= c && c <= 'z')
    ||| ('\u{C0}' <= c && c <= '\u{24F}')
    ||| ('\u{1E00}' <= c && c <= '\u{1EFF}')
}

/// Whether `c` is a [`latin_letter`].
pub fn is_latin_letter(c: char) -> (r: bool)
    ensures
        r == latin_letter(c),
{
    ('A' <= c && c <= 'Z') || ('a' <= c && c <= 'z') || ('\u{C0}' <= c && c <= '\u{24F}') || (
    '\u{1E00}' <= c && c <= '\u{1EFF}')
}

/// Number of Latin letters in `s`.
pub open spec fn count_latin(s: Seq<char>) -> nat
    decreases s.len(),
{
    if s.len() == 0 {
        0
    } else {
        count_latin(s.drop_last()) + if latin_letter(s.last()) {
            1nat
        } else {
            0nat
        }
    }
}

/// `s` has a non-whitespace character and at least 70% of its
/// non-whitespace characters are Latin letters.
pub open spec fn mostly_latin(s: Seq<char>) -> bool {
    count_non_ws(s) > 0 && count_latin(s) * 10 >= count_non_ws(s) * 7
}

fn mostly_latin_vec(v: &Vec<char>) -> (r: bool)
    ensures
        r == mostly_latin(v@),
{
    let n = v.len();
    let mut latin: usize = 0;
    let mut non_ws: usize = 0;
    let mut i: usize = 0;
    while i < n
        invariant
            i <= n == v@.len(),
            latin == count_latin(v@.take(i as int)),
            non_ws == count_non_ws(v@.take(i as int)),
            latin <= i,
            non_ws <= i,
        decreases n - i,
    {
        assert(v@.take(i + 1).drop_last() == v@.take(i as int));
        let c = v[i];
        if is_latin_letter(c) {
            latin += 1;
        }
        if !is_whitespace(c) {
            non_ws += 1;
        }
        i += 1;
    }
    assert(v@.take(n as int) == v@);
    non_ws > 0 && (latin as u128) * 10 >= (non_ws as u128) * 7
}

/// Whether `s` is mostly Latin script ([`mostly_latin`]).
pub fn is_mostly_latin(s: &str) -> (r: bool)
    ensures
        r == mostly_latin(s@),
{
    let v = chars_of(s);
    mostly_latin_vec(&v)
}

/// Key under which two paragraphs count as the same: the alphanumeric
/// characters only, lowercased, so that punctuation and spacing differences
/// are ignored.
pub fn normalize_for_dedup(s: &str) -> (r: String)
    ensures
        r@ == folded(s@, false),
{
    let v = chars_of(s);
    let f = fold_range(&v, 0, v.len(), false);
    assert(v@.subrange(0, v@.len() as int) == v@);
    string_of(&f)
}

fn dedup_key(v: &Vec<char>, a: usize, b: usize) -> (r: Vec<char>)
    requires
        a <= b <= v@.len(),
    ensures
        r@ == folded(v@.subrange(a as int, b as int), false),
{
    fold_range(v, a, b, false)
}

// ── Input repair ──────────────────────────────────────────────────────────────

/// What the Italian repair makes of `text` from `source_lang`.
pub open spec fn italian_repair(text: Seq<char>, source_lang: Seq<char>) -> Seq<char> {
    if source_lang == "it"@ {
        replace_all(
            replace_all(text, "siamo a mangio"@, "siamo a maggio"@),
            "Siamo a mangio"@,
            "Siamo a maggio"@,
        )
    } else {
        text
    }
}

/// Phrase-level repair of Italian speech recognition, applied only to the
/// text sent for translation: "siamo a mangio" becomes "siamo a maggio"
/// (also capitalised). Text in any other source language is unchanged.
pub fn repair_obvious_italian_asr_for_translation(text: &str, source_lang: &str) -> (r: String)
    ensures
        r@ == italian_repair(text@, source_lang@),
{
    let v = chars_of(text);
    if !str_eq(source_lang, "it") {
        return string_of(&v);
    }
    proof {
        reveal_strlit("siamo a mangio");
        reveal_strlit("Siamo a mangio");
    }
    let once = replace_vec(&v, "siamo a mangio", "siamo a maggio");
    let twice = replace_vec(&once, "Siamo a mangio", "Siamo a maggio");
    string_of(&twice)
}

/// Whether a speech-transcript request gets the correction prompt: only in
/// speech mode and only for more than eight words.
pub fn use_asr_correction_prompt(text: &str, asr_mode: bool) -> (r: bool)
    ensures
        r == (asr_mode && words(text@).len() > 8),
{
    if !asr_mode {
        return false;
    }
    let v = chars_of(text);
    word_count(&v) > 8
}

// ── Numbers in the source and in the translation ─────────────────────────────

/// Where the numeric token that has reached `s[j]` ends: it goes on over
/// ASCII digits, and over a `.` or `,` that a digit follows.
pub open spec fn number_end(s: Seq<char>, j: int) -> int
    decreases s.len() - j,
{
    if j >= s.len() {
        j
    } else if is_digit(s[j]) {
        number_end(s, j + 1)
    } else if j + 1 < s.len() && (s[j] == '.' || s[j] == ',') && is_digit(s[j + 1]) {
        number_end(s, j + 1)
    } else {
        j
    }
}

/// A numeric token ends within the string, not before where it has reached.
pub proof fn lemma_number_end(s: Seq<char>, j: int)
    requires
        0 <= j <= s.len(),
    ensures
        j <= number_end(s, j) <= s.len(),
    decreases s.len() - j,
{
    if j < s.len() {
        lemma_number_end(s, j + 1);
    }
}

/// The numeric tokens of `s[i..]`, left to right: each starts at an ASCII
/// digit and runs to its [`number_end`] ("18", "3.5", "1,200").
pub open spec fn numeric_tokens_from(s: Seq<char>, i: int) -> Seq<Seq<char>>
    decreases s.len() - i,
{
    if i < 0 || i >= s.len() {
        seq![]
    } else if is_digit(s[i]) {
        let e = number_end(s, i + 1);
        proof {
            lemma_number_end(s, i + 1);
        }
        seq![s.subrange(i, e)] + numeric_tokens_from(s, e)
    } else {
        numeric_tokens_from(s, i + 1)
    }
}

/// The numeric tokens of `s`.
pub open spec fn numeric_tokens(s: Seq<char>) -> Seq<Seq<char>> {
    numeric_tokens_from(s, 0)
}

fn numeric_token_ranges(v: &Vec<char>) -> (r: Vec<(usize, usize)>)
    ensures
        ranges_within(r@, v@.len() as int),
        pieces(v@, r@) == numeric_tokens(v@),
{
    let n = v.len();
    let mut r: Vec<(usize, usize)> = Vec::new();
    let mut i: usize = 0;
    assert(pieces(v@, r@) =~= Seq::<Seq<char>>::empty());
    while i < n
        invariant
            i <= n == v@.len(),
            ranges_within(r@, n as int),
            numeric_tokens(v@) == pieces(v@, r@) + numeric_tokens_from(v@, i as int),
        decreases n - i,
    {
        let ghost old_r = r@;
        if is_ascii_digit(v[i]) {
            let mut j = i + 1;
            while j < n && (is_ascii_digit(v[j]) || (j + 1 < n && (v[j] == '.' || v[j] == ',')
                && is_ascii_digit(v[j + 1])))
                invariant
                    i < j <= n == v@.len(),
                    number_end(v@, (i + 1) as int) == number_end(v@, j as int),
                decreases n - j,
            {
                j += 1;
            }
            proof {
                lemma_pieces_push(v@, old_r, (i, j));
                lemma_ranges_within(old_r, n as int, n as int, (i, j), -1);
                assert(pieces(v@, old_r).push(v@.subrange(i as int, j as int)) + numeric_tokens_from(
                    v@,
                    j as int,
                ) == pieces(v@, old_r) + (seq![v@.subrange(i as int, j as int)] + numeric_tokens_from(
                    v@,
                    j as int,
                )));
            }
            r.push((i, j));
            i = j;
        } else {
            i += 1;
        }
    }
    assert(numeric_tokens_from(v@, n as int) =~= Seq::<Seq<char>>::empty());
    assert(pieces(v@, r@) + Seq::<Seq<char>>::empty() == pieces(v@, r@));
    r
}

fn is_ascii_digit(c: char) -> (r: bool)
    ensures
        r == is_digit(c),
{
    '0' <= c && c <= '9'
}

/// The numeric tokens of `text`, left to right ([`numeric_tokens`]).
pub fn extract_numeric_tokens(text: &str) -> (r: Vec<String>)
    ensures
        r@.map_values(|t: String| t@) == numeric_tokens(text@),
{
    let v = chars_of(text);
    let rs = numeric_token_ranges(&v);
    let ghost toks = numeric_tokens(text@);
    let mut out: Vec<String> = Vec::new();
    let m = rs.len();
    let mut k: usize = 0;
    while k < m
        invariant
            v@ == text@,
            m == rs@.len() == toks.len(),
            ranges_within(rs@, v@.len() as int),
            pieces(v@, rs@) == toks,
            k <= m,
            out@.len() == k,
            forall|j: int| 0 <= j < k ==> (#[trigger] out@[j])@ == toks[j],
        decreases m - k,
    {
        let (a, b) = rs[k];
        assert(rs@[k as int].0 <= rs@[k as int].1 <= v@.len());
        let piece = slice_of(&v, a, b);
        assert(toks[k as int] == v@.subrange(a as int, b as int));
        out.push(string_of(&piece));
        k += 1;
    }
    assert(out@.map_values(|t: String| t@) =~= toks);
    out
}

/// Puts the source numbers back, token by token from `k` on: the `k`-th
/// translated number is looked for from position `from`; where it differs
/// from the `k`-th source number it is replaced by it, and the search goes on
/// after the replacement. `None` when a translated number is not found.
pub open spec fn restore_from(
    r: Seq<char>,
    from: int,
    expected: Seq<Seq<char>>,
    actual: Seq<Seq<char>>,
    k: int,
) -> Option<Seq<char>>
    decreases expected.len() - k,
{
    if k < 0 || k >= expected.len() {
        Some(r)
    } else {
        match find_spec(r, actual[k], from) {
            None => None,
            Some(st) => {
                let r2 = if expected[k] == actual[k] {
                    r
                } else {
                    r.take(st) + expected[k] + r.skip(st + actual[k].len())
                };
                restore_from(r2, st + expected[k].len(), expected, actual, k + 1)
            },
        }
    }
}

/// `translated` with its numbers restored from `source`: only when the
/// source has numbers and both texts have the same number of them, and only
/// when every translated number is found in order; otherwise `translated`
/// unchanged.
pub open spec fn restore_numeric(source: Seq<char>, translated: Seq<char>) -> Seq<char> {
    let s = numeric_tokens(source);
    let t = numeric_tokens(translated);
    if s.len() == 0 || s.len() != t.len() {
        translated
    } else {
        match restore_from(translated, 0, s, t, 0) {
            Some(r) => r,
            None => translated,
        }
    }
}

fn restore_numeric_vec(sv: &Vec<char>, tv: &Vec<char>) -> (r: Vec<char>)
    ensures
        r@ == restore_numeric(sv@, tv@),
{
    let srs = numeric_token_ranges(sv);
    let unchanged = slice_of(tv, 0, tv.len());
    assert(tv@.subrange(0, tv@.len() as int) == tv@);
    if srs.len() == 0 {
        return unchanged;
    }
    let trs = numeric_token_ranges(tv);
    if srs.len() != trs.len() {
        return unchanged;
    }
    let ghost es = numeric_tokens(sv@);
    let ghost acts = numeric_tokens(tv@);
    let m = srs.len();
    let mut result = slice_of(tv, 0, tv.len());
    let mut from: usize = 0;
    let mut k: usize = 0;
    while k < m
        invariant
            m == srs@.len() == trs@.len() == es.len() == acts.len(),
            m > 0,
            es == numeric_tokens(sv@),
            acts == numeric_tokens(tv@),
            es == pieces(sv@, srs@),
            acts == pieces(tv@, trs@),
            ranges_within(srs@, sv@.len() as int),
            ranges_within(trs@, tv@.len() as int),
            unchanged@ == tv@,
            k <= m,
            from <= result@.len(),
            restore_from(tv@, 0, es, acts, 0) == restore_from(result@, from as int, es, acts, k as int),
        decreases m - k,
    {
        let (sa, sb) = srs[k];
        let (ta, tb) = trs[k];
        assert(srs@[k as int].0 <= srs@[k as int].1 <= sv@.len());
        assert(trs@[k as int].0 <= trs@[k as int].1 <= tv@.len());
        let expected = slice_of(sv, sa, sb);
        let actual = slice_of(tv, ta, tb);
        assert(expected@ == es[k as int]);
        assert(actual@ == acts[k as int]);
        match find(&result, &actual, from) {
            None => {
                return unchanged;
            },
            Some(st) => {
                proof {
                    lemma_find_spec(result@, actual@, from as int);
                }
                let rl = result.len();
                assert(occurs_at(result@, actual@, st as int));
                assert(st + actual@.len() <= rl);
                let after = st + actual.len();
                if !vec_eq(&expected, &actual) {
                    let mut next: Vec<char> = Vec::new();
                    push_range(&mut next, &result, 0, st);
                    push_all(&mut next, &expected);
                    push_range(&mut next, &result, after, rl);
                    assert(next@ == result@.take(st as int) + expected@ + result@.skip(
                        st + actual@.len(),
                    ));
                    result = next;
                }
                let newlen = result.len();
                assert(st + expected@.len() <= newlen);
                from = st + expected.len();
            },
        }
        k += 1;
    }
    result
}

/// Puts the numbers of `source` back into `translated` where the model
/// changed one ([`restore_numeric`]).
pub fn restore_numeric_tokens(source: &str, translated: &str) -> (r: String)
    ensures
        r@ == restore_numeric(source@, translated@),
{
    let sv = chars_of(source);
    let tv = chars_of(translated);
    let out = restore_numeric_vec(&sv, &tv);
    string_of(&out)
}

// ── Repeated paragraphs ───────────────────────────────────────────────────────

/// The paragraphs of `ps` that are kept after a paragraph whose key is
/// `prev`: one whose non-empty [`folded`] key equals the key of the last
/// kept paragraph with a non-empty key is dropped.
pub open spec fn dedup_kept(ps: Seq<Seq<char>>, prev: Seq<char>) -> Seq<Seq<char>>
    decreases ps.len(),
{
    if ps.len() == 0 {
        seq![]
    } else {
        let key = folded(ps[0], false);
        if key.len() > 0 && key == prev {
            dedup_kept(ps.drop_first(), prev)
        } else {
            seq![ps[0]] + dedup_kept(ps.drop_first(), if key.len() > 0 { key } else { prev })
        }
    }
}

/// `s` with consecutive repeats of a paragraph (blocks separated by a blank
/// line, `"\n\n"`) folded into one. Blank input is returned as it is; input
/// of one paragraph is trimmed.
pub open spec fn dedup_paragraphs(s: Seq<char>) -> Seq<char> {
    let t = trim(s);
    if t.len() == 0 {
        s
    } else {
        let ps = split_str(t, "\n\n"@);
        if ps.len() <= 1 {
            t
        } else {
            join(seq![ps[0]] + dedup_kept(ps.drop_first(), folded(ps[0], false)), "\n\n"@)
        }
    }
}

fn dedup_vec(v: &Vec<char>) -> (r: Vec<char>)
    ensures
        r@ == dedup_paragraphs(v@),
{
    let t = trimmed(v);
    if t.len() == 0 {
        return slice_of(v, 0, v.len());
    }
    proof {
        reveal_strlit("\n\n");
    }
    let rs = split_str_ranges(&t, "\n\n");
    let ghost ps = split_str(t@, "\n\n"@);
    if rs.len() <= 1 {
        return t;
    }
    let m = rs.len();
    let (a0, b0) = rs[0];
    assert(rs@[0].0 <= rs@[0].1 <= t@.len());
    assert(ps[0] == t@.subrange(a0 as int, b0 as int));
    let mut prev = dedup_key(&t, a0, b0);
    let ghost first_key = prev@;
    let mut kept: Vec<(usize, usize)> = Vec::new();
    kept.push((a0, b0));
    proof {
        assert(pieces(t@, kept@) =~= seq![ps[0]]);
        assert(ps.skip(1) == ps.drop_first());
    }
    let mut k: usize = 1;
    while k < m
        invariant
            m == rs@.len() == ps.len(),
            ps == pieces(t@, rs@),
            ranges_within(rs@, t@.len() as int),
            ranges_within(kept@, t@.len() as int),
            1 <= k <= m,
            seq![ps[0]] + dedup_kept(ps.drop_first(), first_key) == pieces(t@, kept@) + dedup_kept(
                ps.skip(k as int),
                prev@,
            ),
        decreases m - k,
    {
        let (a, b) = rs[k];
        assert(rs@[k as int].0 <= rs@[k as int].1 <= t@.len());
        let ghost rest = ps.skip(k as int);
        assert(rest[0] == t@.subrange(a as int, b as int));
        assert(rest.drop_first() == ps.skip(k + 1));
        let key = dedup_key(&t, a, b);
        if key.len() > 0 && vec_eq(&key, &prev) {
        } else {
            let ghost old_kept = kept@;
            kept.push((a, b));
            proof {
                lemma_pieces_push(t@, old_kept, (a, b));
                lemma_ranges_within(old_kept, t@.len() as int, t@.len() as int, (a, b), -1);
                assert(pieces(t@, old_kept) + (seq![rest[0]] + dedup_kept(
                    rest.drop_first(),
                    if key@.len() > 0 { key@ } else { prev@ },
                )) == pieces(t@, kept@) + dedup_kept(
                    rest.drop_first(),
                    if key@.len() > 0 { key@ } else { prev@ },
                ));
            }
            if key.len() > 0 {
                prev = key;
            }
        }
        k += 1;
    }
    proof {
        assert(ps.skip(m as int) =~= Seq::<Seq<char>>::empty());
        assert(pieces(t@, kept@) + Seq::<Seq<char>>::empty() == pieces(t@, kept@));
    }
    join_ranges(&t, &kept, "\n\n")
}

/// Folds consecutive repeated paragraphs into one ([`dedup_paragraphs`]),
/// a safety net for a model caught in a loop; a repeat with other text in
/// between is kept.
pub fn dedup_consecutive_paragraphs(text: &str) -> (r: String)
    ensures
        r@ == dedup_paragraphs(text@),
{
    let v = chars_of(text);
    let out = dedup_vec(&v);
    string_of(&out)
}


// ── Echo prefixes ─────────────────────────────────────────────────────────────

/// Number of echo prefixes the model may put before its answer.
pub const ECHO_PREFIX_COUNT: usize = 32;

/// Echo prefix `i` ("Translation:", "译文：", "Target (Chinese):", ...).
pub open spec fn echo_prefix(i: int) -> Seq<char> {
    if i == 0 {
        "Translation:"@
    } else if i == 1 {
        "translation:"@
    } else if i == 2 {
        "Translated:"@
    } else if i == 3 {
        "translated:"@
    } else if i == 4 {
        "Translate:"@
    } else if i == 5 {
        "translate:"@
    } else if i == 6 {
        "English:"@
    } else if i == 7 {
        "Chinese:"@
    } else if i == 8 {
        "Source:"@
    } else if i == 9 {
        "source:"@
    } else if i == 10 {
        "Source："@
    } else if i == 11 {
        "source："@
    } else if i == 12 {
        "Target (Chinese):"@
    } else if i == 13 {
        "Target (Chinese)："@
    } else if i == 14 {
        "Target(Chinese):"@
    } else if i == 15 {
        "Target(Chinese)："@
    } else if i == 16 {
        "Target (中文):"@
    } else if i == 17 {
        "Target (中文)："@
    } else if i == 18 {
        "Target(中文):"@
    } else if i == 19 {
        "Target(中文)："@
    } else if i == 20 {
        "译文："@
    } else if i == 21 {
        "翻译："@
    } else if i == 22 {
        "英文："@
    } else if i == 23 {
        "中文："@
    } else if i == 24 {
        "来源："@
    } else if i == 25 {
        "来源:"@
    } else if i == 26 {
        "原文："@
    } else if i == 27 {
        "原文:"@
    } else if i == 28 {
        "目标（中文\u{FF09}："@
    } else if i == 29 {
        "目标（中文\u{FF09}:"@
    } else if i == 30 {
        "目标(中文)："@
    } else {
        "目标(中文):"@
    }
}

fn echo_prefix_at(i: usize) -> (r: &'static str)
    requires
        i < ECHO_PREFIX_COUNT,
    ensures
        r@ == echo_prefix(i as int),
{
    if i == 0 {
        "Translation:"
    } else if i == 1 {
        "translation:"
    } else if i == 2 {
        "Translated:"
    } else if i == 3 {
        "translated:"
    } else if i == 4 {
        "Translate:"
    } else if i == 5 {
        "translate:"
    } else if i == 6 {
        "English:"
    } else if i == 7 {
        "Chinese:"
    } else if i == 8 {
        "Source:"
    } else if i == 9 {
        "source:"
    } else if i == 10 {
        "Source："
    } else if i == 11 {
        "source："
    } else if i == 12 {
        "Target (Chinese):"
    } else if i == 13 {
        "Target (Chinese)："
    } else if i == 14 {
        "Target(Chinese):"
    } else if i == 15 {
        "Target(Chinese)："
    } else if i == 16 {
        "Target (中文):"
    } else if i == 17 {
        "Target (中文)："
    } else if i == 18 {
        "Target(中文):"
    } else if i == 19 {
        "Target(中文)："
    } else if i == 20 {
        "译文："
    } else if i == 21 {
        "翻译："
    } else if i == 22 {
        "英文："
    } else if i == 23 {
        "中文："
    } else if i == 24 {
        "来源："
    } else if i == 25 {
        "来源:"
    } else if i == 26 {
        "原文："
    } else if i == 27 {
        "原文:"
    } else if i == 28 {
        "目标（中文\u{FF09}："
    } else if i == 29 {
        "目标（中文\u{FF09}:"
    } else if i == 30 {
        "目标(中文)："
    } else {
        "目标(中文):"
    }
}

/// Every echo prefix is non-empty.
pub proof fn lemma_echo_prefix_nonempty(i: int)
    requires
        0 <= i < ECHO_PREFIX_COUNT,
    ensures
        echo_prefix(i).len() > 0,
{
    reveal_strlit("Translation:");
    reveal_strlit("translation:");
    reveal_strlit("Translated:");
    reveal_strlit("translated:");
    reveal_strlit("Translate:");
    reveal_strlit("translate:");
    reveal_strlit("English:");
    reveal_strlit("Chinese:");
    reveal_strlit("Source:");
    reveal_strlit("source:");
    reveal_strlit("Source：");
    reveal_strlit("source：");
    reveal_strlit("Target (Chinese):");
    reveal_strlit("Target (Chinese)：");
    reveal_strlit("Target(Chinese):");
    reveal_strlit("Target(Chinese)：");
    reveal_strlit("Target (中文):");
    reveal_strlit("Target (中文)：");
    reveal_strlit("Target(中文):");
    reveal_strlit("Target(中文)：");
    reveal_strlit("译文：");
    reveal_strlit("翻译：");
    reveal_strlit("英文：");
    reveal_strlit("中文：");
    reveal_strlit("来源：");
    reveal_strlit("来源:");
    reveal_strlit("原文：");
    reveal_strlit("原文:");
    reveal_strlit("目标（中文\u{FF09}：");
    reveal_strlit("目标（中文\u{FF09}:");
    reveal_strlit("目标(中文)：");
    reveal_strlit("目标(中文):");
}

/// The first echo prefix, in table order, that `s` starts with, looking from
/// row `i` on.
pub open spec fn first_echo_from(s: Seq<char>, i: int) -> Option<int>
    decreases ECHO_PREFIX_COUNT - i,
{
    if i < 0 || i >= ECHO_PREFIX_COUNT {
        None
    } else if starts_with(s, echo_prefix(i)) {
        Some(i)
    } else {
        first_echo_from(s, i + 1)
    }
}

/// `s` with echo prefixes removed one after another: the first matching
/// prefix in table order goes, then the leading whitespace after it, until
/// no prefix matches.
pub open spec fn strip_echo(s: Seq<char>) -> Seq<char>
    decreases s.len(),
{
    match first_echo_from(s, 0) {
        Some(i) => {
            proof {
                lemma_first_echo(s, 0);
                lemma_echo_prefix_nonempty(i);
                lemma_trim_len(s.skip(echo_prefix(i).len() as int));
            }
            strip_echo(trim_start(s.skip(echo_prefix(i).len() as int)))
        },
        None => s,
    }
}

/// A prefix found by [`first_echo_from`] is a table row that `s` starts with.
pub proof fn lemma_first_echo(s: Seq<char>, i: int)
    requires
        0 <= i,
    ensures
        match first_echo_from(s, i) {
            Some(k) => i <= k < ECHO_PREFIX_COUNT && starts_with(s, echo_prefix(k)),
            None => true,
        },
    decreases ECHO_PREFIX_COUNT - i,
{
    if i < ECHO_PREFIX_COUNT && !starts_with(s, echo_prefix(i)) {
        lemma_first_echo(s, i + 1);
    }
}

fn first_echo_at(v: &Vec<char>) -> (r: Option<usize>)
    ensures
        match r {
            Some(k) => first_echo_from(v@, 0) == Some(k as int),
            None => first_echo_from(v@, 0) is None,
        },
{
    let mut i: usize = 0;
    while i < ECHO_PREFIX_COUNT
        invariant
            i <= ECHO_PREFIX_COUNT,
            first_echo_from(v@, 0) == first_echo_from(v@, i as int),
        decreases ECHO_PREFIX_COUNT - i,
    {
        let p = echo_prefix_at(i);
        if vec_starts_with(v, p) {
            return Some(i);
        }
        i += 1;
    }
    None
}

fn strip_echo_vec(v: Vec<char>) -> (r: Vec<char>)
    ensures
        r@ == strip_echo(v@),
{
    let mut out = v;
    let mut done = false;
    while !done
        invariant
            strip_echo(v@) == strip_echo(out@),
            done ==> strip_echo(out@) == out@,
        decreases out@.len() + if done { 0int } else { 1int },
    {
        match first_echo_at(&out) {
            Some(i) => {
                proof {
                    lemma_first_echo(out@, 0);
                }
                let p = chars_of(echo_prefix_at(i));
                proof {
                    lemma_echo_prefix_nonempty(i as int);
                    lemma_trim_len(out@.skip(p@.len() as int));
                }
                let rest = slice_of(&out, p.len(), out.len());
                assert(rest@ == out@.skip(p@.len() as int));
                out = trimmed_start(&rest);
            },
            None => {
                done = true;
            },
        }
    }
    out
}

// ── Filters on the lines of the answer ────────────────────────────────────────

/// A line kept in an English answer to a CJK source: not blank and not
/// entirely CJK once trimmed.
pub open spec fn english_line_kept(line: Seq<char>) -> bool {
    trim(line).len() > 0 && !all_cjk(trim(line))
}

/// The lines of `ls` that [`english_line_kept`] keeps, in order.
pub open spec fn english_lines(ls: Seq<Seq<char>>) -> Seq<Seq<char>>
    decreases ls.len(),
{
    if ls.len() == 0 {
        seq![]
    } else {
        let r = english_lines(ls.drop_last());
        if english_line_kept(ls.last()) {
            r.push(ls.last())
        } else {
            r
        }
    }
}

/// A trimmed line that ends a Chinese answer: a rule (`---`, `***`), a
/// bold or bullet start (`**`, `* `, `- `) or a numbered item `1. ` to `6. `.
pub open spec fn list_marker(t: Seq<char>) -> bool {
    ||| t == "---"@
    ||| t == "***"@
    ||| starts_with(t, "**"@)
    ||| starts_with(t, "* "@)
    ||| starts_with(t, "- "@)
    ||| starts_with(t, "1. "@)
    ||| starts_with(t, "2. "@)
    ||| starts_with(t, "3. "@)
    ||| starts_with(t, "4. "@)
    ||| starts_with(t, "5. "@)
    ||| starts_with(t, "6. "@)
}

/// A trimmed line that ends a Chinese answer because it speaks of the
/// answer: it contains "说明", "Note" or "原文".
pub open spec fn note_marker(t: Seq<char>) -> bool {
    contains(t, "说明"@) || contains(t, "Note"@) || contains(t, "原文"@)
}

/// The lines kept in a Chinese answer, from the front: blank lines are kept;
/// a list or note marker ends the answer; a mostly-Latin line is skipped
/// before the first kept text line (`saw` false) and ends the answer after
/// it; any other line is kept.
pub open spec fn chinese_lines(ls: Seq<Seq<char>>, saw: bool) -> Seq<Seq<char>>
    decreases ls.len(),
{
    if ls.len() == 0 {
        seq![]
    } else {
        let line = ls[0];
        let t = trim(line);
        if t.len() == 0 {
            seq![line] + chinese_lines(ls.drop_first(), saw)
        } else if list_marker(t) || note_marker(t) {
            seq![]
        } else if mostly_latin(t) {
            if saw {
                seq![]
            } else {
                chinese_lines(ls.drop_first(), saw)
            }
        } else {
            seq![line] + chinese_lines(ls.drop_first(), true)
        }
    }
}

/// The echo filter chosen by the language pair: into English from Chinese,
/// Japanese or Korean, all-CJK and blank lines go; into the Chinese family,
/// [`chinese_lines`] applies and trailing whitespace goes; other pairs are
/// left alone.
pub open spec fn script_filtered(s: Seq<char>, source_lang: Seq<char>, target_lang: Seq<char>) -> Seq<char> {
    let cjk_source = chinese_family(source_lang) || source_lang == "ja"@ || source_lang == "ko"@;
    if target_lang == "en"@ && cjk_source {
        join(english_lines(lines(s)), "\n"@)
    } else if chinese_family(target_lang) {
        trim_end(join(chinese_lines(lines(s), false), "\n"@))
    } else {
        s
    }
}

fn english_filter(v: &Vec<char>) -> (r: Vec<char>)
    ensures
        r@ == join(english_lines(lines(v@)), "\n"@),
{
    let ls = line_ranges(v);
    let ghost all = lines(v@);
    let m = ls.len();
    let mut kept: Vec<(usize, usize)> = Vec::new();
    let mut k: usize = 0;
    while k < m
        invariant
            m == ls@.len() == all.len(),
            all == pieces(v@, ls@),
            ranges_within(ls@, v@.len() as int),
            ranges_within(kept@, v@.len() as int),
            k <= m,
            pieces(v@, kept@) == english_lines(all.take(k as int)),
        decreases m - k,
    {
        let (a, b) = ls[k];
        assert(ls@[k as int].0 <= ls@[k as int].1 <= v@.len());
        let ghost line = v@.subrange(a as int, b as int);
        assert(all[k as int] == line);
        assert(all.take(k + 1).drop_last() == all.take(k as int));
        assert(all.take(k + 1).last() == line);
        let piece = slice_of(v, a, b);
        let t = trimmed(&piece);
        if t.len() > 0 && !all_cjk_vec(&t) {
            let ghost old_kept = kept@;
            kept.push((a, b));
            proof {
                lemma_pieces_push(v@, old_kept, (a, b));
                lemma_ranges_within(old_kept, v@.len() as int, v@.len() as int, (a, b), -1);
            }
        }
        k += 1;
    }
    assert(all.take(m as int) == all);
    join_ranges(v, &kept, "\n")
}

fn list_marker_vec(t: &Vec<char>) -> (r: bool)
    ensures
        r == list_marker(t@),
{
    str_eq_vec("---", t) || str_eq_vec("***", t) || vec_starts_with(t, "**") || vec_starts_with(
        t,
        "* ",
    ) || vec_starts_with(t, "- ") || vec_starts_with(t, "1. ") || vec_starts_with(t, "2. ")
        || vec_starts_with(t, "3. ") || vec_starts_with(t, "4. ") || vec_starts_with(t, "5. ")
        || vec_starts_with(t, "6. ")
}

fn chinese_filter(v: &Vec<char>) -> (r: Vec<char>)
    ensures
        r@ == join(chinese_lines(lines(v@), false), "\n"@),
{
    let ls = line_ranges(v);
    let ghost all = lines(v@);
    let m = ls.len();
    let mut kept: Vec<(usize, usize)> = Vec::new();
    let mut saw = false;
    let mut k: usize = 0;
    let mut done = false;
    assert(all.skip(0) == all);
    assert(pieces(v@, kept@) + chinese_lines(all, false) == chinese_lines(all, false));
    while k < m && !done
        invariant
            m == ls@.len() == all.len(),
            all == pieces(v@, ls@),
            ranges_within(ls@, v@.len() as int),
            ranges_within(kept@, v@.len() as int),
            k <= m,
            done ==> chinese_lines(all, false) == pieces(v@, kept@),
            !done ==> chinese_lines(all, false) == pieces(v@, kept@) + chinese_lines(
                all.skip(k as int),
                saw,
            ),
        decreases m - k,
    {
        let (a, b) = ls[k];
        assert(ls@[k as int].0 <= ls@[k as int].1 <= v@.len());
        let ghost rest = all.skip(k as int);
        let ghost line = v@.subrange(a as int, b as int);
        assert(rest[0] == line);
        assert(rest.drop_first() == all.skip(k + 1));
        let piece = slice_of(v, a, b);
        let t = trimmed(&piece);
        let ghost old_kept = kept@;
        if t.len() == 0 {
            kept.push((a, b));
            proof {
                lemma_pieces_push(v@, old_kept, (a, b));
                lemma_ranges_within(old_kept, v@.len() as int, v@.len() as int, (a, b), -1);
                assert(pieces(v@, old_kept) + (seq![line] + chinese_lines(all.skip(k + 1), saw))
                    == pieces(v@, kept@) + chinese_lines(all.skip(k + 1), saw));
            }
        } else if list_marker_vec(&t) || vec_contains(&t, "说明") || vec_contains(&t, "Note")
            || vec_contains(&t, "原文") {
            assert(pieces(v@, kept@) + Seq::<Seq<char>>::empty() == pieces(v@, kept@));
            done = true;
        } else if mostly_latin_vec(&t) {
            if saw {
                assert(pieces(v@, kept@) + Seq::<Seq<char>>::empty() == pieces(v@, kept@));
                done = true;
            }
        } else {
            kept.push((a, b));
            proof {
                lemma_pieces_push(v@, old_kept, (a, b));
                lemma_ranges_within(old_kept, v@.len() as int, v@.len() as int, (a, b), -1);
                assert(pieces(v@, old_kept) + (seq![line] + chinese_lines(all.skip(k + 1), true))
                    == pieces(v@, kept@) + chinese_lines(all.skip(k + 1), true));
            }
            saw = true;
        }
        k += 1;
    }
    proof {
        if !done {
            assert(all.skip(m as int) =~= Seq::<Seq<char>>::empty());
            assert(pieces(v@, kept@) + Seq::<Seq<char>>::empty() == pieces(v@, kept@));
        }
    }
    join_ranges(v, &kept, "\n")
}

fn script_filter_vec(v: &Vec<char>, source_lang: &str, target_lang: &str) -> (r: Vec<char>)
    ensures
        r@ == script_filtered(v@, source_lang@, target_lang@),
{
    let cjk_source = is_chinese_family(source_lang) || str_eq(source_lang, "ja") || str_eq(
        source_lang,
        "ko",
    );
    if str_eq(target_lang, "en") && cjk_source {
        english_filter(v)
    } else if is_chinese_family(target_lang) {
        let joined = chinese_filter(v);
        trimmed_end(&joined)
    } else {
        slice_of(v, 0, v.len())
    }
}

// ── Cleaning the answer ───────────────────────────────────────────────────────

/// The cleaned answer: special tokens removed, trimmed, echo prefixes
/// stripped, echo lines filtered for the language pair, consecutive repeated
/// paragraphs folded, trimmed again.
pub open spec fn postprocess_spec(text: Seq<char>, source_lang: Seq<char>, target_lang: Seq<char>) -> Seq<char> {
    trim(dedup_paragraphs(script_filtered(strip_echo(trim(strip_special(text))), source_lang, target_lang)))
}

/// Cleans the model's raw answer ([`postprocess_spec`]).
pub fn postprocess(text: &str, source_lang: &str, target_lang: &str) -> (r: String)
    ensures
        r@ == postprocess_spec(text@, source_lang@, target_lang@),
{
    let v = chars_of(text);
    let stripped = strip_special_vec(&v);
    let t = trimmed(&stripped);
    let no_echo = strip_echo_vec(t);
    let filtered = script_filter_vec(&no_echo, source_lang, target_lang);
    let deduped = dedup_vec(&filtered);
    let out = trimmed(&deduped);
    string_of(&out)
}

// ── Translation requests ──────────────────────────────────────────────────────

/// The two codes that `parse_direction` gives for `d`, if any.
pub open spec fn parsed_direction(d: Seq<char>) -> Option<(Seq<char>, Seq<char>)> {
    if exists|i: int, j: int| first_split(d, i, j) {
        let (i, j) = choose|i: int, j: int| first_split(d, i, j);
        Some((lang_code(i), lang_code(j)))
    } else {
        None
    }
}

/// The source row of a direction is the first that splits it, and the
/// target code is what follows it.
pub proof fn lemma_first_split_unique(d: Seq<char>, i: int, j: int, i2: int, j2: int)
    requires
        first_split(d, i, j),
        first_split(d, i2, j2),
    ensures
        i == i2,
        lang_code(j) == lang_code(j2),
{
    if i < i2 {
        assert(splits_with_source(d, i));
    }
    if i2 < i {
        assert(splits_with_source(d, i2));
    }
    reveal_strlit("-");
    let k: int = lang_code(i).len() as int + 1;
    assert(d.skip(k) =~= lang_code(j));
    assert(d.skip(k) =~= lang_code(j2));
}

/// Error text for a direction that is not a pair of table codes.
pub open spec fn unsupported_direction_error(direction: Seq<char>) -> Seq<char> {
    "不支持的翻译方向: "@ + direction
}

/// Error text for a direction whose source and target are the same.
pub const SAME_LANGUAGE_ERROR: &'static str = "源语言与目标语言相同，无需翻译";

/// Stop sequence `i` of a translation request: the user and assistant turn
/// markers, the end-of-sentence token and `<|endoftext|>`.
pub open spec fn stop_token(i: int) -> Seq<char> {
    if i == 0 {
        "<\u{FF5C}hy_User\u{FF5C}>"@
    } else if i == 1 {
        "<\u{FF5C}hy_Assistant\u{FF5C}>"@
    } else if i == 2 {
        "<\u{FF5C}hy_end\u{2581}of\u{2581}sentence\u{FF5C}>"@
    } else {
        "<|endoftext|>"@
    }
}

/// The stop sequences of a translation request, in order.
pub open spec fn stop_tokens() -> Seq<Seq<char>> {
    seq![stop_token(0), stop_token(1), stop_token(2), stop_token(3)]
}

fn stop_token_strings() -> (r: Vec<String>)
    ensures
        r@.map_values(|s: String| s@) == stop_tokens(),
{
    let mut v: Vec<String> = Vec::new();
    let a = chars_of("<\u{FF5C}hy_User\u{FF5C}>");
    v.push(string_of(&a));
    let b = chars_of("<\u{FF5C}hy_Assistant\u{FF5C}>");
    v.push(string_of(&b));
    let c = chars_of("<\u{FF5C}hy_end\u{2581}of\u{2581}sentence\u{FF5C}>");
    v.push(string_of(&c));
    let d = chars_of("<|endoftext|>");
    v.push(string_of(&d));
    assert(v@.map_values(|s: String| s@) =~= stop_tokens());
    v
}

/// Output budget for a text of `n` characters: twice its length, at least
/// 64 and at most 1024 tokens.
pub open spec fn token_budget(n: int) -> int {
    if 2 * n < 64 {
        64
    } else if 2 * n > 1024 {
        1024
    } else {
        2 * n
    }
}

/// One request to the generation helper, with what is needed to clean its
/// answer. The sampling temperature is the standard one unless
/// `faithful_short` asks for the low one; `korean_penalties` selects the
/// stronger repetition penalties used for Korean output.
pub struct GenerationRequest {
    pub prompt: String,
    pub max_tokens: u32,
    pub context_size: u32,
    pub top_k: i32,
    pub faithful_short: bool,
    pub korean_penalties: bool,
    pub stop_tokens: Vec<String>,
    pub stream: bool,
    pub translation_text: String,
    pub source_lang: String,
    pub target_lang: String,
}

/// What is installed for a Hy-MT2 request: the model file, and the helper
/// executable that runs it. The caller looks both up.
pub struct Installation {
    pub model_installed: bool,
    pub helper_found: bool,
}

/// Error when the Hy-MT2 model file is not installed.
pub const MODEL_MISSING_ERROR: &'static str = "Hy-MT2 翻译模型未安装，请先到设置页下载。";

/// Error when the helper executable is not found.
pub const HELPER_MISSING_ERROR: &'static str = "本地推理引擎（llama-helper）未找到，请重新安装应用";

/// The error owed for what is missing, if anything: first the model, then
/// the helper.
pub open spec fn installation_error(inst: Installation) -> Option<Seq<char>> {
    if !inst.model_installed {
        Some(MODEL_MISSING_ERROR@)
    } else if !inst.helper_found {
        Some(HELPER_MISSING_ERROR@)
    } else {
        None
    }
}

fn installation_check(inst: &Installation) -> (r: Result<(), String>)
    ensures
        match installation_error(*inst) {
            Some(e) => r matches Err(x) && x@ == e,
            None => r is Ok,
        },
{
    if !inst.model_installed {
        let e = chars_of(MODEL_MISSING_ERROR);
        Err(string_of(&e))
    } else if !inst.helper_found {
        let e = chars_of(HELPER_MISSING_ERROR);
        Err(string_of(&e))
    } else {
        Ok(())
    }
}

/// What a request for `text` from `src` into `tgt` holds. `context` is the
/// previous segment offered for a speech fragment; it is used only in speech
/// mode and only when it is not blank. `stream` asks the helper for token
/// lines as it generates.
pub open spec fn request_for(
    req: GenerationRequest,
    text: Seq<char>,
    src: Seq<char>,
    tgt: Seq<char>,
    asr_mode: bool,
    context: Option<Seq<char>>,
    stream: bool,
) -> bool {
    let tt = italian_repair(text, src);
    let correction = asr_mode && words(tt).len() > 8;
    &&& req.translation_text@ == tt
    &&& req.source_lang@ == src
    &&& req.target_lang@ == tgt
    &&& req.prompt@ == if asr_mode && context is Some && trim(context->0).len() > 0 {
        contextual_prompt_spec(tt, context->0, src, tgt)
    } else {
        prompt_spec(tt, src, tgt, correction)
    }
    &&& req.max_tokens == token_budget(tt.len() as int)
    &&& req.context_size == CONTEXT_SIZE
    &&& req.top_k == TOP_K
    &&& req.faithful_short == (asr_mode && !correction)
    &&& req.korean_penalties == (tgt == "ko"@)
    &&& req.stop_tokens@.map_values(|s: String| s@) == stop_tokens()
    &&& req.stream == stream
}

/// What a translation call decides: an error, nothing to translate (blank
/// text, answered with an empty string), or a request for the helper. The
/// direction is checked first, then blank text, then what is installed.
pub open spec fn translation_decided(
    r: Result<Option<GenerationRequest>, String>,
    text: Seq<char>,
    direction: Seq<char>,
    asr_mode: bool,
    context: Option<Seq<char>>,
    stream: bool,
    inst: Installation,
) -> bool {
    match parsed_direction(direction) {
        None => r matches Err(e) && e@ == unsupported_direction_error(direction),
        Some((src, tgt)) => if src == tgt {
            r matches Err(e) && e@ == SAME_LANGUAGE_ERROR@
        } else if trim(text).len() == 0 {
            r matches Ok(None)
        } else if installation_error(inst) is Some {
            r matches Err(e) && e@ == installation_error(inst)->0
        } else {
            r matches Ok(Some(req)) && request_for(req, text, src, tgt, asr_mode, context, stream)
        },
    }
}

fn translate_internal(
    text: &str,
    direction: &str,
    asr_mode: bool,
    context_before: Option<&str>,
    stream: bool,
    inst: &Installation,
) -> (r: Result<Option<GenerationRequest>, String>)
    ensures
        translation_decided(
            r,
            text@,
            direction@,
            asr_mode,
            match context_before {
                Some(c) => Some(c@),
                None => None,
            },
            stream,
            *inst,
        ),
{
    let (source_lang, target_lang) = match parse_direction(direction) {
        Some(p) => p,
        None => {
            let mut e: Vec<char> = Vec::new();
            push_str(&mut e, "不支持的翻译方向: ");
            push_str(&mut e, direction);
            return Err(string_of(&e));
        },
    };
    if str_eq(source_lang, target_lang) {
        let e = chars_of(SAME_LANGUAGE_ERROR);
        return Err(string_of(&e));
    }
    let tv = chars_of(text);
    if is_blank(&tv) {
        return Ok(None);
    }
    installation_check(inst)?;
    let translation_text = repair_obvious_italian_asr_for_translation(text, source_lang);
    let use_correction = use_asr_correction_prompt(translation_text.as_str(), asr_mode);
    let faithful_short = asr_mode && !use_correction;
    let mut contextual = false;
    let mut ctx_text: &str = "";
    if asr_mode {
        if let Some(c) = context_before {
            let cv = chars_of(c);
            if !is_blank(&cv) {
                contextual = true;
                ctx_text = c;
            }
        }
    }
    let prompt = if contextual {
        build_contextual_prompt(translation_text.as_str(), ctx_text, source_lang, target_lang)
    } else {
        build_prompt(translation_text.as_str(), source_lang, target_lang, use_correction)
    };
    let n = chars_of(translation_text.as_str()).len();
    let max_tokens: u32 = if n < 32 {
        64
    } else if n > 512 {
        1024
    } else {
        (n * 2) as u32
    };
    let src = chars_of(source_lang);
    let tgt = chars_of(target_lang);
    Ok(
        Some(
            GenerationRequest {
                prompt,
                max_tokens,
                context_size: CONTEXT_SIZE,
                top_k: TOP_K,
                faithful_short,
                korean_penalties: str_eq(target_lang, "ko"),
                stop_tokens: stop_token_strings(),
                stream,
                translation_text,
                source_lang: string_of(&src),
                target_lang: string_of(&tgt),
            },
        ),
    )
}

/// Decides a translation of `text` along `direction` (`"{src}-{tgt}"`, both
/// codes in the language table). `asr_mode` selects the speech-transcript
/// prompt for long fragments and the faithful low-temperature sampling for
/// short ones. `stream` is whether the caller takes the raw token texts as
/// they come; `inst` says what is installed.
pub fn translate(text: &str, direction: &str, asr_mode: bool, stream: bool, inst: &Installation) -> (r:
    Result<Option<GenerationRequest>, String>)
    ensures
        translation_decided(r, text@, direction@, asr_mode, None, stream, *inst),
{
    translate_internal(text, direction, asr_mode, None, stream, inst)
}

/// Decides a speech-mode translation of `text` alone, with `context_before`
/// offered to the model only to disambiguate a short fragment.
pub fn translate_with_context(
    text: &str,
    context_before: &str,
    direction: &str,
    stream: bool,
    inst: &Installation,
) -> (r: Result<Option<GenerationRequest>, String>)
    ensures
        translation_decided(r, text@, direction@, true, Some(context_before@), stream, *inst),
{
    translate_internal(text, direction, true, Some(context_before), stream, inst)
}

impl GenerationRequest {
    /// The finished result built out of the helper's raw answer: cleaned, then
    /// with the source numbers put back.
    pub fn finish(&self, raw: &str) -> (r: String)
        ensures
            r@ == restore_numeric(
                self.translation_text@,
                postprocess_spec(raw@, self.source_lang@, self.target_lang@),
            ),
    {
        let cleaned = postprocess(raw, self.source_lang.as_str(), self.target_lang.as_str());
        restore_numeric_tokens(self.translation_text.as_str(), cleaned.as_str())
    }
}

/// The start-up request that makes the helper load the model: the prompt
/// "Hi", one token, standard sampling, no stop sequences and no streaming;
/// an error instead when the model or the helper is missing.
pub fn warmup(inst: &Installation) -> (r: Result<GenerationRequest, String>)
    ensures
        match installation_error(*inst) {
            Some(e) => r matches Err(x) && x@ == e,
            None => r matches Ok(req) && {
                &&& req.prompt@ == "Hi"@
                &&& req.max_tokens == 1
                &&& req.context_size == CONTEXT_SIZE
                &&& req.top_k == TOP_K
                &&& !req.faithful_short
                &&& !req.korean_penalties
                &&& req.stop_tokens@.len() == 0
                &&& !req.stream
                &&& req.translation_text@.len() == 0
                &&& req.source_lang@.len() == 0
                &&& req.target_lang@.len() == 0
            },
        },
{
    installation_check(inst)?;
    let p = chars_of("Hi");
    let e: Vec<char> = Vec::new();
    Ok(
        GenerationRequest {
            prompt: string_of(&p),
            max_tokens: 1,
            context_size: CONTEXT_SIZE,
            top_k: TOP_K,
            faithful_short: false,
            korean_penalties: false,
            stop_tokens: Vec::new(),
            stream: false,
            translation_text: string_of(&e),
            source_lang: string_of(&e),
            target_lang: string_of(&e),
        },
    )
}

} // verus!
