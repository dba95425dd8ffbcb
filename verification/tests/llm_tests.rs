use voxminutes::llm::{
    build_contextual_prompt, build_prompt, parse_direction, postprocess,
    repair_obvious_italian_asr_for_translation, restore_numeric_tokens, use_asr_correction_prompt,
    CHAT_PREFIX, CHAT_SUFFIX,
};

#[test]
fn restores_changed_numeric_values_positionally() {
    let source = "le 6 e 40 di pomeriggio, le 18 e 40";
    let translated = "下午6点40分，晚上8点40分";
    assert_eq!(
        restore_numeric_tokens(source, translated),
        "下午6点40分，晚上18点40分"
    );
}

#[test]
fn leaves_numeric_output_untouched_when_counts_differ() {
    let source = "misura 12.5 mm";
    let translated = "尺寸约为12.5毫米，共2件";
    assert_eq!(restore_numeric_tokens(source, translated), translated);
}

#[test]
fn short_asr_phrases_use_faithful_direct_translation() {
    assert!(!use_asr_correction_prompt("sono di milano", true));
    assert!(!use_asr_correction_prompt("Come si scrive il tuo nome?", true));
    assert!(use_asr_correction_prompt(
        "questa e una frase abbastanza lunga da richiedere una leggera correzione asr",
        true
    ));
}

#[test]
fn build_prompt_normal_zh_en() {
    let p = build_prompt("你好，世界", "zh", "en", false);
    assert!(p.starts_with(CHAT_PREFIX));
    assert!(p.ends_with(CHAT_SUFFIX));
    assert!(p.contains("将以下文本翻译为英语"));
    assert!(p.contains(":\n\n你好，世界"));
}

#[test]
fn build_prompt_normal_en_zh() {
    let p = build_prompt("hello world", "en", "zh", false);
    assert!(p.starts_with(CHAT_PREFIX));
    assert!(p.ends_with(CHAT_SUFFIX));
    assert!(p.contains("Translate the following text into Chinese."));
    assert!(p.contains("hello world"));
}

#[test]
fn build_prompt_asr_contains_instruction_and_source_target() {
    let p = build_prompt("今天天气不错", "zh", "en", true);
    assert!(p.starts_with(CHAT_PREFIX));
    assert!(p.ends_with(CHAT_SUFFIX));
    assert!(p.contains("将以下Chinese语音转录文本翻译为English。"));
    assert!(p.contains("1. 只输出English译文，严禁输出原文、双语对照、原文片段或重复原文；"));
    assert!(p.contains("3. 完整保留原文每一项语义，不得省略、概括、合并或添加内容；"));
    assert!(p.contains("6. 不要解释，不要备注。"));
    assert!(p.contains("Source: 今天天气不错"));
    assert!(p.contains("Target (English):"));
}

#[test]
fn asr_prompt_preserves_numeric_and_technical_values() {
    let p = build_prompt("Sono le 18 e 40, quota 12.5 mm, codice AB-123.", "it", "zh", true);
    assert!(p.contains("数字、时间、尺寸、单位、型号、零件号必须忠实保留"));
    assert!(p.contains("18 e 40"));
    assert!(p.contains("12.5 mm"));
    assert!(p.contains("AB-123"));
}

#[test]
fn contextual_prompt_marks_previous_segment_as_context_only() {
    let p = build_contextual_prompt("voglio più lavorare", "per oggi non", "it", "zh");
    assert!(p.contains("上一段（仅供语境）：per oggi non"));
    assert!(p.contains("当前片段（只翻译这一段）：voglio più lavorare"));
    assert!(p.contains("严禁翻译或复述上一段"));
}

#[test]
fn italian_to_chinese_prompt_has_literal_realtime_hints() {
    let p = build_prompt(
        "quasi quasi vorrei andare a correre, oggi c'è il sole",
        "it",
        "zh",
        true,
    );
    assert!(p.contains("残句开始或结束"));
    assert!(p.contains("quasi quasi"));
    assert!(p.contains("太阳/阳光"));
}

#[test]
fn build_prompt_chat_tokens_use_fullwidth_pipe() {
    let p = build_prompt("x", "zh", "en", false);
    assert!(p.contains("<\u{FF5C}hy_begin\u{2581}of\u{2581}sentence\u{FF5C}>"));
    assert!(p.contains("<\u{FF5C}hy_User\u{FF5C}>"));
    assert!(p.contains("<\u{FF5C}hy_Assistant\u{FF5C}>"));
}

#[test]
fn postprocess_strips_special_tokens_and_echo_prefix() {
    let out = postprocess(
        "<\u{FF5C}hy_Assistant\u{FF5C}>Translation: 你好<\u{FF5C}hy_end\u{2581}of\u{2581}sentence\u{FF5C}>",
        "en",
        "zh",
    );
    assert_eq!(out, "你好");
}

#[test]
fn postprocess_strips_source_labels() {
    assert_eq!(postprocess("来源：这是译文", "it", "zh"), "这是译文");
    assert_eq!(postprocess("Source: 这是译文", "it", "zh"), "这是译文");
}

#[test]
fn postprocess_strips_target_labels() {
    assert_eq!(postprocess("目标（中文）：这是译文", "it", "zh"), "这是译文");
    assert_eq!(postprocess("Target (Chinese): 这是译文", "it", "zh"), "这是译文");
}

#[test]
fn repairs_only_obvious_italian_calendar_asr_for_translation() {
    assert_eq!(
        repair_obvious_italian_asr_for_translation(
            "sole, siamo a mangio quindi fuori c'è ancora luce",
            "it"
        ),
        "sole, siamo a maggio quindi fuori c'è ancora luce"
    );
    assert_eq!(
        repair_obvious_italian_asr_for_translation("siamo a mangio", "en"),
        "siamo a mangio"
    );
}

#[test]
fn postprocess_strips_chinese_echo_prefix() {
    let out = postprocess("译文：今天天气很好", "zh", "en");
    assert_eq!(out, "");
    let out2 = postprocess("翻译：The weather is nice today", "zh", "en");
    assert_eq!(out2, "The weather is nice today");
}

#[test]
fn postprocess_drops_cjk_echo_lines_for_en_target() {
    let out = postprocess("This is fine.\n这是回声行", "zh", "en");
    assert_eq!(out, "This is fine.");
}

#[test]
fn postprocess_drops_latin_echo_for_zh_target() {
    let out = postprocess("hello world echo line\n这是译文", "en", "zh");
    assert_eq!(out, "这是译文");
}

#[test]
fn postprocess_collapses_repeated_paragraphs() {
    let out = postprocess("这是译文。\n\n这是译文。", "en", "zh");
    assert_eq!(out, "这是译文。");
}

#[test]
fn parse_direction_common_pairs() {
    assert_eq!(parse_direction("zh-en"), Some(("zh", "en")));
    assert_eq!(parse_direction("en-ja"), Some(("en", "ja")));
    assert_eq!(parse_direction("zh-Hant-en"), Some(("zh-Hant", "en")));
    assert_eq!(parse_direction("en-zh-Hant"), Some(("en", "zh-Hant")));
    assert_eq!(parse_direction("yue-zh"), Some(("yue", "zh")));
    assert_eq!(parse_direction("it-zh"), Some(("it", "zh")));
    assert_eq!(parse_direction("it-en"), Some(("it", "en")));
    assert_eq!(parse_direction("zh"), None);
    assert_eq!(parse_direction("zh-xx"), None);
    assert_eq!(parse_direction("xx-en"), None);
}

#[test]
fn build_prompt_normal_zh_ja() {
    let p = build_prompt("你好，世界", "zh", "ja", false);
    assert!(p.starts_with(CHAT_PREFIX));
    assert!(p.ends_with(CHAT_SUFFIX));
    assert!(p.contains("将以下文本翻译为日语"));
}

#[test]
fn build_prompt_normal_en_fr() {
    let p = build_prompt("hello world", "en", "fr", false);
    assert!(p.contains("Translate the following text into French."));
    assert!(p.contains("hello world"));
}

#[test]
fn build_prompt_normal_zh_hant_target_uses_chinese_instruction() {
    let p = build_prompt("bonjour", "fr", "zh-Hant", false);
    assert!(p.contains("Translate the following text into Traditional Chinese."));
}

#[test]
fn build_prompt_asr_italian_to_chinese() {
    let p = build_prompt("Ciao, come stai?", "it", "zh", true);
    assert!(p.contains("将以下Italian语音转录文本翻译为Chinese。"));
    assert!(p.contains("Source: Ciao, come stai?"));
    assert!(p.contains("Target (Chinese):"));
}

#[test]
fn build_prompt_asr_italian_to_english() {
    let p = build_prompt("Ciao, come stai?", "it", "en", true);
    assert!(p.contains("Translate the following Italian spoken transcript into English."));
    assert!(p.contains("Source: Ciao, come stai?"));
    assert!(p.contains("Target (English):"));
}

#[test]
fn build_prompt_asr_non_chinese_pair_uses_english_instruction() {
    let p = build_prompt("hello world", "en", "ja", true);
    assert!(p.contains("Translate the following English spoken transcript into Japanese."));
    assert!(p.contains("1. Output ONLY the Japanese translation."));
    assert!(p.contains(
        "3. Preserve every semantic unit; do not omit, summarize, merge, or add content."
    ));
    assert!(p.contains("6. Do not explain or add notes."));
    assert!(p.contains("Source: hello world"));
    assert!(p.contains("Target (Japanese):"));
}

#[test]
fn build_prompt_asr_chinese_family_target_uses_chinese_instruction() {
    let p = build_prompt("bonjour le monde", "fr", "zh-Hant", true);
    assert!(p.contains("将以下French语音转录文本翻译为Traditional Chinese"));
    assert!(p.contains("Target (Traditional Chinese):"));
}

#[test]
fn postprocess_keeps_cjk_lines_for_non_en_target() {
    let out = postprocess("こんにちは\n这是中文行", "zh", "ja");
    assert_eq!(out, "こんにちは\n这是中文行");
}

#[test]
fn postprocess_drops_cjk_echo_lines_ja_to_en() {
    let out = postprocess("This is fine.\nこれは回声です", "ja", "en");
    assert_eq!(out, "This is fine.");
}

#[test]
fn postprocess_drops_latin_echo_for_zh_hant_target() {
    let out = postprocess("echo line in latin\n這是譯文", "fr", "zh-Hant");
    assert_eq!(out, "這是譯文");
}

#[test]
fn postprocess_no_script_filter_for_latin_pair() {
    let out = postprocess("Bonjour le monde\nHallo Welt", "fr", "de");
    assert_eq!(out, "Bonjour le monde\nHallo Welt");
}
