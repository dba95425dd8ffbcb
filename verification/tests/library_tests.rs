use voxminutes::asr::{
    asr_model_catalog, language_or_auto, plan_asr_load, resolved_models_dir, strip_verbatim_prefix,
    whisper_language, AsrLoadPlan, AsrProbe, LoadedAsr, ModelStatus,
};
use voxminutes::bpe::{sanitize_bpe_merges, MergeRule};
use voxminutes::records::{deletion_result, segment_update_result, title_update_result, transcript_config_from};
use voxminutes::registry::summary_model_dir_name;
use voxminutes::translation::{hymt2_not_installed_error, last_logits_range};
use voxminutes::export::{
    export_file_name, export_format, export_segments, fallback_export_dir, render_markdown,
    render_srt, render_txt, requested_export_dir, sanitize_filename, summary_file_name,
    ExportFormat,
};
use voxminutes::helper::{
    generate_settings, generation_reply, helper_turn, idle_timeout_secs, keeps_loaded_model, load_failure_reply,
    prefix_reuse, Generation, HelperRequest, HelperTurn, PromptCache, SamplerEvent,
};
use voxminutes::llm::{
    dedup_consecutive_paragraphs, extract_numeric_tokens, is_all_cjk, is_chinese_family,
    is_hy_special_token, is_mostly_latin, lang_names, normalize_for_dedup, strip_special_tokens,
    translate, translate_with_context, warmup, Installation,
};
use voxminutes::provider::{
    merge_window_text, plan_windows, transcribe_plan, AsrModelType, SherpaOnnxProvider, TranscribePlan,
};
use voxminutes::records::{
    ms_to_clock, ms_to_srt, model_config_from, model_config_writes, paginate_segments,
    recording_duration, segment_for_storage, transcript_config_writes, RecordingSegment,
    RecordingSegmentInput,
};
use voxminutes::registry::{
    archive_kind, check_download_request, check_gguf_magic, download_failure_message, known_model,
    download_info, download_total, file_url, local_file_name, resume_decision, sources_to_try,
    get_downloadable_models, summary_local_models, ArchiveKind, DownloadTasks, ResumeDecision,
};
use voxminutes::sidecar::{
    classify_helper_message, helper_line, parse_helper_response, shutdown_helper, ExchangeStep, HelperExchange, HelperLine, HelperMessage,
};
use voxminutes::transcript::{
    format_current_timestamp, reset_speech_detected_flag, segment_sample_limit, ChunkProgress,
    transcript_information_score, LiveWorker, SessionCounters,
};
use voxminutes::translation::{
    check_home_lang, check_target_lang, direction_for_model_dir, join_translation_parts,
    normalize_engine_id, opus_direction, resolve_text_translation, split_at_sentence_middle,
    Direction, TextTranslation,
};

fn seg(id: &str, text: &str, start: i64, end: Option<i64>, speaker: Option<&str>, source: Option<&str>) -> RecordingSegment {
    RecordingSegment {
        id: id.to_string(),
        text: text.to_string(),
        start_ms: start,
        end_ms: end,
        speaker: speaker.map(|s| s.to_string()),
        source: source.map(|s| s.to_string()),
    }
}

// ── translation requests ──

const READY: Installation = Installation { model_installed: true, helper_found: true };

#[test]
fn translate_rejects_unknown_direction() {
    match translate("ciao", "it-xx", false, false, &READY) {
        Err(e) => assert_eq!(e, "不支持的翻译方向: it-xx"),
        Ok(_) => panic!("expected an error"),
    }
}

#[test]
fn translate_rejects_same_language() {
    match translate("ciao", "it-it", false, false, &READY) {
        Err(e) => assert_eq!(e, "源语言与目标语言相同，无需翻译"),
        Ok(_) => panic!("expected an error"),
    }
}

#[test]
fn translate_blank_text_needs_no_generation() {
    assert!(matches!(translate("   ", "it-zh", true, false, &READY), Ok(None)));
}

#[test]
fn translate_short_asr_fragment_is_faithful() {
    let req = translate("siamo a mangio", "it-zh", true, false, &READY).unwrap().unwrap();
    assert_eq!(req.translation_text, "siamo a maggio");
    assert!(req.faithful_short);
    assert!(!req.korean_penalties);
    assert_eq!(req.max_tokens, 64);
    assert_eq!(req.context_size, 4096);
    assert_eq!(req.top_k, 20);
    assert_eq!(req.stop_tokens.len(), 4);
    assert_eq!(req.stop_tokens[3], "<|endoftext|>");
    assert!(req.prompt.contains("Translate the following text into Chinese."));
}

#[test]
fn translate_budget_is_twice_the_length() {
    let text = "a".repeat(100);
    let req = translate(&text, "en-ko", false, false, &READY).unwrap().unwrap();
    assert_eq!(req.max_tokens, 200);
    assert!(req.korean_penalties);
    assert!(!req.faithful_short);
    let long = "b".repeat(600);
    let req = translate(&long, "en-ko", false, false, &READY).unwrap().unwrap();
    assert_eq!(req.max_tokens, 1024);
}

#[test]
fn translate_with_context_uses_context_prompt() {
    let req = translate_with_context("voglio più lavorare", "per oggi non", "it-zh", true, &READY).unwrap().unwrap();
    assert!(req.prompt.contains("上一段（仅供语境）：per oggi non"));
    let blank = translate_with_context("voglio più lavorare", "   ", "it-zh", false, &READY).unwrap().unwrap();
    assert!(!blank.prompt.contains("上一段"));
}

#[test]
fn finish_cleans_and_restores_numbers() {
    let req = translate("le 18 e 40", "it-zh", true, false, &READY).unwrap().unwrap();
    assert_eq!(req.finish("译文：晚上8点40分"), "晚上18点40分");
}

#[test]
fn warmup_asks_for_one_token() {
    let w = warmup(&READY).unwrap();
    assert_eq!(w.prompt, "Hi");
    assert_eq!(w.max_tokens, 1);
    assert!(w.stop_tokens.is_empty());
    assert!(!w.stream);
    let no_model = Installation { model_installed: false, helper_found: true };
    assert_eq!(warmup(&no_model).err(), Some("Hy-MT2 翻译模型未安装，请先到设置页下载。".to_string()));
    let no_helper = Installation { model_installed: true, helper_found: false };
    assert_eq!(warmup(&no_helper).err(), Some("本地推理引擎（llama-helper）未找到，请重新安装应用".to_string()));
}

#[test]
fn translation_needs_model_and_helper_and_says_whether_it_streams() {
    let no_model = Installation { model_installed: false, helper_found: false };
    assert_eq!(
        translate("ciao", "it-zh", false, false, &no_model).err(),
        Some("Hy-MT2 翻译模型未安装，请先到设置页下载。".to_string())
    );
    assert!(matches!(translate("  ", "it-zh", false, false, &no_model), Ok(None)));
    assert_eq!(translate("ciao", "it-it", false, false, &no_model).err(), Some("源语言与目标语言相同，无需翻译".to_string()));
    let no_helper = Installation { model_installed: true, helper_found: false };
    assert_eq!(
        translate("ciao", "it-zh", false, true, &no_helper).err(),
        Some("本地推理引擎（llama-helper）未找到，请重新安装应用".to_string())
    );
    assert!(translate("ciao", "it-zh", false, true, &READY).unwrap().unwrap().stream);
    assert!(!translate("ciao", "it-zh", false, false, &READY).unwrap().unwrap().stream);
}

#[test]
fn special_tokens_are_recognised_and_removed() {
    assert!(is_hy_special_token("<|hy_x|>rest"));
    assert!(is_hy_special_token("<\u{2502}hy_place\u{2502}>"));
    assert!(!is_hy_special_token("<|hy_x>"));
    assert!(!is_hy_special_token("<b>"));
    assert_eq!(strip_special_tokens("a<|hy_x|>b<c"), "ab<c");
}

#[test]
fn numeric_tokens_are_extracted() {
    assert_eq!(extract_numeric_tokens("le 18 e 40, 12.5 mm, 1,200 x."), vec!["18", "40", "12.5", "1,200"]);
    assert!(extract_numeric_tokens("nessun numero").is_empty());
}

#[test]
fn script_classes() {
    assert!(is_all_cjk("这是中文"));
    assert!(!is_all_cjk("这是 中文"));
    assert!(!is_all_cjk(""));
    assert!(is_mostly_latin("hello world 1"));
    assert!(is_mostly_latin("你好 world"));
    assert!(!is_mostly_latin("你好你好 world"));
    assert!(!is_mostly_latin("   "));
    assert_eq!(normalize_for_dedup("Hello, World!"), "helloworld");
}

#[test]
fn paragraphs_are_folded_only_when_consecutive() {
    assert_eq!(dedup_consecutive_paragraphs("   "), "   ");
    assert_eq!(dedup_consecutive_paragraphs("  one  "), "one");
    assert_eq!(dedup_consecutive_paragraphs("A.\n\na!\n\nB\n\nA."), "A.\n\nB\n\nA.");
}

#[test]
fn language_table() {
    assert_eq!(lang_names("it"), ("意大利语", "Italian"));
    assert_eq!(lang_names("xx"), ("", ""));
    assert!(is_chinese_family("yue"));
    assert!(!is_chinese_family("ja"));
}

// ── live transcription ──

#[test]
fn information_score_counts_words_and_characters() {
    assert_eq!(transcript_information_score("ab cd"), 2 * 8 + 4);
    assert_eq!(transcript_information_score("   "), 0);
}

#[test]
fn wall_clock_stamp() {
    assert_eq!(format_current_timestamp(3600 * 25 + 61), "01:01:01");
    assert_eq!(format_current_timestamp(0), "00:00:00");
}

#[test]
fn speech_is_announced_once_per_session() {
    let mut c = SessionCounters::new();
    assert!(c.announce_speech());
    assert!(!c.announce_speech());
    reset_speech_detected_flag(&mut c);
    assert!(c.announce_speech());
}

#[test]
fn sequence_numbers_come_from_the_counter_outside_whisper() {
    let mut c = SessionCounters::new();
    let w = LiveWorker::new("sense-voice");
    assert_eq!(w.chunk_sequence(99, &mut c), (0, false));
    assert_eq!(w.chunk_sequence(99, &mut c), (1, false));
    let lw = LiveWorker::new("whisper-small");
    assert_eq!(lw.chunk_sequence(0x8000_0000_0000_0005, &mut c), (5, true));
    assert_eq!(c.next_sequence, 2);
}

#[test]
fn whisper_final_regression_is_replaced_by_best_partial() {
    let mut w = LiveWorker::new("whisper-small");
    let partial = "This is a very important opportunity for you to learn the important things.";
    assert_eq!(w.settle(7, true, partial.to_string(), false), Some((partial.to_string(), true)));
    assert_eq!(w.settle(7, false, "obviously".to_string(), false), Some((partial.to_string(), false)));
    assert_eq!(w.last_final_text, partial);
    assert!(w.best_partials.is_empty());
    assert_eq!(w.settle(8, false, "   ".to_string(), false), None);
}

#[test]
fn whisper_overlap_with_last_final_is_cut() {
    let mut w = LiveWorker::new("whisper-tiny");
    w.settle(1, false, "Vorrei sapere se possiamo modificare questa macchina".to_string(), false);
    let r = w.settle(2, false, "questa macchina per migliorare la produzione".to_string(), false);
    assert_eq!(r, Some(("per migliorare la produzione".to_string(), false)));
}

// ── offline recogniser ──

#[test]
fn windows_overlap_by_one_second() {
    let w = plan_windows(&vec![(0, 464000), (464000, 900000)], 900000);
    assert_eq!(w, vec![(0, 480000), (464000, 900000)]);
}

#[test]
fn window_texts_are_merged_without_the_overlap() {
    let mut combined = String::new();
    merge_window_text(&mut combined, true, " 今天天气 ");
    merge_window_text(&mut combined, false, "天气很好");
    assert_eq!(combined, "今天天气 很好");
}

#[test]
fn provider_cleans_whisper_windows_only() {
    let p = SherpaOnnxProvider::new("whisper-small".to_string(), AsrModelType::Whisper);
    assert_eq!(p.clean_window_text(" non non non non non non non non "), "non");
    let s = SherpaOnnxProvider::new("sense-voice".to_string(), AsrModelType::SenseVoice);
    assert_eq!(s.clean_window_text(" non non non non non non non non "), "non non non non non non non non");
    assert_eq!(p.provider_name(), "Sherpa-ONNX (Native Rust)");
    assert!(p.is_model_loaded());
    assert_eq!(p.get_current_model(), Some("whisper-small".to_string()));
}

#[test]
fn audio_length_decides_the_windows() {
    assert_eq!(transcribe_plan(0), TranscribePlan::TooShort);
    assert_eq!(transcribe_plan(1), TranscribePlan::Whole);
    assert_eq!(transcribe_plan(480_000), TranscribePlan::Whole);
    assert_eq!(transcribe_plan(480_001), TranscribePlan::Windowed);
}

// ── records and export ──

#[test]
fn pages_of_filtered_segments() {
    let segs = vec![
        seg("1", "a", 0, None, None, Some("realtime")),
        seg("2", "b", 10, None, None, Some("offline_asr")),
        seg("3", "c", 20, None, None, Some("realtime")),
        seg("4", "d", 30, None, None, Some("realtime")),
    ];
    let page = paginate_segments(&segs, &Some("realtime".to_string()), 1, 1);
    assert_eq!(page.total_count, 3);
    assert_eq!(page.segments.len(), 1);
    assert_eq!(page.segments[0].id, "3");
    assert!(page.has_more);
    let all = paginate_segments(&segs, &None, 10, -5);
    assert_eq!(all.segments.len(), 4);
    assert!(all.has_more);
    let past_end = paginate_segments(&segs, &None, 10, i64::MAX);
    assert_eq!(past_end.total_count, 4);
    assert!(past_end.segments.is_empty());
    assert!(!past_end.has_more);
}

#[test]
fn clock_and_srt_times() {
    assert_eq!(ms_to_clock(65_000), "01:05");
    assert_eq!(ms_to_clock(3_725_000), "01:02:05");
    assert_eq!(ms_to_clock(-5), "00:00");
    assert_eq!(ms_to_srt(3_725_123), "01:02:05,123");
    assert_eq!(ms_to_srt(-1), "00:00:00,000");
}

#[test]
fn saved_segments_get_ids_and_starts() {
    let input = RecordingSegmentInput {
        id: String::new(),
        text: "t".to_string(),
        timestamp: None,
        display_time: None,
        start_ms: None,
        end_ms: Some(5),
        duration: None,
        speaker: None,
        source: None,
    };
    let s = segment_for_storage(input, "abc");
    assert_eq!(s.id, "segment-abc");
    assert_eq!(s.start_ms, 0);
    let segs = vec![seg("1", "a", 0, Some(5), None, None), seg("2", "b", 0, None, None, None), seg("3", "c", 0, Some(9), None, None)];
    assert_eq!(recording_duration(None, &segs), Some(9));
    assert_eq!(recording_duration(Some(100), &segs), Some(100));
    assert_eq!(recording_duration(None, &vec![]), None);
}

#[test]
fn settings_defaults_and_writes() {
    let c = model_config_from(None, None, None, None, None);
    assert_eq!((c.provider.as_str(), c.model.as_str(), c.whisper_model.as_str()), ("sherpaonnx", "sense-voice", "base"));
    let w = model_config_writes("p", "m", "w", Some(""), Some("http://e"));
    assert_eq!(w, vec![
        ("model.provider".to_string(), "p".to_string()),
        ("model.name".to_string(), "m".to_string()),
        ("model.whisper_model".to_string(), "w".to_string()),
        ("model.ollama_endpoint".to_string(), "http://e".to_string()),
    ]);
    let t = transcript_config_writes("p", "m", Some("k"));
    assert_eq!(t.len(), 3);
    assert_eq!(t[2], ("transcript.api_key".to_string(), "k".to_string()));
}

#[test]
fn export_selection_and_formats() {
    let segs = vec![
        seg("1", "ciao", 1000, Some(2500), Some("Anna"), Some("realtime")),
        seg("2", "bene", 3_600_000, None, None, Some("offline_asr")),
    ];
    let rt = export_segments(&segs, &Some("realtime".to_string())).unwrap();
    assert_eq!(rt.len(), 1);
    let off = export_segments(&segs, &Some("offline_asr".to_string())).unwrap();
    assert_eq!(off[0].id, "2");
    assert_eq!(export_segments(&segs, &None).unwrap().len(), 2);
    assert_eq!(
        export_segments(&vec![seg("1", "x", 0, None, None, Some("offline_asr"))], &Some("realtime".to_string())).err(),
        Some("No segments to export for the selected source".to_string())
    );
    assert_eq!(export_format("MD").unwrap(), ExportFormat::Markdown);
    assert_eq!(export_format("Doc").err(), Some("Unsupported export format: doc. Use txt, srt or markdown.".to_string()));
    assert_eq!(render_txt("T", &segs), "T\n\n[00:01] Anna: ciao\n[01:00:00] bene\n");
    assert_eq!(
        render_srt(&segs),
        "1\n00:00:01,000 --> 00:00:02,500\nciao\n\n2\n01:00:00,000 --> 01:00:02,000\nbene\n\n"
    );
    assert_eq!(
        render_markdown("T", "2024-01-02 03:04:05", None, &segs),
        "# T\n\n- 创建时间：2024-01-02 03:04:05\n- 时长：未知\n\n---\n\n- **[00:01] Anna**：ciao\n- **[01:00:00]** bene\n"
    );
}

#[test]
fn file_names_and_directories() {
    assert_eq!(sanitize_filename("  a/b:c?  "), "a_b_c_");
    assert_eq!(sanitize_filename("   "), "recording");
    assert_eq!(sanitize_filename(" \t "), "_");
    assert_eq!(sanitize_filename(&"x".repeat(100)).len(), 80);
    assert_eq!(export_file_name("会议", &Some("offline_asr".to_string()), ExportFormat::Srt), "会议_offline.srt");
    assert_eq!(summary_file_name("会议"), "会议_AI总结.md");
    assert_eq!(requested_export_dir(Some("  ".to_string())), None);
    assert_eq!(requested_export_dir(Some("/x".to_string())), Some("/x".to_string()));
    assert_eq!(fallback_export_dir(" ".to_string(), Some("/rec")), Ok("/rec".to_string()));
    assert_eq!(fallback_export_dir("/cfg".to_string(), Some("/rec")), Ok("/cfg".to_string()));
    assert_eq!(
        fallback_export_dir("".to_string(), None),
        Err("No export directory available: set one in Settings or pass output_dir".to_string())
    );
}

// ── model registry ──

#[test]
fn download_requests_are_checked() {
    assert_eq!(check_download_request("nope", None).err(), Some("Unknown model: nope".to_string()));
    assert_eq!(known_model("nope").err(), Some("Unknown model: nope".to_string()));
    assert_eq!(known_model("sense-voice").map(|m| m.id), Ok("sense-voice"));
    assert_eq!(
        check_download_request("sense-voice", Some(2)).err(),
        Some("无效的下载源序号 2（共 2 个源）".to_string())
    );
    assert!(check_download_request("sense-voice", Some(1)).is_ok());
    assert_eq!(sources_to_try(3, None), vec![0, 1, 2]);
    assert_eq!(sources_to_try(3, Some(1)), vec![1]);
}

#[test]
fn urls_and_local_names() {
    assert_eq!(file_url("https://h/x//", "resolve/main", "onnx/e.onnx"), "https://h/x/resolve/main/onnx/e.onnx");
    assert_eq!(local_file_name("onnx/e.onnx"), "e.onnx");
    assert_eq!(local_file_name("e.onnx"), "e.onnx");
}

#[test]
fn archives_and_gguf_headers() {
    assert_eq!(archive_kind("m.tar.bz2"), Ok(ArchiveKind::TarBz2));
    assert_eq!(archive_kind("m.tgz"), Ok(ArchiveKind::TarGz));
    assert_eq!(archive_kind("m.zip"), Ok(ArchiveKind::Zip));
    assert!(archive_kind("m.rar").is_err());
    assert!(check_gguf_magic(b"GGUF\x03\x00\x00\x00rest-of-file").is_ok());
    assert_eq!(check_gguf_magic(b"NOPE").err(), Some("所选文件不是有效的 GGUF 模型（magic 校验失败）".to_string()));
    assert_eq!(check_gguf_magic(b"GG").err(), Some("文件太小，不是有效的 GGUF 模型".to_string()));
}

#[test]
fn one_task_per_model() {
    let mut t = DownloadTasks::new();
    assert!(t.register_task("a").is_ok());
    assert_eq!(t.register_task("a").err(), Some("该模型正在下载或导入中".to_string()));
    assert!(t.register_task("b").is_ok());
    t.finish_task("a");
    assert!(!t.is_running("a"));
    assert!(t.is_running("b"));
    assert!(t.register_task("a").is_ok());
}

#[test]
fn download_outcomes() {
    let f = vec!["x: HTTP 404".to_string(), "y: HTTP 500".to_string()];
    assert_eq!(download_failure_message(&f, false), "所有下载源均失败：x: HTTP 404；y: HTTP 500");
    assert_eq!(download_failure_message(&f[..1].to_vec(), true), "所选下载源失败：x: HTTP 404。可换其他源重试");
    assert_eq!(resume_decision(10, 206), ResumeDecision::Resume);
    assert_eq!(resume_decision(10, 416), ResumeDecision::AlreadyComplete);
    assert_eq!(resume_decision(0, 206), ResumeDecision::Restart);
    assert_eq!(resume_decision(0, 404), ResumeDecision::Fail);
    assert_eq!(download_total(5, 7, Some(100), 1), 112);
    assert_eq!(download_total(5, 7, None, 1), 1);
}

#[test]
fn manager_entries() {
    let s = summary_local_models(&vec![true, false, true]);
    assert_eq!(s[1].id, "qwen3-4b-instruct-2507-q4_k_m");
    assert!(!s[1].installed);
    assert_eq!(s[2].display_name, "Gemma-3-4B-it（会议总结）");
    let d = download_info(5, false, true);
    assert_eq!(d.id, "opus-mt-zh-en");
    assert_eq!(d.sources.len(), 3);
    assert_eq!(d.sources[2].label, "ModelScope");
    assert_eq!(d.sources[0].urls.len(), 6);
}

// ── helper process ──

fn msg(kind: Option<&str>) -> HelperMessage {
    HelperMessage {
        kind: kind.map(|s| s.to_string()),
        text: None,
        error: None,
        message: None,
        model_path: None,
        phase: None,
        elapsed_ms: None,
    }
}

#[test]
fn helper_lines_are_classified() {
    let mut m = msg(Some("response"));
    m.text = Some("ok".to_string());
    assert!(matches!(classify_helper_message(m), Ok(HelperLine::Done(Ok(t))) if t == "ok"));
    let mut m = msg(Some("response"));
    m.error = Some("boom".to_string());
    assert!(matches!(classify_helper_message(m), Ok(HelperLine::Done(Err(e))) if e == "本地推理生成失败: boom"));
    assert!(matches!(classify_helper_message(msg(Some("error"))), Ok(HelperLine::Done(Err(e))) if e == "本地推理引擎错误: 未知错误"));
    let mut m = msg(Some("model-loading"));
    m.model_path = Some("/m/hy.gguf".to_string());
    m.phase = Some("start".to_string());
    assert!(matches!(classify_helper_message(m), Ok(HelperLine::ModelLoading { model, .. }) if model == "hy"));
    assert_eq!(classify_helper_message(msg(Some("x\"y"))).err(), Some("本地推理引擎返回了未知消息: Some(\"x\\\"y\")".to_string()));
    assert_eq!(classify_helper_message(msg(None)).err(), Some("本地推理引擎返回了未知消息: None".to_string()));
    let mut m = msg(Some("model-loading"));
    m.model_path = Some("no-stem".to_string());
    assert!(matches!(helper_line(m, None), Ok(HelperLine::ModelLoading { model, .. }) if model == "no-stem"));
    let mut m = msg(Some("model-loading"));
    m.model_path = Some("/m/q.gguf".to_string());
    m.elapsed_ms = Some(12);
    assert!(matches!(
        helper_line(m, Some("q".to_string())),
        Ok(HelperLine::ModelLoading { model, elapsed_ms: Some(12), .. }) if model == "q"
    ));
}

#[test]
fn failed_exchange_reports_pending_load() {
    let mut ex = HelperExchange::new();
    let step = ex.on_line(HelperLine::ModelLoading {
        model: "hy".to_string(),
        phase: "start".to_string(),
        elapsed_ms: None,
        message: None,
    });
    assert!(matches!(step, ExchangeStep::Loading { .. }));
    match ex.on_line(HelperLine::Done(Err("x".to_string()))) {
        ExchangeStep::Finish { result, failed_load } => {
            assert_eq!(result, Err("x".to_string()));
            assert_eq!(failed_load, Some("hy".to_string()));
        }
        _ => panic!("expected the end of the exchange"),
    }
    assert!(ex.pending_load.is_none());
}

#[test]
fn prefix_reuse_and_stop_sequences() {
    let prev: Vec<i32> = (0..20).collect();
    let mut toks: Vec<i32> = (0..18).collect();
    toks.push(99);
    assert_eq!(prefix_reuse(&toks, &prev), 18);
    assert_eq!(prefix_reuse(&prev, &prev), 19);
    assert_eq!(prefix_reuse(&(0..10).collect(), &prev), 0);
    let mut g = Generation::new();
    let stops = vec!["<|end|>".to_string()];
    assert!(!g.push_token("hello ", &stops));
    assert!(g.push_token("world <|end|>", &stops));
    assert_eq!(g.output, "hello world");
    assert_eq!(g.generated, 2);
    assert!(g.at_limit(2));
    let s = generate_settings(None, None, None, None, None);
    assert_eq!((s.max_tokens, s.context_size, s.top_k, s.stream), (512, 2048, 64, false));
    assert!(keeps_loaded_model(Some(("/m", 4096)), "/m", 4096));
    assert!(!keeps_loaded_model(Some(("/m", 2048)), "/m", 4096));
}

// ── translation settings ──

#[test]
fn two_part_fallback() {
    let text = "这是一个很长的第一句话，用来测试两段式切分功能。 这是第二句话，也写得比较长一些才能满足要求。";
    let (h, t) = split_at_sentence_middle(text).unwrap();
    assert_eq!(h, "这是一个很长的第一句话，用来测试两段式切分功能。");
    assert_eq!(t, "这是第二句话，也写得比较长一些才能满足要求。");
    assert_eq!(split_at_sentence_middle("short."), None);
    assert_eq!(join_translation_parts("你好", "世界"), "你好世界");
    assert_eq!(join_translation_parts("Hello.", "World"), "Hello. World");
    assert_eq!(join_translation_parts("Hello", "世界"), "Hello世界");
    assert_eq!(join_translation_parts("你好", "World"), "你好World");
}

#[test]
fn engine_and_language_settings() {
    assert_eq!(normalize_engine_id("hymt2"), Ok("hymt2-q6".to_string()));
    assert_eq!(normalize_engine_id("opus"), Ok("opus".to_string()));
    assert_eq!(normalize_engine_id("x").err(), Some("不支持的翻译引擎: x".to_string()));
    assert_eq!(opus_direction("auto", true), Ok("zh-en"));
    assert_eq!(opus_direction("fr-en", true).err(), Some("不支持的翻译方向: fr-en".to_string()));
    assert!(check_target_lang("it").is_ok());
    assert_eq!(check_target_lang("yue").err(), Some("不支持的目标语言: yue".to_string()));
    assert!(check_home_lang("ko").is_ok());
    assert!(check_home_lang("it").is_err());
    assert_eq!(direction_for_model_dir(Some("opus-mt-it-en")), Direction::ItEn);
    assert_eq!(direction_for_model_dir(None), Direction::EnZh);
}

#[test]
fn text_translation_targets() {
    match resolve_text_translation("some text", "hymt2-q6", true, "auto", Some("auto".to_string()), "it", "auto", "zh").unwrap() {
        TextTranslation::Direction(d) => assert_eq!(d, "it-zh"),
        _ => panic!("expected a direction"),
    }
    assert!(matches!(resolve_text_translation("some text", "hymt2-q6", true, "it-en", None, "zh", "ja", "zh"), Ok(TextTranslation::Direction(d)) if d == "it-en"));
    assert!(matches!(resolve_text_translation("some text", "hymt2-q6", true, "en-zh", Some("en".to_string()), "it", "ja", "zh"), Ok(TextTranslation::Unchanged)));
    assert!(resolve_text_translation("some text", "hymt2-q6", true, "auto", Some("yue".to_string()), "it", "ja", "zh").is_err());
    assert!(matches!(
        resolve_text_translation("  ", "hymt2-q4", false, "bad", None, "it", "ja", "zh"),
        Ok(TextTranslation::Empty)
    ));
    assert_eq!(
        resolve_text_translation("ciao", "hymt2-q4", false, "it-en", None, "it", "ja", "zh").err(),
        Some("HY-MT2-Q4 翻译模型未安装，请先到设置页下载。".to_string())
    );
}

// ── speech models ──

#[test]
fn model_catalog_statuses() {
    let p = AsrProbe {
        sense_voice_enabled: false,
        sense_voice_found: true,
        offline_engine_loaded: true,
        offline_model_name: Some("whisper-small".to_string()),
        whisper_tiny_found: false,
        whisper_small_found: true,
        remote_configured: false,
        x_asr_found: true,
        x_asr_loaded: false,
    };
    let c = asr_model_catalog(&p);
    assert_eq!(c.len(), 5);
    assert_eq!(c[0].name, "whisper-tiny");
    assert_eq!(c[0].status, ModelStatus::Missing);
    assert_eq!(c[1].status, ModelStatus::Loaded);
    assert_eq!(c[2].status, ModelStatus::NotConfigured);
    assert_eq!(c[2].hidden, Some(true));
    assert_eq!(c[4].status, ModelStatus::Available);
    assert_eq!(c[4].status.as_str(), "Available");
}

#[test]
fn model_load_plans() {
    let loaded = LoadedAsr {
        model_name: Some("whisper-small".to_string()),
        language: Some("it".to_string()),
        offline_loaded: true,
        x_asr_loaded: false,
    };
    assert!(matches!(plan_asr_load("qwen3-asr-remote-streaming", &loaded, "it", false), Ok(AsrLoadPlan::Remote)));
    assert!(matches!(plan_asr_load("whisper-small", &loaded, "it", false), Ok(AsrLoadPlan::AlreadyLoaded)));
    assert!(matches!(plan_asr_load("whisper-small", &loaded, "auto", false), Ok(AsrLoadPlan::LoadWhisper)));
    assert!(matches!(plan_asr_load("x-asr-480ms", &loaded, "it", false), Ok(AsrLoadPlan::LoadXAsr)));
    assert!(plan_asr_load("sense-voice", &loaded, "it", false).is_err());
    assert!(matches!(plan_asr_load("custom", &loaded, "it", true), Ok(AsrLoadPlan::LoadOther)));
    assert_eq!(language_or_auto(Some(String::new())), "auto");
    assert_eq!(whisper_language(Some("auto".to_string())), None);
    assert_eq!(whisper_language(Some("it".to_string())), Some("it".to_string()));
    assert_eq!(strip_verbatim_prefix("\\\\?\\C:\\m"), "C:\\m");
    assert_eq!(resolved_models_dir(None), "models");
}

#[test]
fn joined_merge_rules_and_empty_vocabulary() {
    let vocab = vec!["a".to_string(), "b".to_string(), "ab".to_string()];
    let merges = vec![MergeRule::Joined("a b".to_string()), MergeRule::Joined("ab".to_string()), MergeRule::Other];
    let (keep, removed) = sanitize_bpe_merges(&vocab, &merges);
    assert_eq!(keep, vec![true, false, false]);
    assert_eq!(removed, 2);
    let (keep, removed) = sanitize_bpe_merges(&vec![], &merges);
    assert_eq!(keep, vec![true, true, true]);
    assert_eq!(removed, 0);
}

#[test]
fn shutdown_takes_the_helper_once() {
    let mut slot = Some(7u32);
    let first = shutdown_helper(&mut slot);
    assert_eq!(first, Some((7u32, "{\"type\":\"shutdown\"}".to_string())));
    assert_eq!(slot, None);
    assert_eq!(shutdown_helper(&mut slot), None);
}

#[test]
fn chunk_limits_follow_the_model() {
    assert_eq!(segment_sample_limit(false), 240_000);
    assert_eq!(segment_sample_limit(true), 464_000);
}

#[test]
fn model_manager_lists_every_model() {
    let mut tasks = DownloadTasks::new();
    assert!(tasks.register_task("sense-voice").is_ok());
    let mut installed = vec![false; voxminutes::registry::MODEL_COUNT];
    installed[1] = true;
    let list = get_downloadable_models(&installed, &tasks);
    assert_eq!(list.len(), voxminutes::registry::MODEL_COUNT);
    assert!(list[1].installed && !list[0].installed);
    for info in &list {
        assert_eq!(info.downloading, info.id == "sense-voice");
    }
    assert!(list.iter().any(|i| i.id == "sense-voice"));
}

#[test]
fn load_errors_and_whisper_directories() {
    assert_eq!(
        voxminutes::asr::model_not_found_error("whisper-small", "/m"),
        "Model 'whisper-small' not found at /m. Download it first."
    );
    assert_eq!(
        voxminutes::asr::x_asr_not_found_error("/m"),
        "X-ASR model not found at /m. Download the model first."
    );
    let (dirs, name) = voxminutes::asr::whisper_dir_candidates("whisper-small");
    assert_eq!(dirs, vec!["sherpa-onnx-whisper-small", "whisper-small"]);
    assert_eq!(name, "whisper-small");
    let (dirs, name) = voxminutes::asr::whisper_dir_candidates("whisper-tiny");
    assert_eq!(dirs, vec!["sherpa-onnx-whisper-tiny", "whisper-tiny"]);
    assert_eq!(name, "whisper-tiny");
    let loaded = LoadedAsr { model_name: None, language: None, offline_loaded: false, x_asr_loaded: true };
    assert!(voxminutes::asr::is_xasr_engine_loaded(&loaded));
}

#[test]
fn answers_to_updates() {
    assert_eq!(deletion_result(true, "r1"), Ok(()));
    assert_eq!(deletion_result(false, "r1"), Err("Recording not found or could not be deleted: r1".to_string()));
    assert_eq!(title_update_result(false, "r2"), Err("No recording found with id r2".to_string()));
    assert_eq!(segment_update_result(false, "s3"), Err("Segment not found: s3".to_string()));
    assert_eq!(segment_update_result(true, "s3"), Ok(()));
    let c = transcript_config_from(None, None, Some("k".to_string()));
    assert_eq!((c.provider.as_str(), c.model.as_str(), c.api_key.as_deref()), ("sherpaonnx", "sense-voice", Some("k")));
    let c = transcript_config_from(Some("p".to_string()), Some("m".to_string()), None);
    assert_eq!((c.provider.as_str(), c.model.as_str(), c.api_key), ("p", "m", None));
}

#[test]
fn model_directories_and_missing_translation_models() {
    assert_eq!(summary_model_dir_name("nope"), None);
    assert!(summary_model_dir_name("qwen2.5-3b-instruct-q4_k_m").is_some());
    assert_eq!(hymt2_not_installed_error("hymt2-q4"), "HY-MT2-Q4 翻译模型未安装，请先到设置页下载。");
    assert_eq!(hymt2_not_installed_error("hymt2-q6"), "HY-MT2-Q6 翻译模型未安装，请先到设置页下载。");
}

#[test]
fn empty_stop_sequence_stops_at_once() {
    let mut g = Generation::new();
    let stops = vec![String::new()];
    assert!(g.push_token("hi  ", &stops));
    assert_eq!(g.output, "hi");
    assert_eq!(g.generated, 1);
}

#[test]
fn realtime_and_offline_exports_share_out_the_segments() {
    let segs = vec![
        seg("1", "a", 0, None, None, Some("realtime")),
        seg("2", "b", 10, None, None, Some("offline_asr")),
        seg("3", "c", 20, None, None, None),
        seg("4", "d", 30, None, None, Some("offline_asr")),
    ];
    let rt = export_segments(&segs, &Some("realtime".to_string())).unwrap();
    let off = export_segments(&segs, &Some("offline_asr".to_string())).unwrap();
    assert_eq!(rt.len() + off.len(), segs.len());
    assert_eq!(rt.iter().map(|s| s.id.as_str()).collect::<Vec<_>>(), vec!["1", "3"]);
    assert_eq!(off.iter().map(|s| s.id.as_str()).collect::<Vec<_>>(), vec!["2", "4"]);
    let a = export_file_name("t", &Some("realtime".to_string()), ExportFormat::Txt);
    let b = export_file_name("t", &Some("offline_asr".to_string()), ExportFormat::Txt);
    let c = export_file_name("t", &None, ExportFormat::Txt);
    assert_eq!((a.as_str(), b.as_str(), c.as_str()), ("t_realtime.txt", "t_offline.txt", "t.txt"));
}

#[test]
fn gguf_magic_accepts_valid_header() {
    assert!(check_gguf_magic(b"GGUF\x03\x00\x00\x00rest-of-file").is_ok());
}

#[test]
fn gguf_magic_rejects_bad_header() {
    assert!(check_gguf_magic(b"NOPE-not-a-gguf-file").is_err());
}

#[test]
fn gguf_magic_rejects_tiny_file() {
    assert!(check_gguf_magic(b"GG").is_err());
}

#[test]
fn only_running_downloads_can_be_cancelled() {
    let mut tasks = DownloadTasks::new();
    assert_eq!(tasks.cancel_model_download("m"), Err("Model m is not downloading".to_string()));
    assert!(!tasks.is_cancelled("m"));
    assert!(tasks.register_task("m").is_ok());
    assert!(tasks.register_task("n").is_ok());
    assert!(!tasks.is_cancelled("m"));
    assert_eq!(tasks.cancel_model_download("m"), Ok(()));
    assert!(tasks.is_cancelled("m"));
    assert!(!tasks.is_cancelled("n"));
    assert_eq!(tasks.cancel_model_download("m"), Ok(()));
    tasks.finish_task("m");
    assert!(!tasks.is_cancelled("m"));
    assert!(tasks.cancel_model_download("m").is_err());
    assert!(tasks.register_task("m").is_ok());
    assert!(!tasks.is_cancelled("m"));
}

#[test]
fn raw_helper_lines_are_decoded() {
    assert!(matches!(
        parse_helper_response(r#"{"type":"response","text":"hi","error":""}"#),
        Ok(HelperLine::Done(Ok(t))) if t == "hi"
    ));
    assert!(matches!(
        parse_helper_response(r#"{"type":"response","text":"hi","error":"boom"}"#),
        Ok(HelperLine::Done(Err(e))) if e == "本地推理生成失败: boom"
    ));
    assert!(matches!(parse_helper_response(" {\"type\":\"token\",\"text\":\"a\"}\n"), Ok(HelperLine::Token(t)) if t == "a"));
    assert!(matches!(
        parse_helper_response(r#"{"type":"error"}"#),
        Ok(HelperLine::Done(Err(e))) if e == "本地推理引擎错误: 未知错误"
    ));
    assert!(parse_helper_response(r#"{"type":"pong"}"#).is_err());
    let bad = parse_helper_response("not json").err().unwrap();
    assert!(bad.starts_with("本地推理引擎返回了无效数据: "));
    assert!(bad.len() > "本地推理引擎返回了无效数据: ".len());
    assert!(matches!(
        parse_helper_response(r#"{"type":"model-loading","model_path":"/models/hy-mt2.gguf","phase":"done","elapsed_ms":5}"#),
        Ok(HelperLine::ModelLoading { model, phase, elapsed_ms: Some(5), message: None }) if model == "hy-mt2" && phase == "done"
    ));
}

#[test]
fn speech_is_announced_just_before_the_first_update_with_text() {
    let mut counters = SessionCounters::new();
    let mut w = LiveWorker::new("sense-voice");
    assert_eq!(w.handle_transcript(&mut counters, 0, false, "   ".to_string(), false), None);
    assert!(!counters.speech_detected_emitted);
    assert_eq!(
        w.handle_transcript(&mut counters, 1, false, "ciao".to_string(), false),
        Some(("ciao".to_string(), false, true))
    );
    assert_eq!(
        w.handle_transcript(&mut counters, 2, false, "come stai".to_string(), false),
        Some(("come stai".to_string(), false, false))
    );
    reset_speech_detected_flag(&mut counters);
    assert_eq!(
        w.handle_transcript(&mut counters, 3, true, "di nuovo".to_string(), false),
        Some(("di nuovo".to_string(), true, true))
    );
}

#[test]
fn chunk_loss_is_reported_only_when_chunks_are_left() {
    let mut p = ChunkProgress::new();
    assert_eq!(p.chunk_queued(), 1);
    assert_eq!(p.chunk_queued(), 2);
    assert!(!p.worker_may_finish(true));
    assert_eq!(p.chunk_completed(), 1);
    assert_eq!(p.chunk_loss(), Some(1));
    assert!(!p.worker_may_finish(false));
    assert_eq!(p.chunk_completed(), 2);
    assert!(p.worker_may_finish(true));
    assert_eq!(p.chunk_loss(), None);
}

#[test]
fn every_pair_of_codes_parses_back_to_itself() {
    let codes = ["zh", "en", "ja", "ko", "fr", "de", "es", "ru", "pt", "it", "zh-Hant", "yue", "th", "vi"];
    for s in codes {
        for t in codes {
            let d = format!("{}-{}", s, t);
            assert_eq!(voxminutes::llm::parse_direction(&d), Some((s, t)));
        }
    }
    assert_eq!(voxminutes::llm::parse_direction("zh-Hant"), None);
    assert_eq!(voxminutes::llm::parse_direction("zh-xx"), None);
}

#[test]
fn helper_loop_turns_follow_the_request() {
    assert_eq!(idle_timeout_secs(None), 1800);
    assert_eq!(idle_timeout_secs(Some(60)), 60);
    let ping = r#"{"type":"ping"}"#;
    assert!(matches!(helper_turn(1801, 1800, Some(ping), Ok(HelperRequest::Ping)), HelperTurn::Goodbye));
    assert!(matches!(helper_turn(1800, 1800, Some(ping), Ok(HelperRequest::Ping)), HelperTurn::Pong));
    assert!(matches!(helper_turn(10, 1800, None, Err(String::new())), HelperTurn::Exit));
    assert!(matches!(helper_turn(10, 1800, Some("  \t "), Err("eof".to_string())), HelperTurn::Next));
    let shutdown = r#"{"type":"shutdown"}"#;
    assert!(matches!(helper_turn(0, 1800, Some(shutdown), Ok(HelperRequest::Shutdown)), HelperTurn::Goodbye));
    let generate = r#"{"type":"generate","prompt":"Hi","model_path":"/m/a.gguf"}"#;
    let request = HelperRequest::Generate { model_path: Some("/m/a.gguf".to_string()) };
    match helper_turn(0, 1800, Some(generate), Ok(request)) {
        HelperTurn::Generate { model_path } => assert_eq!(model_path.as_deref(), Some("/m/a.gguf")),
        _ => panic!("a generation request is run"),
    }
    match helper_turn(0, 1800, Some("nope"), Err("expected value at line 1 column 1".to_string())) {
        HelperTurn::Invalid { message } => {
            assert_eq!(message, "Invalid request: expected value at line 1 column 1")
        },
        _ => panic!("a line that is no request is answered with an error"),
    }
}

#[test]
fn helper_replies_name_the_failure() {
    assert_eq!(generation_reply(Ok("hi".to_string())), ("hi".to_string(), None));
    assert_eq!(
        generation_reply(Err("boom".to_string())),
        (String::new(), Some("Generation failed: boom".to_string()))
    );
    assert_eq!(load_failure_reply("no file"), (String::new(), Some("Failed to load model: no file".to_string())));
}

#[test]
fn a_transcription_run_numbers_updates_and_counts_chunks() {
    let mut counters = SessionCounters::new();
    counters.next_sequence = 40;
    let mut w = LiveWorker::new("sense-voice");
    let mut progress = ChunkProgress::new();
    let texts = ["", "buongiorno", "  ", "a tutti", "grazie"];
    let mut emitted: Vec<(u64, String, bool)> = Vec::new();
    let mut last_seq = None;
    for (chunk_id, text) in texts.iter().enumerate() {
        progress.chunk_queued();
        let (seq, partial) = w.chunk_sequence(chunk_id as u64, &mut counters);
        assert!(!partial);
        if let Some(prev) = last_seq {
            assert!(seq > prev);
        }
        last_seq = Some(seq);
        if let Some((t, _, announce)) = w.handle_transcript(&mut counters, seq, partial, text.to_string(), false) {
            assert!(!t.trim().is_empty());
            emitted.push((seq, t, announce));
        }
        progress.chunk_completed();
    }
    assert_eq!(
        emitted,
        vec![
            (41, "buongiorno".to_string(), true),
            (43, "a tutti".to_string(), false),
            (44, "grazie".to_string(), false),
        ]
    );
    assert_eq!(progress.chunk_loss(), None);
    assert!(progress.worker_may_finish(true));
}

#[test]
fn the_generation_loop_stops_at_the_end_token_a_stop_or_the_budget() {
    let stops = vec!["<|end|>".to_string()];
    let mut g = Generation::new();
    assert!(!g.at_limit(3));
    let r = g.on_sample(SamplerEvent::Token("Ciao".to_string()), 3, &stops, true);
    assert!(r.go_on);
    assert_eq!(r.streamed.as_deref(), Some("Ciao"));
    let r = g.on_sample(SamplerEvent::Token("".to_string()), 3, &stops, true);
    assert!(r.go_on);
    assert_eq!(r.streamed, None);
    let r = g.on_sample(SamplerEvent::Token(" a tutti".to_string()), 3, &stops, false);
    assert!(!r.go_on);
    assert_eq!(r.streamed, None);
    assert_eq!(g.output, "Ciao a tutti");
    assert_eq!(g.generated, 3);

    let mut g = Generation::new();
    let r = g.on_sample(SamplerEvent::Token("fine <|end|>".to_string()), 100, &stops, true);
    assert!(!r.go_on);
    assert_eq!(r.streamed.as_deref(), Some("fine <|end|>"));
    assert_eq!(g.output, "fine");
    let r = g.on_sample(SamplerEvent::EndOfGeneration, 100, &stops, true);
    assert!(!r.go_on);
    assert_eq!(g.output, "fine");
    assert_eq!(g.generated, 1);
}

#[test]
fn the_prompt_cache_offers_the_shared_prefix() {
    let mut cache = PromptCache::new();
    let prompt: Vec<i32> = (0..20).collect();
    assert_eq!(cache.reusable(&prompt), 0);
    cache.remember(prompt.clone());
    assert_eq!(cache.reusable(&prompt), 19);
    let mut longer = prompt.clone();
    longer.extend([50, 51]);
    assert_eq!(cache.reusable(&longer), 20);
    let short: Vec<i32> = (0..10).collect();
    cache.remember(short.clone());
    assert_eq!(cache.reusable(&longer), 0);
}

#[test]
fn the_last_position_logits_are_sliced_from_a_three_dimensional_output() {
    assert_eq!(last_logits_range(&vec![1, 3, 5], 15), Some((10, 15)));
    assert_eq!(last_logits_range(&vec![1, 1, 4], 4), Some((0, 4)));
    assert_eq!(last_logits_range(&vec![1, 0, 5], 0), None);
    assert_eq!(last_logits_range(&vec![3, 5], 15), None);
    assert_eq!(last_logits_range(&vec![1, 2, 3, 4], 24), None);
}
