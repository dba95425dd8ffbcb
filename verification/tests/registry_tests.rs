use voxminutes::bpe::{sanitize_bpe_merges, MergeRule};
use voxminutes::registry::{
    find_model, import_kind, opus_mt_files, registry, source_label_of, source_urls, ImportKind,
    ModelSource,
};
use voxminutes::translation::supported_target_langs;

#[test]
fn registry_sources_are_ordered_official_first() {
    for m in registry() {
        assert!(!m.sources.is_empty(), "model {} has no sources", m.id);
    }

    for id in ["sense-voice", "whisper-tiny", "x-asr-480ms"] {
        let m = find_model(id).unwrap();
        assert_eq!(m.sources.len(), 2);
        match &m.sources[0] {
            ModelSource::Archive { url } => assert!(url.contains("github.com")),
            _ => panic!("{} source 0 should be an archive", id),
        }
        match &m.sources[1] {
            ModelSource::Archive { url } => assert!(url.contains("gh-proxy.com")),
            _ => panic!("{} source 1 should be an archive", id),
        }
    }

    for id in ["opus-mt-zh-en", "opus-mt-en-zh"] {
        let m = find_model(id).unwrap();
        assert_eq!(m.sources.len(), 3);
        match &m.sources[2] {
            ModelSource::Files { base_url, resolve_path, .. } => {
                assert!(base_url.contains("modelscope.cn"));
                assert_eq!(*resolve_path, "resolve/master");
            }
            _ => panic!("{} source 2 should be files", id),
        }
    }

    let qwen = find_model("qwen2.5-3b-instruct-q4_k_m").unwrap();
    assert_eq!(qwen.sources.len(), 3);
    match &qwen.sources[2] {
        ModelSource::Files { base_url, resolve_path, .. } => {
            assert!(base_url.contains("modelscope.cn"));
            assert_eq!(*resolve_path, "resolve/master");
        }
        _ => panic!("qwen source 2 should be files"),
    }
}

#[test]
fn import_kind_is_inferred_from_registry() {
    assert_eq!(import_kind(&find_model("sense-voice").unwrap()), ImportKind::Archive);
    assert_eq!(import_kind(&find_model("whisper-tiny").unwrap()), ImportKind::Archive);
    assert_eq!(import_kind(&find_model("x-asr-480ms").unwrap()), ImportKind::Archive);
    assert_eq!(import_kind(&find_model("opus-mt-zh-en").unwrap()), ImportKind::Folder);
    assert_eq!(import_kind(&find_model("opus-mt-en-zh").unwrap()), ImportKind::Folder);
    for id in [
        "qwen2.5-3b-instruct-q4_k_m",
        "qwen3-4b-instruct-2507-q4_k_m",
        "gemma-3-4b-it-q4_k_m",
        "hy-mt2-1.8b-q4_k_m",
        "hy-mt2-1.8b-q6_k",
    ] {
        assert_eq!(import_kind(&find_model(id).unwrap()), ImportKind::GgufFile);
    }
}

#[test]
fn source_labels_and_urls_are_generated() {
    let m = find_model("sense-voice").unwrap();
    let labels: Vec<_> = m.sources.iter().map(source_label_of).collect();
    assert_eq!(labels, ["GitHub", "gh-proxy 镜像"]);
    for s in &m.sources {
        let urls = source_urls(s);
        assert_eq!(urls.len(), 1);
        assert!(urls[0].ends_with(".tar.bz2"));
    }

    let m = find_model("opus-mt-zh-en").unwrap();
    let labels: Vec<_> = m.sources.iter().map(source_label_of).collect();
    assert_eq!(labels, ["HuggingFace", "hf-mirror 镜像", "ModelScope"]);
    for (i, s) in m.sources.iter().enumerate() {
        let urls = source_urls(s);
        assert_eq!(urls.len(), opus_mt_files().len());
        let expect_resolve = if i < 2 { "resolve/main" } else { "resolve/master" };
        assert!(urls[0].contains(expect_resolve));
        assert!(urls[0].ends_with("onnx/encoder_model_int8.onnx"));
    }

    let m = find_model("hy-mt2-1.8b-q6_k").unwrap();
    let labels: Vec<_> = m.sources.iter().map(source_label_of).collect();
    assert_eq!(labels, ["HuggingFace", "hf-mirror 镜像"]);
    for s in &m.sources {
        let urls = source_urls(s);
        assert_eq!(urls.len(), 1);
        assert!(urls[0].ends_with("Hy-MT2-1.8B-Q6_K.gguf"));
    }
}

#[test]
fn download_source_index_out_of_range_message() {
    let m = find_model("sense-voice").unwrap();
    let i = m.sources.len();
    assert!(i >= m.sources.len());
}

#[test]
fn realtime_languages_cover_italian_chinese() {
    assert!(supported_target_langs().contains(&"it"));
    assert!(supported_target_langs().contains(&"zh"));
}

#[test]
fn invalid_bpe_merges_are_filtered_for_transformers_js_compatibility() {
    let vocab = vec!["a".to_string(), "b".to_string(), "ab".to_string()];
    let mut merges = vec![
        MergeRule::Pair("a".to_string(), "b".to_string()),
        MergeRule::Pair("8".to_string(), "a".to_string()),
        MergeRule::Pair("a".to_string(), "missing".to_string()),
    ];
    let (keep, removed) = sanitize_bpe_merges(&vocab, &merges);
    let mut flags = keep.into_iter();
    merges.retain(|_| flags.next().unwrap_or(false));
    assert_eq!(removed, 2);
    assert_eq!(merges.len(), 1);
}
