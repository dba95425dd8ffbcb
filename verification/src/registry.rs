//! The registry of downloadable models and the decisions around installing
//! them: where each model comes from, how its sources are shown, how a local
//! file is imported, and which download or import may run.
use vstd::prelude::*;

use crate::text::{
    chars_of, contains, ends_with, push_str, str_eq, string_of, vec_contains, vec_ends_with,
};

verus! {

// ── Registry ──────────────────────────────────────────────────────────────────

/// Number of models in the registry.
pub const MODEL_COUNT: usize = 14;

/// How a model's files are obtained from one source.
pub enum ModelSource {
    /// One `.tar.bz2` archive, extracted after download.
    Archive { url: &'static str },
    /// Separate files under `{base_url}/{resolve_path}/`, not extracted.
    Files { base_url: &'static str, resolve_path: &'static str, files: Vec<&'static str> },
}

/// A model that can be downloaded or imported.
pub struct DownloadableModel {
    pub id: &'static str,
    pub display_name: &'static str,
    pub dir_name: &'static str,
    pub sources: Vec<ModelSource>,
    pub size_bytes: u64,
    pub required_files: Vec<&'static str>,
}

/// The views of a list of string slices.
pub open spec fn strs_view(v: Seq<&'static str>) -> Seq<Seq<char>> {
    v.map_values(|s: &'static str| s@)
}

/// `s` is source `j` of registry row `i`.
pub open spec fn source_is(s: ModelSource, i: int, j: int) -> bool {
    match s {
        ModelSource::Archive { url } => source_archive(i, j) && url@ == source_url(i, j),
        ModelSource::Files { base_url, resolve_path, files } => !source_archive(i, j) && base_url@
            == source_url(i, j) && resolve_path@ == source_resolve(i, j) && strs_view(files@)
            == source_files(i, j),
    }
}

/// `m` is registry row `i`.
pub open spec fn model_is(m: DownloadableModel, i: int) -> bool {
    &&& m.id@ == model_id(i)
    &&& m.display_name@ == model_display(i)
    &&& m.dir_name@ == model_dir(i)
    &&& m.size_bytes == model_size(i)
    &&& strs_view(m.required_files@) == model_required(i)
    &&& m.sources@.len() == source_count(i)
    &&& forall|j: int| 0 <= j < m.sources@.len() ==> source_is(#[trigger] m.sources@[j], i, j)
}

/// Stable id of registry row `i`, used by the front end and the loader.
pub open spec fn model_id(i: int) -> Seq<char> {
    if i == 0 {
        "sense-voice"@
    } else if i == 1 {
        "whisper-tiny"@
    } else if i == 2 {
        "whisper-small"@
    } else if i == 3 {
        "whisper-medium"@
    } else if i == 4 {
        "x-asr-480ms"@
    } else if i == 5 {
        "opus-mt-zh-en"@
    } else if i == 6 {
        "opus-mt-en-zh"@
    } else if i == 7 {
        "opus-mt-it-en"@
    } else if i == 8 {
        "m2m100-418m-int8"@
    } else if i == 9 {
        "qwen2.5-3b-instruct-q4_k_m"@
    } else if i == 10 {
        "qwen3-4b-instruct-2507-q4_k_m"@
    } else if i == 11 {
        "gemma-3-4b-it-q4_k_m"@
    } else if i == 12 {
        "hy-mt2-1.8b-q4_k_m"@
    } else {
        "hy-mt2-1.8b-q6_k"@
    }
}

/// Display name of registry row `i`.
pub open spec fn model_display(i: int) -> Seq<char> {
    if i == 0 {
        "SenseVoice 多语言模型（中/英/日/韩/粤\u{FF09}"@
    } else if i == 1 {
        "Whisper Tiny Multilingual（含意大利语\u{FF09}"@
    } else if i == 2 {
        "Whisper Small INT8（默认·均衡·含意大利语\u{FF09}"@
    } else if i == 3 {
        "Whisper Medium INT8（高精度·意大利语会议\u{FF09}"@
    } else if i == 4 {
        "X-ASR 流式模型（中英，带标点，480ms\u{FF09}"@
    } else if i == 5 {
        "OPUS-MT 翻译模型（中 → 英\u{FF09}"@
    } else if i == 6 {
        "OPUS-MT 翻译模型（英 → 中\u{FF09}"@
    } else if i == 7 {
        "OPUS-MT 翻译模型（意大利语 → 英语，实时链路\u{FF09}"@
    } else if i == 8 {
        "M2M100 418M INT8（实验性·暂不用于实时会议\u{FF09}"@
    } else if i == 9 {
        "Qwen2.5-3B-Instruct（会议总结\u{FF09}"@
    } else if i == 10 {
        "Qwen3-4B-Instruct-2507（会议总结\u{FF09}"@
    } else if i == 11 {
        "Gemma-3-4B-it（会议总结\u{FF09}"@
    } else if i == 12 {
        "Hy-MT2-1.8B Q4_K_M（备用实时翻译\u{FF09}"@
    } else {
        "Hy-MT2-1.8B Q6_K（实时翻译 / 高质量\u{FF09}"@
    }
}

/// Directory of registry row `i` inside the models directory.
pub open spec fn model_dir(i: int) -> Seq<char> {
    if i == 0 {
        "sherpa-onnx-sense-voice-zh-en-ja-ko-yue-2024-07-17"@
    } else if i == 1 {
        "sherpa-onnx-whisper-tiny"@
    } else if i == 2 {
        "sherpa-onnx-whisper-small"@
    } else if i == 3 {
        "sherpa-onnx-whisper-medium"@
    } else if i == 4 {
        "sherpa-onnx-x-asr-480ms-streaming-zipformer-transducer-zh-en-punct-2026-06-05"@
    } else if i == 5 {
        "opus-mt-zh-en"@
    } else if i == 6 {
        "opus-mt-en-zh"@
    } else if i == 7 {
        "opus-mt-it-en"@
    } else if i == 8 {
        "m2m100-418m-int8"@
    } else if i == 9 {
        "qwen2.5-3b-instruct"@
    } else if i == 10 {
        "qwen3-4b-instruct-2507"@
    } else if i == 11 {
        "gemma-3-4b-it"@
    } else if i == 12 {
        "hy-mt2-1.8b"@
    } else {
        "hy-mt2-1.8b-q6k"@
    }
}

/// Approximate total size in bytes of registry row `i`.
pub open spec fn model_size(i: int) -> u64 {
    if i == 0 {
        896000000u64
    } else if i == 1 {
        260000000u64
    } else if i == 2 {
        376000000u64
    } else if i == 3 {
        946000000u64
    } else if i == 4 {
        584100000u64
    } else if i == 5 {
        120000000u64
    } else if i == 6 {
        120000000u64
    } else if i == 7 {
        145000000u64
    } else if i == 8 {
        640000000u64
    } else if i == 9 {
        2104932768u64
    } else if i == 10 {
        2497280736u64
    } else if i == 11 {
        2489758112u64
    } else if i == 12 {
        1133080448u64
    } else {
        1470000000u64
    }
}

/// Files that must exist after installing registry row `i`.
pub open spec fn model_required(i: int) -> Seq<Seq<char>> {
    if i == 0 {
        seq!["model.onnx"@, "tokens.txt"@]
    } else if i == 1 {
        seq!["tiny-encoder.int8.onnx"@, "tiny-decoder.int8.onnx"@, "tiny-tokens.txt"@]
    } else if i == 2 {
        seq!["small-encoder.int8.onnx"@, "small-decoder.int8.onnx"@, "small-tokens.txt"@]
    } else if i == 3 {
        seq!["medium-encoder.int8.onnx"@, "medium-decoder.int8.onnx"@, "medium-tokens.txt"@]
    } else if i == 4 {
        seq!["encoder.onnx"@, "decoder.onnx"@, "joiner.onnx"@, "tokens.txt"@]
    } else if i == 5 {
        seq!["encoder_model_int8.onnx"@, "decoder_model_merged_int8.onnx"@, "tokenizer.json"@]
    } else if i == 6 {
        seq!["encoder_model_int8.onnx"@, "decoder_model_merged_int8.onnx"@, "tokenizer.json"@]
    } else if i == 7 {
        seq!["encoder_model_int8.onnx"@, "decoder_model_merged_int8.onnx"@, "tokenizer.json"@]
    } else if i == 8 {
        seq!["encoder_model_quantized.onnx"@, "decoder_model_merged_quantized.onnx"@, "tokenizer.json"@]
    } else if i == 9 {
        seq!["qwen2.5-3b-instruct-q4_k_m.gguf"@]
    } else if i == 10 {
        seq!["Qwen_Qwen3-4B-Instruct-2507-Q4_K_M.gguf"@]
    } else if i == 11 {
        seq!["google_gemma-3-4b-it-Q4_K_M.gguf"@]
    } else if i == 12 {
        seq!["Hy-MT2-1.8B-Q4_K_M.gguf"@]
    } else {
        seq!["Hy-MT2-1.8B-Q6_K.gguf"@]
    }
}

/// Number of download sources of registry row `i`.
pub open spec fn source_count(i: int) -> nat {
    if i == 0 {
        2nat
    } else if i == 1 {
        2nat
    } else if i == 2 {
        2nat
    } else if i == 3 {
        2nat
    } else if i == 4 {
        2nat
    } else if i == 5 {
        3nat
    } else if i == 6 {
        3nat
    } else if i == 7 {
        2nat
    } else if i == 8 {
        2nat
    } else if i == 9 {
        3nat
    } else if i == 10 {
        2nat
    } else if i == 11 {
        2nat
    } else if i == 12 {
        2nat
    } else {
        2nat
    }
}

/// Whether source `j` of row `i` is a single archive.
pub open spec fn source_archive(i: int, j: int) -> bool {
    if i == 0 && j == 0 {
        true
    } else if i == 0 && j == 1 {
        true
    } else if i == 1 && j == 0 {
        true
    } else if i == 1 && j == 1 {
        true
    } else if i == 2 && j == 0 {
        false
    } else if i == 2 && j == 1 {
        false
    } else if i == 3 && j == 0 {
        false
    } else if i == 3 && j == 1 {
        false
    } else if i == 4 && j == 0 {
        true
    } else if i == 4 && j == 1 {
        true
    } else if i == 5 && j == 0 {
        false
    } else if i == 5 && j == 1 {
        false
    } else if i == 5 && j == 2 {
        false
    } else if i == 6 && j == 0 {
        false
    } else if i == 6 && j == 1 {
        false
    } else if i == 6 && j == 2 {
        false
    } else if i == 7 && j == 0 {
        false
    } else if i == 7 && j == 1 {
        false
    } else if i == 8 && j == 0 {
        false
    } else if i == 8 && j == 1 {
        false
    } else if i == 9 && j == 0 {
        false
    } else if i == 9 && j == 1 {
        false
    } else if i == 9 && j == 2 {
        false
    } else if i == 10 && j == 0 {
        false
    } else if i == 10 && j == 1 {
        false
    } else if i == 11 && j == 0 {
        false
    } else if i == 11 && j == 1 {
        false
    } else if i == 12 && j == 0 {
        false
    } else if i == 12 && j == 1 {
        false
    } else if i == 13 && j == 0 {
        false
    } else if i == 13 && j == 1 {
        false
    } else {
        false
    }
}

/// URL of the archive, or base URL of the files, of source `j` of row `i`.
pub open spec fn source_url(i: int, j: int) -> Seq<char> {
    if i == 0 && j == 0 {
        "https://github.com/k2-fsa/sherpa-onnx/releases/download/asr-models/sherpa-onnx-sense-voice-zh-en-ja-ko-yue-2024-07-17.tar.bz2"@
    } else if i == 0 && j == 1 {
        "https://gh-proxy.com/https://github.com/k2-fsa/sherpa-onnx/releases/download/asr-models/sherpa-onnx-sense-voice-zh-en-ja-ko-yue-2024-07-17.tar.bz2"@
    } else if i == 1 && j == 0 {
        "https://github.com/k2-fsa/sherpa-onnx/releases/download/asr-models/sherpa-onnx-whisper-tiny.tar.bz2"@
    } else if i == 1 && j == 1 {
        "https://gh-proxy.com/https://github.com/k2-fsa/sherpa-onnx/releases/download/asr-models/sherpa-onnx-whisper-tiny.tar.bz2"@
    } else if i == 2 && j == 0 {
        "https://huggingface.co/csukuangfj/sherpa-onnx-whisper-small"@
    } else if i == 2 && j == 1 {
        "https://hf-mirror.com/csukuangfj/sherpa-onnx-whisper-small"@
    } else if i == 3 && j == 0 {
        "https://huggingface.co/csukuangfj/sherpa-onnx-whisper-medium"@
    } else if i == 3 && j == 1 {
        "https://hf-mirror.com/csukuangfj/sherpa-onnx-whisper-medium"@
    } else if i == 4 && j == 0 {
        "https://github.com/k2-fsa/sherpa-onnx/releases/download/asr-models/sherpa-onnx-x-asr-480ms-streaming-zipformer-transducer-zh-en-punct-2026-06-05.tar.bz2"@
    } else if i == 4 && j == 1 {
        "https://gh-proxy.com/https://github.com/k2-fsa/sherpa-onnx/releases/download/asr-models/sherpa-onnx-x-asr-480ms-streaming-zipformer-transducer-zh-en-punct-2026-06-05.tar.bz2"@
    } else if i == 5 && j == 0 {
        "https://huggingface.co/Xenova/opus-mt-zh-en"@
    } else if i == 5 && j == 1 {
        "https://hf-mirror.com/Xenova/opus-mt-zh-en"@
    } else if i == 5 && j == 2 {
        "https://modelscope.cn/models/Xenova/opus-mt-zh-en"@
    } else if i == 6 && j == 0 {
        "https://huggingface.co/Xenova/opus-mt-en-zh"@
    } else if i == 6 && j == 1 {
        "https://hf-mirror.com/Xenova/opus-mt-en-zh"@
    } else if i == 6 && j == 2 {
        "https://modelscope.cn/models/Xenova/opus-mt-en-zh"@
    } else if i == 7 && j == 0 {
        "https://huggingface.co/Xenova/opus-mt-it-en"@
    } else if i == 7 && j == 1 {
        "https://hf-mirror.com/Xenova/opus-mt-it-en"@
    } else if i == 8 && j == 0 {
        "https://huggingface.co/Xenova/m2m100_418M"@
    } else if i == 8 && j == 1 {
        "https://hf-mirror.com/Xenova/m2m100_418M"@
    } else if i == 9 && j == 0 {
        "https://huggingface.co/Qwen/Qwen2.5-3B-Instruct-GGUF"@
    } else if i == 9 && j == 1 {
        "https://hf-mirror.com/Qwen/Qwen2.5-3B-Instruct-GGUF"@
    } else if i == 9 && j == 2 {
        "https://modelscope.cn/models/Qwen/Qwen2.5-3B-Instruct-GGUF"@
    } else if i == 10 && j == 0 {
        "https://huggingface.co/bartowski/Qwen_Qwen3-4B-Instruct-2507-GGUF"@
    } else if i == 10 && j == 1 {
        "https://hf-mirror.com/bartowski/Qwen_Qwen3-4B-Instruct-2507-GGUF"@
    } else if i == 11 && j == 0 {
        "https://huggingface.co/bartowski/google_gemma-3-4b-it-GGUF"@
    } else if i == 11 && j == 1 {
        "https://hf-mirror.com/bartowski/google_gemma-3-4b-it-GGUF"@
    } else if i == 12 && j == 0 {
        "https://huggingface.co/tencent/Hy-MT2-1.8B-GGUF"@
    } else if i == 12 && j == 1 {
        "https://hf-mirror.com/tencent/Hy-MT2-1.8B-GGUF"@
    } else if i == 13 && j == 0 {
        "https://huggingface.co/tencent/Hy-MT2-1.8B-GGUF"@
    } else if i == 13 && j == 1 {
        "https://hf-mirror.com/tencent/Hy-MT2-1.8B-GGUF"@
    } else {
        Seq::<char>::empty()
    }
}

/// Resolve path of a files source `j` of row `i`.
pub open spec fn source_resolve(i: int, j: int) -> Seq<char> {
    if i == 0 && j == 0 {
        Seq::<char>::empty()
    } else if i == 0 && j == 1 {
        Seq::<char>::empty()
    } else if i == 1 && j == 0 {
        Seq::<char>::empty()
    } else if i == 1 && j == 1 {
        Seq::<char>::empty()
    } else if i == 2 && j == 0 {
        "resolve/main"@
    } else if i == 2 && j == 1 {
        "resolve/main"@
    } else if i == 3 && j == 0 {
        "resolve/main"@
    } else if i == 3 && j == 1 {
        "resolve/main"@
    } else if i == 4 && j == 0 {
        Seq::<char>::empty()
    } else if i == 4 && j == 1 {
        Seq::<char>::empty()
    } else if i == 5 && j == 0 {
        "resolve/main"@
    } else if i == 5 && j == 1 {
        "resolve/main"@
    } else if i == 5 && j == 2 {
        "resolve/master"@
    } else if i == 6 && j == 0 {
        "resolve/main"@
    } else if i == 6 && j == 1 {
        "resolve/main"@
    } else if i == 6 && j == 2 {
        "resolve/master"@
    } else if i == 7 && j == 0 {
        "resolve/main"@
    } else if i == 7 && j == 1 {
        "resolve/main"@
    } else if i == 8 && j == 0 {
        "resolve/main"@
    } else if i == 8 && j == 1 {
        "resolve/main"@
    } else if i == 9 && j == 0 {
        "resolve/main"@
    } else if i == 9 && j == 1 {
        "resolve/main"@
    } else if i == 9 && j == 2 {
        "resolve/master"@
    } else if i == 10 && j == 0 {
        "resolve/main"@
    } else if i == 10 && j == 1 {
        "resolve/main"@
    } else if i == 11 && j == 0 {
        "resolve/main"@
    } else if i == 11 && j == 1 {
        "resolve/main"@
    } else if i == 12 && j == 0 {
        "resolve/main"@
    } else if i == 12 && j == 1 {
        "resolve/main"@
    } else if i == 13 && j == 0 {
        "resolve/main"@
    } else if i == 13 && j == 1 {
        "resolve/main"@
    } else {
        Seq::<char>::empty()
    }
}

/// Files of a files source `j` of row `i`.
pub open spec fn source_files(i: int, j: int) -> Seq<Seq<char>> {
    if i == 0 && j == 0 {
        Seq::<Seq<char>>::empty()
    } else if i == 0 && j == 1 {
        Seq::<Seq<char>>::empty()
    } else if i == 1 && j == 0 {
        Seq::<Seq<char>>::empty()
    } else if i == 1 && j == 1 {
        Seq::<Seq<char>>::empty()
    } else if i == 2 && j == 0 {
        seq!["small-encoder.int8.onnx"@, "small-decoder.int8.onnx"@, "small-tokens.txt"@]
    } else if i == 2 && j == 1 {
        seq!["small-encoder.int8.onnx"@, "small-decoder.int8.onnx"@, "small-tokens.txt"@]
    } else if i == 3 && j == 0 {
        seq!["medium-encoder.int8.onnx"@, "medium-decoder.int8.onnx"@, "medium-tokens.txt"@]
    } else if i == 3 && j == 1 {
        seq!["medium-encoder.int8.onnx"@, "medium-decoder.int8.onnx"@, "medium-tokens.txt"@]
    } else if i == 4 && j == 0 {
        Seq::<Seq<char>>::empty()
    } else if i == 4 && j == 1 {
        Seq::<Seq<char>>::empty()
    } else if i == 5 && j == 0 {
        seq!["onnx/encoder_model_int8.onnx"@, "onnx/decoder_model_merged_int8.onnx"@, "source.spm"@, "target.spm"@, "tokenizer.json"@, "generation_config.json"@]
    } else if i == 5 && j == 1 {
        seq!["onnx/encoder_model_int8.onnx"@, "onnx/decoder_model_merged_int8.onnx"@, "source.spm"@, "target.spm"@, "tokenizer.json"@, "generation_config.json"@]
    } else if i == 5 && j == 2 {
        seq!["onnx/encoder_model_int8.onnx"@, "onnx/decoder_model_merged_int8.onnx"@, "source.spm"@, "target.spm"@, "tokenizer.json"@, "generation_config.json"@]
    } else if i == 6 && j == 0 {
        seq!["onnx/encoder_model_int8.onnx"@, "onnx/decoder_model_merged_int8.onnx"@, "source.spm"@, "target.spm"@, "tokenizer.json"@, "generation_config.json"@]
    } else if i == 6 && j == 1 {
        seq!["onnx/encoder_model_int8.onnx"@, "onnx/decoder_model_merged_int8.onnx"@, "source.spm"@, "target.spm"@, "tokenizer.json"@, "generation_config.json"@]
    } else if i == 6 && j == 2 {
        seq!["onnx/encoder_model_int8.onnx"@, "onnx/decoder_model_merged_int8.onnx"@, "source.spm"@, "target.spm"@, "tokenizer.json"@, "generation_config.json"@]
    } else if i == 7 && j == 0 {
        seq!["onnx/encoder_model_int8.onnx"@, "onnx/decoder_model_merged_int8.onnx"@, "source.spm"@, "target.spm"@, "tokenizer.json"@, "generation_config.json"@]
    } else if i == 7 && j == 1 {
        seq!["onnx/encoder_model_int8.onnx"@, "onnx/decoder_model_merged_int8.onnx"@, "source.spm"@, "target.spm"@, "tokenizer.json"@, "generation_config.json"@]
    } else if i == 8 && j == 0 {
        seq!["onnx/encoder_model_quantized.onnx"@, "onnx/decoder_model_merged_quantized.onnx"@, "tokenizer.json"@]
    } else if i == 8 && j == 1 {
        seq!["onnx/encoder_model_quantized.onnx"@, "onnx/decoder_model_merged_quantized.onnx"@, "tokenizer.json"@]
    } else if i == 9 && j == 0 {
        seq!["qwen2.5-3b-instruct-q4_k_m.gguf"@]
    } else if i == 9 && j == 1 {
        seq!["qwen2.5-3b-instruct-q4_k_m.gguf"@]
    } else if i == 9 && j == 2 {
        seq!["qwen2.5-3b-instruct-q4_k_m.gguf"@]
    } else if i == 10 && j == 0 {
        seq!["Qwen_Qwen3-4B-Instruct-2507-Q4_K_M.gguf"@]
    } else if i == 10 && j == 1 {
        seq!["Qwen_Qwen3-4B-Instruct-2507-Q4_K_M.gguf"@]
    } else if i == 11 && j == 0 {
        seq!["google_gemma-3-4b-it-Q4_K_M.gguf"@]
    } else if i == 11 && j == 1 {
        seq!["google_gemma-3-4b-it-Q4_K_M.gguf"@]
    } else if i == 12 && j == 0 {
        seq!["Hy-MT2-1.8B-Q4_K_M.gguf"@]
    } else if i == 12 && j == 1 {
        seq!["Hy-MT2-1.8B-Q4_K_M.gguf"@]
    } else if i == 13 && j == 0 {
        seq!["Hy-MT2-1.8B-Q6_K.gguf"@]
    } else if i == 13 && j == 1 {
        seq!["Hy-MT2-1.8B-Q6_K.gguf"@]
    } else {
        Seq::<Seq<char>>::empty()
    }
}

fn model_0() -> (r: DownloadableModel)
    ensures
        model_is(r, 0),
{
    let mut sources: Vec<ModelSource> = Vec::new();
    sources.push(ModelSource::Archive { url: "https://github.com/k2-fsa/sherpa-onnx/releases/download/asr-models/sherpa-onnx-sense-voice-zh-en-ja-ko-yue-2024-07-17.tar.bz2" });
    sources.push(ModelSource::Archive { url: "https://gh-proxy.com/https://github.com/k2-fsa/sherpa-onnx/releases/download/asr-models/sherpa-onnx-sense-voice-zh-en-ja-ko-yue-2024-07-17.tar.bz2" });
    let mut required: Vec<&'static str> = Vec::new();
    required.push("model.onnx");
    required.push("tokens.txt");
    let r = DownloadableModel {
        id: "sense-voice",
        display_name: "SenseVoice 多语言模型（中/英/日/韩/粤\u{FF09}",
        dir_name: "sherpa-onnx-sense-voice-zh-en-ja-ko-yue-2024-07-17",
        sources,
        size_bytes: 896000000,
        required_files: required,
    };
    assert(strs_view(r.required_files@) =~= model_required(0));
    r
}

fn model_1() -> (r: DownloadableModel)
    ensures
        model_is(r, 1),
{
    let mut sources: Vec<ModelSource> = Vec::new();
    sources.push(ModelSource::Archive { url: "https://github.com/k2-fsa/sherpa-onnx/releases/download/asr-models/sherpa-onnx-whisper-tiny.tar.bz2" });
    sources.push(ModelSource::Archive { url: "https://gh-proxy.com/https://github.com/k2-fsa/sherpa-onnx/releases/download/asr-models/sherpa-onnx-whisper-tiny.tar.bz2" });
    let mut required: Vec<&'static str> = Vec::new();
    required.push("tiny-encoder.int8.onnx");
    required.push("tiny-decoder.int8.onnx");
    required.push("tiny-tokens.txt");
    let r = DownloadableModel {
        id: "whisper-tiny",
        display_name: "Whisper Tiny Multilingual（含意大利语\u{FF09}",
        dir_name: "sherpa-onnx-whisper-tiny",
        sources,
        size_bytes: 260000000,
        required_files: required,
    };
    assert(strs_view(r.required_files@) =~= model_required(1));
    r
}

fn model_2() -> (r: DownloadableModel)
    ensures
        model_is(r, 2),
{
    let mut sources: Vec<ModelSource> = Vec::new();
    let mut files: Vec<&'static str> = Vec::new();
    files.push("small-encoder.int8.onnx");
    files.push("small-decoder.int8.onnx");
    files.push("small-tokens.txt");
    sources.push(ModelSource::Files { base_url: "https://huggingface.co/csukuangfj/sherpa-onnx-whisper-small", resolve_path: "resolve/main", files });
    let mut files: Vec<&'static str> = Vec::new();
    files.push("small-encoder.int8.onnx");
    files.push("small-decoder.int8.onnx");
    files.push("small-tokens.txt");
    sources.push(ModelSource::Files { base_url: "https://hf-mirror.com/csukuangfj/sherpa-onnx-whisper-small", resolve_path: "resolve/main", files });
    let mut required: Vec<&'static str> = Vec::new();
    required.push("small-encoder.int8.onnx");
    required.push("small-decoder.int8.onnx");
    required.push("small-tokens.txt");
    let r = DownloadableModel {
        id: "whisper-small",
        display_name: "Whisper Small INT8（默认·均衡·含意大利语\u{FF09}",
        dir_name: "sherpa-onnx-whisper-small",
        sources,
        size_bytes: 376000000,
        required_files: required,
    };
    assert(strs_view(r.required_files@) =~= model_required(2));
    assert(source_is(r.sources@[0], 2, 0)) by {
        if let ModelSource::Files { files, .. } = r.sources@[0] {
            assert(strs_view(files@) =~= source_files(2, 0));
        }
    }
    assert(source_is(r.sources@[1], 2, 1)) by {
        if let ModelSource::Files { files, .. } = r.sources@[1] {
            assert(strs_view(files@) =~= source_files(2, 1));
        }
    }
    r
}

fn model_3() -> (r: DownloadableModel)
    ensures
        model_is(r, 3),
{
    let mut sources: Vec<ModelSource> = Vec::new();
    let mut files: Vec<&'static str> = Vec::new();
    files.push("medium-encoder.int8.onnx");
    files.push("medium-decoder.int8.onnx");
    files.push("medium-tokens.txt");
    sources.push(ModelSource::Files { base_url: "https://huggingface.co/csukuangfj/sherpa-onnx-whisper-medium", resolve_path: "resolve/main", files });
    let mut files: Vec<&'static str> = Vec::new();
    files.push("medium-encoder.int8.onnx");
    files.push("medium-decoder.int8.onnx");
    files.push("medium-tokens.txt");
    sources.push(ModelSource::Files { base_url: "https://hf-mirror.com/csukuangfj/sherpa-onnx-whisper-medium", resolve_path: "resolve/main", files });
    let mut required: Vec<&'static str> = Vec::new();
    required.push("medium-encoder.int8.onnx");
    required.push("medium-decoder.int8.onnx");
    required.push("medium-tokens.txt");
    let r = DownloadableModel {
        id: "whisper-medium",
        display_name: "Whisper Medium INT8（高精度·意大利语会议\u{FF09}",
        dir_name: "sherpa-onnx-whisper-medium",
        sources,
        size_bytes: 946000000,
        required_files: required,
    };
    assert(strs_view(r.required_files@) =~= model_required(3));
    assert(source_is(r.sources@[0], 3, 0)) by {
        if let ModelSource::Files { files, .. } = r.sources@[0] {
            assert(strs_view(files@) =~= source_files(3, 0));
        }
    }
    assert(source_is(r.sources@[1], 3, 1)) by {
        if let ModelSource::Files { files, .. } = r.sources@[1] {
            assert(strs_view(files@) =~= source_files(3, 1));
        }
    }
    r
}

fn model_4() -> (r: DownloadableModel)
    ensures
        model_is(r, 4),
{
    let mut sources: Vec<ModelSource> = Vec::new();
    sources.push(ModelSource::Archive { url: "https://github.com/k2-fsa/sherpa-onnx/releases/download/asr-models/sherpa-onnx-x-asr-480ms-streaming-zipformer-transducer-zh-en-punct-2026-06-05.tar.bz2" });
    sources.push(ModelSource::Archive { url: "https://gh-proxy.com/https://github.com/k2-fsa/sherpa-onnx/releases/download/asr-models/sherpa-onnx-x-asr-480ms-streaming-zipformer-transducer-zh-en-punct-2026-06-05.tar.bz2" });
    let mut required: Vec<&'static str> = Vec::new();
    required.push("encoder.onnx");
    required.push("decoder.onnx");
    required.push("joiner.onnx");
    required.push("tokens.txt");
    let r = DownloadableModel {
        id: "x-asr-480ms",
        display_name: "X-ASR 流式模型（中英，带标点，480ms\u{FF09}",
        dir_name: "sherpa-onnx-x-asr-480ms-streaming-zipformer-transducer-zh-en-punct-2026-06-05",
        sources,
        size_bytes: 584100000,
        required_files: required,
    };
    assert(strs_view(r.required_files@) =~= model_required(4));
    r
}

fn model_5() -> (r: DownloadableModel)
    ensures
        model_is(r, 5),
{
    let mut sources: Vec<ModelSource> = Vec::new();
    let mut files: Vec<&'static str> = Vec::new();
    files.push("onnx/encoder_model_int8.onnx");
    files.push("onnx/decoder_model_merged_int8.onnx");
    files.push("source.spm");
    files.push("target.spm");
    files.push("tokenizer.json");
    files.push("generation_config.json");
    sources.push(ModelSource::Files { base_url: "https://huggingface.co/Xenova/opus-mt-zh-en", resolve_path: "resolve/main", files });
    let mut files: Vec<&'static str> = Vec::new();
    files.push("onnx/encoder_model_int8.onnx");
    files.push("onnx/decoder_model_merged_int8.onnx");
    files.push("source.spm");
    files.push("target.spm");
    files.push("tokenizer.json");
    files.push("generation_config.json");
    sources.push(ModelSource::Files { base_url: "https://hf-mirror.com/Xenova/opus-mt-zh-en", resolve_path: "resolve/main", files });
    let mut files: Vec<&'static str> = Vec::new();
    files.push("onnx/encoder_model_int8.onnx");
    files.push("onnx/decoder_model_merged_int8.onnx");
    files.push("source.spm");
    files.push("target.spm");
    files.push("tokenizer.json");
    files.push("generation_config.json");
    sources.push(ModelSource::Files { base_url: "https://modelscope.cn/models/Xenova/opus-mt-zh-en", resolve_path: "resolve/master", files });
    let mut required: Vec<&'static str> = Vec::new();
    required.push("encoder_model_int8.onnx");
    required.push("decoder_model_merged_int8.onnx");
    required.push("tokenizer.json");
    let r = DownloadableModel {
        id: "opus-mt-zh-en",
        display_name: "OPUS-MT 翻译模型（中 → 英\u{FF09}",
        dir_name: "opus-mt-zh-en",
        sources,
        size_bytes: 120000000,
        required_files: required,
    };
    assert(strs_view(r.required_files@) =~= model_required(5));
    assert(source_is(r.sources@[0], 5, 0)) by {
        if let ModelSource::Files { files, .. } = r.sources@[0] {
            assert(strs_view(files@) =~= source_files(5, 0));
        }
    }
    assert(source_is(r.sources@[1], 5, 1)) by {
        if let ModelSource::Files { files, .. } = r.sources@[1] {
            assert(strs_view(files@) =~= source_files(5, 1));
        }
    }
    assert(source_is(r.sources@[2], 5, 2)) by {
        if let ModelSource::Files { files, .. } = r.sources@[2] {
            assert(strs_view(files@) =~= source_files(5, 2));
        }
    }
    r
}

fn model_6() -> (r: DownloadableModel)
    ensures
        model_is(r, 6),
{
    let mut sources: Vec<ModelSource> = Vec::new();
    let mut files: Vec<&'static str> = Vec::new();
    files.push("onnx/encoder_model_int8.onnx");
    files.push("onnx/decoder_model_merged_int8.onnx");
    files.push("source.spm");
    files.push("target.spm");
    files.push("tokenizer.json");
    files.push("generation_config.json");
    sources.push(ModelSource::Files { base_url: "https://huggingface.co/Xenova/opus-mt-en-zh", resolve_path: "resolve/main", files });
    let mut files: Vec<&'static str> = Vec::new();
    files.push("onnx/encoder_model_int8.onnx");
    files.push("onnx/decoder_model_merged_int8.onnx");
    files.push("source.spm");
    files.push("target.spm");
    files.push("tokenizer.json");
    files.push("generation_config.json");
    sources.push(ModelSource::Files { base_url: "https://hf-mirror.com/Xenova/opus-mt-en-zh", resolve_path: "resolve/main", files });
    let mut files: Vec<&'static str> = Vec::new();
    files.push("onnx/encoder_model_int8.onnx");
    files.push("onnx/decoder_model_merged_int8.onnx");
    files.push("source.spm");
    files.push("target.spm");
    files.push("tokenizer.json");
    files.push("generation_config.json");
    sources.push(ModelSource::Files { base_url: "https://modelscope.cn/models/Xenova/opus-mt-en-zh", resolve_path: "resolve/master", files });
    let mut required: Vec<&'static str> = Vec::new();
    required.push("encoder_model_int8.onnx");
    required.push("decoder_model_merged_int8.onnx");
    required.push("tokenizer.json");
    let r = DownloadableModel {
        id: "opus-mt-en-zh",
        display_name: "OPUS-MT 翻译模型（英 → 中\u{FF09}",
        dir_name: "opus-mt-en-zh",
        sources,
        size_bytes: 120000000,
        required_files: required,
    };
    assert(strs_view(r.required_files@) =~= model_required(6));
    assert(source_is(r.sources@[0], 6, 0)) by {
        if let ModelSource::Files { files, .. } = r.sources@[0] {
            assert(strs_view(files@) =~= source_files(6, 0));
        }
    }
    assert(source_is(r.sources@[1], 6, 1)) by {
        if let ModelSource::Files { files, .. } = r.sources@[1] {
            assert(strs_view(files@) =~= source_files(6, 1));
        }
    }
    assert(source_is(r.sources@[2], 6, 2)) by {
        if let ModelSource::Files { files, .. } = r.sources@[2] {
            assert(strs_view(files@) =~= source_files(6, 2));
        }
    }
    r
}

fn model_7() -> (r: DownloadableModel)
    ensures
        model_is(r, 7),
{
    let mut sources: Vec<ModelSource> = Vec::new();
    let mut files: Vec<&'static str> = Vec::new();
    files.push("onnx/encoder_model_int8.onnx");
    files.push("onnx/decoder_model_merged_int8.onnx");
    files.push("source.spm");
    files.push("target.spm");
    files.push("tokenizer.json");
    files.push("generation_config.json");
    sources.push(ModelSource::Files { base_url: "https://huggingface.co/Xenova/opus-mt-it-en", resolve_path: "resolve/main", files });
    let mut files: Vec<&'static str> = Vec::new();
    files.push("onnx/encoder_model_int8.onnx");
    files.push("onnx/decoder_model_merged_int8.onnx");
    files.push("source.spm");
    files.push("target.spm");
    files.push("tokenizer.json");
    files.push("generation_config.json");
    sources.push(ModelSource::Files { base_url: "https://hf-mirror.com/Xenova/opus-mt-it-en", resolve_path: "resolve/main", files });
    let mut required: Vec<&'static str> = Vec::new();
    required.push("encoder_model_int8.onnx");
    required.push("decoder_model_merged_int8.onnx");
    required.push("tokenizer.json");
    let r = DownloadableModel {
        id: "opus-mt-it-en",
        display_name: "OPUS-MT 翻译模型（意大利语 → 英语，实时链路\u{FF09}",
        dir_name: "opus-mt-it-en",
        sources,
        size_bytes: 145000000,
        required_files: required,
    };
    assert(strs_view(r.required_files@) =~= model_required(7));
    assert(source_is(r.sources@[0], 7, 0)) by {
        if let ModelSource::Files { files, .. } = r.sources@[0] {
            assert(strs_view(files@) =~= source_files(7, 0));
        }
    }
    assert(source_is(r.sources@[1], 7, 1)) by {
        if let ModelSource::Files { files, .. } = r.sources@[1] {
            assert(strs_view(files@) =~= source_files(7, 1));
        }
    }
    r
}

fn model_8() -> (r: DownloadableModel)
    ensures
        model_is(r, 8),
{
    let mut sources: Vec<ModelSource> = Vec::new();
    let mut files: Vec<&'static str> = Vec::new();
    files.push("onnx/encoder_model_quantized.onnx");
    files.push("onnx/decoder_model_merged_quantized.onnx");
    files.push("tokenizer.json");
    sources.push(ModelSource::Files { base_url: "https://huggingface.co/Xenova/m2m100_418M", resolve_path: "resolve/main", files });
    let mut files: Vec<&'static str> = Vec::new();
    files.push("onnx/encoder_model_quantized.onnx");
    files.push("onnx/decoder_model_merged_quantized.onnx");
    files.push("tokenizer.json");
    sources.push(ModelSource::Files { base_url: "https://hf-mirror.com/Xenova/m2m100_418M", resolve_path: "resolve/main", files });
    let mut required: Vec<&'static str> = Vec::new();
    required.push("encoder_model_quantized.onnx");
    required.push("decoder_model_merged_quantized.onnx");
    required.push("tokenizer.json");
    let r = DownloadableModel {
        id: "m2m100-418m-int8",
        display_name: "M2M100 418M INT8（实验性·暂不用于实时会议\u{FF09}",
        dir_name: "m2m100-418m-int8",
        sources,
        size_bytes: 640000000,
        required_files: required,
    };
    assert(strs_view(r.required_files@) =~= model_required(8));
    assert(source_is(r.sources@[0], 8, 0)) by {
        if let ModelSource::Files { files, .. } = r.sources@[0] {
            assert(strs_view(files@) =~= source_files(8, 0));
        }
    }
    assert(source_is(r.sources@[1], 8, 1)) by {
        if let ModelSource::Files { files, .. } = r.sources@[1] {
            assert(strs_view(files@) =~= source_files(8, 1));
        }
    }
    r
}

fn model_9() -> (r: DownloadableModel)
    ensures
        model_is(r, 9),
{
    let mut sources: Vec<ModelSource> = Vec::new();
    let mut files: Vec<&'static str> = Vec::new();
    files.push("qwen2.5-3b-instruct-q4_k_m.gguf");
    sources.push(ModelSource::Files { base_url: "https://huggingface.co/Qwen/Qwen2.5-3B-Instruct-GGUF", resolve_path: "resolve/main", files });
    let mut files: Vec<&'static str> = Vec::new();
    files.push("qwen2.5-3b-instruct-q4_k_m.gguf");
    sources.push(ModelSource::Files { base_url: "https://hf-mirror.com/Qwen/Qwen2.5-3B-Instruct-GGUF", resolve_path: "resolve/main", files });
    let mut files: Vec<&'static str> = Vec::new();
    files.push("qwen2.5-3b-instruct-q4_k_m.gguf");
    sources.push(ModelSource::Files { base_url: "https://modelscope.cn/models/Qwen/Qwen2.5-3B-Instruct-GGUF", resolve_path: "resolve/master", files });
    let mut required: Vec<&'static str> = Vec::new();
    required.push("qwen2.5-3b-instruct-q4_k_m.gguf");
    let r = DownloadableModel {
        id: "qwen2.5-3b-instruct-q4_k_m",
        display_name: "Qwen2.5-3B-Instruct（会议总结\u{FF09}",
        dir_name: "qwen2.5-3b-instruct",
        sources,
        size_bytes: 2104932768,
        required_files: required,
    };
    assert(strs_view(r.required_files@) =~= model_required(9));
    assert(source_is(r.sources@[0], 9, 0)) by {
        if let ModelSource::Files { files, .. } = r.sources@[0] {
            assert(strs_view(files@) =~= source_files(9, 0));
        }
    }
    assert(source_is(r.sources@[1], 9, 1)) by {
        if let ModelSource::Files { files, .. } = r.sources@[1] {
            assert(strs_view(files@) =~= source_files(9, 1));
        }
    }
    assert(source_is(r.sources@[2], 9, 2)) by {
        if let ModelSource::Files { files, .. } = r.sources@[2] {
            assert(strs_view(files@) =~= source_files(9, 2));
        }
    }
    r
}

fn model_10() -> (r: DownloadableModel)
    ensures
        model_is(r, 10),
{
    let mut sources: Vec<ModelSource> = Vec::new();
    let mut files: Vec<&'static str> = Vec::new();
    files.push("Qwen_Qwen3-4B-Instruct-2507-Q4_K_M.gguf");
    sources.push(ModelSource::Files { base_url: "https://huggingface.co/bartowski/Qwen_Qwen3-4B-Instruct-2507-GGUF", resolve_path: "resolve/main", files });
    let mut files: Vec<&'static str> = Vec::new();
    files.push("Qwen_Qwen3-4B-Instruct-2507-Q4_K_M.gguf");
    sources.push(ModelSource::Files { base_url: "https://hf-mirror.com/bartowski/Qwen_Qwen3-4B-Instruct-2507-GGUF", resolve_path: "resolve/main", files });
    let mut required: Vec<&'static str> = Vec::new();
    required.push("Qwen_Qwen3-4B-Instruct-2507-Q4_K_M.gguf");
    let r = DownloadableModel {
        id: "qwen3-4b-instruct-2507-q4_k_m",
        display_name: "Qwen3-4B-Instruct-2507（会议总结\u{FF09}",
        dir_name: "qwen3-4b-instruct-2507",
        sources,
        size_bytes: 2497280736,
        required_files: required,
    };
    assert(strs_view(r.required_files@) =~= model_required(10));
    assert(source_is(r.sources@[0], 10, 0)) by {
        if let ModelSource::Files { files, .. } = r.sources@[0] {
            assert(strs_view(files@) =~= source_files(10, 0));
        }
    }
    assert(source_is(r.sources@[1], 10, 1)) by {
        if let ModelSource::Files { files, .. } = r.sources@[1] {
            assert(strs_view(files@) =~= source_files(10, 1));
        }
    }
    r
}

fn model_11() -> (r: DownloadableModel)
    ensures
        model_is(r, 11),
{
    let mut sources: Vec<ModelSource> = Vec::new();
    let mut files: Vec<&'static str> = Vec::new();
    files.push("google_gemma-3-4b-it-Q4_K_M.gguf");
    sources.push(ModelSource::Files { base_url: "https://huggingface.co/bartowski/google_gemma-3-4b-it-GGUF", resolve_path: "resolve/main", files });
    let mut files: Vec<&'static str> = Vec::new();
    files.push("google_gemma-3-4b-it-Q4_K_M.gguf");
    sources.push(ModelSource::Files { base_url: "https://hf-mirror.com/bartowski/google_gemma-3-4b-it-GGUF", resolve_path: "resolve/main", files });
    let mut required: Vec<&'static str> = Vec::new();
    required.push("google_gemma-3-4b-it-Q4_K_M.gguf");
    let r = DownloadableModel {
        id: "gemma-3-4b-it-q4_k_m",
        display_name: "Gemma-3-4B-it（会议总结\u{FF09}",
        dir_name: "gemma-3-4b-it",
        sources,
        size_bytes: 2489758112,
        required_files: required,
    };
    assert(strs_view(r.required_files@) =~= model_required(11));
    assert(source_is(r.sources@[0], 11, 0)) by {
        if let ModelSource::Files { files, .. } = r.sources@[0] {
            assert(strs_view(files@) =~= source_files(11, 0));
        }
    }
    assert(source_is(r.sources@[1], 11, 1)) by {
        if let ModelSource::Files { files, .. } = r.sources@[1] {
            assert(strs_view(files@) =~= source_files(11, 1));
        }
    }
    r
}

fn model_12() -> (r: DownloadableModel)
    ensures
        model_is(r, 12),
{
    let mut sources: Vec<ModelSource> = Vec::new();
    let mut files: Vec<&'static str> = Vec::new();
    files.push("Hy-MT2-1.8B-Q4_K_M.gguf");
    sources.push(ModelSource::Files { base_url: "https://huggingface.co/tencent/Hy-MT2-1.8B-GGUF", resolve_path: "resolve/main", files });
    let mut files: Vec<&'static str> = Vec::new();
    files.push("Hy-MT2-1.8B-Q4_K_M.gguf");
    sources.push(ModelSource::Files { base_url: "https://hf-mirror.com/tencent/Hy-MT2-1.8B-GGUF", resolve_path: "resolve/main", files });
    let mut required: Vec<&'static str> = Vec::new();
    required.push("Hy-MT2-1.8B-Q4_K_M.gguf");
    let r = DownloadableModel {
        id: "hy-mt2-1.8b-q4_k_m",
        display_name: "Hy-MT2-1.8B Q4_K_M（备用实时翻译\u{FF09}",
        dir_name: "hy-mt2-1.8b",
        sources,
        size_bytes: 1133080448,
        required_files: required,
    };
    assert(strs_view(r.required_files@) =~= model_required(12));
    assert(source_is(r.sources@[0], 12, 0)) by {
        if let ModelSource::Files { files, .. } = r.sources@[0] {
            assert(strs_view(files@) =~= source_files(12, 0));
        }
    }
    assert(source_is(r.sources@[1], 12, 1)) by {
        if let ModelSource::Files { files, .. } = r.sources@[1] {
            assert(strs_view(files@) =~= source_files(12, 1));
        }
    }
    r
}

fn model_13() -> (r: DownloadableModel)
    ensures
        model_is(r, 13),
{
    let mut sources: Vec<ModelSource> = Vec::new();
    let mut files: Vec<&'static str> = Vec::new();
    files.push("Hy-MT2-1.8B-Q6_K.gguf");
    sources.push(ModelSource::Files { base_url: "https://huggingface.co/tencent/Hy-MT2-1.8B-GGUF", resolve_path: "resolve/main", files });
    let mut files: Vec<&'static str> = Vec::new();
    files.push("Hy-MT2-1.8B-Q6_K.gguf");
    sources.push(ModelSource::Files { base_url: "https://hf-mirror.com/tencent/Hy-MT2-1.8B-GGUF", resolve_path: "resolve/main", files });
    let mut required: Vec<&'static str> = Vec::new();
    required.push("Hy-MT2-1.8B-Q6_K.gguf");
    let r = DownloadableModel {
        id: "hy-mt2-1.8b-q6_k",
        display_name: "Hy-MT2-1.8B Q6_K（实时翻译 / 高质量\u{FF09}",
        dir_name: "hy-mt2-1.8b-q6k",
        sources,
        size_bytes: 1470000000,
        required_files: required,
    };
    assert(strs_view(r.required_files@) =~= model_required(13));
    assert(source_is(r.sources@[0], 13, 0)) by {
        if let ModelSource::Files { files, .. } = r.sources@[0] {
            assert(strs_view(files@) =~= source_files(13, 0));
        }
    }
    assert(source_is(r.sources@[1], 13, 1)) by {
        if let ModelSource::Files { files, .. } = r.sources@[1] {
            assert(strs_view(files@) =~= source_files(13, 1));
        }
    }
    r
}

/// Registry row `i`.
pub fn model_entry(i: usize) -> (r: DownloadableModel)
    requires
        i < MODEL_COUNT,
    ensures
        model_is(r, i as int),
{
    if i == 0 {
        model_0()
    } else if i == 1 {
        model_1()
    } else if i == 2 {
        model_2()
    } else if i == 3 {
        model_3()
    } else if i == 4 {
        model_4()
    } else if i == 5 {
        model_5()
    } else if i == 6 {
        model_6()
    } else if i == 7 {
        model_7()
    } else if i == 8 {
        model_8()
    } else if i == 9 {
        model_9()
    } else if i == 10 {
        model_10()
    } else if i == 11 {
        model_11()
    } else if i == 12 {
        model_12()
    } else {
        model_13()
    }
}
/// All registry rows, in order (official sources first within each row).
pub fn registry() -> (r: Vec<DownloadableModel>)
    ensures
        r@.len() == MODEL_COUNT,
        forall|i: int| 0 <= i < MODEL_COUNT ==> model_is(#[trigger] r@[i], i),
{
    let mut v: Vec<DownloadableModel> = Vec::new();
    let mut i: usize = 0;
    while i < MODEL_COUNT
        invariant
            i <= MODEL_COUNT,
            v@.len() == i,
            forall|k: int| 0 <= k < i ==> model_is(#[trigger] v@[k], k),
        decreases MODEL_COUNT - i,
    {
        v.push(model_entry(i));
        i += 1;
    }
    v
}

/// The first registry row with id `id`, looking from row `i` on.
pub open spec fn row_of_from(id: Seq<char>, i: int) -> Option<int>
    decreases MODEL_COUNT - i,
{
    if i < 0 || i >= MODEL_COUNT {
        None
    } else if model_id(i) == id {
        Some(i)
    } else {
        row_of_from(id, i + 1)
    }
}

/// The registry row with id `id`.
pub open spec fn row_of(id: Seq<char>) -> Option<int> {
    row_of_from(id, 0)
}

/// A row found by [`row_of_from`] is a row with that id.
pub proof fn lemma_row_of(id: Seq<char>, i: int)
    requires
        0 <= i,
    ensures
        match row_of_from(id, i) {
            Some(k) => i <= k < MODEL_COUNT && model_id(k) == id,
            None => forall|k: int| i <= k < MODEL_COUNT ==> model_id(k) != id,
        },
    decreases MODEL_COUNT - i,
{
    if i < MODEL_COUNT && model_id(i) != id {
        lemma_row_of(id, i + 1);
    }
}

fn find_row(id: &str) -> (r: Option<usize>)
    ensures
        match r {
            Some(k) => row_of(id@) == Some(k as int),
            None => row_of(id@) is None,
        },
{
    let mut i: usize = 0;
    while i < MODEL_COUNT
        invariant
            i <= MODEL_COUNT,
            row_of(id@) == row_of_from(id@, i as int),
        decreases MODEL_COUNT - i,
    {
        let m = model_entry(i);
        if str_eq(m.id, id) {
            return Some(i);
        }
        i += 1;
    }
    None
}

/// The registry entry with id `model_id`.
pub fn find_model(model_id: &str) -> (r: Option<DownloadableModel>)
    ensures
        match row_of(model_id@) {
            Some(k) => r matches Some(m) && model_is(m, k),
            None => r is None,
        },
{
    proof {
        lemma_row_of(model_id@, 0);
    }
    match find_row(model_id) {
        Some(k) => Some(model_entry(k)),
        None => None,
    }
}

/// Directory under the models directory of the model `model_id`.
pub fn summary_model_dir_name(model_id: &str) -> (r: Option<&'static str>)
    ensures
        match row_of(model_id@) {
            Some(k) => r matches Some(d) && d@ == model_dir(k),
            None => r is None,
        },
{
    match find_model(model_id) {
        Some(m) => Some(m.dir_name),
        None => None,
    }
}

/// Meeting-summary model ids in priority order.
pub open spec fn summary_ids() -> Seq<Seq<char>> {
    seq!["qwen2.5-3b-instruct-q4_k_m"@, "qwen3-4b-instruct-2507-q4_k_m"@, "gemma-3-4b-it-q4_k_m"@]
}

/// The meeting-summary model ids, in priority order (the first installed
/// one is the default).
pub fn summary_model_ids() -> (r: Vec<&'static str>)
    ensures
        strs_view(r@) == summary_ids(),
{
    let mut v: Vec<&'static str> = Vec::new();
    v.push("qwen2.5-3b-instruct-q4_k_m");
    v.push("qwen3-4b-instruct-2507-q4_k_m");
    v.push("gemma-3-4b-it-q4_k_m");
    assert(strs_view(v@) =~= summary_ids());
    v
}

/// Id of the realtime Hy-MT2 translation model.
pub const HY_MT2_MODEL_ID: &'static str = "hy-mt2-1.8b-q6_k";

/// Id of the lighter Hy-MT2 fallback model.
pub const HY_MT2_FALLBACK_MODEL_ID: &'static str = "hy-mt2-1.8b-q4_k_m";

/// Id of the M2M100 model.
pub const M2M100_MODEL_ID: &'static str = "m2m100-418m-int8";

/// The files of an OPUS-MT model source.
pub fn opus_mt_files() -> (r: Vec<&'static str>)
    ensures
        strs_view(r@) == source_files(5, 0),
{
    let mut v: Vec<&'static str> = Vec::new();
    v.push("onnx/encoder_model_int8.onnx");
    v.push("onnx/decoder_model_merged_int8.onnx");
    v.push("source.spm");
    v.push("target.spm");
    v.push("tokenizer.json");
    v.push("generation_config.json");
    assert(strs_view(v@) =~= source_files(5, 0));
    v
}

// ── Sources as shown to the user ──────────────────────────────────────────────

/// Name of the source a URL belongs to.
pub open spec fn label_of_url(url: Seq<char>) -> Seq<char> {
    if contains(url, "gh-proxy.com"@) {
        "gh-proxy 镜像"@
    } else if contains(url, "github.com"@) {
        "GitHub"@
    } else if contains(url, "hf-mirror.com"@) {
        "hf-mirror 镜像"@
    } else if contains(url, "huggingface.co"@) {
        "HuggingFace"@
    } else if contains(url, "modelscope.cn"@) {
        "ModelScope"@
    } else {
        "官方源"@
    }
}

/// The name of the source that `url` belongs to ([`label_of_url`]).
pub fn source_label(url: &str) -> (r: &'static str)
    ensures
        r@ == label_of_url(url@),
{
    let v = chars_of(url);
    if vec_contains(&v, "gh-proxy.com") {
        "gh-proxy 镜像"
    } else if vec_contains(&v, "github.com") {
        "GitHub"
    } else if vec_contains(&v, "hf-mirror.com") {
        "hf-mirror 镜像"
    } else if vec_contains(&v, "huggingface.co") {
        "HuggingFace"
    } else if vec_contains(&v, "modelscope.cn") {
        "ModelScope"
    } else {
        "官方源"
    }
}

/// The URL a source is named by: the archive's, or the files' base URL.
pub open spec fn main_url(s: ModelSource) -> Seq<char> {
    match s {
        ModelSource::Archive { url } => url@,
        ModelSource::Files { base_url, .. } => base_url@,
    }
}

/// The name of a source ([`label_of_url`] of its [`main_url`]).
pub fn source_label_of(source: &ModelSource) -> (r: &'static str)
    ensures
        r@ == label_of_url(main_url(*source)),
{
    match source {
        ModelSource::Archive { url } => source_label(url),
        ModelSource::Files { base_url, .. } => source_label(base_url),
    }
}

/// `s` without its trailing `/` characters.
pub open spec fn trim_slashes(s: Seq<char>) -> Seq<char>
    decreases s.len(),
{
    if s.len() > 0 && s.last() == '/' {
        trim_slashes(s.drop_last())
    } else {
        s
    }
}

/// URL of `file` in a files source: the base URL without trailing slashes,
/// the resolve path and the file, joined with `/`.
pub open spec fn file_url_spec(base: Seq<char>, resolve: Seq<char>, file: Seq<char>) -> Seq<char> {
    trim_slashes(base) + "/"@ + resolve + "/"@ + file
}

/// URL of `file` in a files source ([`file_url_spec`]).
pub fn file_url(base_url: &str, resolve_path: &str, file: &str) -> (r: String)
    ensures
        r@ == file_url_spec(base_url@, resolve_path@, file@),
{
    let v = chars_of(base_url);
    let mut end = v.len();
    assert(v@.take(v@.len() as int) == v@);
    while end > 0 && v[end - 1] == '/'
        invariant
            end <= v@.len(),
            trim_slashes(v@) == trim_slashes(v@.take(end as int)),
        decreases end,
    {
        assert(v@.take(end as int).drop_last() == v@.take(end - 1));
        end -= 1;
    }
    assert(v@.take(v@.len() as int) == v@);
    assert(trim_slashes(v@.take(end as int)) == v@.take(end as int));
    let mut out = crate::text::slice_of(&v, 0, end);
    assert(out@ == v@.take(end as int));
    push_str(&mut out, "/");
    push_str(&mut out, resolve_path);
    push_str(&mut out, "/");
    push_str(&mut out, file);
    string_of(&out)
}

/// The direct links of a source: the archive's URL, or one URL per file.
pub open spec fn urls_of(s: ModelSource) -> Seq<Seq<char>> {
    match s {
        ModelSource::Archive { url } => seq![url@],
        ModelSource::Files { base_url, resolve_path, files } => Seq::new(
            files@.len(),
            |k: int| file_url_spec(base_url@, resolve_path@, files@[k]@),
        ),
    }
}

/// The direct links of a source ([`urls_of`]), built as the download does.
pub fn source_urls(source: &ModelSource) -> (r: Vec<String>)
    ensures
        r@.map_values(|u: String| u@) == urls_of(*source),
{
    match source {
        ModelSource::Archive { url } => {
            let v = chars_of(url);
            let mut out: Vec<String> = Vec::new();
            out.push(string_of(&v));
            assert(out@.map_values(|u: String| u@) =~= urls_of(*source));
            out
        },
        ModelSource::Files { base_url, resolve_path, files } => {
            let mut out: Vec<String> = Vec::new();
            let mut k: usize = 0;
            while k < files.len()
                invariant
                    k <= files@.len(),
                    out@.len() == k,
                    forall|j: int| 0 <= j < k ==> (#[trigger] out@[j])@ == file_url_spec(
                        base_url@,
                        resolve_path@,
                        files@[j]@,
                    ),
                decreases files@.len() - k,
            {
                out.push(file_url(base_url, resolve_path, files[k]));
                k += 1;
            }
            assert(out@.map_values(|u: String| u@) =~= urls_of(*source));
            out
        },
    }
}

/// A source as listed in the model manager: its name and direct links.
pub struct ModelSourceInfo {
    pub label: String,
    pub urls: Vec<String>,
}

/// A model as listed in the model manager.
pub struct ModelDownloadInfo {
    pub id: String,
    pub display_name: String,
    pub installed: bool,
    pub downloading: bool,
    pub size_bytes: u64,
    pub sources: Vec<ModelSourceInfo>,
}

/// A meeting-summary model and whether it is installed.
pub struct LocalSummaryModel {
    pub id: String,
    pub display_name: String,
    pub installed: bool,
}

/// Outcome of an import: `done` or `cancelled` (failures are errors).
pub struct ModelImportResult {
    pub status: String,
    pub message: Option<String>,
}

fn owned(s: &str) -> (r: String)
    ensures
        r@ == s@,
{
    let v = chars_of(s);
    string_of(&v)
}

/// `info` describes source `s`.
pub open spec fn source_info_is(info: ModelSourceInfo, s: ModelSource) -> bool {
    info.label@ == label_of_url(main_url(s)) && info.urls@.map_values(|u: String| u@) == urls_of(s)
}

/// `r` is the model manager's entry for registry row `i`: its id, name,
/// size and sources, with the given install and task states.
pub open spec fn download_info_is(r: ModelDownloadInfo, i: int, installed: bool, downloading: bool) -> bool {
    &&& r.id@ == model_id(i)
    &&& r.display_name@ == model_display(i)
    &&& r.installed == installed
    &&& r.downloading == downloading
    &&& r.size_bytes == model_size(i)
    &&& r.sources@.len() == source_count(i)
    &&& forall|j: int| 0 <= j < r.sources@.len() ==> source_info_is(
        #[trigger] r.sources@[j],
        model_entry_spec_source(i, j),
    )
}

/// The entry of the model manager for registry row `i`; whether the model
/// is installed and whether a task runs for it are given.
pub fn download_info(i: usize, installed: bool, downloading: bool) -> (r: ModelDownloadInfo)
    requires
        i < MODEL_COUNT,
    ensures
        download_info_is(r, i as int, installed, downloading),
{
    let m = model_entry(i);
    let mut infos: Vec<ModelSourceInfo> = Vec::new();
    let mut j: usize = 0;
    while j < m.sources.len()
        invariant
            model_is(m, i as int),
            j <= m.sources@.len(),
            infos@.len() == j,
            forall|k: int| 0 <= k < j ==> source_info_is(#[trigger] infos@[k], m.sources@[k]),
        decreases m.sources@.len() - j,
    {
        let s = &m.sources[j];
        infos.push(ModelSourceInfo { label: owned(source_label_of(s)), urls: source_urls(s) });
        j += 1;
    }
    proof {
        assert forall|k: int| 0 <= k < infos@.len() implies source_info_is(
            #[trigger] infos@[k],
            model_entry_spec_source(i as int, k),
        ) by {
            lemma_source_determined(m.sources@[k], i as int, k);
        }
    }
    ModelDownloadInfo {
        id: owned(m.id),
        display_name: owned(m.display_name),
        installed,
        downloading,
        size_bytes: m.size_bytes,
        sources: infos,
    }
}

/// The name and links of source `j` of row `i`, in terms of the registry's
/// spec functions.
pub open spec fn model_entry_spec_source(i: int, j: int) -> ModelSource {
    choose|s: ModelSource| source_is(s, i, j)
}

/// Whatever source value is source `j` of row `i`, its name and links are
/// those of the registry.
pub proof fn lemma_source_determined(s: ModelSource, i: int, j: int)
    requires
        source_is(s, i, j),
    ensures
        main_url(s) == main_url(model_entry_spec_source(i, j)),
        urls_of(s) == urls_of(model_entry_spec_source(i, j)),
{
    let t = model_entry_spec_source(i, j);
    assert(source_is(t, i, j));
    match (s, t) {
        (ModelSource::Files { files: f1, .. }, ModelSource::Files { files: f2, .. }) => {
            assert(strs_view(f1@) == strs_view(f2@));
            assert(f1@.len() == f2@.len()) by {
                assert(strs_view(f1@).len() == f1@.len());
                assert(strs_view(f2@).len() == f2@.len());
            }
            assert forall|k: int| 0 <= k < f1@.len() implies f1@[k]@ == f2@[k]@ by {
                assert(strs_view(f1@)[k] == f1@[k]@);
                assert(strs_view(f2@)[k] == f2@[k]@);
            }
            assert(urls_of(s) =~= urls_of(t));
        },
        _ => {},
    }
}

/// Registry row `row` is the first with its id.
proof fn lemma_first_row(row: int)
    requires
        0 <= row < MODEL_COUNT,
        forall|k: int| 0 <= k < row ==> #[trigger] model_id(k) != model_id(row),
    ensures
        row_of(model_id(row)) == Some(row),
{
    lemma_row_of(model_id(row), 0);
    lemma_row_from_skips(model_id(row), 0, row);
}

proof fn lemma_row_from_skips(id: Seq<char>, i: int, row: int)
    requires
        0 <= i <= row < MODEL_COUNT,
        model_id(row) == id,
        forall|k: int| i <= k < row ==> #[trigger] model_id(k) != id,
    ensures
        row_of_from(id, i) == Some(row),
    decreases row - i,
{
    if i < row {
        lemma_row_from_skips(id, i + 1, row);
    }
}

/// The summary models are registry rows 9, 10 and 11.
pub proof fn lemma_summary_rows()
    ensures
        row_of(summary_ids()[0]) == Some(9int),
        row_of(summary_ids()[1]) == Some(10int),
        row_of(summary_ids()[2]) == Some(11int),
{
    reveal_strlit("sense-voice");
    reveal_strlit("whisper-tiny");
    reveal_strlit("whisper-small");
    reveal_strlit("whisper-medium");
    reveal_strlit("x-asr-480ms");
    reveal_strlit("opus-mt-zh-en");
    reveal_strlit("opus-mt-en-zh");
    reveal_strlit("opus-mt-it-en");
    reveal_strlit("m2m100-418m-int8");
    reveal_strlit("qwen2.5-3b-instruct-q4_k_m");
    reveal_strlit("qwen3-4b-instruct-2507-q4_k_m");
    reveal_strlit("gemma-3-4b-it-q4_k_m");
    assert forall|k: int| 0 <= k < 9 implies #[trigger] model_id(k) != model_id(9) by {
        if model_id(k) == model_id(9) {
            assert(model_id(k).len() == model_id(9).len());
            assert(model_id(k)[0] == model_id(9)[0]);
            assert(model_id(k)[1] == model_id(9)[1]);
            assert(model_id(k)[4] == model_id(9)[4]);
        }
    }
    lemma_first_row(9);
    assert forall|k: int| 0 <= k < 10 implies #[trigger] model_id(k) != model_id(10) by {
        if model_id(k) == model_id(10) {
            assert(model_id(k).len() == model_id(10).len());
            assert(model_id(k)[0] == model_id(10)[0]);
            assert(model_id(k)[1] == model_id(10)[1]);
            assert(model_id(k)[4] == model_id(10)[4]);
        }
    }
    lemma_first_row(10);
    assert forall|k: int| 0 <= k < 11 implies #[trigger] model_id(k) != model_id(11) by {
        if model_id(k) == model_id(11) {
            assert(model_id(k).len() == model_id(11).len());
            assert(model_id(k)[0] == model_id(11)[0]);
            assert(model_id(k)[1] == model_id(11)[1]);
            assert(model_id(k)[4] == model_id(11)[4]);
        }
    }
    lemma_first_row(11);
}

/// `e` is the entry of the `k`-th summary model, installed or not.
pub open spec fn summary_entry_is(e: LocalSummaryModel, k: int, installed: bool) -> bool {
    &&& e.id@ == summary_ids()[k]
    &&& e.installed == installed
    &&& match row_of(summary_ids()[k]) {
        Some(row) => e.display_name@ == model_display(row),
        None => false,
    }
}

/// The entries of the summary models in priority order; `installed[k]`
/// says whether the `k`-th summary model is installed.
pub fn summary_local_models(installed: &Vec<bool>) -> (r: Vec<LocalSummaryModel>)
    requires
        installed@.len() == 3,
    ensures
        r@.len() == 3,
        forall|k: int| 0 <= k < 3 ==> summary_entry_is(#[trigger] r@[k], k, installed@[k]),
{
    let ids = summary_model_ids();
    assert(strs_view(ids@).len() == ids@.len());
    let mut out: Vec<LocalSummaryModel> = Vec::new();
    let mut k: usize = 0;
    proof {
        lemma_summary_rows();
    }
    while k < 3
        invariant
            strs_view(ids@) == summary_ids(),
            ids@.len() == 3,
            installed@.len() == 3,
            k <= 3,
            out@.len() == k,
            forall|j: int| 0 <= j < 3 ==> row_of(#[trigger] summary_ids()[j]) is Some,
            forall|j: int| 0 <= j < k ==> summary_entry_is(#[trigger] out@[j], j, installed@[j]),
        decreases 3 - k,
    {
        assert(strs_view(ids@)[k as int] == ids@[k as int]@);
        assert(row_of(summary_ids()[k as int]) is Some);
        proof {
            lemma_row_of(summary_ids()[k as int], 0);
        }
        let m = find_model(ids[k]).unwrap();
        let e = LocalSummaryModel {
            id: owned(m.id),
            display_name: owned(m.display_name),
            installed: installed[k],
        };
        assert(summary_entry_is(e, k as int, installed@[k as int]));
        out.push(e);
        k += 1;
    }
    out
}

// ── Importing ─────────────────────────────────────────────────────────────────

/// How a model is installed from local files.
#[derive(PartialEq, Eq, Structural, Clone, Copy, Debug)]
pub enum ImportKind {
    /// An archive (`.tar.bz2`, `.tar.gz`, `.zip`) to extract.
    Archive,
    /// One `.gguf` file.
    GgufFile,
    /// A prepared folder with the required files.
    Folder,
}

/// All the files of a list end in `.gguf`, and there is at least one.
pub open spec fn all_gguf(files: Seq<Seq<char>>) -> bool {
    files.len() > 0 && forall|k: int| 0 <= k < files.len() ==> ends_with(#[trigger] files[k], ".gguf"@)
}

/// Import kind of a model from its first source: an archive source means an
/// archive; a files source of GGUF files only means one GGUF file; anything
/// else a folder.
pub open spec fn import_kind_of(first: Option<ModelSource>) -> ImportKind {
    match first {
        Some(ModelSource::Archive { .. }) => ImportKind::Archive,
        Some(ModelSource::Files { files, .. }) => if all_gguf(strs_view(files@)) {
            ImportKind::GgufFile
        } else {
            ImportKind::Folder
        },
        None => ImportKind::Folder,
    }
}

fn all_gguf_files(files: &Vec<&'static str>) -> (r: bool)
    ensures
        r == all_gguf(strs_view(files@)),
{
    if files.len() == 0 {
        assert(strs_view(files@).len() == 0);
        return false;
    }
    let mut k: usize = 0;
    while k < files.len()
        invariant
            k <= files@.len(),
            strs_view(files@).len() == files@.len(),
            forall|j: int| 0 <= j < k ==> ends_with(#[trigger] strs_view(files@)[j], ".gguf"@),
        decreases files@.len() - k,
    {
        let fv = chars_of(files[k]);
        assert(strs_view(files@)[k as int] == files@[k as int]@);
        if !vec_ends_with(&fv, ".gguf") {
            return false;
        }
        k += 1;
    }
    true
}

/// How the model is imported from local files ([`import_kind_of`] of its
/// first source).
pub fn import_kind(model: &DownloadableModel) -> (r: ImportKind)
    ensures
        r == import_kind_of(if model.sources@.len() > 0 {
            Some(model.sources@[0])
        } else {
            None
        }),
{
    if model.sources.len() == 0 {
        return ImportKind::Folder;
    }
    match &model.sources[0] {
        ModelSource::Archive { .. } => ImportKind::Archive,
        ModelSource::Files { files, .. } => {
            if all_gguf_files(files) {
                ImportKind::GgufFile
            } else {
                ImportKind::Folder
            }
        },
    }
}

/// Archive format of an imported file.
#[derive(PartialEq, Eq, Structural, Clone, Copy, Debug)]
pub enum ArchiveKind {
    TarBz2,
    TarGz,
    Zip,
}

/// Error for an archive of another format.
pub const UNSUPPORTED_ARCHIVE: &'static str = "不支持的压缩包格式（支持 .tar.bz2 / .tar.gz / .zip）";

/// The archive format of a lowercased file name, by its ending.
pub fn archive_kind(lower_name: &str) -> (r: Result<ArchiveKind, String>)
    ensures
        ends_with(lower_name@, ".tar.bz2"@) ==> r == Ok::<ArchiveKind, String>(ArchiveKind::TarBz2),
        !ends_with(lower_name@, ".tar.bz2"@) && (ends_with(lower_name@, ".tar.gz"@) || ends_with(
            lower_name@,
            ".tgz"@,
        )) ==> r == Ok::<ArchiveKind, String>(ArchiveKind::TarGz),
        !ends_with(lower_name@, ".tar.bz2"@) && !ends_with(lower_name@, ".tar.gz"@) && !ends_with(
            lower_name@,
            ".tgz"@,
        ) && ends_with(lower_name@, ".zip"@) ==> r == Ok::<ArchiveKind, String>(ArchiveKind::Zip),
        !ends_with(lower_name@, ".tar.bz2"@) && !ends_with(lower_name@, ".tar.gz"@) && !ends_with(
            lower_name@,
            ".tgz"@,
        ) && !ends_with(lower_name@, ".zip"@) ==> (r matches Err(e) && e@ == UNSUPPORTED_ARCHIVE@),
{
    let v = chars_of(lower_name);
    if vec_ends_with(&v, ".tar.bz2") {
        Ok(ArchiveKind::TarBz2)
    } else if vec_ends_with(&v, ".tar.gz") || vec_ends_with(&v, ".tgz") {
        Ok(ArchiveKind::TarGz)
    } else if vec_ends_with(&v, ".zip") {
        Ok(ArchiveKind::Zip)
    } else {
        Err(owned(UNSUPPORTED_ARCHIVE))
    }
}

/// Error for a file shorter than the GGUF magic.
pub const GGUF_TOO_SMALL: &'static str = "文件太小，不是有效的 GGUF 模型";

/// Error for a file that does not start with the GGUF magic.
pub const GGUF_BAD_MAGIC: &'static str = "所选文件不是有效的 GGUF 模型（magic 校验失败）";

/// Checks the first bytes of a file (at most four are looked at) for the
/// GGUF magic `GGUF`.
pub fn check_gguf_magic(head: &[u8]) -> (r: Result<(), String>)
    ensures
        head@.len() < 4 ==> (r matches Err(e) && e@ == GGUF_TOO_SMALL@),
        head@.len() >= 4 && head@.take(4) == seq![71u8, 71u8, 85u8, 70u8] ==> r is Ok,
        head@.len() >= 4 && head@.take(4) != seq![71u8, 71u8, 85u8, 70u8] ==> (r matches Err(e) && e@
            == GGUF_BAD_MAGIC@),
{
    if head.len() < 4 {
        return Err(owned(GGUF_TOO_SMALL));
    }
    if head[0] == 71u8 && head[1] == 71u8 && head[2] == 85u8 && head[3] == 70u8 {
        assert(head@.take(4) =~= seq![71u8, 71u8, 85u8, 70u8]);
        Ok(())
    } else {
        assert(head@.take(4)[0] == head@[0]);
        assert(head@.take(4)[1] == head@[1]);
        assert(head@.take(4)[2] == head@[2]);
        assert(head@.take(4)[3] == head@[3]);
        Err(owned(GGUF_BAD_MAGIC))
    }
}

/// Name under which a downloaded file is stored: the part after its last
/// `/`.
pub open spec fn local_name_spec(file: Seq<char>) -> Seq<char>
    decreases file.len(),
{
    if file.len() == 0 {
        file
    } else if file.last() == '/' {
        seq![]
    } else {
        local_name_spec(file.drop_last()).push(file.last())
    }
}

/// Name under which a downloaded file is stored ([`local_name_spec`]).
pub fn local_file_name(file: &str) -> (r: String)
    ensures
        r@ == local_name_spec(file@),
{
    let v = chars_of(file);
    let n = v.len();
    let mut start = n;
    assert(v@.take(n as int) == v@);
    assert(v@.skip(n as int) == Seq::<char>::empty());
    assert(local_name_spec(v@) + Seq::<char>::empty() == local_name_spec(v@));
    while start > 0 && v[start - 1] != '/'
        invariant
            start <= n == v@.len(),
            local_name_spec(v@) == local_name_spec(v@.take(start as int)) + v@.skip(start as int),
        decreases start,
    {
        let ghost t = v@.take(start as int);
        assert(t.drop_last() == v@.take(start - 1));
        assert(seq![v@[start - 1]] + v@.skip(start as int) == v@.skip(start - 1));
        assert(local_name_spec(t) == local_name_spec(t.drop_last()).push(t.last()));
        assert(local_name_spec(t.drop_last()).push(t.last()) + v@.skip(start as int)
            == local_name_spec(t.drop_last()) + v@.skip(start - 1));
        start -= 1;
    }
    proof {
        assert(v@.take(n as int) == v@);
        assert(v@.skip(n as int) == Seq::<char>::empty());
        if start > 0 {
            assert(local_name_spec(v@.take(start as int)) == Seq::<char>::empty());
        } else {
            assert(v@.take(0) == Seq::<char>::empty());
        }
    }
    let out = crate::text::slice_of(&v, start, n);
    assert(out@ == v@.skip(start as int));
    string_of(&out)
}

// ── Download requests and outcomes ────────────────────────────────────────────

/// Error for an unknown model id.
pub open spec fn unknown_model_error(id: Seq<char>) -> Seq<char> {
    "Unknown model: "@ + id
}

/// Error for a source number past the model's sources.
pub open spec fn bad_source_error(i: nat, n: nat) -> Seq<char> {
    "无效的下载源序号 "@ + crate::text::decimal(i) + "（共 "@ + crate::text::decimal(n) + " 个源\u{FF09}"@
}

/// The registry entry with id `model_id`, or the error that names the id.
pub fn known_model(model_id: &str) -> (r: Result<DownloadableModel, String>)
    ensures
        match row_of(model_id@) {
            None => r matches Err(e) && e@ == unknown_model_error(model_id@),
            Some(k) => r matches Ok(m) && model_is(m, k),
        },
{
    match find_model(model_id) {
        Some(m) => Ok(m),
        None => {
            let mut e: Vec<char> = Vec::new();
            push_str(&mut e, "Unknown model: ");
            push_str(&mut e, model_id);
            Err(string_of(&e))
        },
    }
}

/// Checks a download request: the model must exist, and a chosen source
/// number must name one of its sources.
pub fn check_download_request(model_id: &str, source_index: Option<usize>) -> (r: Result<
    DownloadableModel,
    String,
>)
    ensures
        match row_of(model_id@) {
            None => r matches Err(e) && e@ == unknown_model_error(model_id@),
            Some(k) => match source_index {
                Some(i) if i >= source_count(k) => r matches Err(e) && e@ == bad_source_error(
                    i as nat,
                    source_count(k),
                ),
                _ => r matches Ok(m) && model_is(m, k),
            },
        },
{
    let m = known_model(model_id)?;
    match source_index {
        Some(i) => {
            if i >= m.sources.len() {
                let mut e: Vec<char> = Vec::new();
                push_str(&mut e, "无效的下载源序号 ");
                let d = crate::text::decimal_of(i as u64);
                crate::text::push_all(&mut e, &d);
                push_str(&mut e, "（共 ");
                let c = crate::text::decimal_of(m.sources.len() as u64);
                crate::text::push_all(&mut e, &c);
                push_str(&mut e, " 个源\u{FF09}");
                return Err(string_of(&e));
            }
        },
        None => {},
    }
    Ok(m)
}

/// A list of indices as integers.
pub open spec fn as_ints(v: Seq<usize>) -> Seq<int> {
    v.map_values(|x: usize| x as int)
}

/// The sources a download tries, in order: only the chosen one, or all.
pub open spec fn sources_tried(count: nat, source_index: Option<usize>) -> Seq<int> {
    match source_index {
        Some(i) => if i < count {
            seq![i as int]
        } else {
            seq![]
        },
        None => Seq::new(count, |k: int| k),
    }
}

/// The source numbers a download of a model with `count` sources tries.
pub fn sources_to_try(count: usize, source_index: Option<usize>) -> (r: Vec<usize>)
    ensures
        as_ints(r@) == sources_tried(count as nat, source_index),
{
    let mut v: Vec<usize> = Vec::new();
    match source_index {
        Some(i) => {
            if i < count {
                v.push(i);
            }
        },
        None => {
            let mut k: usize = 0;
            while k < count
                invariant
                    k <= count,
                    v@.len() == k,
                    as_ints(v@) == Seq::new(k as nat, |j: int| j),
                decreases count - k,
            {
                let ghost before = v@;
                v.push(k);
                assert(v@ == before.push(k));
                assert forall|j: int| 0 <= j < k + 1 implies #[trigger] as_ints(v@)[j]
                    == j by {
                    if j < k {
                        assert(v@[j] == before[j]);
                        assert(as_ints(before)[j] == j);
                    }
                }
                assert(as_ints(v@) =~= Seq::new((k + 1) as nat, |j: int| j));
                k += 1;
            }
        },
    }
    assert(as_ints(v@) =~= sources_tried(count as nat, source_index));
    v
}

/// The error after every tried source failed: the failures joined with
/// `；`, phrased for a chosen source or for all sources.
pub open spec fn all_failed_error(failures: Seq<Seq<char>>, chosen: bool) -> Seq<char> {
    if chosen {
        "所选下载源失败："@ + crate::text::join(failures, "；"@) + "。可换其他源重试"@
    } else {
        "所有下载源均失败："@ + crate::text::join(failures, "；"@)
    }
}

/// The error after every tried source failed ([`all_failed_error`]).
pub fn download_failure_message(failures: &Vec<String>, chosen: bool) -> (r: String)
    ensures
        r@ == all_failed_error(failures@.map_values(|f: String| f@), chosen),
{
    let ghost fv = failures@.map_values(|f: String| f@);
    let mut joined: Vec<char> = Vec::new();
    let mut k: usize = 0;
    assert(fv.take(0) =~= Seq::<Seq<char>>::empty());
    while k < failures.len()
        invariant
            k <= failures@.len(),
            fv == failures@.map_values(|f: String| f@),
            joined@ == crate::text::join(fv.take(k as int), "；"@),
        decreases failures@.len() - k,
    {
        assert(fv.take(k + 1).drop_last() == fv.take(k as int));
        assert(fv.take(k + 1).last() == failures@[k as int]@);
        if k > 0 {
            push_str(&mut joined, "；");
        } else {
            assert(fv.take(1) =~= seq![fv[0]]);
        }
        push_str(&mut joined, failures[k].as_str());
        k += 1;
    }
    assert(fv.take(failures@.len() as int) == fv);
    let mut out: Vec<char> = Vec::new();
    if chosen {
        push_str(&mut out, "所选下载源失败：");
        crate::text::push_all(&mut out, &joined);
        push_str(&mut out, "。可换其他源重试");
    } else {
        push_str(&mut out, "所有下载源均失败：");
        crate::text::push_all(&mut out, &joined);
    }
    string_of(&out)
}

/// How a download continues after the server's answer.
#[derive(PartialEq, Eq, Structural, Clone, Copy, Debug)]
pub enum ResumeDecision {
    /// Append to the partial file.
    Resume,
    /// The partial file is already complete.
    AlreadyComplete,
    /// Write the file from the start.
    Restart,
    /// The server refused.
    Fail,
}

/// What to do with the answer `status` to a request that asked to resume
/// after `existing` bytes: 206 resumes, 416 means the partial file is
/// complete (both only when something existed); another 2xx restarts;
/// anything else fails.
pub open spec fn resume_decision_spec(existing: u64, status: u16) -> ResumeDecision {
    if existing > 0 && status == 206 {
        ResumeDecision::Resume
    } else if existing > 0 && status == 416 {
        ResumeDecision::AlreadyComplete
    } else if 200 <= status <= 299 {
        ResumeDecision::Restart
    } else {
        ResumeDecision::Fail
    }
}

/// How a download continues after the server's answer
/// ([`resume_decision_spec`]).
pub fn resume_decision(existing: u64, status: u16) -> (r: ResumeDecision)
    ensures
        r == resume_decision_spec(existing, status),
{
    if existing > 0 && status == 206 {
        ResumeDecision::Resume
    } else if existing > 0 && status == 416 {
        ResumeDecision::AlreadyComplete
    } else if 200 <= status && status <= 299 {
        ResumeDecision::Restart
    } else {
        ResumeDecision::Fail
    }
}

/// Total size reported for a download: what was already done before this
/// file, what this file already had, and the length the server announces;
/// without an announced length, the model's size.
pub fn download_total(offset: u64, base: u64, content_length: Option<u64>, total_hint: u64) -> (r:
    u64)
    requires
        content_length matches Some(l) ==> offset + base + l <= u64::MAX,
    ensures
        r == match content_length {
            Some(l) => (offset + base + l) as u64,
            None => total_hint,
        },
{
    match content_length {
        Some(l) => offset + base + l,
        None => total_hint,
    }
}

// ── Running tasks ─────────────────────────────────────────────────────────────

/// Error when a download or import of the same model already runs.
pub const SAME_TASK_RUNNING_ERR: &'static str = "该模型正在下载或导入中";

/// A list of model ids, each held at most once. It stands for a set keyed
/// by the id: with string keys Verus's specification of `HashMap` and
/// `HashSet` proves nothing of their contents, a list with this invariant
/// proves everything the tasks need.
struct NameList {
    items: Vec<String>,
}

/// The views of a list of strings.
pub open spec fn names_of(v: Seq<String>) -> Seq<Seq<char>> {
    v.map_values(|s: String| s@)
}

impl NameList {
    /// The ids in the list.
    spec fn set(&self) -> Set<Seq<char>> {
        names_of(self.items@).to_set()
    }

    /// No id is held twice.
    spec fn wf(&self) -> bool {
        forall|a: int, b: int|
            0 <= a < b < self.items@.len() ==> (#[trigger] self.items@[a])@ != (#[trigger] self.items@[b])@
    }

    fn empty() -> (r: Self)
        ensures
            r.wf(),
            r.set() == Set::<Seq<char>>::empty(),
    {
        let r = NameList { items: Vec::new() };
        assert(r.set() =~= Set::<Seq<char>>::empty());
        r
    }

    fn position(&self, model_id: &str) -> (r: Option<usize>)
        ensures
            match r {
                Some(k) => k < self.items@.len() && self.items@[k as int]@ == model_id@,
                None => !self.set().contains(model_id@),
            },
    {
        let mut k: usize = 0;
        while k < self.items.len()
            invariant
                k <= self.items@.len(),
                forall|j: int| 0 <= j < k ==> (#[trigger] self.items@[j])@ != model_id@,
            decreases self.items@.len() - k,
        {
            if str_eq(self.items[k].as_str(), model_id) {
                return Some(k);
            }
            k += 1;
        }
        proof {
            if self.set().contains(model_id@) {
                let j = choose|j: int|
                    0 <= j < names_of(self.items@).len() && #[trigger] names_of(self.items@)[j]
                        == model_id@;
                assert(self.items@[j]@ == model_id@);
            }
        }
        None
    }

    fn has(&self, model_id: &str) -> (r: bool)
        ensures
            r == self.set().contains(model_id@),
    {
        match self.position(model_id) {
            Some(k) => {
                assert(names_of(self.items@)[k as int] == model_id@);
                true
            },
            None => false,
        }
    }

    fn add(&mut self, model_id: &str)
        requires
            old(self).wf(),
            !old(self).set().contains(model_id@),
        ensures
            final(self).wf(),
            final(self).set() == old(self).set().insert(model_id@),
    {
        let ghost before = self.items@;
        self.items.push(owned(model_id));
        proof {
            assert(names_of(self.items@) =~= names_of(before).push(model_id@));
            names_of(before).lemma_push_to_set_commute(model_id@);
            assert(names_of(self.items@).to_set() =~= names_of(before).to_set().insert(model_id@));
            assert forall|a: int, b: int|
                0 <= a < b < self.items@.len() implies (#[trigger] self.items@[a])@
                != (#[trigger] self.items@[b])@ by {
                if b == before.len() {
                    assert(names_of(before)[a] == self.items@[a]@);
                    assert(old(self).set().contains(self.items@[a]@));
                }
            }
        }
    }

    fn drop_name(&mut self, model_id: &str)
        requires
            old(self).wf(),
        ensures
            final(self).wf(),
            final(self).set() == old(self).set().remove(model_id@),
    {
        match self.position(model_id) {
            Some(k) => {
                let ghost before = self.items@;
                self.items.remove(k);
                proof {
                    assert(names_of(self.items@) =~= names_of(before).remove(k as int));
                    assert forall|a: int, b: int|
                        0 <= a < b < self.items@.len() implies (#[trigger] self.items@[a])@
                        != (#[trigger] self.items@[b])@ by {
                        let a2 = if a < k { a } else { a + 1 };
                        let b2 = if b < k { b } else { b + 1 };
                        assert(self.items@[a] == before[a2]);
                        assert(self.items@[b] == before[b2]);
                    }
                    assert forall|x: Seq<char>|
                        #[trigger] names_of(self.items@).to_set().contains(x)
                            <==> names_of(before).to_set().remove(model_id@).contains(x) by {
                        if names_of(self.items@).to_set().contains(x) {
                            let j = choose|j: int|
                                0 <= j < names_of(self.items@).len() && #[trigger] names_of(
                                    self.items@,
                                )[j] == x;
                            let j2 = if j < k { j } else { j + 1 };
                            assert(self.items@[j] == before[j2]);
                            assert(names_of(before)[j2] == x);
                            assert(before[k as int]@ == model_id@);
                            assert(j2 != k);
                        }
                        if names_of(before).to_set().remove(model_id@).contains(x) {
                            let j = choose|j: int|
                                0 <= j < names_of(before).len() && #[trigger] names_of(before)[j] == x;
                            assert(before[k as int]@ == model_id@);
                            assert(j != k);
                            let j2 = if j < k { j } else { j - 1 };
                            assert(self.items@[j2] == before[j]);
                            assert(names_of(self.items@)[j2] == x);
                        }
                    }
                    assert(names_of(self.items@).to_set() =~= names_of(before).to_set().remove(
                        model_id@,
                    ));
                }
            },
            None => {
                assert(self.set() =~= old(self).set().remove(model_id@));
            },
        }
    }
}

/// The models with a running download or import, each at most once, and
/// those among them whose task was asked to stop.
pub struct DownloadTasks {
    running: NameList,
    cancelled: NameList,
}

impl DownloadTasks {
    /// The ids of the models with a running task.
    pub closed spec fn ids(&self) -> Set<Seq<char>> {
        self.running.set()
    }

    /// The ids of the models whose running task was asked to stop.
    pub closed spec fn cancelled(&self) -> Set<Seq<char>> {
        self.cancelled.set()
    }

    /// No id is held twice, and only running tasks are asked to stop.
    pub closed spec fn wf(&self) -> bool {
        &&& self.running.wf()
        &&& self.cancelled.wf()
        &&& self.cancelled.set().subset_of(self.running.set())
    }

    /// No task runs.
    pub fn new() -> (r: Self)
        ensures
            r.wf(),
            r.ids() == Set::<Seq<char>>::empty(),
            r.cancelled() == Set::<Seq<char>>::empty(),
    {
        DownloadTasks { running: NameList::empty(), cancelled: NameList::empty() }
    }

    /// Whether a task runs for `model_id`.
    pub fn is_running(&self, model_id: &str) -> (r: bool)
        ensures
            r == self.ids().contains(model_id@),
    {
        self.running.has(model_id)
    }

    /// Whether the task of `model_id` was asked to stop; a download polls
    /// this between chunks.
    pub fn is_cancelled(&self, model_id: &str) -> (r: bool)
        ensures
            r == self.cancelled().contains(model_id@),
    {
        self.cancelled.has(model_id)
    }

    /// Asks the running task of `model_id` to stop; when none runs, nothing
    /// changes and the error names the model.
    pub fn cancel_model_download(&mut self, model_id: &str) -> (r: Result<(), String>)
        requires
            old(self).wf(),
        ensures
            final(self).wf(),
            final(self).ids() == old(self).ids(),
            old(self).ids().contains(model_id@) ==> r is Ok && final(self).cancelled() == old(
                self,
            ).cancelled().insert(model_id@),
            !old(self).ids().contains(model_id@) ==> (r matches Err(e) && e@ == "Model "@ + model_id@
                + " is not downloading"@) && final(self).cancelled() == old(self).cancelled(),
    {
        if self.running.has(model_id) {
            if !self.cancelled.has(model_id) {
                self.cancelled.add(model_id);
            } else {
                assert(self.cancelled.set().insert(model_id@) =~= self.cancelled.set());
            }
            Ok(())
        } else {
            let mut e: Vec<char> = Vec::new();
            push_str(&mut e, "Model ");
            push_str(&mut e, model_id);
            push_str(&mut e, " is not downloading");
            Err(string_of(&e))
        }
    }

    /// Registers a task for `model_id`, unless one already runs for it; a new
    /// task starts not asked to stop.
    pub fn register_task(&mut self, model_id: &str) -> (r: Result<(), String>)
        requires
            old(self).wf(),
        ensures
            final(self).wf(),
            final(self).cancelled() == old(self).cancelled(),
            old(self).ids().contains(model_id@) ==> (r matches Err(e) && e@ == SAME_TASK_RUNNING_ERR@
                && final(self).ids() == old(self).ids()),
            !old(self).ids().contains(model_id@) ==> r is Ok && final(self).ids() == old(
                self,
            ).ids().insert(model_id@),
    {
        if self.running.has(model_id) {
            return Err(owned(SAME_TASK_RUNNING_ERR));
        }
        self.running.add(model_id);
        Ok(())
    }

    /// Ends the task of `model_id`, if one runs, with its stop request.
    pub fn finish_task(&mut self, model_id: &str)
        requires
            old(self).wf(),
        ensures
            final(self).wf(),
            final(self).ids() == old(self).ids().remove(model_id@),
            final(self).cancelled() == old(self).cancelled().remove(model_id@),
    {
        self.running.drop_name(model_id);
        self.cancelled.drop_name(model_id);
    }
}

/// Every registry id names its own row: the ids are pairwise distinct, and
/// every model has at least one download source.
pub proof fn law_registry_rows_are_found(i: int)
    requires
        0 <= i < MODEL_COUNT,
    ensures
        row_of(model_id(i)) == Some(i),
        source_count(i) >= 1,
{
    reveal_strlit("sense-voice");
    reveal_strlit("whisper-tiny");
    reveal_strlit("whisper-small");
    reveal_strlit("whisper-medium");
    reveal_strlit("x-asr-480ms");
    reveal_strlit("opus-mt-zh-en");
    reveal_strlit("opus-mt-en-zh");
    reveal_strlit("opus-mt-it-en");
    reveal_strlit("m2m100-418m-int8");
    reveal_strlit("qwen2.5-3b-instruct-q4_k_m");
    reveal_strlit("qwen3-4b-instruct-2507-q4_k_m");
    reveal_strlit("gemma-3-4b-it-q4_k_m");
    reveal_strlit("hy-mt2-1.8b-q4_k_m");
    reveal_strlit("hy-mt2-1.8b-q6_k");
    assert forall|k: int, j: int| 0 <= k < j < MODEL_COUNT implies #[trigger] model_id(k) != #[trigger] model_id(j) by {
        if k == 0 && j == 1 {
            assert(model_id(0).len() != model_id(1).len());
        } else if k == 0 && j == 2 {
            assert(model_id(0).len() != model_id(2).len());
        } else if k == 1 && j == 2 {
            assert(model_id(1).len() != model_id(2).len());
        } else if k == 0 && j == 3 {
            assert(model_id(0).len() != model_id(3).len());
        } else if k == 1 && j == 3 {
            assert(model_id(1).len() != model_id(3).len());
        } else if k == 2 && j == 3 {
            assert(model_id(2).len() != model_id(3).len());
        } else if k == 0 && j == 4 {
            assert(model_id(0)[0] != model_id(4)[0]);
        } else if k == 1 && j == 4 {
            assert(model_id(1).len() != model_id(4).len());
        } else if k == 2 && j == 4 {
            assert(model_id(2).len() != model_id(4).len());
        } else if k == 3 && j == 4 {
            assert(model_id(3).len() != model_id(4).len());
        } else if k == 0 && j == 5 {
            assert(model_id(0).len() != model_id(5).len());
        } else if k == 1 && j == 5 {
            assert(model_id(1).len() != model_id(5).len());
        } else if k == 2 && j == 5 {
            assert(model_id(2)[0] != model_id(5)[0]);
        } else if k == 3 && j == 5 {
            assert(model_id(3).len() != model_id(5).len());
        } else if k == 4 && j == 5 {
            assert(model_id(4).len() != model_id(5).len());
        } else if k == 0 && j == 6 {
            assert(model_id(0).len() != model_id(6).len());
        } else if k == 1 && j == 6 {
            assert(model_id(1).len() != model_id(6).len());
        } else if k == 2 && j == 6 {
            assert(model_id(2)[0] != model_id(6)[0]);
        } else if k == 3 && j == 6 {
            assert(model_id(3).len() != model_id(6).len());
        } else if k == 4 && j == 6 {
            assert(model_id(4).len() != model_id(6).len());
        } else if k == 5 && j == 6 {
            assert(model_id(5)[8] != model_id(6)[8]);
        } else if k == 0 && j == 7 {
            assert(model_id(0).len() != model_id(7).len());
        } else if k == 1 && j == 7 {
            assert(model_id(1).len() != model_id(7).len());
        } else if k == 2 && j == 7 {
            assert(model_id(2)[0] != model_id(7)[0]);
        } else if k == 3 && j == 7 {
            assert(model_id(3).len() != model_id(7).len());
        } else if k == 4 && j == 7 {
            assert(model_id(4).len() != model_id(7).len());
        } else if k == 5 && j == 7 {
            assert(model_id(5)[8] != model_id(7)[8]);
        } else if k == 6 && j == 7 {
            assert(model_id(6)[8] != model_id(7)[8]);
        } else if k == 0 && j == 8 {
            assert(model_id(0).len() != model_id(8).len());
        } else if k == 1 && j == 8 {
            assert(model_id(1).len() != model_id(8).len());
        } else if k == 2 && j == 8 {
            assert(model_id(2).len() != model_id(8).len());
        } else if k == 3 && j == 8 {
            assert(model_id(3).len() != model_id(8).len());
        } else if k == 4 && j == 8 {
            assert(model_id(4).len() != model_id(8).len());
        } else if k == 5 && j == 8 {
            assert(model_id(5).len() != model_id(8).len());
        } else if k == 6 && j == 8 {
            assert(model_id(6).len() != model_id(8).len());
        } else if k == 7 && j == 8 {
            assert(model_id(7).len() != model_id(8).len());
        } else if k == 0 && j == 9 {
            assert(model_id(0).len() != model_id(9).len());
        } else if k == 1 && j == 9 {
            assert(model_id(1).len() != model_id(9).len());
        } else if k == 2 && j == 9 {
            assert(model_id(2).len() != model_id(9).len());
        } else if k == 3 && j == 9 {
            assert(model_id(3).len() != model_id(9).len());
        } else if k == 4 && j == 9 {
            assert(model_id(4).len() != model_id(9).len());
        } else if k == 5 && j == 9 {
            assert(model_id(5).len() != model_id(9).len());
        } else if k == 6 && j == 9 {
            assert(model_id(6).len() != model_id(9).len());
        } else if k == 7 && j == 9 {
            assert(model_id(7).len() != model_id(9).len());
        } else if k == 8 && j == 9 {
            assert(model_id(8).len() != model_id(9).len());
        } else if k == 0 && j == 10 {
            assert(model_id(0).len() != model_id(10).len());
        } else if k == 1 && j == 10 {
            assert(model_id(1).len() != model_id(10).len());
        } else if k == 2 && j == 10 {
            assert(model_id(2).len() != model_id(10).len());
        } else if k == 3 && j == 10 {
            assert(model_id(3).len() != model_id(10).len());
        } else if k == 4 && j == 10 {
            assert(model_id(4).len() != model_id(10).len());
        } else if k == 5 && j == 10 {
            assert(model_id(5).len() != model_id(10).len());
        } else if k == 6 && j == 10 {
            assert(model_id(6).len() != model_id(10).len());
        } else if k == 7 && j == 10 {
            assert(model_id(7).len() != model_id(10).len());
        } else if k == 8 && j == 10 {
            assert(model_id(8).len() != model_id(10).len());
        } else if k == 9 && j == 10 {
            assert(model_id(9).len() != model_id(10).len());
        } else if k == 0 && j == 11 {
            assert(model_id(0).len() != model_id(11).len());
        } else if k == 1 && j == 11 {
            assert(model_id(1).len() != model_id(11).len());
        } else if k == 2 && j == 11 {
            assert(model_id(2).len() != model_id(11).len());
        } else if k == 3 && j == 11 {
            assert(model_id(3).len() != model_id(11).len());
        } else if k == 4 && j == 11 {
            assert(model_id(4).len() != model_id(11).len());
        } else if k == 5 && j == 11 {
            assert(model_id(5).len() != model_id(11).len());
        } else if k == 6 && j == 11 {
            assert(model_id(6).len() != model_id(11).len());
        } else if k == 7 && j == 11 {
            assert(model_id(7).len() != model_id(11).len());
        } else if k == 8 && j == 11 {
            assert(model_id(8).len() != model_id(11).len());
        } else if k == 9 && j == 11 {
            assert(model_id(9).len() != model_id(11).len());
        } else if k == 10 && j == 11 {
            assert(model_id(10).len() != model_id(11).len());
        } else if k == 0 && j == 12 {
            assert(model_id(0).len() != model_id(12).len());
        } else if k == 1 && j == 12 {
            assert(model_id(1).len() != model_id(12).len());
        } else if k == 2 && j == 12 {
            assert(model_id(2).len() != model_id(12).len());
        } else if k == 3 && j == 12 {
            assert(model_id(3).len() != model_id(12).len());
        } else if k == 4 && j == 12 {
            assert(model_id(4).len() != model_id(12).len());
        } else if k == 5 && j == 12 {
            assert(model_id(5).len() != model_id(12).len());
        } else if k == 6 && j == 12 {
            assert(model_id(6).len() != model_id(12).len());
        } else if k == 7 && j == 12 {
            assert(model_id(7).len() != model_id(12).len());
        } else if k == 8 && j == 12 {
            assert(model_id(8).len() != model_id(12).len());
        } else if k == 9 && j == 12 {
            assert(model_id(9).len() != model_id(12).len());
        } else if k == 10 && j == 12 {
            assert(model_id(10).len() != model_id(12).len());
        } else if k == 11 && j == 12 {
            assert(model_id(11).len() != model_id(12).len());
        } else if k == 0 && j == 13 {
            assert(model_id(0).len() != model_id(13).len());
        } else if k == 1 && j == 13 {
            assert(model_id(1).len() != model_id(13).len());
        } else if k == 2 && j == 13 {
            assert(model_id(2).len() != model_id(13).len());
        } else if k == 3 && j == 13 {
            assert(model_id(3).len() != model_id(13).len());
        } else if k == 4 && j == 13 {
            assert(model_id(4).len() != model_id(13).len());
        } else if k == 5 && j == 13 {
            assert(model_id(5).len() != model_id(13).len());
        } else if k == 6 && j == 13 {
            assert(model_id(6).len() != model_id(13).len());
        } else if k == 7 && j == 13 {
            assert(model_id(7).len() != model_id(13).len());
        } else if k == 8 && j == 13 {
            assert(model_id(8)[0] != model_id(13)[0]);
        } else if k == 9 && j == 13 {
            assert(model_id(9).len() != model_id(13).len());
        } else if k == 10 && j == 13 {
            assert(model_id(10).len() != model_id(13).len());
        } else if k == 11 && j == 13 {
            assert(model_id(11).len() != model_id(13).len());
        } else if k == 12 && j == 13 {
            assert(model_id(12).len() != model_id(13).len());
        }
    }
    lemma_first_row(i);
}

// ── The model manager ─────────────────────────────────────────────────────────

/// The model manager's list: every registry row in order, installed when
/// `installed[i]` says so, and downloading while a task runs for it.
pub fn get_downloadable_models(installed: &Vec<bool>, tasks: &DownloadTasks) -> (r: Vec<ModelDownloadInfo>)
    requires
        installed@.len() == MODEL_COUNT,
    ensures
        r@.len() == MODEL_COUNT,
        forall|i: int|
            0 <= i < MODEL_COUNT ==> download_info_is(
                #[trigger] r@[i],
                i,
                installed@[i],
                tasks.ids().contains(model_id(i)),
            ),
{
    let mut out: Vec<ModelDownloadInfo> = Vec::new();
    let mut i: usize = 0;
    while i < MODEL_COUNT
        invariant
            installed@.len() == MODEL_COUNT,
            i <= MODEL_COUNT,
            out@.len() == i,
            forall|k: int|
                0 <= k < i ==> download_info_is(
                    #[trigger] out@[k],
                    k,
                    installed@[k],
                    tasks.ids().contains(model_id(k)),
                ),
        decreases MODEL_COUNT - i,
    {
        let m = model_entry(i);
        let running = tasks.is_running(m.id);
        out.push(download_info(i, installed[i], running));
        i += 1;
    }
    out
}

} // verus!
