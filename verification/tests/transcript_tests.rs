use voxminutes::provider::{
    remove_text_overlap, transcription_result, truncate_whisper_repetition_loop, TranscriptionError, MAX_CHUNK_SAMPLES,
};
use voxminutes::transcript::{should_keep_partial_over_final, strip_whisper_cross_segment_overlap};

#[test]
fn test_whisper_repetition_single_word_loop_is_truncated() {
    let input = "non non non non non non non non non non non non";
    assert_eq!(truncate_whisper_repetition_loop(input), "non");
}

#[test]
fn test_whisper_repetition_phrase_loop_is_truncated() {
    let input = "Non vi ho in un'altra forma in forma in forma in forma in forma in forma in forma in forma";
    assert_eq!(truncate_whisper_repetition_loop(input), "Non vi ho in un'altra forma");
}

#[test]
fn test_whisper_repetition_punctuation_is_normalized() {
    let input = "inizio in forma, in forma, in forma, in forma, in forma, in forma, fine";
    assert_eq!(truncate_whisper_repetition_loop(input), "inizio in forma,");
}

#[test]
fn test_whisper_legitimate_small_repetition_is_kept() {
    let input = "no no no, aspetta, non e quello che intendo";
    assert_eq!(truncate_whisper_repetition_loop(input), input);
}

#[test]
fn test_remove_text_overlap_basic() {
    let prev = "今天天气";
    let next = "天气很好";
    assert_eq!(remove_text_overlap(prev, next), "很好");
}

#[test]
fn test_remove_text_overlap_with_punctuation() {
    let prev = "我们出发了。";
    let next = "出发了。接下来";
    assert_eq!(remove_text_overlap(prev, next), "接下来");
}

#[test]
fn test_remove_text_overlap_no_match() {
    let prev = "完全无关";
    let next = "另一句话";
    assert_eq!(remove_text_overlap(prev, next), next);
}

#[test]
fn test_remove_text_overlap_too_short() {
    let prev = "你好";
    let next = "好世界";
    assert_eq!(remove_text_overlap(prev, next), next);
}

#[test]
fn blocks_obvious_final_regression() {
    assert!(should_keep_partial_over_final(
        "This is a very important opportunity for you to learn the important things.",
        "obviously"
    ));
    assert!(should_keep_partial_over_final(
        "E viene usato per salutare una persona o piu persone.",
        "una persona"
    ));
}

#[test]
fn accepts_normal_final_correction() {
    assert!(!should_keep_partial_over_final(
        "Vorrei sapere se possiamo modificare questa machina",
        "Vorrei sapere se possiamo modificare questa macchina"
    ));
    assert!(!should_keep_partial_over_final("Ciao come stai", "Ciao, come stai?"));
}

#[test]
fn strips_two_word_overlap() {
    assert_eq!(
        strip_whisper_cross_segment_overlap(
            "Vorrei sapere se possiamo modificare questa macchina",
            "questa macchina per migliorare la produzione"
        ),
        "per migliorare la produzione"
    );
}

#[test]
fn keeps_short_legitimate_repeat() {
    assert_eq!(
        strip_whisper_cross_segment_overlap("No", "No non e corretto"),
        "No non e corretto"
    );
}

#[test]
fn strips_long_single_word_overlap() {
    assert_eq!(
        strip_whisper_cross_segment_overlap(
            "dobbiamo controllare alimentazione",
            "alimentazione della macchina"
        ),
        "della macchina"
    );
}

#[test]
fn overlap_removed_is_the_longest_shared_text() {
    // "abab" ends with both "ab" and "abab"; the longer one is cut.
    assert_eq!(remove_text_overlap("xxabab", "ababyy"), "yy");
    assert_eq!(remove_text_overlap("hello world", "world peace"), " peace");
}

#[test]
fn repetition_stopping_inside_a_copy_keeps_the_leading_part() {
    let input = "a b c d e f g h i j k x y x y x y x y x y x y x";
    assert_eq!(truncate_whisper_repetition_loop(input), "a b c d e f g h i j k x");
    let input = "uno due tre quattro cinque sei sette otto";
    assert_eq!(truncate_whisper_repetition_loop(input), input);
    assert_eq!(truncate_whisper_repetition_loop("  ciao  "), "ciao");
}

#[test]
fn cutting_a_loop_twice_changes_nothing() {
    let inputs = [
        "non non non non non non non non non non non non",
        "Non vi ho in un'altra forma in forma in forma in forma in forma in forma in forma in forma",
        "a b c d e f g h i j k x y x y x y x y x y x y x",
        "  uno   due tre quattro cinque sei sette otto  ",
        "  ciao  ",
    ];
    for input in inputs {
        let once = truncate_whisper_repetition_loop(input);
        assert_eq!(truncate_whisper_repetition_loop(&once), once);
    }
    assert_eq!(
        truncate_whisper_repetition_loop("  uno   due tre quattro cinque sei sette otto  "),
        "uno   due tre quattro cinque sei sette otto"
    );
}

#[test]
fn a_recording_is_transcribed_from_its_windows() {
    assert!(matches!(
        transcription_result(0, &Vec::new()),
        Err(TranscriptionError::AudioTooShort { samples: 0, minimum: 1600 })
    ));
    assert!(matches!(transcription_result(100, &vec![Some("ciao".to_string())]), Ok(t) if t == "ciao"));
    assert!(matches!(
        transcription_result(100, &vec![None]),
        Err(TranscriptionError::EngineFailed(e)) if e == "No result"
    ));
    let windows = vec![Some("hello world".to_string()), None, Some("world peace".to_string())];
    assert!(matches!(
        transcription_result(MAX_CHUNK_SAMPLES + 1, &windows),
        Ok(t) if t == "hello world peace"
    ));
    assert!(matches!(transcription_result(MAX_CHUNK_SAMPLES * 3, &vec![None, None]), Ok(t) if t.is_empty()));
}
