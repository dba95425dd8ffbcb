//! Properties of the library that span its functions or hold for every
//! input, stated over the spec functions that the functions' contracts use.
use vstd::prelude::*;

use crate::export::{
    body_of, markdown_export, exported, exported_segments, forbidden_in_name, name_chars_replaced, safe_name, source_suffix, ExportFormat,
    OFFLINE_SOURCE,
};
use crate::records::{clock_text, RecordingSegment};
use crate::registry::{resume_decision_spec, DownloadTasks, ResumeDecision};
use crate::helper::{common_prefix, lemma_common_prefix, prefix_hit};
use crate::llm::{
    lemma_number_end, number_end, numeric_tokens_from, restore_from, chinese_family, chinese_lines, dedup_kept, first_split, lang_code, list_marker, note_marker, numeric_tokens,
    parsed_direction, restore_numeric, script_filtered, splits_as, splits_with_source, LANG_COUNT,
};
use crate::provider::{
    best_phrase, coverage, first_loop, lemma_best_phrase, lemma_char_overlap, lemma_first_loop,
    lemma_partial_copy, lemma_run_end, loop_at, loop_cut, loop_truncated, min_coverage, run_end,
    overlap_removed, char_overlap_from, token_keys, window_of, MAX_CHUNK_SAMPLES, MAX_OVERLAP_CHARS,
    MIN_OVERLAP_CHARS,
};
use crate::text::{
    find_spec, is_digit, lemma_find_spec_unique, occurs_at, contains, lines, padded, count_non_ws, folded, is_ws, is_word, join, lemma_join_trimmed, lemma_trim_idempotent, lemma_words_are_words,
    lemma_words_join, lemma_words_trim, trim, trim_end, trim_start, words,
};
use crate::transcript::{
    numbered, handled, transcription_step, wrapping_next, ChunkProgress, LiveWorker, SessionCounters,
    information_score, keeps_partial, speech_announcement, lemma_overlap_from, overlap_from, overlap_limit,
    overlap_removable, overlap_stripped, partials_after, word_key, words_overlap,
};

verus! {

// ── Text shared by consecutive windows ────────────────────────────────────────

/// Removing the overlap of two window texts only cuts the start of `next`,
/// and what it cuts (two to thirty characters) is exactly how `prev` ends.
pub proof fn law_overlap_cut_is_shared_text(prev: Seq<char>, next: Seq<char>)
    ensures
        exists|k: int|
            0 <= k <= next.len() && #[trigger] next.skip(k) == overlap_removed(prev, next) && (k == 0 || (
            MIN_OVERLAP_CHARS <= k <= MAX_OVERLAP_CHARS && k <= prev.len() && prev.skip(prev.len() - k)
                == next.take(k))),
{
    let m = if prev.len() < next.len() { prev.len() } else { next.len() };
    let max = if m < MAX_OVERLAP_CHARS { m as int } else { MAX_OVERLAP_CHARS as int };
    lemma_char_overlap(prev, next, max);
    lemma_char_overlap_found(prev, next, max);
    let k = char_overlap_from(prev, next, max);
    assert(next.skip(k) == overlap_removed(prev, next));
}

proof fn lemma_char_overlap_found(prev: Seq<char>, next: Seq<char>, len: int)
    requires
        len <= MAX_OVERLAP_CHARS,
    ensures
        char_overlap_from(prev, next, len) == 0 || (MIN_OVERLAP_CHARS <= char_overlap_from(prev, next, len)
            <= len && char_overlap_from(prev, next, len) <= prev.len() && char_overlap_from(
            prev,
            next,
            len,
        ) <= next.len() && prev.skip(prev.len() - char_overlap_from(prev, next, len)) == next.take(
            char_overlap_from(prev, next, len),
        )),
    decreases len,
{
    if len >= MIN_OVERLAP_CHARS && !(len <= prev.len() && len <= next.len() && prev.skip(prev.len() - len)
        == next.take(len)) {
        lemma_char_overlap_found(prev, next, len - 1);
    }
}

/// The overlap removed is the longest one looked for: no longer text, up to
/// thirty characters, both ends `prev` and begins `next`.
pub proof fn law_overlap_cut_is_longest(prev: Seq<char>, next: Seq<char>)
    ensures
        forall|j: int|
            next.len() - overlap_removed(prev, next).len() < j <= MAX_OVERLAP_CHARS && MIN_OVERLAP_CHARS
                <= j && j <= prev.len() && j <= next.len() ==> #[trigger] prev.skip(prev.len() - j)
                != next.take(j),
{
    let m = if prev.len() < next.len() { prev.len() } else { next.len() };
    let max = if m < MAX_OVERLAP_CHARS { m as int } else { MAX_OVERLAP_CHARS as int };
    lemma_char_overlap(prev, next, max);
    lemma_char_overlap_longest(prev, next, max);
    let k = char_overlap_from(prev, next, max);
    assert(overlap_removed(prev, next) == next.skip(k));
}

proof fn lemma_char_overlap_longest(prev: Seq<char>, next: Seq<char>, len: int)
    ensures
        forall|j: int|
            char_overlap_from(prev, next, len) < j <= len && MIN_OVERLAP_CHARS <= j && j <= prev.len() && j
                <= next.len() ==> #[trigger] prev.skip(prev.len() - j) != next.take(j),
    decreases len,
{
    if len >= MIN_OVERLAP_CHARS && !(len <= prev.len() && len <= next.len() && prev.skip(prev.len() - len)
        == next.take(len)) {
        lemma_char_overlap_longest(prev, next, len - 1);
    }
}

// ── Whisper repetition loops ──────────────────────────────────────────────────

/// Cutting a repetition loop keeps the leading words up to the end of the
/// loop's first copy, and it only fires on a genuine loop there.
pub proof fn law_loop_cut_keeps_leading_words(text: Seq<char>)
    requires
        words(text).len() >= 8,
        first_loop(token_keys(words(text)), 0) is Some,
    ensures
        exists|n: int|
            1 <= n < words(text).len() && #[trigger] join(words(text).take(n), " "@) == loop_truncated(text),
{
    let t = words(text);
    let keys = token_keys(t);
    lemma_first_loop(keys, 0);
    let (s, p) = first_loop(keys, 0)->0;
    assert(loop_at(keys, s, p));
    let e = run_end(keys, s, p, s + p);
    lemma_run_end(keys, s, p, s + p);
    lemma_partial_copy(keys, s, p, e, 0);
    let n = loop_cut(keys, s, p);
    assert(1 <= n < t.len());
    assert(join(t.take(n), " "@) == loop_truncated(text));
}

/// Cutting a repetition loop a second time changes nothing: what the first
/// cut keeps has no loop left, and a trimmed text is trimmed already.
pub proof fn law_loop_cut_is_idempotent(text: Seq<char>)
    ensures
        loop_truncated(loop_truncated(text)) == loop_truncated(text),
{
    let t = words(text);
    let keys = token_keys(t);
    let r = loop_truncated(text);
    lemma_words_trim(text);
    lemma_trim_idempotent(text);
    if t.len() < 8 || first_loop(keys, 0) is None {
        assert(r == trim(text));
        assert(words(r) == t);
    } else {
        lemma_first_loop(keys, 0);
        lemma_first_loop_earliest(keys, 0);
        let (s, p) = first_loop(keys, 0)->0;
        let e = run_end(keys, s, p, s + p);
        lemma_run_end(keys, s, p, s + p);
        lemma_partial_copy(keys, s, p, e, 0);
        let k = loop_cut(keys, s, p);
        assert(1 <= k <= s + p && k <= t.len());
        let tk = t.take(k);
        lemma_words_are_words(text);
        assert forall|i: int| 0 <= i < tk.len() implies is_word(#[trigger] tk[i]) by {
            assert(tk[i] == t[i]);
        }
        reveal_strlit(" ");
        assert(" "@ =~= seq![' ']);
        lemma_words_join(tk);
        lemma_join_trimmed(tk);
        assert(r == join(tk, seq![' ']));
        assert(words(r) == tk);
        let keys2 = token_keys(tk);
        assert(keys2 =~= keys.take(k));
        assert forall|a: int, pl: int| 0 <= a && 1 <= pl <= 5 implies !#[trigger] loop_at(keys2, a, pl) by {
            if loop_at(keys2, a, pl) {
                lemma_loop_at_prefix(keys, k, a, pl);
                assert(min_coverage(pl) >= 8);
            }
        }
        lemma_first_loop_none(keys2, 0);
        assert(first_loop(keys2, 0) is None);
    }
}

/// A run counted in a prefix of the keys ends no later than in all of them.
proof fn lemma_run_end_prefix(keys: Seq<Seq<char>>, k: int, s: int, pl: int, e: int)
    requires
        0 <= s,
        s + pl <= k <= keys.len(),
        0 <= e <= k,
    ensures
        run_end(keys.take(k), s, pl, e) <= run_end(keys, s, pl, e),
    decreases k - e,
{
    let kk = keys.take(k);
    if pl >= 1 && e + pl <= kk.len() && kk.subrange(e, e + pl) == kk.subrange(s, s + pl) {
        assert(kk.subrange(e, e + pl) =~= keys.subrange(e, e + pl));
        assert(kk.subrange(s, s + pl) =~= keys.subrange(s, s + pl));
        lemma_run_end_prefix(keys, k, s, pl, e + pl);
    } else {
        lemma_run_end(keys, s, pl, e);
    }
}

/// A loop in a prefix of the keys is a loop in all of them, and it covers
/// no more than the prefix holds from its start.
proof fn lemma_loop_at_prefix(keys: Seq<Seq<char>>, k: int, a: int, pl: int)
    requires
        0 <= k <= keys.len(),
        loop_at(keys.take(k), a, pl),
    ensures
        loop_at(keys, a, pl),
        coverage(keys.take(k), a, pl) <= k - a,
{
    lemma_run_end_prefix(keys, k, a, pl, a + pl);
    lemma_run_end(keys.take(k), a, pl, a + pl);
    assert forall|j: int| a <= j < a + pl implies #[trigger] keys[j].len() > 0 by {
        assert(keys.take(k)[j] == keys[j]);
    }
}

/// No phrase length up to `p` gives a loop at `s` exactly when none is found.
proof fn lemma_best_phrase_zero(keys: Seq<Seq<char>>, s: int, p: int)
    ensures
        best_phrase(keys, s, p) == 0 <==> forall|pl: int| 1 <= pl <= p ==> !#[trigger] loop_at(keys, s, pl),
    decreases p,
{
    if p > 0 {
        lemma_best_phrase_zero(keys, s, p - 1);
        lemma_best_phrase(keys, s, p - 1);
    }
}

/// Nothing before the earliest loop is a loop; with no loop found, there is
/// none from where the search began.
proof fn lemma_first_loop_earliest(keys: Seq<Seq<char>>, b: int)
    requires
        0 <= b,
    ensures
        match first_loop(keys, b) {
            Some((s, _)) => forall|a: int, pl: int| b <= a < s && 1 <= pl <= 5 ==> !#[trigger] loop_at(keys, a, pl),
            None => forall|a: int, pl: int| b <= a && 1 <= pl <= 5 ==> !#[trigger] loop_at(keys, a, pl),
        },
    decreases keys.len() - b,
{
    if b < keys.len() {
        lemma_best_phrase_zero(keys, b, 5);
        if best_phrase(keys, b, 5) == 0 {
            lemma_first_loop_earliest(keys, b + 1);
            assert forall|pl: int| 1 <= pl <= 5 implies !#[trigger] loop_at(keys, b, pl) by {}
        } else {
            lemma_best_phrase(keys, b, 5);
        }
    } else {
        assert(first_loop(keys, b) is None);
        assert forall|a: int, pl: int| b <= a && 1 <= pl <= 5 implies !#[trigger] loop_at(keys, a, pl) by {
            if loop_at(keys, a, pl) {
                assert(a + 2 * pl <= keys.len());
            }
        }
    }
}

/// Where no loop starts from `b` on, the search from `b` finds none.
proof fn lemma_first_loop_none(keys: Seq<Seq<char>>, b: int)
    requires
        0 <= b,
        forall|a: int, pl: int| b <= a && 1 <= pl <= 5 ==> !#[trigger] loop_at(keys, a, pl),
    ensures
        first_loop(keys, b) is None,
    decreases keys.len() - b,
{
    if b < keys.len() {
        lemma_best_phrase_zero(keys, b, 5);
        lemma_first_loop_none(keys, b + 1);
    }
}

// ── A whole transcription run ─────────────────────────────────────────────────

/// Over a run of a worker that is not in Whisper live mode, chunk after
/// chunk ([`transcription_step`]), with the chunk counters starting from
/// nothing: every update emitted has text; chunks are numbered one after
/// the other by the shared counter, so the numbers strictly increase unless
/// the counter wraps; speech is announced with an update exactly when it is
/// the first update of the run and the flag was clear; and at the end every
/// queued chunk is completed, so no loss is reported.
pub proof fn law_transcription_run(
    workers: Seq<LiveWorker>,
    counters: Seq<SessionCounters>,
    numbered_counters: Seq<SessionCounters>,
    chunk_ids: Seq<u64>,
    seqs: Seq<(u64, bool)>,
    transcripts: Seq<Seq<char>>,
    provider_partials: Seq<bool>,
    outs: Seq<Option<(Seq<char>, bool, bool)>>,
    progress: Seq<ChunkProgress>,
)
    requires
        workers.len() == chunk_ids.len() + 1,
        counters.len() == chunk_ids.len() + 1,
        progress.len() == chunk_ids.len() + 1,
        numbered_counters.len() == chunk_ids.len(),
        seqs.len() == chunk_ids.len(),
        transcripts.len() == chunk_ids.len(),
        provider_partials.len() == chunk_ids.len(),
        outs.len() == chunk_ids.len(),
        !workers[0].whisper_live_mode,
        progress[0].queued == 0,
        progress[0].completed == 0,
        forall|i: int|
            0 <= i < chunk_ids.len() ==> #[trigger] transcription_step(
                workers,
                counters,
                numbered_counters,
                chunk_ids,
                seqs,
                transcripts,
                provider_partials,
                outs,
                progress,
                i,
            ),
    ensures
        forall|i: int|
            0 <= i < outs.len() ==> (#[trigger] outs[i] matches Some((t, _, _)) ==> trim(t).len() > 0),
        forall|i: int| 0 <= i < seqs.len() ==> #[trigger] seqs[i].0 == (counters[0].next_sequence + i) % 0x1_0000_0000_0000_0000int,
        forall|i: int| 0 <= i < seqs.len() - 1 ==> #[trigger] seqs[i + 1].0 == wrapping_next(seqs[i].0),
        counters[0].next_sequence + seqs.len() <= 0x1_0000_0000_0000_0000int ==> forall|i: int, j: int|
            0 <= i < j < seqs.len() ==> #[trigger] seqs[i].0 < #[trigger] seqs[j].0,
        forall|i: int|
            0 <= i < outs.len() ==> (#[trigger] outs[i] matches Some((_, _, a)) ==> (a <==> (
            !counters[0].speech_detected_emitted && forall|j: int| 0 <= j < i ==> #[trigger] outs[j] is None))),
        progress[chunk_ids.len() as int].queued == chunk_ids.len(),
        progress[chunk_ids.len() as int].completed == chunk_ids.len(),
{
    let n = chunk_ids.len() as int;
    lemma_transcription_prefix(
        workers,
        counters,
        numbered_counters,
        chunk_ids,
        seqs,
        transcripts,
        provider_partials,
        outs,
        progress,
        n,
    );
    assert forall|i: int| 0 <= i < outs.len() implies (#[trigger] outs[i] matches Some((t, _, _)) ==> trim(
        t,
    ).len() > 0) by {
        assert(transcription_step(workers, counters, numbered_counters, chunk_ids, seqs, transcripts, provider_partials, outs, progress, i));
    }
    assert forall|i: int| 0 <= i < seqs.len() - 1 implies #[trigger] seqs[i + 1].0 == wrapping_next(seqs[i].0) by {
        assert(transcription_step(workers, counters, numbered_counters, chunk_ids, seqs, transcripts, provider_partials, outs, progress, i));
        assert(transcription_step(workers, counters, numbered_counters, chunk_ids, seqs, transcripts, provider_partials, outs, progress, i + 1));
    }
    assert forall|i: int| 0 <= i < outs.len() implies (#[trigger] outs[i] matches Some((_, _, a)) ==> (a <==> (
        !counters[0].speech_detected_emitted && forall|j: int| 0 <= j < i ==> #[trigger] outs[j] is None))) by {
        assert(transcription_step(workers, counters, numbered_counters, chunk_ids, seqs, transcripts, provider_partials, outs, progress, i));
    }
}

/// What holds after the first `k` steps of a run: the worker is still not
/// in live mode, the counter has moved on by `k` (wrapping), the speech flag
/// is set once an update was emitted, and `k` chunks are queued and
/// completed.
proof fn lemma_transcription_prefix(
    workers: Seq<LiveWorker>,
    counters: Seq<SessionCounters>,
    numbered_counters: Seq<SessionCounters>,
    chunk_ids: Seq<u64>,
    seqs: Seq<(u64, bool)>,
    transcripts: Seq<Seq<char>>,
    provider_partials: Seq<bool>,
    outs: Seq<Option<(Seq<char>, bool, bool)>>,
    progress: Seq<ChunkProgress>,
    k: int,
)
    requires
        0 <= k <= chunk_ids.len(),
        workers.len() == chunk_ids.len() + 1,
        counters.len() == chunk_ids.len() + 1,
        progress.len() == chunk_ids.len() + 1,
        numbered_counters.len() == chunk_ids.len(),
        seqs.len() == chunk_ids.len(),
        outs.len() == chunk_ids.len(),
        !workers[0].whisper_live_mode,
        progress[0].queued == 0,
        progress[0].completed == 0,
        forall|i: int|
            0 <= i < chunk_ids.len() ==> #[trigger] transcription_step(
                workers,
                counters,
                numbered_counters,
                chunk_ids,
                seqs,
                transcripts,
                provider_partials,
                outs,
                progress,
                i,
            ),
    ensures
        !workers[k].whisper_live_mode,
        counters[k].next_sequence == (counters[0].next_sequence + k) % 0x1_0000_0000_0000_0000int,
        forall|i: int| 0 <= i < k ==> #[trigger] seqs[i].0 == (counters[0].next_sequence + i) % 0x1_0000_0000_0000_0000int,
        counters[k].speech_detected_emitted == (counters[0].speech_detected_emitted || exists|j: int|
            0 <= j < k && #[trigger] outs[j] is Some),
        forall|i: int| 0 <= i < k ==> (#[trigger] numbered_counters[i]).speech_detected_emitted == (
        counters[0].speech_detected_emitted || exists|j: int| 0 <= j < i && #[trigger] outs[j] is Some),
        progress[k].queued == k,
        progress[k].completed == k,
    decreases k,
{
    if k > 0 {
        let i = k - 1;
        lemma_transcription_prefix(
            workers,
            counters,
            numbered_counters,
            chunk_ids,
            seqs,
            transcripts,
            provider_partials,
            outs,
            progress,
            i,
        );
        assert(transcription_step(workers, counters, numbered_counters, chunk_ids, seqs, transcripts, provider_partials, outs, progress, i));
        let c0 = counters[0].next_sequence;
        assert(wrapping_next(counters[i].next_sequence) == (c0 + k) % 0x1_0000_0000_0000_0000int);
        if outs[i] is Some {
            assert(exists|j: int| 0 <= j < k && #[trigger] outs[j] is Some);
        } else {
            assert((exists|j: int| 0 <= j < k && #[trigger] outs[j] is Some) == (exists|j: int|
                0 <= j < i && #[trigger] outs[j] is Some)) by {
                if exists|j: int| 0 <= j < k && #[trigger] outs[j] is Some {
                    let j = choose|j: int| 0 <= j < k && #[trigger] outs[j] is Some;
                    assert(j < i);
                }
            }
        }
    } else {
        assert((counters[0].next_sequence as int) % 0x1_0000_0000_0000_0000int == counters[0].next_sequence);
    }
}

// ── Stitching Whisper windows ─────────────────────────────────────────────────

/// When stitching cuts words from the next window, those words repeat the
/// end of the previous window, and there are at least two of them or the
/// single one is long (six characters).
pub proof fn law_stitching_cuts_only_repeated_words(prev: Seq<char>, next: Seq<char>)
    ensures
        ({
            let pw = words(prev);
            let nw = words(next);
            let k = overlap_from(pw, nw, overlap_limit(pw.len(), nw.len()));
            &&& 0 <= k <= nw.len()
            &&& k == 0 ==> overlap_stripped(prev, next) == trim(next)
            &&& k > 0 ==> overlap_stripped(prev, next) == trim(join(nw.skip(k), " "@)) && k <= pw.len()
                && words_overlap(pw, nw, k) && (k >= 2 || word_key(nw[0]).len() >= 6)
        }),
{
    let pw = words(prev);
    let nw = words(next);
    let lim = overlap_limit(pw.len(), nw.len());
    lemma_overlap_from(pw, nw, lim);
}

// ── Numbers in translations ───────────────────────────────────────────────────

/// A translation whose count of numbers differs from the source's, or whose
/// source has no numbers, is left exactly as the model wrote it.
pub proof fn law_numbers_untouched_when_counts_differ(source: Seq<char>, translated: Seq<char>)
    requires
        numeric_tokens(source).len() == 0 || numeric_tokens(source).len() != numeric_tokens(
            translated,
        ).len(),
    ensures
        restore_numeric(source, translated) == translated,
{
}

// ── Repeated paragraphs ───────────────────────────────────────────────────────

/// After folding, no kept paragraph with a non-empty key directly follows
/// one with the same key, and the first one kept differs from the key it
/// was compared with.
pub proof fn law_no_repeated_paragraph_left(ps: Seq<Seq<char>>, prev: Seq<char>)
    ensures
        ({
            let r = dedup_kept(ps, prev);
            &&& r.len() <= ps.len()
            &&& (r.len() > 0 && folded(r[0], false).len() > 0 ==> folded(r[0], false) != prev)
            &&& forall|i: int|
                0 <= i < r.len() - 1 && folded(r[i], false).len() > 0 && folded(#[trigger] r[i + 1], false).len()
                    > 0 ==> folded(r[i], false) != folded(r[i + 1], false)
        }),
    decreases ps.len(),
{
    if ps.len() > 0 {
        let key = folded(ps[0], false);
        let tail = ps.drop_first();
        if key.len() > 0 && key == prev {
            law_no_repeated_paragraph_left(tail, prev);
        } else {
            let next_prev = if key.len() > 0 { key } else { prev };
            law_no_repeated_paragraph_left(tail, next_prev);
            let rest = dedup_kept(tail, next_prev);
            let r = dedup_kept(ps, prev);
            assert(r == seq![ps[0]] + rest);
            assert forall|i: int|
                0 <= i < r.len() - 1 && folded(r[i], false).len() > 0 && folded(#[trigger] r[i + 1], false).len()
                    > 0 implies folded(r[i], false) != folded(r[i + 1], false) by {
                if i > 0 {
                    let j = i - 1;
                    assert(r[i] == rest[j]);
                    assert(r[i + 1] == rest[j + 1]);
                    assert(folded(rest[j], false).len() > 0 && folded(rest[j + 1], false).len() > 0);
                } else {
                    assert(r[1] == rest[0]);
                }
            }
        }
    }
}

// ── Directions ────────────────────────────────────────────────────────────────

/// A direction written as two table codes joined by `-` always parses, and
/// the two codes it parses into spell the direction again.
pub proof fn law_direction_round_trip(i: int, j: int)
    requires
        0 <= i < LANG_COUNT,
        0 <= j < LANG_COUNT,
    ensures
        parsed_direction(lang_code(i) + "-"@ + lang_code(j)) matches Some((a, b)) && a + "-"@ + b
            == lang_code(i) + "-"@ + lang_code(j),
{
    let d = lang_code(i) + "-"@ + lang_code(j);
    assert(splits_as(d, i, j));
    assert(splits_with_source(d, i));
    lemma_first_source(d, 0, i);
    let (i2, j2) = choose|i2: int, j2: int| first_split(d, i2, j2);
}

/// Facts about one language code: only `zh-Hant` holds a hyphen (at index
/// 2), and no code begins with `H`.
proof fn lemma_code_shape(i: int, k: int)
    requires
        0 <= i < LANG_COUNT,
    ensures
        lang_code(i).len() >= 2,
        0 <= k < lang_code(i).len() && lang_code(i)[k] == '-' ==> i == 10 && k == 2,
        lang_code(i)[0] != 'H',
        i == 10 ==> lang_code(i).len() == 7 && lang_code(i)[3] == 'H',
{
    reveal_strlit("zh");
    reveal_strlit("en");
    reveal_strlit("ja");
    reveal_strlit("ko");
    reveal_strlit("fr");
    reveal_strlit("de");
    reveal_strlit("es");
    reveal_strlit("ru");
    reveal_strlit("pt");
    reveal_strlit("it");
    reveal_strlit("zh-Hant");
    reveal_strlit("yue");
    reveal_strlit("th");
    reveal_strlit("vi");
    reveal_strlit("-");
}

/// Length and first two characters of table code `i`.
spec fn code_sig(i: int) -> (nat, char, char) {
    if i == 0 {
        (2nat, 'z', 'h')
    } else if i == 1 {
        (2nat, 'e', 'n')
    } else if i == 2 {
        (2nat, 'j', 'a')
    } else if i == 3 {
        (2nat, 'k', 'o')
    } else if i == 4 {
        (2nat, 'f', 'r')
    } else if i == 5 {
        (2nat, 'd', 'e')
    } else if i == 6 {
        (2nat, 'e', 's')
    } else if i == 7 {
        (2nat, 'r', 'u')
    } else if i == 8 {
        (2nat, 'p', 't')
    } else if i == 9 {
        (2nat, 'i', 't')
    } else if i == 10 {
        (7nat, 'z', 'h')
    } else if i == 11 {
        (3nat, 'y', 'u')
    } else if i == 12 {
        (2nat, 't', 'h')
    } else {
        (2nat, 'v', 'i')
    }
}

/// Two table codes are equal only for the same row.
proof fn lemma_codes_distinct(i: int, i2: int)
    requires
        0 <= i < LANG_COUNT,
        0 <= i2 < LANG_COUNT,
        lang_code(i) == lang_code(i2),
    ensures
        i == i2,
{
    reveal_strlit("zh");
    reveal_strlit("en");
    reveal_strlit("ja");
    reveal_strlit("ko");
    reveal_strlit("fr");
    reveal_strlit("de");
    reveal_strlit("es");
    reveal_strlit("ru");
    reveal_strlit("pt");
    reveal_strlit("it");
    reveal_strlit("zh-Hant");
    reveal_strlit("yue");
    reveal_strlit("th");
    reveal_strlit("vi");
    assert(code_sig(i) == (lang_code(i).len(), lang_code(i)[0], lang_code(i)[1]));
    assert(code_sig(i2) == (lang_code(i2).len(), lang_code(i2)[0], lang_code(i2)[1]));
}

/// A direction splits into table codes in one way only.
proof fn lemma_split_unique(d: Seq<char>, i: int, j: int, i2: int, j2: int)
    requires
        0 <= i < LANG_COUNT,
        0 <= j < LANG_COUNT,
        0 <= i2 < LANG_COUNT,
        0 <= j2 < LANG_COUNT,
        splits_as(d, i, j),
        splits_as(d, i2, j2),
    ensures
        i == i2,
        j == j2,
{
    reveal_strlit("-");
    let a = lang_code(i);
    let b = lang_code(i2);
    let ca = lang_code(j);
    let cb = lang_code(j2);
    assert(d =~= a + seq!['-'] + ca);
    assert(d =~= b + seq!['-'] + cb);
    lemma_code_shape(i, 0);
    lemma_code_shape(i2, 0);
    lemma_code_shape(j, 0);
    lemma_code_shape(j2, 0);
    if a.len() < b.len() {
        assert(d[a.len() as int] == '-');
        assert(b[a.len() as int] == d[a.len() as int]);
        lemma_code_shape(i2, a.len() as int);
        assert(d[3] == b[3]);
        assert(d[3] == ca[0]);
        assert(false);
    } else if b.len() < a.len() {
        assert(d[b.len() as int] == '-');
        assert(a[b.len() as int] == d[b.len() as int]);
        lemma_code_shape(i, b.len() as int);
        assert(d[3] == a[3]);
        assert(d[3] == cb[0]);
        assert(false);
    } else {
        assert(a =~= d.take(a.len() as int));
        assert(b =~= d.take(b.len() as int));
        lemma_codes_distinct(i, i2);
        assert(ca =~= d.skip(a.len() as int + 1));
        assert(cb =~= d.skip(b.len() as int + 1));
        lemma_codes_distinct(j, j2);
    }
}

/// A direction parses exactly when it is two table codes joined by a
/// hyphen, and then into exactly those two codes (a code holding a hyphen,
/// such as `zh-Hant`, is matched whole).
pub proof fn law_direction_parses_exactly(d: Seq<char>)
    ensures
        parsed_direction(d) is Some <==> exists|i: int, j: int|
            0 <= i < LANG_COUNT && 0 <= j < LANG_COUNT && #[trigger] splits_as(d, i, j),
        forall|i: int, j: int|
            0 <= i < LANG_COUNT && 0 <= j < LANG_COUNT && #[trigger] splits_as(d, i, j)
                ==> parsed_direction(d) == Some((lang_code(i), lang_code(j))),
{
    assert forall|i: int, j: int|
        0 <= i < LANG_COUNT && 0 <= j < LANG_COUNT && #[trigger] splits_as(d, i, j) implies parsed_direction(
        d,
    ) == Some((lang_code(i), lang_code(j))) by {
        assert(splits_with_source(d, i));
        lemma_first_source(d, 0, i);
        let (i2, j2) = choose|i2: int, j2: int| first_split(d, i2, j2);
        lemma_split_unique(d, i, j, i2, j2);
    }
    if parsed_direction(d) is Some {
        let (i2, j2) = choose|i2: int, j2: int| first_split(d, i2, j2);
        assert(splits_as(d, i2, j2));
    }
}

proof fn lemma_first_source(d: Seq<char>, k: int, i: int)
    requires
        0 <= k <= i < LANG_COUNT,
        splits_with_source(d, i),
        forall|m: int| 0 <= m < k ==> !splits_with_source(d, m),
    ensures
        exists|a: int, b: int| first_split(d, a, b),
    decreases i - k,
{
    if splits_with_source(d, k) {
        let b = choose|b: int| 0 <= b < LANG_COUNT && splits_as(d, k, b);
        assert(first_split(d, k, b));
    } else {
        lemma_first_source(d, k + 1, i);
    }
}

// ── Live transcription ────────────────────────────────────────────────────────

/// Between two resets of the flag, speech is announced at most once: after
/// an announcement, another one is refused.
pub proof fn law_speech_announced_once(emitted: bool)
    ensures
        !speech_announcement(speech_announcement(emitted).1).0,
        speech_announcement(false).0,
{
}

/// The snapshot kept for a segment never becomes less informative while
/// partial snapshots arrive, and a final closes the segment.
pub proof fn law_best_partial_only_improves(
    live: bool,
    parts: Map<u64, Seq<char>>,
    seq: u64,
    t: Seq<char>,
)
    ensures
        parts.contains_key(seq) ==> partials_after(live, parts, seq, true, t).contains_key(seq)
            && information_score(partials_after(live, parts, seq, true, t)[seq]) >= information_score(
            parts[seq],
        ),
        live ==> !partials_after(live, parts, seq, false, t).contains_key(seq),
        forall|other: u64|
            other != seq ==> (#[trigger] partials_after(live, parts, seq, true, t).contains_key(other))
                == parts.contains_key(other),
{
}

/// A final decode that keeps at least as many words and non-whitespace
/// characters as the partial is always trusted.
pub proof fn law_final_trusted_when_not_shorter(partial: Seq<char>, final_text: Seq<char>)
    requires
        trim(final_text).len() > 0,
        words(trim(final_text)).len() >= words(trim(partial)).len(),
        count_non_ws(trim(final_text)) >= count_non_ws(trim(partial)),
    ensures
        !keeps_partial(partial, final_text),
{
}

// ── File names ────────────────────────────────────────────────────────────────

/// Trimming gives a contiguous piece of the string.
proof fn lemma_trim_piece(s: Seq<char>)
    ensures
        exists|a: int, b: int| 0 <= a <= b <= s.len() && #[trigger] s.subrange(a, b) == trim(s),
{
    lemma_trim_start_piece(s);
    let a = choose|a: int| 0 <= a <= s.len() && #[trigger] s.skip(a) == trim_start(s);
    let t = trim_start(s);
    lemma_trim_end_piece(t);
    let b = choose|b: int| 0 <= b <= t.len() && #[trigger] t.take(b) == trim_end(t);
    assert(s.subrange(a, a + b) =~= trim(s));
}

proof fn lemma_trim_start_piece(s: Seq<char>)
    ensures
        exists|a: int| 0 <= a <= s.len() && #[trigger] s.skip(a) == trim_start(s),
    decreases s.len(),
{
    if s.len() > 0 && is_ws(s[0]) {
        lemma_trim_start_piece(s.drop_first());
        let a = choose|a: int| 0 <= a <= s.drop_first().len() && #[trigger] s.drop_first().skip(a)
            == trim_start(s.drop_first());
        assert(s.skip(a + 1) =~= s.drop_first().skip(a));
    } else {
        assert(s.skip(0) =~= s);
    }
}

proof fn lemma_trim_end_piece(s: Seq<char>)
    ensures
        exists|b: int| 0 <= b <= s.len() && #[trigger] s.take(b) == trim_end(s),
    decreases s.len(),
{
    if s.len() > 0 && is_ws(s.last()) {
        lemma_trim_end_piece(s.drop_last());
        let b = choose|b: int| 0 <= b <= s.drop_last().len() && #[trigger] s.drop_last().take(b)
            == trim_end(s.drop_last());
        assert(s.take(b) =~= s.drop_last().take(b));
    } else {
        assert(s.take(s.len() as int) =~= s);
    }
}

/// A file name made from a title is never empty, has at most 80
/// characters, and holds no character that a platform forbids.
pub proof fn law_safe_name(name: Seq<char>)
    ensures
        1 <= safe_name(name).len() <= 80,
        forall|i: int| 0 <= i < safe_name(name).len() ==> !forbidden_in_name(#[trigger] safe_name(name)[i]),
{
    let m = name_chars_replaced(name);
    assert forall|i: int| 0 <= i < m.len() implies !forbidden_in_name(#[trigger] m[i]) by {}
    lemma_trim_piece(m);
    let (a, b) = choose|a: int, b: int| 0 <= a <= b <= m.len() && #[trigger] m.subrange(a, b) == trim(m);
    assert forall|i: int| 0 <= i < trim(m).len() implies !forbidden_in_name(#[trigger] trim(m)[i]) by {
        assert(trim(m)[i] == m[a + i]);
    }
    reveal_strlit("recording");
}

// ── Exports by source ─────────────────────────────────────────────────────────

/// The realtime and the offline export of a recording share its segments
/// out: every segment goes into exactly one of them, so together they hold
/// as many segments as the recording.
pub proof fn law_realtime_and_offline_exports_split(segs: Seq<RecordingSegment>)
    ensures
        forall|i: int|
            0 <= i < segs.len() ==> exported(segs[i], Some("realtime"@)) != exported(
                #[trigger] segs[i],
                Some(OFFLINE_SOURCE@),
            ),
        exported_segments(segs, Some("realtime"@)).len() + exported_segments(
            segs,
            Some(OFFLINE_SOURCE@),
        ).len() == segs.len(),
    decreases segs.len(),
{
    reveal_strlit("realtime");
    reveal_strlit("offline_asr");
    assert("realtime"@ != OFFLINE_SOURCE@) by {
        assert("realtime"@.len() != OFFLINE_SOURCE@.len());
    }
    if segs.len() > 0 {
        law_realtime_and_offline_exports_split(segs.drop_last());
        assert(exported(segs.last(), Some("realtime"@)) != exported(segs.last(), Some(OFFLINE_SOURCE@)));
        assert forall|i: int|
            0 <= i < segs.len() implies exported(segs[i], Some("realtime"@)) != exported(
            #[trigger] segs[i],
            Some(OFFLINE_SOURCE@),
        ) by {
            if i < segs.len() - 1 {
                assert(segs[i] == segs.drop_last()[i]);
            }
        }
    }
}

/// File name of the export of `title` in `format` for `source`.
pub open spec fn export_name(title: Seq<char>, format: ExportFormat, source: Option<Seq<char>>) -> Seq<char> {
    safe_name(title) + source_suffix(source) + "."@ + format.ext_spec()
}

/// The realtime export, the offline export and the export of all segments
/// of one recording get different file names, so none overwrites another.
pub proof fn law_export_names_differ_by_source(title: Seq<char>, format: ExportFormat)
    ensures
        export_name(title, format, Some("realtime"@)) != export_name(title, format, Some(OFFLINE_SOURCE@)),
        export_name(title, format, Some("realtime"@)) != export_name(title, format, None),
        export_name(title, format, Some(OFFLINE_SOURCE@)) != export_name(title, format, None),
{
    reveal_strlit("realtime");
    reveal_strlit("offline_asr");
    reveal_strlit("_realtime");
    reveal_strlit("_offline");
    reveal_strlit("");
    reveal_strlit(".");
    assert("realtime"@ != OFFLINE_SOURCE@) by {
        assert("realtime"@.len() != OFFLINE_SOURCE@.len());
    }
    assert(source_suffix(Some("realtime"@)) == "_realtime"@);
    assert(source_suffix(Some(OFFLINE_SOURCE@)) == "_offline"@);
    assert(source_suffix(None) == ""@);
    let base = safe_name(title).len() + 1 + format.ext_spec().len();
    assert(export_name(title, format, Some("realtime"@)).len() == base + 9);
    assert(export_name(title, format, Some(OFFLINE_SOURCE@)).len() == base + 8);
    assert(export_name(title, format, None).len() == base);
}

// ── Running tasks ─────────────────────────────────────────────────────────────

/// A running download or import blocks only its own model: registering it
/// (as [`DownloadTasks::register_task`] does when no task runs for `a`)
/// leaves every other model free exactly as before, and finishing it (as
/// [`DownloadTasks::finish_task`] does) restores the tasks of before.
pub proof fn law_task_blocks_only_its_model(
    before: DownloadTasks,
    registered: DownloadTasks,
    finished: DownloadTasks,
    a: Seq<char>,
    b: Seq<char>,
)
    requires
        !before.ids().contains(a),
        registered.ids() == before.ids().insert(a),
        finished.ids() == registered.ids().remove(a),
        a != b,
    ensures
        registered.ids().contains(a),
        registered.ids().contains(b) == before.ids().contains(b),
        !finished.ids().contains(a),
        finished.ids() == before.ids(),
{
    assert(finished.ids() =~= before.ids());
}

// ── Prompt prefix reuse ───────────────────────────────────────────────────────

/// The reused prefix never includes the last prompt token, and the tokens
/// it keeps are those of the previous prompt.
pub proof fn law_prefix_reuse_keeps_last_token(tokens: Seq<i32>, prev: Seq<i32>)
    requires
        tokens.len() > 0,
    ensures
        0 <= prefix_hit(tokens, prev) < tokens.len(),
        prefix_hit(tokens, prev) <= prev.len(),
        forall|i: int| 0 <= i < prefix_hit(tokens, prev) ==> tokens[i] == prev[i],
{
    lemma_common_prefix(tokens, prev);
}

// ── Audio windows ─────────────────────────────────────────────────────────────

/// Every window starts with its logical range, stays within the audio, and
/// is never longer than the model's window; only the last one is exactly its
/// range.
pub proof fn law_windows_fit_the_model(ranges: Seq<(usize, usize)>, total: int, i: int)
    requires
        0 <= i < ranges.len(),
    ensures
        window_of(ranges, total, i).0 == ranges[i].0,
        i + 1 < ranges.len() ==> window_of(ranges, total, i).1 <= total && window_of(ranges, total, i).1
            <= ranges[i].0 + MAX_CHUNK_SAMPLES,
        i + 1 == ranges.len() ==> window_of(ranges, total, i).1 == ranges[i].1,
{
}


// ── Cleaning a Chinese answer ─────────────────────────────────────────────────

/// A Chinese answer ends before the first line that, trimmed, speaks of the
/// answer (it contains "说明", "Note" or "原文"): nothing from that line on is
/// kept, whatever follows it.
pub proof fn law_chinese_answer_cut_at_note(ls: Seq<Seq<char>>, saw: bool, i: int)
    requires
        0 <= i < ls.len(),
        contains(trim(ls[i]), "说明"@) || contains(trim(ls[i]), "Note"@) || contains(trim(ls[i]), "原文"@),
    ensures
        chinese_lines(ls, saw) == chinese_lines(ls.take(i), saw),
    decreases i,
{
    let t = trim(ls[0]);
    if i == 0 {
        assert(note_marker(t));
        reveal_strlit("说明");
        reveal_strlit("Note");
        reveal_strlit("原文");
        assert(t.len() > 0);
        assert(ls.take(0) =~= Seq::<Seq<char>>::empty());
    } else {
        let rest = ls.drop_first();
        assert(rest[i - 1] == ls[i]);
        law_chinese_answer_cut_at_note(rest, saw, i - 1);
        law_chinese_answer_cut_at_note(rest, true, i - 1);
        let pre = ls.take(i);
        assert(pre[0] == ls[0]);
        assert(pre.drop_first() =~= rest.take(i - 1));
    }
}

/// Into the Chinese family, the filtered answer is the same as that of its
/// lines up to, not including, the first trimmed line that contains "说明",
/// "Note" or "原文".
pub proof fn law_chinese_filter_cut_at_note(s: Seq<char>, source_lang: Seq<char>, target_lang: Seq<char>, i: int)
    requires
        chinese_family(target_lang),
        0 <= i < lines(s).len(),
        contains(trim(lines(s)[i]), "说明"@) || contains(trim(lines(s)[i]), "Note"@) || contains(
            trim(lines(s)[i]),
            "原文"@,
        ),
    ensures
        script_filtered(s, source_lang, target_lang) == trim_end(
            join(chinese_lines(lines(s).take(i), false), "\n"@),
        ),
{
    reveal_strlit("en");
    reveal_strlit("zh");
    reveal_strlit("zh-Hant");
    reveal_strlit("yue");
    assert("en"@ != "zh"@) by {
        assert("en"@[0] != "zh"@[0]);
    }
    assert("en"@.len() != "zh-Hant"@.len() && "en"@.len() != "yue"@.len());
    assert(target_lang != "en"@);
    law_chinese_answer_cut_at_note(lines(s), false, i);
}

// ── Resuming a download ───────────────────────────────────────────────────────

/// A partial file is appended to only when something was downloaded and the
/// server answers 206; any other success answer, 200 among them, restarts
/// the download from the beginning, and only 416 after a partial download
/// means it was complete.
pub proof fn law_only_partial_content_resumes(existing: u64, status: u16)
    ensures
        resume_decision_spec(existing, status) == ResumeDecision::Resume <==> (existing > 0 && status == 206),
        200 <= status <= 299 && !(existing > 0 && status == 206) ==> resume_decision_spec(existing, status)
            == ResumeDecision::Restart,
        resume_decision_spec(existing, status) == ResumeDecision::AlreadyComplete <==> (existing > 0 && status
            == 416),
        !(200 <= status <= 299) && !(existing > 0 && status == 416) ==> resume_decision_spec(existing, status)
            == ResumeDecision::Fail,
{
}

// ── Stitching Whisper windows ignores case and punctuation ────────────────────

/// An overlap that is removable at `k` words is found by a search from any
/// length of at least `k`.
proof fn lemma_overlap_from_at_least(pw: Seq<Seq<char>>, nw: Seq<Seq<char>>, len: int, k: int)
    requires
        1 <= k <= len,
        overlap_removable(pw, nw, k),
    ensures
        overlap_from(pw, nw, len) >= k,
    decreases len,
{
    if !overlap_removable(pw, nw, len) {
        lemma_overlap_from_at_least(pw, nw, len - 1, k);
    }
}

/// Words count as the same when they agree once lowercased and stripped to
/// letters, digits and apostrophes: when the last `k` (two to twelve) words
/// of `prev` so agree with the first `k` words of `next`, at least those `k`
/// words are cut from `next`, and the rest is rejoined with single spaces.
pub proof fn law_stitching_ignores_case_and_punctuation(prev: Seq<char>, next: Seq<char>, k: int)
    requires
        2 <= k <= 12,
        k <= words(prev).len(),
        k <= words(next).len(),
        forall|j: int|
            0 <= j < k ==> #[trigger] folded(words(prev)[words(prev).len() - k + j], true) == folded(
                words(next)[j],
                true,
            ),
    ensures
        exists|c: int|
            k <= c <= words(next).len() && #[trigger] trim(join(words(next).skip(c), " "@)) == overlap_stripped(
                prev,
                next,
            ),
{
    let pw = words(prev);
    let nw = words(next);
    assert(words_overlap(pw, nw, k)) by {
        assert forall|j: int| 0 <= j < k implies #[trigger] word_key(pw[pw.len() - k + j]) == word_key(nw[j]) by {
            assert(folded(pw[pw.len() - k + j], true) == folded(nw[j], true));
        }
    }
    let lim = overlap_limit(pw.len(), nw.len());
    assert(k <= lim);
    lemma_overlap_from_at_least(pw, nw, lim, k);
    lemma_overlap_from(pw, nw, lim);
    let c = overlap_from(pw, nw, lim);
    assert(trim(join(nw.skip(c), " "@)) == overlap_stripped(prev, next));
}

// ── Clock times in exports ────────────────────────────────────────────────────

/// `h` hours, `m` minutes and `s` seconds as a clock: `hh:mm:ss`, or `mm:ss`
/// under an hour.
pub open spec fn hms(h: int, m: int, s: int) -> Seq<char> {
    if h > 0 {
        padded(h as nat, 2) + ":"@ + padded(m as nat, 2) + ":"@ + padded(s as nat, 2)
    } else {
        padded(m as nat, 2) + ":"@ + padded(s as nat, 2)
    }
}

/// A time of `h` hours, `m` minutes, `s` seconds and `r` milliseconds
/// reads as [`hms`] of them; the milliseconds are dropped.
pub proof fn law_clock_text_reads_hours_minutes_seconds(h: int, m: int, s: int, r: int)
    requires
        0 <= h,
        0 <= m < 60,
        0 <= s < 60,
        0 <= r < 1000,
    ensures
        clock_text(((h * 60 + m) * 60 + s) * 1000 + r) == hms(h, m, s),
{
    let t: int = (h * 60 + m) * 60 + s;
    let ms: int = t * 1000 + r;
    assert(t >= 0 && t == h * 3600 + (m * 60 + s)) by (nonlinear_arith)
        requires
            h >= 0,
            m >= 0,
            s >= 0,
            t == (h * 60 + m) * 60 + s,
    ;
    vstd::arithmetic::div_mod::lemma_fundamental_div_mod_converse(ms, 1000, t, r);
    vstd::arithmetic::div_mod::lemma_fundamental_div_mod_converse(t, 3600, h, m * 60 + s);
    vstd::arithmetic::div_mod::lemma_fundamental_div_mod_converse(m * 60 + s, 60, m, s);
    vstd::arithmetic::div_mod::lemma_fundamental_div_mod_converse(t, 60, h * 60 + m, s);
}

/// With a known duration of `d` milliseconds, the duration line of a
/// Markdown export is the clock text of `d` itself: `h` hours, `m` minutes
/// and `s` seconds show as [`hms`] of them.
pub proof fn law_markdown_shows_duration(
    title: Seq<char>,
    created_at: Seq<char>,
    segs: Seq<RecordingSegment>,
    h: int,
    m: int,
    s: int,
    r: int,
)
    requires
        0 <= h,
        0 <= m < 60,
        0 <= s < 60,
        0 <= r < 1000,
        ((h * 60 + m) * 60 + s) * 1000 + r <= i64::MAX,
    ensures
        markdown_export(title, created_at, Some((((h * 60 + m) * 60 + s) * 1000 + r) as i64), segs) == "# "@
            + title + "\n\n- 创建时间："@ + created_at + "\n- 时长："@ + hms(h, m, s) + "\n\n---\n\n"@ + body_of(
            segs,
            true,
        ),
{
    law_clock_text_reads_hours_minutes_seconds(h, m, s, r);
    let d = ((h * 60 + m) * 60 + s) * 1000 + r;
    assert(d >= 0) by (nonlinear_arith)
        requires
            h >= 0,
            m >= 0,
            s >= 0,
            r >= 0,
            d == ((h * 60 + m) * 60 + s) * 1000 + r,
    ;
    assert((d as i64) as int == d);
}


// ── Restoring numbers ─────────────────────────────────────────────────────────

/// `t` from position `i` on, with its numeric tokens replaced in turn by
/// the strings of `es` (a token past the end of `es` stays); everything
/// between the tokens is kept.
pub open spec fn numbers_replaced_from(t: Seq<char>, i: int, es: Seq<Seq<char>>) -> Seq<char>
    decreases t.len() - i,
{
    if i < 0 || i >= t.len() {
        seq![]
    } else if is_digit(t[i]) {
        let e = number_end(t, i + 1);
        proof {
            lemma_number_end(t, i + 1);
        }
        if es.len() > 0 {
            es[0] + numbers_replaced_from(t, e, es.skip(1))
        } else {
            t.subrange(i, e) + numbers_replaced_from(t, e, es)
        }
    } else {
        seq![t[i]] + numbers_replaced_from(t, i + 1, es)
    }
}

/// `t` with its `k`-th numeric token replaced by `es[k]`, in place.
pub open spec fn numbers_replaced(t: Seq<char>, es: Seq<Seq<char>>) -> Seq<char> {
    numbers_replaced_from(t, 0, es)
}

/// With nothing to replace, the text stays as it is.
proof fn lemma_numbers_replaced_none(t: Seq<char>, i: int)
    requires
        0 <= i <= t.len(),
    ensures
        numbers_replaced_from(t, i, seq![]) == t.skip(i),
    decreases t.len() - i,
{
    if i < t.len() {
        if is_digit(t[i]) {
            let e = number_end(t, i + 1);
            lemma_number_end(t, i + 1);
            lemma_numbers_replaced_none(t, e);
            assert(t.subrange(i, e) + t.skip(e) =~= t.skip(i));
        } else {
            lemma_numbers_replaced_none(t, i + 1);
            assert(seq![t[i]] + t.skip(i + 1) =~= t.skip(i));
        }
    } else {
        assert(t.skip(i) =~= Seq::<char>::empty());
    }
}

/// From `i`, the next numeric token starts at the first digit `p`: the
/// characters before it are no digits and are kept.
proof fn lemma_next_number(t: Seq<char>, i: int, es: Seq<Seq<char>>) -> (p: int)
    requires
        0 <= i <= t.len(),
        numeric_tokens_from(t, i).len() > 0,
    ensures
        i <= p < t.len(),
        is_digit(t[p]),
        forall|q: int| i <= q < p ==> !is_digit(#[trigger] t[q]),
        numeric_tokens_from(t, i) == numeric_tokens_from(t, p),
        numbers_replaced_from(t, i, es) == t.subrange(i, p) + numbers_replaced_from(t, p, es),
    decreases t.len() - i,
{
    if is_digit(t[i]) {
        assert(t.subrange(i, i) =~= Seq::<char>::empty());
        i
    } else {
        let p = lemma_next_number(t, i + 1, es);
        assert(seq![t[i]] + (t.subrange(i + 1, p) + numbers_replaced_from(t, p, es)) =~= t.subrange(i, p)
            + numbers_replaced_from(t, p, es));
        p
    }
}

/// Restoring from the `k`-th number on, over text `pre` already settled
/// followed by `t` past position `i`, where the numbers of `t` past `i` are
/// the `actual` ones from the `k`-th: each of them is found where it stands
/// and replaced by the `expected` one in place.
proof fn lemma_restore_in_place(
    pre: Seq<char>,
    t: Seq<char>,
    i: int,
    expected: Seq<Seq<char>>,
    actual: Seq<Seq<char>>,
    k: int,
)
    requires
        0 <= i <= t.len(),
        0 <= k <= expected.len(),
        expected.len() == actual.len(),
        actual.skip(k) == numeric_tokens_from(t, i),
    ensures
        restore_from(pre + t.skip(i), pre.len() as int, expected, actual, k) == Some(
            pre + numbers_replaced_from(t, i, expected.skip(k)),
        ),
    decreases t.len() - i,
{
    let r = pre + t.skip(i);
    if k == expected.len() {
        assert(expected.skip(k) =~= Seq::<Seq<char>>::empty());
        lemma_numbers_replaced_none(t, i);
    } else {
        assert(actual.skip(k)[0] == actual[k]);
        let es = expected.skip(k);
        let p = lemma_next_number(t, i, es);
        let e = number_end(t, p + 1);
        lemma_number_end(t, p + 1);
        assert(numeric_tokens_from(t, p) == seq![t.subrange(p, e)] + numeric_tokens_from(t, e));
        assert(actual[k] == t.subrange(p, e));
        assert(actual.skip(k + 1) =~= actual.skip(k).skip(1));
        assert(actual.skip(k + 1) == numeric_tokens_from(t, e));
        let st = pre.len() + (p - i);
        let a = actual[k];
        assert(r.subrange(st, st + a.len()) =~= a);
        assert forall|j: int| pre.len() <= j < st implies !occurs_at(r, a, j) by {
            assert(r[j] == t[i + (j - pre.len())]);
            assert(!is_digit(t[i + (j - pre.len())]));
            if occurs_at(r, a, j) {
                assert(r.subrange(j, j + a.len())[0] == r[j]);
                assert(a[0] == t[p]);
            }
        }
        lemma_find_spec_unique(r, a, pre.len() as int, Some(st));
        let pre2 = pre + t.subrange(i, p) + expected[k];
        let r2 = if expected[k] == actual[k] {
            r
        } else {
            r.take(st) + expected[k] + r.skip(st + a.len())
        };
        assert(r2 =~= pre2 + t.skip(e));
        lemma_restore_in_place(pre2, t, e, expected, actual, k + 1);
        assert(es[0] == expected[k]);
        assert(es.skip(1) =~= expected.skip(k + 1));
        assert(numbers_replaced_from(t, p, es) == expected[k] + numbers_replaced_from(t, e, es.skip(1)));
        assert(pre2 + numbers_replaced_from(t, e, expected.skip(k + 1)) =~= pre + numbers_replaced_from(
            t,
            i,
            es,
        ));
    }
}

/// Numbers are restored in place: when the source and the translation hold
/// the same nonzero number of numeric tokens, the result is the translation
/// with its `k`-th number replaced by the source's `k`-th, and every other
/// character kept where it was; otherwise the translation is left as it is.
pub proof fn law_numbers_restored_in_place(source: Seq<char>, translated: Seq<char>)
    ensures
        restore_numeric(source, translated) == if numeric_tokens(source).len() == 0 || numeric_tokens(
            source,
        ).len() != numeric_tokens(translated).len() {
            translated
        } else {
            numbers_replaced(translated, numeric_tokens(source))
        },
{
    let s = numeric_tokens(source);
    let t = numeric_tokens(translated);
    if s.len() > 0 && s.len() == t.len() {
        assert(t.skip(0) =~= t);
        assert(s.skip(0) =~= s);
        assert(Seq::<char>::empty() + translated.skip(0) =~= translated);
        lemma_restore_in_place(Seq::<char>::empty(), translated, 0, s, t, 0);
        assert(Seq::<char>::empty() + numbers_replaced_from(translated, 0, s) =~= numbers_replaced(translated, s));
    }
}

/// A decimal point or thousands separator, which a number goes on over
/// when a digit follows.
pub open spec fn number_separator(c: char) -> bool {
    c == '.' || c == ','
}

/// The shape of a numeric token: it starts and ends with a digit, and each
/// other character is a digit or a separator followed by a digit.
pub open spec fn token_shaped(w: Seq<char>) -> bool {
    &&& w.len() > 0
    &&& is_digit(w[0])
    &&& is_digit(w.last())
    &&& forall|j: int|
        1 <= j < w.len() - 1 ==> is_digit(#[trigger] w[j]) || (number_separator(w[j]) && is_digit(w[j + 1]))
}

/// A number does not go on at `e`: the text ends, or neither a digit nor a
/// separator followed by a digit stands there.
pub open spec fn number_stops(s: Seq<char>, e: int) -> bool {
    e >= s.len() || (!is_digit(s[e]) && !(number_separator(s[e]) && e + 1 < s.len() && is_digit(s[e + 1])))
}

proof fn lemma_number_end_shape(s: Seq<char>, j: int)
    requires
        0 <= j <= s.len(),
    ensures
        number_stops(s, number_end(s, j)),
        forall|q: int|
            j <= q < number_end(s, j) ==> is_digit(#[trigger] s[q]) || (number_separator(s[q]) && q + 1
                < number_end(s, j) && is_digit(s[q + 1])),
    decreases s.len() - j,
{
    lemma_number_end(s, j);
    if j < s.len() {
        if is_digit(s[j]) || (j + 1 < s.len() && number_separator(s[j]) && is_digit(s[j + 1])) {
            lemma_number_end_shape(s, j + 1);
            lemma_number_end(s, j + 1);
            if !is_digit(s[j]) {
                lemma_number_end(s, j + 2);
                assert(number_end(s, j + 1) == number_end(s, j + 2));
            }
        }
    }
}

proof fn lemma_tokens_shaped(s: Seq<char>, i: int)
    requires
        0 <= i <= s.len(),
    ensures
        forall|k: int|
            0 <= k < numeric_tokens_from(s, i).len() ==> token_shaped(#[trigger] numeric_tokens_from(s, i)[k]),
    decreases s.len() - i,
{
    if i < s.len() {
        if is_digit(s[i]) {
            let e = number_end(s, i + 1);
            lemma_number_end_shape(s, i + 1);
            lemma_number_end(s, i + 1);
            lemma_tokens_shaped(s, e);
            let w = s.subrange(i, e);
            assert forall|j: int| 1 <= j < w.len() - 1 implies is_digit(#[trigger] w[j]) || (number_separator(
                w[j],
            ) && is_digit(w[j + 1])) by {
                assert(w[j] == s[i + j]);
                assert(w[j + 1] == s[i + j + 1]);
            }
            assert(w.last() == s[e - 1]);
            assert(token_shaped(w));
            let all = numeric_tokens_from(s, i);
            assert(all == seq![w] + numeric_tokens_from(s, e));
            assert forall|k: int| 0 <= k < all.len() implies token_shaped(#[trigger] all[k]) by {
                if k > 0 {
                    assert(all[k] == numeric_tokens_from(s, e)[k - 1]);
                }
            }
        } else {
            lemma_tokens_shaped(s, i + 1);
            assert(numeric_tokens_from(s, i) == numeric_tokens_from(s, i + 1));
        }
    } else {
        assert(numeric_tokens_from(s, i).len() == 0);
    }
}

proof fn lemma_number_end_shift(x: Seq<char>, y: Seq<char>, j: int)
    requires
        0 <= j <= y.len(),
    ensures
        number_end(x + y, x.len() + j) == x.len() + number_end(y, j),
    decreases y.len() - j,
{
    let s = x + y;
    if j < y.len() {
        assert(s[x.len() + j] == y[j]);
        if j + 1 < y.len() {
            assert(s[x.len() + j + 1] == y[j + 1]);
        }
        lemma_number_end_shift(x, y, j + 1);
    }
}

proof fn lemma_tokens_shift(x: Seq<char>, y: Seq<char>, j: int)
    requires
        0 <= j <= y.len(),
    ensures
        numeric_tokens_from(x + y, x.len() + j) == numeric_tokens_from(y, j),
    decreases y.len() - j,
{
    let s = x + y;
    if j < y.len() {
        assert(s[x.len() + j] == y[j]);
        if is_digit(y[j]) {
            let e = number_end(y, j + 1);
            lemma_number_end(y, j + 1);
            lemma_number_end_shift(x, y, j + 1);
            assert(s.subrange(x.len() + j, x.len() + e) =~= y.subrange(j, e));
            lemma_tokens_shift(x, y, e);
        } else {
            lemma_tokens_shift(x, y, j + 1);
        }
    }
}

proof fn lemma_number_end_in_shaped(w: Seq<char>, y: Seq<char>, j: int)
    requires
        token_shaped(w),
        number_stops(y, 0),
        1 <= j <= w.len(),
    ensures
        number_end(w + y, j) == w.len(),
    decreases w.len() - j,
{
    let s = w + y;
    if j < w.len() {
        assert(s[j] == w[j]);
        if j + 1 < w.len() {
            assert(s[j + 1] == w[j + 1]);
        }
        if j == w.len() - 1 {
            assert(is_digit(w[j]));
        }
        lemma_number_end_in_shaped(w, y, j + 1);
    } else {
        if y.len() > 0 {
            assert(s[j] == y[0]);
            if y.len() > 1 {
                assert(s[j + 1] == y[1]);
            }
        }
    }
}

/// Replacing the numbers of `t` from `i` by token-shaped strings, one for
/// each number there, leaves exactly those strings as the numbers.
proof fn lemma_numbers_of_replaced(t: Seq<char>, i: int, es: Seq<Seq<char>>)
    requires
        0 <= i <= t.len(),
        es.len() == numeric_tokens_from(t, i).len(),
        forall|k: int| 0 <= k < es.len() ==> token_shaped(#[trigger] es[k]),
    ensures
        numeric_tokens_from(numbers_replaced_from(t, i, es), 0) == es,
    decreases t.len() - i,
{
    let r = numbers_replaced_from(t, i, es);
    if i >= t.len() {
        assert(es =~= Seq::<Seq<char>>::empty());
    } else if is_digit(t[i]) {
        let e = number_end(t, i + 1);
        lemma_number_end_shape(t, i + 1);
        lemma_number_end(t, i + 1);
        assert(numeric_tokens_from(t, i) == seq![t.subrange(i, e)] + numeric_tokens_from(t, e));
        let rest = es.skip(1);
        assert forall|k: int| 0 <= k < rest.len() implies token_shaped(#[trigger] rest[k]) by {
            assert(rest[k] == es[k + 1]);
        }
        lemma_numbers_of_replaced(t, e, rest);
        let r2 = numbers_replaced_from(t, e, rest);
        let w = es[0];
        assert(token_shaped(w));
        assert(r == w + r2);
        assert(number_stops(r2, 0)) by {
            if e < t.len() {
                assert(r2 == seq![t[e]] + numbers_replaced_from(t, e + 1, rest));
                if number_separator(t[e]) && e + 1 < t.len() {
                    assert(!is_digit(t[e + 1]));
                    assert(numbers_replaced_from(t, e + 1, rest) == seq![t[e + 1]] + numbers_replaced_from(
                        t,
                        e + 2,
                        rest,
                    ));
                    assert(r2[1] == t[e + 1]);
                } else if number_separator(t[e]) {
                    assert(numbers_replaced_from(t, e + 1, rest) =~= Seq::<char>::empty());
                }
            }
        }
        lemma_number_end_in_shaped(w, r2, 1);
        assert(r[0] == w[0]);
        assert(r.subrange(0, w.len() as int) =~= w);
        lemma_tokens_shift(w, r2, 0);
        assert(numeric_tokens_from(r, 0) == seq![w] + numeric_tokens_from(r2, 0));
        assert(seq![w] + rest =~= es);
    } else {
        lemma_numbers_of_replaced(t, i + 1, es);
        let r1 = numbers_replaced_from(t, i + 1, es);
        assert(r == seq![t[i]] + r1);
        assert(r[0] == t[i]);
        lemma_tokens_shift(seq![t[i]], r1, 0);
    }
}

/// When numbers are restored, the result's numbers are exactly the
/// source's, in order.
pub proof fn law_restored_numbers_are_the_source_numbers(source: Seq<char>, translated: Seq<char>)
    requires
        numeric_tokens(source).len() > 0,
        numeric_tokens(source).len() == numeric_tokens(translated).len(),
    ensures
        numeric_tokens(restore_numeric(source, translated)) == numeric_tokens(source),
{
    law_numbers_restored_in_place(source, translated);
    lemma_tokens_shaped(source, 0);
    lemma_numbers_of_replaced(translated, 0, numeric_tokens(source));
}
} // verus!
