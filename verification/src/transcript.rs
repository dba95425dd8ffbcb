//! Decisions of the live transcription worker: which text a chunk yields,
//! how consecutive Whisper windows are stitched together, and when a final
//! decode is distrusted in favour of an earlier partial one.
use std::collections::HashMap;
use vstd::prelude::*;

use crate::text::{
    chars_of, count_non_ws, fold_range, folded, is_blank, join, join_ranges, non_ws_count, padded,
    pieces, push_padded, push_str, ranges_within, starts_with, string_of, trim, trimmed, vec_eq,
    vec_starts_with,
    word_ranges, words,
};

verus! {

// ── Scores and comparisons ────────────────────────────────────────────────────

/// How much a transcript says: eight points per word plus one per
/// non-whitespace character.
pub open spec fn information_score(s: Seq<char>) -> int {
    (words(s).len() * 8 + count_non_ws(s)) as int
}

/// Rough information score used to remember the most complete partial
/// snapshot of a segment ([`information_score`]).
pub fn transcript_information_score(text: &str) -> (r: u128)
    ensures
        r == information_score(text@),
{
    let v = chars_of(text);
    let w = word_ranges(&v).len();
    let c = non_ws_count(&v);
    (w as u128) * 8 + (c as u128)
}

/// Whether a final decode obviously regressed against the best partial: the
/// trimmed partial is kept over a blank final; otherwise only an informative
/// partial (four words or 24 characters) is protected, and only when the
/// final kept less than 60% of its words and 65% of its characters, or
/// collapsed to at most two words while the partial had six or more.
pub open spec fn keeps_partial(partial: Seq<char>, final_text: Seq<char>) -> bool {
    let p = trim(partial);
    let f = trim(final_text);
    if p.len() == 0 || f.len() == 0 {
        p.len() > 0 && f.len() == 0
    } else {
        let pw = words(p).len();
        let fw = words(f).len();
        let pc = count_non_ws(p);
        let fc = count_non_ws(f);
        if pw < 4 && pc < 24 {
            false
        } else {
            (fw * 100 < pw * 60 && fc * 100 < pc * 65) || (fw <= 2 && pw >= 6)
        }
    }
}

/// Whether to keep the best partial decode of a segment over its final
/// decode ([`keeps_partial`]).
pub fn should_keep_partial_over_final(partial: &str, final_text: &str) -> (r: bool)
    ensures
        r == keeps_partial(partial@, final_text@),
{
    let pv = chars_of(partial);
    let fv = chars_of(final_text);
    let p = trimmed(&pv);
    let f = trimmed(&fv);
    if p.len() == 0 || f.len() == 0 {
        return p.len() > 0 && f.len() == 0;
    }
    let pw = word_ranges(&p).len() as u128;
    let fw = word_ranges(&f).len() as u128;
    let pc = non_ws_count(&p) as u128;
    let fc = non_ws_count(&f) as u128;
    if pw < 4 && pc < 24 {
        return false;
    }
    (fw * 100 < pw * 60 && fc * 100 < pc * 65) || (fw <= 2 && pw >= 6)
}

// ── Overlap between consecutive Whisper windows ───────────────────────────────

/// Key under which two words count as the same: letters, digits and
/// apostrophes, lowercased.
pub open spec fn word_key(w: Seq<char>) -> Seq<char> {
    folded(w, true)
}

/// The last `len` words of `pw` match the first `len` words of `nw`.
pub open spec fn words_overlap(pw: Seq<Seq<char>>, nw: Seq<Seq<char>>, len: int) -> bool {
    forall|i: int| 0 <= i < len ==> #[trigger] word_key(pw[pw.len() - len + i]) == word_key(nw[i])
}

/// An overlap of `len` words that may be removed: at least two words, or
/// one word whose key has six or more characters.
pub open spec fn overlap_removable(pw: Seq<Seq<char>>, nw: Seq<Seq<char>>, len: int) -> bool {
    words_overlap(pw, nw, len) && (len >= 2 || (len == 1 && word_key(nw[0]).len() >= 6))
}

/// The longest removable overlap of at most `len` words (0 when none).
pub open spec fn overlap_from(pw: Seq<Seq<char>>, nw: Seq<Seq<char>>, len: int) -> int
    decreases len,
{
    if len <= 0 {
        0
    } else if overlap_removable(pw, nw, len) {
        len
    } else {
        overlap_from(pw, nw, len - 1)
    }
}

/// Longest overlap that is searched for.
pub const MAX_OVERLAP_WORDS: usize = 12;

/// The most words an overlap between word lists of these lengths can have.
pub open spec fn overlap_limit(a: nat, b: nat) -> int {
    let m = if a < b { a } else { b };
    if m < MAX_OVERLAP_WORDS { m as int } else { MAX_OVERLAP_WORDS as int }
}

/// `next` without the words that repeat the end of `prev`: the longest
/// removable overlap of at most twelve words is cut and the rest rejoined
/// with single spaces; with no such overlap, `next` trimmed.
pub open spec fn overlap_stripped(prev: Seq<char>, next: Seq<char>) -> Seq<char> {
    let pw = words(prev);
    let nw = words(next);
    let k = overlap_from(pw, nw, overlap_limit(pw.len(), nw.len()));
    if k == 0 {
        trim(next)
    } else {
        trim(join(nw.skip(k), " "@))
    }
}

/// What [`overlap_from`] returns lies within `0..=len`, and a positive
/// answer is a removable overlap.
pub proof fn lemma_overlap_from(pw: Seq<Seq<char>>, nw: Seq<Seq<char>>, len: int)
    ensures
        len >= 0 ==> 0 <= overlap_from(pw, nw, len) <= len,
        overlap_from(pw, nw, len) > 0 ==> overlap_removable(pw, nw, overlap_from(pw, nw, len)),
    decreases len,
{
    if len > 0 && !overlap_removable(pw, nw, len) {
        lemma_overlap_from(pw, nw, len - 1);
    }
}

fn words_overlap_at(
    pv: &Vec<char>,
    pr: &Vec<(usize, usize)>,
    nv: &Vec<char>,
    nr: &Vec<(usize, usize)>,
    len: usize,
) -> (r: bool)
    requires
        ranges_within(pr@, pv@.len() as int),
        ranges_within(nr@, nv@.len() as int),
        len <= pr@.len(),
        len <= nr@.len(),
    ensures
        r == words_overlap(pieces(pv@, pr@), pieces(nv@, nr@), len as int),
{
    let ghost pw = pieces(pv@, pr@);
    let ghost nw = pieces(nv@, nr@);
    let base = pr.len() - len;
    let mut i: usize = 0;
    while i < len
        invariant
            ranges_within(pr@, pv@.len() as int),
            ranges_within(nr@, nv@.len() as int),
            pw == pieces(pv@, pr@),
            nw == pieces(nv@, nr@),
            len <= pr@.len() <= usize::MAX,
            len <= nr@.len(),
            base == pr@.len() - len,
            i <= len,
            forall|j: int| 0 <= j < i ==> #[trigger] word_key(pw[pw.len() - len + j]) == word_key(nw[j]),
        decreases len - i,
    {
        let (a, b) = pr[base + i];
        let (c, d) = nr[i];
        assert(pr@[base + i].0 <= pr@[base + i].1 <= pv@.len());
        assert(nr@[i as int].0 <= nr@[i as int].1 <= nv@.len());
        let ka = fold_range(pv, a, b, true);
        let kb = fold_range(nv, c, d, true);
        assert(pw[pw.len() - len + i] == pv@.subrange(a as int, b as int));
        assert(nw[i as int] == nv@.subrange(c as int, d as int));
        if !vec_eq(&ka, &kb) {
            assert(word_key(pw[pw.len() - len + i]) != word_key(nw[i as int]));
            return false;
        }
        i += 1;
    }
    true
}

/// Removes the text that two consecutive finalised Whisper windows share
/// ([`overlap_stripped`]). Two matching words, or one long word, are needed,
/// so that a short genuine repetition such as "no, no" stays.
pub fn strip_whisper_cross_segment_overlap(prev: &str, next: &str) -> (r: String)
    ensures
        r@ == overlap_stripped(prev@, next@),
{
    let pv = chars_of(prev);
    let nv = chars_of(next);
    let pr = word_ranges(&pv);
    let nr = word_ranges(&nv);
    let ghost pw = words(prev@);
    let ghost nw = words(next@);
    let m = if pr.len() < nr.len() { pr.len() } else { nr.len() };
    let max = if m < MAX_OVERLAP_WORDS { m } else { MAX_OVERLAP_WORDS };
    assert(pw.len() == pr@.len() && nw.len() == nr@.len());
    let ghost spec_max: int = overlap_limit(pw.len(), nw.len());
    assert(spec_max == max);
    let mut len = max;
    while len > 0
        invariant
            pv@ == prev@,
            nv@ == next@,
            pw == pieces(pv@, pr@),
            nw == pieces(nv@, nr@),
            pw == words(prev@),
            nw == words(next@),
            spec_max == max,
            spec_max == overlap_limit(pw.len(), nw.len()),
            ranges_within(pr@, pv@.len() as int),
            ranges_within(nr@, nv@.len() as int),
            len <= max <= pr@.len(),
            max <= nr@.len(),
            overlap_from(pw, nw, max as int) == overlap_from(pw, nw, len as int),
        decreases len,
    {
        if words_overlap_at(&pv, &pr, &nv, &nr, len) {
            let safe_single = if len == 1 {
                let (c, d) = nr[0];
                assert(nr@[0].0 <= nr@[0].1 <= nv@.len());
                assert(nw[0] == nv@.subrange(c as int, d as int));
                fold_range(&nv, c, d, true).len() >= 6
            } else {
                false
            };
            if len >= 2 || safe_single {
                assert(overlap_removable(pw, nw, len as int));
                assert(overlap_from(pw, nw, len as int) == len);
                let mut rest: Vec<(usize, usize)> = Vec::new();
                let mut k = len;
                while k < nr.len()
                    invariant
                        len <= k <= nr@.len(),
                        ranges_within(nr@, nv@.len() as int),
                        rest@ == nr@.subrange(len as int, k as int),
                    decreases nr@.len() - k,
                {
                    rest.push(nr[k]);
                    k += 1;
                }
                proof {
                    assert(nr@.subrange(len as int, nr@.len() as int) == nr@.skip(len as int));
                    assert forall|j: int| 0 <= j < rest@.len() implies #[trigger] pieces(nv@, rest@)[j]
                        == nw.skip(len as int)[j] by {
                        assert(rest@[j] == nr@[len + j]);
                    }
                    assert(pieces(nv@, rest@) =~= nw.skip(len as int));
                    assert forall|j: int| 0 <= j < rest@.len() implies #[trigger] rest@[j].0 <= rest@[j].1
                        <= nv@.len() by {
                        assert(rest@[j] == nr@[len + j]);
                    }
                }
                let joined = join_ranges(&nv, &rest, " ");
                assert(overlap_from(pw, nw, spec_max) == len);
                let out = trimmed(&joined);
                return string_of(&out);
            }
        }
        len -= 1;
    }
    let out = trimmed(&nv);
    string_of(&out)
}

// ── Wall-clock stamps ─────────────────────────────────────────────────────────

/// `HH:MM:SS` of the time of day, in UTC, `secs` seconds after the epoch.
pub open spec fn clock_stamp(secs: nat) -> Seq<char> {
    padded((secs / 3600) % 24, 2) + ":"@ + padded((secs / 60) % 60, 2) + ":"@ + padded(secs % 60, 2)
}

/// Formats the time of day of a Unix timestamp in seconds as `HH:MM:SS`
/// ([`clock_stamp`]); the caller reads the clock.
pub fn format_current_timestamp(now_secs: u64) -> (r: String)
    ensures
        r@ == clock_stamp(now_secs as nat),
{
    let mut out: Vec<char> = Vec::new();
    push_padded(&mut out, (now_secs / 3600) % 24, 2);
    push_str(&mut out, ":");
    push_padded(&mut out, (now_secs / 60) % 60, 2);
    push_str(&mut out, ":");
    push_padded(&mut out, now_secs % 60, 2);
    string_of(&out)
}

// ── The live worker ───────────────────────────────────────────────────────────

/// Bit of a chunk id that marks a Whisper live-preview chunk as partial (the
/// high bit); the other bits name the segment and stay the same from its
/// partial snapshots to its final decode.
pub const WHISPER_PARTIAL_CHUNK_FLAG: u64 = 0x8000_0000_0000_0000;

/// Counters shared by all recording sessions: the next sequence number given
/// to a non-Whisper chunk, and whether speech has been announced since the
/// flag was last reset.
pub struct SessionCounters {
    pub next_sequence: u64,
    pub speech_detected_emitted: bool,
}

impl SessionCounters {
    /// Counters at start-up: sequence numbers from 0, no speech announced.
    pub fn new() -> (r: Self)
        ensures
            r.next_sequence == 0,
            !r.speech_detected_emitted,
    {
        SessionCounters { next_sequence: 0, speech_detected_emitted: false }
    }

    /// Takes the next sequence number; the counter wraps around at the top.
    pub fn take_sequence(&mut self) -> (r: u64)
        ensures
            r == old(self).next_sequence,
            final(self).next_sequence == if old(self).next_sequence == u64::MAX {
                0
            } else {
                (old(self).next_sequence + 1) as u64
            },
            final(self).speech_detected_emitted == old(self).speech_detected_emitted,
    {
        let r = self.next_sequence;
        self.next_sequence = if r == u64::MAX { 0 } else { r + 1 };
        r
    }

    /// Whether speech is to be announced now: only the first time since the
    /// flag was reset. The flag is set either way.
    pub fn announce_speech(&mut self) -> (r: bool)
        ensures
            (r, final(self).speech_detected_emitted) == speech_announcement(
                old(self).speech_detected_emitted,
            ),
            final(self).next_sequence == old(self).next_sequence,
    {
        let r = !self.speech_detected_emitted;
        self.speech_detected_emitted = true;
        r
    }
}

/// Whether speech is announced, and the flag afterwards, given the flag.
pub open spec fn speech_announcement(emitted: bool) -> (bool, bool) {
    (!emitted, true)
}

/// Clears the speech-detected flag for a new recording session; the
/// sequence counter is left alone.
pub fn reset_speech_detected_flag(counters: &mut SessionCounters)
    ensures
        !final(counters).speech_detected_emitted,
        final(counters).next_sequence == old(counters).next_sequence,
{
    counters.speech_detected_emitted = false;
}

/// Longest chunk handed to SenseVoice at once: 15 s at 16 kHz.
pub const MAX_TRANSCRIPTION_SEGMENT_SAMPLES: usize = 15 * 16000;

/// Longest Whisper live chunk: 29 s at 16 kHz, below Whisper's 30 s window,
/// so that a live snapshot is not split into a long part and a tiny tail
/// that shares its sequence number.
pub const MAX_WHISPER_TRANSCRIPTION_SEGMENT_SAMPLES: usize = 29 * 16000;

/// Most 16 kHz samples a chunk may hold before it is split at low-energy
/// points.
pub fn segment_sample_limit(whisper_live_mode: bool) -> (r: usize)
    ensures
        r == if whisper_live_mode {
            MAX_WHISPER_TRANSCRIPTION_SEGMENT_SAMPLES
        } else {
            MAX_TRANSCRIPTION_SEGMENT_SAMPLES
        },
{
    if whisper_live_mode {
        MAX_WHISPER_TRANSCRIPTION_SEGMENT_SAMPLES
    } else {
        MAX_TRANSCRIPTION_SEGMENT_SAMPLES
    }
}

/// State of one transcription worker: whether the model is a Whisper model
/// in live mode, the last final text it emitted, and the most informative
/// partial snapshot seen for each open segment.
pub struct LiveWorker {
    pub whisper_live_mode: bool,
    pub last_final_text: String,
    pub best_partials: HashMap<u64, String>,
}

/// The text of a chunk after the overlap with the last final window is cut
/// (Whisper live mode only, once a final text exists).
pub open spec fn stitched(live: bool, last: Seq<char>, text: Seq<char>) -> Seq<char> {
    if live && last.len() > 0 {
        overlap_stripped(last, text)
    } else {
        text
    }
}

/// Best partial snapshots after a chunk of segment `seq` with text `t`: a
/// non-blank partial replaces the stored one when there is none or it says
/// more; a final closes the segment.
pub open spec fn partials_after(
    live: bool,
    parts: Map<u64, Seq<char>>,
    seq: u64,
    partial: bool,
    t: Seq<char>,
) -> Map<u64, Seq<char>> {
    if live && partial {
        if (!parts.contains_key(seq) || information_score(t) > information_score(parts[seq])) && trim(
            t,
        ).len() > 0 {
            parts.insert(seq, t)
        } else {
            parts
        }
    } else if live && parts.contains_key(seq) {
        parts.remove(seq)
    } else {
        parts
    }
}

/// The text a chunk settles on: for a Whisper final, the stored best
/// partial when [`keeps_partial`] says the final regressed; otherwise `t`.
pub open spec fn settled_text(
    live: bool,
    parts: Map<u64, Seq<char>>,
    seq: u64,
    partial: bool,
    t: Seq<char>,
) -> Seq<char> {
    if live && !partial && parts.contains_key(seq) && keeps_partial(parts[seq], t) {
        parts[seq]
    } else {
        t
    }
}

/// `after` and `out` are what settling `transcript` of segment
/// `sequence_id` makes of the worker `before`: the overlap with the last
/// final text is cut, the partial snapshots are kept up to date, a final
/// that regressed gives way to the best partial, and blank text yields
/// nothing.
pub open spec fn settled(
    before: LiveWorker,
    after: LiveWorker,
    sequence_id: u64,
    requested_partial: bool,
    transcript: Seq<char>,
    provider_partial: bool,
    out: Option<(Seq<char>, bool)>,
) -> bool {
    let live = before.whisper_live_mode;
    let p = provider_partial || requested_partial;
    let t1 = stitched(live, before.last_final_text@, transcript);
    let t2 = settled_text(live, before.partials(), sequence_id, p, t1);
    &&& after.whisper_live_mode == live
    &&& after.partials() == partials_after(
        live,
        before.partials(),
        sequence_id,
        p,
        t1,
    )
    &&& match out {
        Some((t, pp)) => trim(t2).len() > 0 && t == t2 && pp == p,
        None => trim(t2).len() == 0,
    }
    &&& after.last_final_text@ == if trim(t2).len() > 0 && live && !p {
        t2
    } else {
        before.last_final_text@
    }
}

/// The counter after `n`: one more, wrapping around to 0 at the top.
pub open spec fn wrapping_next(n: u64) -> u64 {
    if n == u64::MAX {
        0
    } else {
        (n + 1) as u64
    }
}

/// `r` (sequence number, sent as partial) and the counters `after` are what
/// numbering chunk `chunk_id` gives: in Whisper live mode the chunk id names
/// the segment and its high bit marks a partial; otherwise the shared
/// counter numbers the chunk and moves on.
pub open spec fn numbered(
    live: bool,
    chunk_id: u64,
    before: SessionCounters,
    after: SessionCounters,
    r: (u64, bool),
) -> bool {
    &&& r.1 == (live && (chunk_id & WHISPER_PARTIAL_CHUNK_FLAG) != 0)
    &&& after.speech_detected_emitted == before.speech_detected_emitted
    &&& live ==> r.0 == (chunk_id & !WHISPER_PARTIAL_CHUNK_FLAG) && after.next_sequence == before.next_sequence
    &&& !live ==> r.0 == before.next_sequence && after.next_sequence == wrapping_next(before.next_sequence)
}

/// `after`, the counters `c_after` and `out` (text, partial, announce
/// speech) are what handling `transcript` of segment `sequence_id` gives:
/// the text is [`settled`]; speech is announced along with a text to emit,
/// the first time since the flag was reset; the sequence counter is left
/// alone.
pub open spec fn handled(
    before: LiveWorker,
    after: LiveWorker,
    c_before: SessionCounters,
    c_after: SessionCounters,
    sequence_id: u64,
    requested_partial: bool,
    transcript: Seq<char>,
    provider_partial: bool,
    out: Option<(Seq<char>, bool, bool)>,
) -> bool {
    &&& settled(
        before,
        after,
        sequence_id,
        requested_partial,
        transcript,
        provider_partial,
        match out {
            Some((t, p, _)) => Some((t, p)),
            None => None,
        },
    )
    &&& c_after.next_sequence == c_before.next_sequence
    &&& match out {
        Some((_, _, a)) => (a, c_after.speech_detected_emitted) == speech_announcement(
            c_before.speech_detected_emitted,
        ),
        None => c_after.speech_detected_emitted == c_before.speech_detected_emitted,
    }
}

/// Step `i` of a run of one worker over its chunks: chunk `chunk_ids[i]` is
/// numbered ([`numbered`], counters `counters[i]` to `numbered_counters[i]`),
/// its transcript is handled ([`handled`], worker `workers[i]` to
/// `workers[i + 1]`, counters on to `counters[i + 1]`), and it is counted
/// as queued and then completed.
pub open spec fn transcription_step(
    workers: Seq<LiveWorker>,
    counters: Seq<SessionCounters>,
    numbered_counters: Seq<SessionCounters>,
    chunk_ids: Seq<u64>,
    seqs: Seq<(u64, bool)>,
    transcripts: Seq<Seq<char>>,
    provider_partials: Seq<bool>,
    outs: Seq<Option<(Seq<char>, bool, bool)>>,
    progress: Seq<ChunkProgress>,
    i: int,
) -> bool {
    &&& numbered(workers[i].whisper_live_mode, chunk_ids[i], counters[i], numbered_counters[i], seqs[i])
    &&& handled(
        workers[i],
        workers[i + 1],
        numbered_counters[i],
        counters[i + 1],
        seqs[i].0,
        seqs[i].1,
        transcripts[i],
        provider_partials[i],
        outs[i],
    )
    &&& progress[i + 1].queued == progress[i].queued + 1
    &&& progress[i + 1].completed == progress[i].completed + 1
}

impl LiveWorker {
    /// The stored partial snapshots by segment.
    pub open spec fn partials(&self) -> Map<u64, Seq<char>> {
        self.best_partials@.map_values(|s: String| s@)
    }

    /// A worker for the model `model_name`; Whisper live mode is on for the
    /// models whose name starts with `whisper-`.
    pub fn new(model_name: &str) -> (r: Self)
        ensures
            r.whisper_live_mode == starts_with(model_name@, "whisper-"@),
            r.last_final_text@.len() == 0,
            r.partials() == Map::<u64, Seq<char>>::empty(),
    {
        let v = chars_of(model_name);
        let e: Vec<char> = Vec::new();
        let m: HashMap<u64, String> = HashMap::new();
        let r = LiveWorker {
            whisper_live_mode: vec_starts_with(&v, "whisper-"),
            last_final_text: string_of(&e),
            best_partials: m,
        };
        assert(r.partials() =~= Map::<u64, Seq<char>>::empty());
        r
    }

    /// Sequence number of a chunk and whether it was sent as a partial
    /// snapshot. In Whisper live mode the chunk id names the segment and its
    /// high bit marks a partial; otherwise the shared counter numbers it.
    pub fn chunk_sequence(&self, chunk_id: u64, counters: &mut SessionCounters) -> (r: (u64, bool))
        ensures
            numbered(self.whisper_live_mode, chunk_id, *old(counters), *final(counters), r),
    {
        let requested_partial = self.whisper_live_mode && (chunk_id & WHISPER_PARTIAL_CHUNK_FLAG)
            != 0;
        if self.whisper_live_mode {
            (chunk_id & !WHISPER_PARTIAL_CHUNK_FLAG, requested_partial)
        } else {
            (counters.take_sequence(), requested_partial)
        }
    }

    /// Settles the text of a transcribed chunk of segment `sequence_id`:
    /// cuts the overlap with the last final window, keeps the best partial
    /// snapshot per segment, and protects a final that obviously regressed.
    /// Returns the text to emit and whether it is partial, or `None` when the
    /// text is blank.
    pub fn settle(
        &mut self,
        sequence_id: u64,
        requested_partial: bool,
        transcript: String,
        provider_partial: bool,
    ) -> (r: Option<(String, bool)>)
        ensures
            settled(
                *old(self),
                *final(self),
                sequence_id,
                requested_partial,
                transcript@,
                provider_partial,
                match r {
                    Some((t, p)) => Some((t@, p)),
                    None => None,
                },
            ),
    {
        broadcast use vstd::std_specs::hash::group_hash_axioms;

        let live = self.whisper_live_mode;
        let is_partial = provider_partial || requested_partial;
        let ghost parts0 = old(self).partials();
        let lv = chars_of(self.last_final_text.as_str());
        let mut text = if live && lv.len() > 0 {
            strip_whisper_cross_segment_overlap(self.last_final_text.as_str(), transcript.as_str())
        } else {
            transcript
        };
        let ghost t1 = text@;
        if live {
            if is_partial {
                let replace = match self.best_partials.get(&sequence_id) {
                    Some(best) => transcript_information_score(text.as_str())
                        > transcript_information_score(best.as_str()),
                    None => true,
                };
                let tv = chars_of(text.as_str());
                if replace && !is_blank(&tv) {
                    let copy = text.clone();
                    self.best_partials.insert(sequence_id, copy);
                    assert(self.partials() =~= parts0.insert(sequence_id, t1));
                } else {
                    assert(self.partials() =~= parts0);
                }
            } else {
                match self.best_partials.remove(&sequence_id) {
                    Some(best) => {
                        assert(self.partials() =~= parts0.remove(sequence_id));
                        if should_keep_partial_over_final(best.as_str(), text.as_str()) {
                            text = best;
                        }
                    },
                    None => {
                        assert(self.partials() =~= parts0);
                    },
                }
            }
        } else {
            assert(self.partials() =~= parts0);
        }
        let tv = chars_of(text.as_str());
        if is_blank(&tv) {
            return None;
        }
        if live && !is_partial {
            self.last_final_text = text.clone();
        }
        Some((text, is_partial))
    }

    /// Handles the transcript of a chunk of segment `sequence_id`: settles
    /// it ([`settled`]) and, when there is text to emit, says whether speech
    /// is to be announced with it, the first time since the flag was reset.
    pub fn handle_transcript(
        &mut self,
        counters: &mut SessionCounters,
        sequence_id: u64,
        requested_partial: bool,
        transcript: String,
        provider_partial: bool,
    ) -> (r: Option<(String, bool, bool)>)
        ensures
            handled(
                *old(self),
                *final(self),
                *old(counters),
                *final(counters),
                sequence_id,
                requested_partial,
                transcript@,
                provider_partial,
                match r {
                    Some((t, p, a)) => Some((t@, p, a)),
                    None => None,
                },
            ),
    {
        match self.settle(sequence_id, requested_partial, transcript, provider_partial) {
            Some((t, p)) => {
                let announce = counters.announce_speech();
                Some((t, p, announce))
            },
            None => None,
        }
    }
}

// ── Chunk bookkeeping ─────────────────────────────────────────────────────────

/// How many chunks were handed to the workers and how many of them were
/// dealt with (transcribed, skipped or failed); none is completed before it
/// is queued.
pub struct ChunkProgress {
    pub queued: u64,
    pub completed: u64,
}

impl ChunkProgress {
    /// Every completed chunk was queued first.
    pub open spec fn wf(&self) -> bool {
        self.completed <= self.queued
    }

    /// Nothing queued yet.
    pub fn new() -> (r: Self)
        ensures
            r.wf(),
            r.queued == 0,
            r.completed == 0,
    {
        ChunkProgress { queued: 0, completed: 0 }
    }

    /// One more chunk is handed to the workers; returns the new count.
    pub fn chunk_queued(&mut self) -> (r: u64)
        requires
            old(self).wf(),
            old(self).queued < u64::MAX,
        ensures
            final(self).wf(),
            final(self).queued == old(self).queued + 1,
            final(self).completed == old(self).completed,
            r == final(self).queued,
    {
        self.queued = self.queued + 1;
        self.queued
    }

    /// One queued chunk is dealt with; returns the new count.
    pub fn chunk_completed(&mut self) -> (r: u64)
        requires
            old(self).wf(),
            old(self).completed < old(self).queued,
        ensures
            final(self).wf(),
            final(self).completed == old(self).completed + 1,
            final(self).queued == old(self).queued,
            r == final(self).completed,
    {
        self.completed = self.completed + 1;
        self.completed
    }

    /// Whether a worker that finds no chunk waiting may stop: only once the
    /// input has ended and every queued chunk is dealt with.
    pub fn worker_may_finish(&self, input_finished: bool) -> (r: bool)
        ensures
            r == (input_finished && self.completed >= self.queued),
    {
        input_finished && self.completed >= self.queued
    }

    /// The chunks lost when everything has stopped: none when every queued
    /// chunk was dealt with, otherwise how many were not.
    pub fn chunk_loss(&self) -> (r: Option<u64>)
        requires
            self.wf(),
        ensures
            self.completed == self.queued ==> r is None,
            self.completed < self.queued ==> r == Some((self.queued - self.completed) as u64),
    {
        if self.queued == self.completed {
            None
        } else {
            Some(self.queued - self.completed)
        }
    }
}

} // verus!
