//! Text handling of the offline speech recogniser: cleaning a Whisper
//! repetition loop, cutting the text shared by overlapping audio windows,
//! planning those windows and joining their texts.
use vstd::prelude::*;

use crate::text::{
    chars_of, fold_range, folded, join, join_ranges, pieces, push_str, ranges_within, string_of, trim,
    trimmed, vec_eq, word_ranges, words,
};

verus! {

// ── Repetition loops ──────────────────────────────────────────────────────────

/// The comparison keys of a token list: letters, digits and apostrophes,
/// lowercased.
pub open spec fn token_keys(tokens: Seq<Seq<char>>) -> Seq<Seq<char>> {
    Seq::new(tokens.len(), |i: int| folded(tokens[i], true))
}

/// End of the run of copies of `keys[s..s + pl]` that has reached `e`: the
/// run goes on while the next `pl` keys repeat the phrase.
pub open spec fn run_end(keys: Seq<Seq<char>>, s: int, pl: int, e: int) -> int
    decreases keys.len() - e,
{
    if pl >= 1 && e + pl <= keys.len() && keys.subrange(e, e + pl) == keys.subrange(s, s + pl) {
        run_end(keys, s, pl, e + pl)
    } else {
        e
    }
}

/// A run ends no earlier than where it has reached, and within the keys.
pub proof fn lemma_run_end(keys: Seq<Seq<char>>, s: int, pl: int, e: int)
    requires
        e <= keys.len(),
    ensures
        e <= run_end(keys, s, pl, e) <= keys.len(),
    decreases keys.len() - e,
{
    if pl >= 1 && e + pl <= keys.len() && keys.subrange(e, e + pl) == keys.subrange(s, s + pl) {
        lemma_run_end(keys, s, pl, e + pl);
    }
}

/// Tokens that a loop of a phrase of `pl` tokens must cover: eight copies of
/// one token, six of two, five of three, four of four or five.
pub open spec fn min_coverage(pl: int) -> int {
    if pl == 1 {
        8
    } else if pl == 2 {
        12
    } else if pl == 3 {
        15
    } else {
        4 * pl
    }
}

/// Tokens covered by the copies of the phrase of `pl` tokens at `s`.
pub open spec fn coverage(keys: Seq<Seq<char>>, s: int, pl: int) -> int {
    run_end(keys, s, pl, s + pl) - s
}

/// A pathological loop at `s`: a phrase of one to five tokens, none with an
/// empty key, that fits twice in the rest and repeats to at least
/// [`min_coverage`] tokens.
pub open spec fn loop_at(keys: Seq<Seq<char>>, s: int, pl: int) -> bool {
    &&& 1 <= pl <= 5
    &&& 0 <= s
    &&& s + 2 * pl <= keys.len()
    &&& forall|j: int| s <= j < s + pl ==> #[trigger] keys[j].len() > 0
    &&& coverage(keys, s, pl) >= min_coverage(pl)
}

/// Phrase length of the loop at `s` covering the most tokens among lengths
/// `1..=p` (the shortest on a tie), or 0 when there is none.
pub open spec fn best_phrase(keys: Seq<Seq<char>>, s: int, p: int) -> int
    decreases p,
{
    if p <= 0 {
        0
    } else {
        let b = best_phrase(keys, s, p - 1);
        if loop_at(keys, s, p) && (b == 0 || coverage(keys, s, p) > coverage(keys, s, b)) {
            p
        } else {
            b
        }
    }
}

/// The earliest start at or after `s` with a loop, with its phrase length.
pub open spec fn first_loop(keys: Seq<Seq<char>>, s: int) -> Option<(int, int)>
    decreases keys.len() - s,
{
    if s < 0 || s >= keys.len() {
        None
    } else if best_phrase(keys, s, 5) > 0 {
        Some((s, best_phrase(keys, s, 5)))
    } else {
        first_loop(keys, s + 1)
    }
}

/// How many keys from `e + t` on go on repeating the phrase `keys[s..s + pl]`
/// from its key `t`: the part of a copy that follows the last whole copy.
pub open spec fn partial_copy(keys: Seq<Seq<char>>, s: int, pl: int, e: int, t: int) -> int
    decreases pl - t,
{
    if 0 <= t < pl && 0 <= e + t < keys.len() && keys[e + t] == keys[s + t] {
        partial_copy(keys, s, pl, e, t + 1)
    } else {
        t
    }
}

/// The part of a copy found lies between where it was counted from and the
/// phrase length.
pub proof fn lemma_partial_copy(keys: Seq<Seq<char>>, s: int, pl: int, e: int, t: int)
    requires
        0 <= t <= pl,
    ensures
        t <= partial_copy(keys, s, pl, e, t) <= pl,
    decreases pl - t,
{
    if 0 <= t < pl && 0 <= e + t < keys.len() && keys[e + t] == keys[s + t] {
        lemma_partial_copy(keys, s, pl, e, t + 1);
    }
}

/// Number of words kept of a text whose earliest loop is the phrase of `pl`
/// tokens at `s`: the words before the loop and its first copy, where copies
/// are counted back from where the repetition stops. When the repetition
/// stops inside a copy, the copies are read in the rotation it stops on, so
/// the first copy is the leading part before the first whole one.
pub open spec fn loop_cut(keys: Seq<Seq<char>>, s: int, pl: int) -> int {
    let t = partial_copy(keys, s, pl, run_end(keys, s, pl, s + pl), 0);
    if t > 0 {
        s + t
    } else {
        s + pl
    }
}

/// `text` with a Whisper repetition loop cut after its first copy: texts of
/// fewer than eight words, and texts without a loop, are only trimmed;
/// otherwise the words up to the end of the first copy of the earliest loop
/// ([`loop_cut`]) are joined with single spaces.
pub open spec fn loop_truncated(text: Seq<char>) -> Seq<char> {
    let t = words(text);
    if t.len() < 8 {
        trim(text)
    } else {
        match first_loop(token_keys(t), 0) {
            Some((s, p)) => join(t.take(loop_cut(token_keys(t), s, p)), " "@),
            None => trim(text),
        }
    }
}

/// A loop found by [`best_phrase`] is a loop of at most `p` tokens.
pub proof fn lemma_best_phrase(keys: Seq<Seq<char>>, s: int, p: int)
    ensures
        0 <= best_phrase(keys, s, p),
        p >= 0 ==> best_phrase(keys, s, p) <= p,
        best_phrase(keys, s, p) > 0 ==> loop_at(keys, s, best_phrase(keys, s, p)),
    decreases p,
{
    if p > 0 {
        lemma_best_phrase(keys, s, p - 1);
    }
}

/// A loop found by [`first_loop`] starts at or after `s`.
pub proof fn lemma_first_loop(keys: Seq<Seq<char>>, s: int)
    ensures
        match first_loop(keys, s) {
            Some((a, p)) => s <= a && loop_at(keys, a, p),
            None => true,
        },
    decreases keys.len() - s,
{
    if 0 <= s < keys.len() {
        lemma_best_phrase(keys, s, 5);
        if best_phrase(keys, s, 5) == 0 {
            lemma_first_loop(keys, s + 1);
        }
    }
}

fn keys_of(v: &Vec<char>, rs: &Vec<(usize, usize)>) -> (r: Vec<Vec<char>>)
    requires
        ranges_within(rs@, v@.len() as int),
    ensures
        r@.len() == rs@.len(),
        forall|i: int| 0 <= i < r@.len() ==> (#[trigger] r@[i])@ == token_keys(pieces(v@, rs@))[i],
{
    let mut out: Vec<Vec<char>> = Vec::new();
    let mut i: usize = 0;
    while i < rs.len()
        invariant
            ranges_within(rs@, v@.len() as int),
            i <= rs@.len(),
            out@.len() == i,
            forall|j: int| 0 <= j < i ==> (#[trigger] out@[j])@ == token_keys(pieces(v@, rs@))[j],
        decreases rs@.len() - i,
    {
        let (a, b) = rs[i];
        assert(rs@[i as int].0 <= rs@[i as int].1 <= v@.len());
        out.push(fold_range(v, a, b, true));
        i += 1;
    }
    out
}

/// The keys as a sequence of views.
pub open spec fn views_of(keys: Seq<Vec<char>>) -> Seq<Seq<char>> {
    Seq::new(keys.len(), |i: int| keys[i]@)
}

fn blocks_equal(keys: &Vec<Vec<char>>, s: usize, e: usize, pl: usize) -> (r: bool)
    requires
        s + pl <= keys@.len(),
        e + pl <= keys@.len(),
    ensures
        r == (views_of(keys@).subrange(e as int, e + pl) == views_of(keys@).subrange(s as int, s + pl)),
{
    let n = keys.len();
    let ghost k = views_of(keys@);
    let ghost a = k.subrange(e as int, e + pl);
    let ghost b = k.subrange(s as int, s + pl);
    let mut j: usize = 0;
    while j < pl
        invariant
            s + pl <= keys@.len(),
            e + pl <= keys@.len(),
            n == keys@.len(),
            k == views_of(keys@),
            a == k.subrange(e as int, e + pl),
            b == k.subrange(s as int, s + pl),
            j <= pl,
            forall|i: int| 0 <= i < j ==> #[trigger] a[i] == b[i],
        decreases pl - j,
    {
        assert(a[j as int] == keys@[e + j]@);
        assert(b[j as int] == keys@[s + j]@);
        if !vec_eq(&keys[e + j], &keys[s + j]) {
            return false;
        }
        j += 1;
    }
    assert(a =~= b);
    true
}

fn run_end_of(keys: &Vec<Vec<char>>, s: usize, pl: usize) -> (r: usize)
    requires
        1 <= pl,
        s + pl <= keys@.len(),
    ensures
        r == run_end(views_of(keys@), s as int, pl as int, s + pl),
{
    let n = keys.len();
    let ghost k = views_of(keys@);
    let mut e = s + pl;
    while pl <= n - e && blocks_equal(keys, s, e, pl)
        invariant
            1 <= pl,
            s + pl <= e <= n == keys@.len(),
            k == views_of(keys@),
            run_end(k, s as int, pl as int, s + pl) == run_end(k, s as int, pl as int, e as int),
        decreases n - e,
    {
        e = e + pl;
    }
    e
}

fn loop_coverage(keys: &Vec<Vec<char>>, s: usize, pl: usize) -> (r: Option<usize>)
    requires
        s <= keys@.len(),
    ensures
        match r {
            Some(c) => loop_at(views_of(keys@), s as int, pl as int) && c == coverage(
                views_of(keys@),
                s as int,
                pl as int,
            ),
            None => !loop_at(views_of(keys@), s as int, pl as int),
        },
{
    let ghost k = views_of(keys@);
    let n = keys.len();
    if pl < 1 || pl > 5 || n - s < 2 * pl {
        return None;
    }
    let mut j = s;
    while j < s + pl
        invariant
            s <= j <= s + pl,
            s + 2 * pl <= n == keys@.len(),
            k == views_of(keys@),
            forall|i: int| s <= i < j ==> #[trigger] k[i].len() > 0,
        decreases s + pl - j,
    {
        if keys[j].len() == 0 {
            assert(k[j as int].len() == 0);
            return None;
        }
        j += 1;
    }
    let e = run_end_of(keys, s, pl);
    proof {
        lemma_run_end(k, s as int, pl as int, s + pl);
    }
    let min_cov: usize = if pl == 1 {
        8
    } else if pl == 2 {
        12
    } else if pl == 3 {
        15
    } else {
        4 * pl
    };
    if e - s >= min_cov {
        Some(e - s)
    } else {
        None
    }
}

fn best_phrase_at(keys: &Vec<Vec<char>>, s: usize) -> (r: usize)
    requires
        s <= keys@.len(),
    ensures
        r == best_phrase(views_of(keys@), s as int, 5),
{
    let ghost k = views_of(keys@);
    let mut best: usize = 0;
    let mut best_cov: usize = 0;
    let mut p: usize = 1;
    while p <= 5
        invariant
            s <= keys@.len(),
            k == views_of(keys@),
            1 <= p <= 6,
            best == best_phrase(k, s as int, p - 1),
            best > 0 ==> best_cov == coverage(k, s as int, best as int),
        decreases 6 - p,
    {
        proof {
            lemma_best_phrase(k, s as int, p - 1);
        }
        match loop_coverage(keys, s, p) {
            Some(c) => {
                if best == 0 || c > best_cov {
                    best = p;
                    best_cov = c;
                }
            },
            None => {},
        }
        p += 1;
    }
    best
}

/// Cuts a Whisper repetition loop ("non non non ...", "in forma in forma
/// ...") after its first copy ([`loop_truncated`]).
pub fn truncate_whisper_repetition_loop(text: &str) -> (r: String)
    ensures
        r@ == loop_truncated(text@),
{
    let v = chars_of(text);
    let rs = word_ranges(&v);
    let ghost t = words(text@);
    let n = rs.len();
    if n < 8 {
        let out = trimmed(&v);
        return string_of(&out);
    }
    let keys = keys_of(&v, &rs);
    let ghost k = views_of(keys@);
    assert(k =~= token_keys(t));
    let mut s: usize = 0;
    while s < n
        invariant
            n == rs@.len() == keys@.len() == t.len(),
            n >= 8,
            t == pieces(v@, rs@),
            t == words(text@),
            v@ == text@,
            ranges_within(rs@, v@.len() as int),
            k == views_of(keys@),
            k == token_keys(t),
            s <= n,
            first_loop(k, 0) == first_loop(k, s as int),
        decreases n - s,
    {
        let p = best_phrase_at(&keys, s);
        if p > 0 {
            proof {
                lemma_best_phrase(k, s as int, 5);
            }
            let e = run_end_of(&keys, s, p);
            proof {
                lemma_run_end(k, s as int, p as int, s + p);
            }
            let mut part: usize = 0;
            while part < p && part < n - e && vec_eq(&keys[e + part], &keys[s + part])
                invariant
                    n == keys@.len(),
                    k == views_of(keys@),
                    s + 2 * p <= n,
                    s + p <= e <= n,
                    part <= p,
                    partial_copy(k, s as int, p as int, e as int, 0) == partial_copy(
                        k,
                        s as int,
                        p as int,
                        e as int,
                        part as int,
                    ),
                decreases p - part,
            {
                part += 1;
            }
            proof {
                lemma_partial_copy(k, s as int, p as int, e as int, part as int);
            }
            let end = if part > 0 {
                s + part
            } else {
                s + p
            };
            let mut head: Vec<(usize, usize)> = Vec::new();
            let mut i: usize = 0;
            while i < end
                invariant
                    end as int == loop_cut(k, s as int, p as int),
                    end <= rs@.len(),
                    ranges_within(rs@, v@.len() as int),
                    i <= end,
                    head@ == rs@.take(i as int),
                decreases end - i,
            {
                head.push(rs[i]);
                i += 1;
            }
            proof {
                assert(pieces(v@, head@) =~= t.take(end as int));
                assert forall|j: int| 0 <= j < head@.len() implies #[trigger] head@[j].0 <= head@[j].1
                    <= v@.len() by {
                    assert(head@[j] == rs@[j]);
                }
            }
            let joined = join_ranges(&v, &head, " ");
            return string_of(&joined);
        }
        s += 1;
    }
    let out = trimmed(&v);
    string_of(&out)
}

// ── Text shared by overlapping windows ────────────────────────────────────────

/// Shortest overlap that is removed.
pub const MIN_OVERLAP_CHARS: usize = 2;

/// Longest overlap that is looked for.
pub const MAX_OVERLAP_CHARS: usize = 30;

/// Length of the longest overlap of at most `len` characters (and at least
/// [`MIN_OVERLAP_CHARS`]) by which `prev` ends as `next` begins; 0 when none.
pub open spec fn char_overlap_from(prev: Seq<char>, next: Seq<char>, len: int) -> int
    decreases len,
{
    if len < MIN_OVERLAP_CHARS {
        0
    } else if len <= prev.len() && len <= next.len() && prev.skip(prev.len() - len) == next.take(len) {
        len
    } else {
        char_overlap_from(prev, next, len - 1)
    }
}

/// `next` without the longest text (two to thirty characters) that both
/// ends `prev` and begins `next`.
pub open spec fn overlap_removed(prev: Seq<char>, next: Seq<char>) -> Seq<char> {
    let m = if prev.len() < next.len() { prev.len() } else { next.len() };
    let max = if m < MAX_OVERLAP_CHARS { m as int } else { MAX_OVERLAP_CHARS as int };
    next.skip(char_overlap_from(prev, next, max))
}

/// The overlap found lies within the bound it was looked for under.
pub proof fn lemma_char_overlap(prev: Seq<char>, next: Seq<char>, len: int)
    ensures
        0 <= char_overlap_from(prev, next, len),
        char_overlap_from(prev, next, len) <= next.len(),
        len >= 0 ==> char_overlap_from(prev, next, len) <= len,
    decreases len,
{
    if len >= MIN_OVERLAP_CHARS {
        lemma_char_overlap(prev, next, len - 1);
    }
}

/// Removes from `next` the text it shares with the end of `prev`
/// ([`overlap_removed`]); the result is a slice of `next`.
pub fn remove_text_overlap<'a>(prev: &str, next: &'a str) -> (r: &'a str)
    ensures
        r@ == overlap_removed(prev@, next@),
{
    let pv = chars_of(prev);
    let nv = chars_of(next);
    let pn = pv.len();
    let nn = nv.len();
    let m = if pn < nn { pn } else { nn };
    let max = if m < MAX_OVERLAP_CHARS { m } else { MAX_OVERLAP_CHARS };
    let mut len = max;
    while len >= MIN_OVERLAP_CHARS
        invariant
            pv@ == prev@,
            nv@ == next@,
            pn == pv@.len(),
            nn == nv@.len(),
            len <= max <= pn,
            max <= nn,
            max == if m < MAX_OVERLAP_CHARS { m } else { MAX_OVERLAP_CHARS },
            m == if pn < nn { pn } else { nn },
            char_overlap_from(prev@, next@, max as int) == char_overlap_from(prev@, next@, len as int),
        decreases len,
    {
        let mut same = true;
        let mut j: usize = 0;
        while j < len
            invariant
                pv@ == prev@,
                nv@ == next@,
                len <= pn == pv@.len(),
                len <= nn == nv@.len(),
                j <= len,
                same <==> forall|i: int| 0 <= i < j ==> pv@[pn - len + i] == nv@[i],
            decreases len - j,
        {
            if pv[pn - len + j] != nv[j] {
                same = false;
            }
            j += 1;
        }
        if same {
            assert(prev@.skip(pn - len) =~= next@.take(len as int));
            return next.substring_char(len, nn);
        }
        proof {
            if prev@.skip(pn - len) == next@.take(len as int) {
                let i = choose|i: int| 0 <= i < len && pv@[pn - len + i] != nv@[i];
                assert(prev@.skip(pn - len)[i] == next@.take(len as int)[i]);
            }
        }
        len -= 1;
    }
    assert(next@.skip(0) == next@);
    next.substring_char(0, nn)
}

// ── Windows over long audio ───────────────────────────────────────────────────

/// Samples per second of the recogniser's input.
pub const SAMPLE_RATE: u32 = 16000;

/// Longest window handed to the recogniser at once (30 s).
pub const MAX_CHUNK_SAMPLES: usize = 480000;

/// Overlap added to each window from the next one (1 s).
pub const OVERLAP_SAMPLES: usize = 16000;

/// The window of logical range `i` of `ranges` over `total` samples: it
/// starts with the range and, except for the last range, reaches one second
/// further, within the audio and within the longest window.
pub open spec fn window_of(ranges: Seq<(usize, usize)>, total: int, i: int) -> (int, int) {
    let (s, e) = ranges[i];
    if i + 1 < ranges.len() {
        let a = e + OVERLAP_SAMPLES;
        let b = if a < total { a } else { total };
        let c = if b < s + MAX_CHUNK_SAMPLES { b } else { s + MAX_CHUNK_SAMPLES };
        (s as int, c)
    } else {
        (s as int, e as int)
    }
}

/// The overlapping windows of the logical ranges of a long recording
/// ([`window_of`]).
pub fn plan_windows(ranges: &Vec<(usize, usize)>, total: usize) -> (r: Vec<(usize, usize)>)
    ensures
        r@.len() == ranges@.len(),
        forall|i: int| 0 <= i < r@.len() ==> (#[trigger] r@[i]).0 == window_of(ranges@, total as int, i).0
            && r@[i].1 == window_of(ranges@, total as int, i).1,
{
    let mut out: Vec<(usize, usize)> = Vec::new();
    let n = ranges.len();
    let mut i: usize = 0;
    while i < n
        invariant
            n == ranges@.len(),
            i <= n,
            out@.len() == i,
            forall|k: int| 0 <= k < i ==> (#[trigger] out@[k]).0 == window_of(ranges@, total as int, k).0
                && out@[k].1 == window_of(ranges@, total as int, k).1,
        decreases n - i,
    {
        let (s, e) = ranges[i];
        if i + 1 < n {
            let a: u128 = (e as u128) + (OVERLAP_SAMPLES as u128);
            let b: u128 = if a < (total as u128) { a } else { total as u128 };
            let lim: u128 = (s as u128) + (MAX_CHUNK_SAMPLES as u128);
            let c: u128 = if b < lim { b } else { lim };
            assert(c <= total);
            out.push((s, c as usize));
        } else {
            out.push((s, e));
        }
        i += 1;
    }
    out
}

/// `combined` after the text of one more window: the overlap with what came
/// before is cut (not for the first window), and the rest, trimmed, is added
/// after a space when it is not blank and `combined` does not already end in
/// whitespace.
pub open spec fn merged(combined: Seq<char>, first: bool, text: Seq<char>) -> Seq<char> {
    let t = trim(if first { text } else { overlap_removed(combined, text) });
    if t.len() == 0 {
        combined
    } else if combined.len() > 0 && !crate::text::is_ws(combined.last()) {
        combined + " "@ + t
    } else {
        combined + t
    }
}

/// Adds the text of one more window to the combined transcript
/// ([`merged`]).
pub fn merge_window_text(combined: &mut String, first: bool, text: &str)
    ensures
        final(combined)@ == merged(old(combined)@, first, text@),
{
    let cv = chars_of(combined.as_str());
    let piece = if first {
        text
    } else {
        remove_text_overlap(combined.as_str(), text)
    };
    let pv = chars_of(piece);
    let t = trimmed(&pv);
    if t.len() == 0 {
        return;
    }
    let mut out = cv.clone();
    if cv.len() > 0 && !crate::text::is_whitespace(cv[cv.len() - 1]) {
        push_str(&mut out, " ");
    }
    crate::text::push_all(&mut out, &t);
    *combined = string_of(&out);
}

// ── The provider ──────────────────────────────────────────────────────────────

/// Kind of a local speech recognition model.
#[derive(PartialEq, Eq, Structural, Clone, Copy, Debug)]
pub enum AsrModelType {
    SenseVoice,
    Whisper,
    XAsr,
}

/// The offline recogniser as the transcription worker sees it: the loaded
/// model's name and kind.
pub struct SherpaOnnxProvider {
    pub model_name: String,
    pub model_type: AsrModelType,
}

impl SherpaOnnxProvider {
    /// A provider for the model `model_name` of kind `model_type`.
    pub fn new(model_name: String, model_type: AsrModelType) -> (r: Self)
        ensures
            r.model_name == model_name,
            r.model_type == model_type,
    {
        SherpaOnnxProvider { model_name, model_type }
    }

    /// Name under which the provider reports itself.
    pub fn provider_name(&self) -> (r: &'static str)
        ensures
            r@ == "Sherpa-ONNX (Native Rust)"@,
    {
        "Sherpa-ONNX (Native Rust)"
    }

    /// The text of one decoded window: trimmed, and for Whisper models with a
    /// repetition loop cut.
    pub fn clean_window_text(&self, raw: &str) -> (r: String)
        ensures
            r@ == if self.model_type == AsrModelType::Whisper {
                loop_truncated(trim(raw@))
            } else {
                trim(raw@)
            },
    {
        let v = chars_of(raw);
        let t = trimmed(&v);
        let s = string_of(&t);
        if self.model_type == AsrModelType::Whisper {
            truncate_whisper_repetition_loop(s.as_str())
        } else {
            s
        }
    }

    /// The provider's model stays loaded for as long as the provider lives.
    pub fn is_model_loaded(&self) -> (r: bool)
        ensures
            r,
    {
        true
    }

    /// The name of the model the provider decodes with.
    pub fn get_current_model(&self) -> (r: Option<String>)
        ensures
            r matches Some(n) && n@ == self.model_name@,
    {
        let v = chars_of(self.model_name.as_str());
        Some(string_of(&v))
    }
}

/// Minimum length, in samples, that the error for empty audio names (0.1 s).
pub const MIN_AUDIO_SAMPLES: usize = 1600;

/// How a recording of some samples is transcribed.
#[derive(PartialEq, Eq, Structural, Clone, Copy, Debug)]
pub enum TranscribePlan {
    /// No samples: the audio is too short.
    TooShort,
    /// One window holds the whole recording.
    Whole,
    /// Overlapping windows over logical ranges, joined afterwards.
    Windowed,
}

/// How `samples` samples are transcribed: empty audio is refused, audio
/// that fits the model's window is decoded at once, longer audio in
/// overlapping windows.
pub fn transcribe_plan(samples: usize) -> (r: TranscribePlan)
    ensures
        r == if samples == 0 {
            TranscribePlan::TooShort
        } else if samples <= MAX_CHUNK_SAMPLES {
            TranscribePlan::Whole
        } else {
            TranscribePlan::Windowed
        },
{
    if samples == 0 {
        TranscribePlan::TooShort
    } else if samples <= MAX_CHUNK_SAMPLES {
        TranscribePlan::Whole
    } else {
        TranscribePlan::Windowed
    }
}


/// Why a recording could not be transcribed.
pub enum TranscriptionError {
    /// The audio holds `samples` samples, fewer than `minimum`.
    AudioTooShort { samples: u64, minimum: u64 },
    /// No model is loaded.
    ModelNotLoaded,
    /// The decoder failed.
    EngineFailed(String),
}

/// The combined text of the first `k` windows: each window's text is merged
/// in ([`merged`]; the overlap is cut for all but the first window), and a
/// window that gave no result is skipped.
pub open spec fn combined_windows(windows: Seq<Option<String>>, k: int) -> Seq<char>
    decreases k,
{
    if k <= 0 {
        seq![]
    } else {
        let c = combined_windows(windows, k - 1);
        match windows[k - 1] {
            Some(t) => merged(c, k - 1 == 0, t@),
            None => c,
        }
    }
}

/// The transcript of a recording of `samples` samples, given what decoding
/// each window of its [`transcribe_plan`] gave (the cleaned text, or `None`
/// when the decoder gave no result): empty audio is too short (0 samples of
/// a minimum of 1600); a recording decoded at once gives its window's text,
/// or fails when there was no result; a windowed one gives the windows'
/// texts combined, skipping the windows that failed, and never fails.
pub fn transcription_result(samples: usize, windows: &Vec<Option<String>>) -> (r: Result<String, TranscriptionError>)
    requires
        0 < samples <= MAX_CHUNK_SAMPLES ==> windows@.len() == 1,
    ensures
        samples == 0 ==> (r matches Err(TranscriptionError::AudioTooShort { samples: s, minimum: m }) && s == 0
            && m == MIN_AUDIO_SAMPLES),
        0 < samples <= MAX_CHUNK_SAMPLES ==> match windows@[0] {
            Some(t) => r matches Ok(x) && x@ == t@,
            None => r matches Err(TranscriptionError::EngineFailed(e)) && e@ == "No result"@,
        },
        samples > MAX_CHUNK_SAMPLES ==> (r matches Ok(x) && x@ == combined_windows(windows@, windows@.len() as int)),
{
    match transcribe_plan(samples) {
        TranscribePlan::TooShort => Err(TranscriptionError::AudioTooShort { samples: 0, minimum: MIN_AUDIO_SAMPLES as u64 }),
        TranscribePlan::Whole => match &windows[0] {
            Some(t) => {
                let v = chars_of(t.as_str());
                Ok(string_of(&v))
            },
            None => {
                let v = chars_of("No result");
                Err(TranscriptionError::EngineFailed(string_of(&v)))
            },
        },
        TranscribePlan::Windowed => {
            let mut combined = String::new();
            let n = windows.len();
            let mut i: usize = 0;
            assert(combined@ =~= combined_windows(windows@, 0));
            while i < n
                invariant
                    n == windows@.len(),
                    i <= n,
                    combined@ == combined_windows(windows@, i as int),
                decreases n - i,
            {
                match &windows[i] {
                    Some(t) => merge_window_text(&mut combined, i == 0, t.as_str()),
                    None => {},
                }
                i += 1;
            }
            Ok(combined)
        },
    }
}
} // verus!
