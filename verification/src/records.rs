//! Recordings and their transcripts as the application exchanges them, and
//! the pure parts of listing, paging, saving and exporting them.
use vstd::prelude::*;

use crate::text::{
    chars_of, decimal, is_control, is_ctrl, padded, push_all, push_padded, push_str, string_of, trim,
    trimmed,
};

verus! {

// ── Exchanged records ─────────────────────────────────────────────────────────

/// Envelope of an answer: a success flag with data, or an error.
pub struct ApiResponse<T> {
    pub success: bool,
    pub data: Option<T>,
    pub error: Option<String>,
}

/// A recording in the history list.
pub struct RecordingListItem {
    pub id: String,
    pub title: String,
    pub created_at: String,
    pub updated_at: String,
    pub folder_path: Option<String>,
}

/// A recording without its segments.
pub struct RecordingMetadata {
    pub id: String,
    pub title: String,
    pub created_at: String,
    pub updated_at: String,
    pub duration_ms: Option<i64>,
    pub audio_path: Option<String>,
    pub folder_path: Option<String>,
    pub source: Option<String>,
    pub asr_engine: Option<String>,
    pub language: Option<String>,
    pub status: Option<String>,
}

/// A recording with its segments.
pub struct RecordingDetails {
    pub id: String,
    pub title: String,
    pub created_at: String,
    pub updated_at: String,
    pub duration_ms: Option<i64>,
    pub audio_path: Option<String>,
    pub folder_path: Option<String>,
    pub source: Option<String>,
    pub asr_engine: Option<String>,
    pub language: Option<String>,
    pub status: Option<String>,
    pub segments: Vec<RecordingSegment>,
}

/// One transcript segment of a recording.
pub struct RecordingSegment {
    pub id: String,
    pub text: String,
    pub start_ms: i64,
    pub end_ms: Option<i64>,
    pub speaker: Option<String>,
    pub source: Option<String>,
}

/// Request to delete a recording.
pub struct DeleteRecordingRequest {
    pub recording_id: String,
}

/// Request to rename a recording.
pub struct SaveRecordingTitleRequest {
    pub recording_id: String,
    pub title: String,
}

/// Request to save a recording with its segments.
pub struct SaveRecordingRequest {
    pub recording_title: String,
    pub segments: Vec<RecordingSegmentInput>,
}

/// A segment as the front end sends it for saving.
pub struct RecordingSegmentInput {
    pub id: String,
    pub text: String,
    pub timestamp: Option<String>,
    pub display_time: Option<String>,
    pub start_ms: Option<i64>,
    pub end_ms: Option<i64>,
    pub duration: Option<i64>,
    pub speaker: Option<String>,
    pub source: Option<String>,
}

/// Summary model settings.
pub struct ModelConfig {
    pub provider: String,
    pub model: String,
    pub whisper_model: String,
    pub api_key: Option<String>,
    pub ollama_endpoint: Option<String>,
}

/// Transcription model settings.
pub struct TranscriptConfig {
    pub provider: String,
    pub model: String,
    pub api_key: Option<String>,
}

/// One page of the segments of a recording.
pub struct PaginatedSegmentsResponse {
    pub segments: Vec<RecordingSegment>,
    pub total_count: i64,
    pub has_more: bool,
}

/// Answer to a transcript search.
pub struct SearchTranscriptsResponse {
    pub results: Vec<SearchTranscriptResult>,
}

/// One segment found by a transcript search.
pub struct SearchTranscriptResult {
    pub id: String,
    pub recording_id: String,
    pub title: String,
    pub text: String,
    pub start_ms: i64,
}

/// A segment with the values of all its fields.
pub open spec fn same_segment(a: RecordingSegment, b: RecordingSegment) -> bool {
    &&& a.id@ == b.id@
    &&& a.text@ == b.text@
    &&& a.start_ms == b.start_ms
    &&& a.end_ms == b.end_ms
    &&& opt_view(a.speaker) == opt_view(b.speaker)
    &&& opt_view(a.source) == opt_view(b.source)
}

/// The view of an optional string.
pub open spec fn opt_view(o: Option<String>) -> Option<Seq<char>> {
    match o {
        Some(s) => Some(s@),
        None => None,
    }
}

fn copy_string(s: &String) -> (r: String)
    ensures
        r@ == s@,
{
    let v = chars_of(s.as_str());
    string_of(&v)
}

fn copy_opt(o: &Option<String>) -> (r: Option<String>)
    ensures
        opt_view(r) == opt_view(*o),
{
    match o {
        Some(s) => Some(copy_string(s)),
        None => None,
    }
}

impl RecordingSegment {
    /// A copy of the segment.
    pub fn duplicate(&self) -> (r: Self)
        ensures
            same_segment(r, *self),
    {
        RecordingSegment {
            id: copy_string(&self.id),
            text: copy_string(&self.text),
            start_ms: self.start_ms,
            end_ms: self.end_ms,
            speaker: copy_opt(&self.speaker),
            source: copy_opt(&self.source),
        }
    }
}

// ── Paging and filtering ──────────────────────────────────────────────────────

/// A segment passes the listing filter: no filter, or its source is the
/// one asked for.
pub open spec fn source_matches(seg: RecordingSegment, source: Option<Seq<char>>) -> bool {
    match source {
        Some(src) => opt_view(seg.source) == Some(src),
        None => true,
    }
}

/// The segments of `segs` that pass the listing filter, in order.
pub open spec fn filtered_by(segs: Seq<RecordingSegment>, source: Option<Seq<char>>) -> Seq<RecordingSegment>
    decreases segs.len(),
{
    if segs.len() == 0 {
        seq![]
    } else {
        let r = filtered_by(segs.drop_last(), source);
        if source_matches(segs.last(), source) {
            r.push(segs.last())
        } else {
            r
        }
    }
}

/// The filtered segments never outnumber the segments.
pub proof fn lemma_filtered_len(segs: Seq<RecordingSegment>, source: Option<Seq<char>>)
    ensures
        filtered_by(segs, source).len() <= segs.len(),
    decreases segs.len(),
{
    if segs.len() > 0 {
        lemma_filtered_len(segs.drop_last(), source);
    }
}

/// Two sequences of segments agree field by field.
pub open spec fn same_segments(a: Seq<RecordingSegment>, b: Seq<RecordingSegment>) -> bool {
    a.len() == b.len() && forall|i: int| 0 <= i < a.len() ==> same_segment(#[trigger] a[i], b[i])
}

fn source_is(seg: &RecordingSegment, source: &Option<String>) -> (r: bool)
    ensures
        r == source_matches(*seg, opt_view(*source)),
{
    match source {
        None => true,
        Some(src) => match &seg.source {
            Some(s) => crate::text::str_eq(s.as_str(), src.as_str()),
            None => false,
        },
    }
}

/// The page of `segments` after filtering by `source`: `offset` entries are
/// skipped (none when negative) and at most `limit` are kept (none when
/// negative); `total_count` counts the filtered segments and `has_more` says
/// whether `offset` plus the page size falls short of it.
pub fn paginate_segments(
    segments: &Vec<RecordingSegment>,
    source: &Option<String>,
    limit: i64,
    offset: i64,
) -> (r: PaginatedSegmentsResponse)
    requires
        segments@.len() <= i64::MAX,
    ensures
        ({
            let f = filtered_by(segments@, opt_view(*source));
            let skip = if offset < 0 { 0 } else if offset > f.len() { f.len() as int } else { offset as int };
            let take = if limit < 0 { 0 } else if limit > f.len() - skip { f.len() - skip } else { limit as int };
            &&& r.total_count == f.len()
            &&& same_segments(r.segments@, f.subrange(skip, skip + take))
            &&& r.has_more == (offset + take < f.len())
        }),
{
    let ghost f = filtered_by(segments@, opt_view(*source));
    let mut kept: Vec<RecordingSegment> = Vec::new();
    let mut i: usize = 0;
    proof {
        assert(segments@.take(0) =~= Seq::<RecordingSegment>::empty());
    }
    while i < segments.len()
        invariant
            i <= segments@.len(),
            same_segments(kept@, filtered_by(segments@.take(i as int), opt_view(*source))),
        decreases segments@.len() - i,
    {
        assert(segments@.take(i + 1).drop_last() =~= segments@.take(i as int));
        let ghost before = kept@;
        if source_is(&segments[i], source) {
            kept.push(segments[i].duplicate());
            assert(same_segments(kept@, filtered_by(segments@.take(i + 1), opt_view(*source)))) by {
                let g = filtered_by(segments@.take(i + 1), opt_view(*source));
                assert forall|j: int| 0 <= j < kept@.len() implies same_segment(#[trigger] kept@[j], g[j]) by {
                    if j < before.len() {
                        assert(kept@[j] == before[j]);
                    }
                }
            }
        }
        i += 1;
    }
    assert(segments@.take(segments@.len() as int) =~= segments@);
    proof {
        lemma_filtered_len(segments@, opt_view(*source));
    }
    let total = kept.len();
    let skip: usize = if offset < 0 { 0 } else if offset as u64 > total as u64 { total } else { offset as usize };
    let take: usize = if limit < 0 { 0 } else if limit as u64 > (total - skip) as u64 { total - skip } else { limit as usize };
    let mut page: Vec<RecordingSegment> = Vec::new();
    let mut k: usize = skip;
    while k < skip + take
        invariant
            skip <= k <= skip + take <= total == kept@.len(),
            same_segments(kept@, f),
            same_segments(page@, f.subrange(skip as int, k as int)),
        decreases skip + take - k,
    {
        let ghost before = page@;
        page.push(kept[k].duplicate());
        assert forall|j: int| 0 <= j < page@.len() implies same_segment(
            #[trigger] page@[j],
            f.subrange(skip as int, k + 1)[j],
        ) by {
            if j < before.len() {
                assert(page@[j] == before[j]);
            }
        }
        k += 1;
    }
    let has_more = (offset as i128) + (take as i128) < (total as i128);
    PaginatedSegmentsResponse { segments: page, total_count: total as i64, has_more }
}

// ── Time stamps ───────────────────────────────────────────────────────────────

/// `mm:ss`, or `hh:mm:ss` from one hour on, of `ms` milliseconds (negative
/// counts as zero).
pub open spec fn clock_text(ms: int) -> Seq<char> {
    let total = if ms < 0 { 0nat } else { (ms / 1000) as nat };
    let h = total / 3600;
    let m = (total % 3600) / 60;
    let s = total % 60;
    if h > 0 {
        padded(h, 2) + ":"@ + padded(m, 2) + ":"@ + padded(s, 2)
    } else {
        padded(m, 2) + ":"@ + padded(s, 2)
    }
}

/// `hh:mm:ss,mmm` of `ms` milliseconds (negative counts as zero).
pub open spec fn srt_time_text(ms: int) -> Seq<char> {
    let t = if ms < 0 { 0nat } else { ms as nat };
    padded(t / 3600000, 2) + ":"@ + padded((t % 3600000) / 60000, 2) + ":"@ + padded(
        (t % 60000) / 1000,
        2,
    ) + ","@ + padded(t % 1000, 3)
}

pub(crate) fn push_clock_text(out: &mut Vec<char>, ms: i64)
    ensures
        final(out)@ == old(out)@ + clock_text(ms as int),
{
    let total: u64 = if ms < 0 { 0 } else { (ms / 1000) as u64 };
    let h = total / 3600;
    let m = (total % 3600) / 60;
    let s = total % 60;
    let ghost start = out@;
    if h > 0 {
        push_padded(out, h, 2);
        push_str(out, ":");
    }
    push_padded(out, m, 2);
    push_str(out, ":");
    push_padded(out, s, 2);
    proof {
        if h > 0 {
            assert(out@ =~= start + clock_text(ms as int));
        } else {
            assert(out@ =~= start + clock_text(ms as int));
        }
    }
}

/// TXT / Markdown time stamp of `ms` ([`clock_text`]).
pub fn ms_to_clock(ms: i64) -> (r: String)
    ensures
        r@ == clock_text(ms as int),
{
    let mut out: Vec<char> = Vec::new();
    push_clock_text(&mut out, ms);
    string_of(&out)
}

pub(crate) fn push_srt_text(out: &mut Vec<char>, ms: i64)
    ensures
        final(out)@ == old(out)@ + srt_time_text(ms as int),
{
    let t: u64 = if ms < 0 { 0 } else { ms as u64 };
    let ghost start = out@;
    push_padded(out, t / 3600000, 2);
    push_str(out, ":");
    push_padded(out, (t % 3600000) / 60000, 2);
    push_str(out, ":");
    push_padded(out, (t % 60000) / 1000, 2);
    push_str(out, ",");
    push_padded(out, t % 1000, 3);
    assert(out@ =~= start + srt_time_text(ms as int));
}

/// SRT cue time of `ms` ([`srt_time_text`]).
pub fn ms_to_srt(ms: i64) -> (r: String)
    ensures
        r@ == srt_time_text(ms as int),
{
    let mut out: Vec<char> = Vec::new();
    push_srt_text(&mut out, ms);
    string_of(&out)
}

// ── Saving a transcript ───────────────────────────────────────────────────────

/// Id given to a segment saved without one: `segment-` and a fresh id.
pub open spec fn stored_id(id: Seq<char>, fresh: Seq<char>) -> Seq<char> {
    if id.len() == 0 {
        "segment-"@ + fresh
    } else {
        id
    }
}

/// The segment stored for an input segment: its id, or `segment-` and
/// `fresh` when it has none, and a start of 0 when it has none.
pub fn segment_for_storage(input: RecordingSegmentInput, fresh: &str) -> (r: RecordingSegment)
    ensures
        r.id@ == stored_id(input.id@, fresh@),
        r.text == input.text,
        r.start_ms == match input.start_ms {
            Some(s) => s,
            None => 0,
        },
        r.end_ms == input.end_ms,
        r.speaker == input.speaker,
        r.source == input.source,
{
    let idv = chars_of(input.id.as_str());
    let id = if idv.len() == 0 {
        let mut v: Vec<char> = Vec::new();
        push_str(&mut v, "segment-");
        push_str(&mut v, fresh);
        string_of(&v)
    } else {
        input.id
    };
    RecordingSegment {
        id,
        text: input.text,
        start_ms: match input.start_ms {
            Some(s) => s,
            None => 0,
        },
        end_ms: input.end_ms,
        speaker: input.speaker,
        source: input.source,
    }
}

/// Largest end time among the segments that have one.
pub open spec fn max_end(segs: Seq<RecordingSegment>) -> Option<i64>
    decreases segs.len(),
{
    if segs.len() == 0 {
        None
    } else {
        let r = max_end(segs.drop_last());
        match segs.last().end_ms {
            Some(e) => match r {
                Some(m) => if e > m { Some(e) } else { Some(m) },
                None => Some(e),
            },
            None => r,
        }
    }
}

/// Duration stored for a saved recording: the recorder's own value when
/// known, else the latest segment end.
pub fn recording_duration(recorded_ms: Option<i64>, segments: &Vec<RecordingSegment>) -> (r: Option<i64>)
    ensures
        r == match recorded_ms {
            Some(d) => Some(d),
            None => max_end(segments@),
        },
{
    if recorded_ms.is_some() {
        return recorded_ms;
    }
    let mut best: Option<i64> = None;
    let mut i: usize = 0;
    assert(segments@.take(0) =~= Seq::<RecordingSegment>::empty());
    while i < segments.len()
        invariant
            i <= segments@.len(),
            best == max_end(segments@.take(i as int)),
        decreases segments@.len() - i,
    {
        assert(segments@.take(i + 1).drop_last() =~= segments@.take(i as int));
        match segments[i].end_ms {
            Some(e) => {
                best = match best {
                    Some(m) => if e > m { Some(e) } else { Some(m) },
                    None => Some(e),
                };
            },
            None => {},
        }
        i += 1;
    }
    assert(segments@.take(segments@.len() as int) =~= segments@);
    best
}

// ── Settings ──────────────────────────────────────────────────────────────────

fn or_default(v: Option<String>, d: &str) -> (r: String)
    ensures
        r@ == match v {
            Some(s) => s@,
            None => d@,
        },
{
    match v {
        Some(s) => s,
        None => {
            let c = chars_of(d);
            string_of(&c)
        },
    }
}

/// The summary model settings from the stored values, with the defaults
/// `sherpaonnx`, `sense-voice` and `base` for the missing ones.
pub fn model_config_from(
    provider: Option<String>,
    model: Option<String>,
    whisper_model: Option<String>,
    api_key: Option<String>,
    ollama_endpoint: Option<String>,
) -> (r: ModelConfig)
    ensures
        r.provider@ == match provider {
            Some(s) => s@,
            None => "sherpaonnx"@,
        },
        r.model@ == match model {
            Some(s) => s@,
            None => "sense-voice"@,
        },
        r.whisper_model@ == match whisper_model {
            Some(s) => s@,
            None => "base"@,
        },
        r.api_key == api_key,
        r.ollama_endpoint == ollama_endpoint,
{
    ModelConfig {
        provider: or_default(provider, "sherpaonnx"),
        model: or_default(model, "sense-voice"),
        whisper_model: or_default(whisper_model, "base"),
        api_key,
        ollama_endpoint,
    }
}

/// The transcription model settings from the stored values, with the
/// defaults `sherpaonnx` and `sense-voice` for the missing ones.
pub fn transcript_config_from(provider: Option<String>, model: Option<String>, api_key: Option<String>) -> (r:
    TranscriptConfig)
    ensures
        r.provider@ == match provider {
            Some(s) => s@,
            None => "sherpaonnx"@,
        },
        r.model@ == match model {
            Some(s) => s@,
            None => "sense-voice"@,
        },
        r.api_key == api_key,
{
    TranscriptConfig {
        provider: or_default(provider, "sherpaonnx"),
        model: or_default(model, "sense-voice"),
        api_key,
    }
}

/// The settings written when the summary model settings are saved: the
/// provider, model and Whisper model always; the endpoint when given; the
/// API key when given and not empty.
pub open spec fn model_config_writes_spec(
    provider: Seq<char>,
    model: Seq<char>,
    whisper_model: Seq<char>,
    api_key: Option<Seq<char>>,
    endpoint: Option<Seq<char>>,
) -> Seq<(Seq<char>, Seq<char>)> {
    let base = seq![
        ("model.provider"@, provider),
        ("model.name"@, model),
        ("model.whisper_model"@, whisper_model),
    ];
    let with_endpoint = match endpoint {
        Some(e) => base.push(("model.ollama_endpoint"@, e)),
        None => base,
    };
    match api_key {
        Some(k) => if k.len() > 0 {
            with_endpoint.push(("model.api_key"@, k))
        } else {
            with_endpoint
        },
        None => with_endpoint,
    }
}

/// A list of setting writes as views.
pub open spec fn writes_view(w: Seq<(String, String)>) -> Seq<(Seq<char>, Seq<char>)> {
    w.map_values(|p: (String, String)| (p.0@, p.1@))
}

fn pair(k: &str, v: &str) -> (r: (String, String))
    ensures
        r.0@ == k@,
        r.1@ == v@,
{
    let kv = chars_of(k);
    let vv = chars_of(v);
    (string_of(&kv), string_of(&vv))
}

/// The setting writes of a save of the summary model settings
/// ([`model_config_writes_spec`]), in order.
pub fn model_config_writes(
    provider: &str,
    model: &str,
    whisper_model: &str,
    api_key: Option<&str>,
    ollama_endpoint: Option<&str>,
) -> (r: Vec<(String, String)>)
    ensures
        writes_view(r@) == model_config_writes_spec(
            provider@,
            model@,
            whisper_model@,
            match api_key {
                Some(k) => Some(k@),
                None => None,
            },
            match ollama_endpoint {
                Some(e) => Some(e@),
                None => None,
            },
        ),
{
    let mut w: Vec<(String, String)> = Vec::new();
    w.push(pair("model.provider", provider));
    w.push(pair("model.name", model));
    w.push(pair("model.whisper_model", whisper_model));
    match ollama_endpoint {
        Some(e) => {
            w.push(pair("model.ollama_endpoint", e));
        },
        None => {},
    }
    match api_key {
        Some(k) => {
            if chars_of(k).len() > 0 {
                w.push(pair("model.api_key", k));
            }
        },
        None => {},
    }
    assert(writes_view(w@) =~= model_config_writes_spec(
        provider@,
        model@,
        whisper_model@,
        match api_key {
            Some(k) => Some(k@),
            None => None,
        },
        match ollama_endpoint {
            Some(e) => Some(e@),
            None => None,
        },
    ));
    w
}

/// The setting writes of a save of the transcription model settings: the
/// provider and model always, the API key when given and not empty.
pub open spec fn transcript_config_writes_spec(
    provider: Seq<char>,
    model: Seq<char>,
    api_key: Option<Seq<char>>,
) -> Seq<(Seq<char>, Seq<char>)> {
    let base = seq![("transcript.provider"@, provider), ("transcript.model"@, model)];
    match api_key {
        Some(k) => if k.len() > 0 {
            base.push(("transcript.api_key"@, k))
        } else {
            base
        },
        None => base,
    }
}

/// The setting writes of a save of the transcription model settings
/// ([`transcript_config_writes_spec`]), in order.
pub fn transcript_config_writes(provider: &str, model: &str, api_key: Option<&str>) -> (r: Vec<
    (String, String),
>)
    ensures
        writes_view(r@) == transcript_config_writes_spec(
            provider@,
            model@,
            match api_key {
                Some(k) => Some(k@),
                None => None,
            },
        ),
{
    let mut w: Vec<(String, String)> = Vec::new();
    w.push(pair("transcript.provider", provider));
    w.push(pair("transcript.model", model));
    match api_key {
        Some(k) => {
            if chars_of(k).len() > 0 {
                w.push(pair("transcript.api_key", k));
            }
        },
        None => {},
    }
    assert(writes_view(w@) =~= transcript_config_writes_spec(
        provider@,
        model@,
        match api_key {
            Some(k) => Some(k@),
            None => None,
        },
    ));
    w
}

// ── Stored rows and repositories ──────────────────────────────────────────────

/// One row of the key/value settings table.
pub struct SettingRow {
    pub key: String,
    pub value: String,
}

/// One segment found by a text search, with its recording's title.
pub struct SearchResult {
    pub id: String,
    pub recording_id: String,
    pub title: String,
    pub text: String,
    pub start_ms: i64,
}

/// Stored recordings.
pub struct RecordingsRepository;

/// Stored key/value settings.
pub struct SettingsRepository;

/// Stored transcript segments.
pub struct TranscriptSegmentsRepository;

impl SettingsRepository {
    /// The export directory setting: the stored value, or empty.
    pub fn export_dir_or_default(stored: Option<String>) -> (r: String)
        ensures
            r@ == match stored {
                Some(s) => s@,
                None => Seq::<char>::empty(),
            },
    {
        match stored {
            Some(s) => s,
            None => String::new(),
        }
    }
}

impl RecordingsRepository {
    /// Source stored for a new recording: the given one, or `realtime`.
    pub fn stored_source(source: Option<&str>) -> (r: &str)
        ensures
            r@ == match source {
                Some(s) => s@,
                None => "realtime"@,
            },
    {
        match source {
            Some(s) => s,
            None => "realtime",
        }
    }
}

impl TranscriptSegmentsRepository {
    /// The `LIKE` pattern of a text search: the query between `%` signs.
    pub fn search_pattern(query: &str) -> (r: String)
        ensures
            r@ == "%"@ + query@ + "%"@,
    {
        let mut v: Vec<char> = Vec::new();
        push_str(&mut v, "%");
        push_str(&mut v, query);
        push_str(&mut v, "%");
        string_of(&v)
    }

    /// Source stored for a segment: the given one, or `realtime`.
    pub fn stored_source(source: Option<&str>) -> (r: &str)
        ensures
            r@ == match source {
                Some(s) => s@,
                None => "realtime"@,
            },
    {
        match source {
            Some(s) => s,
            None => "realtime",
        }
    }
}

impl SearchResult {
    /// The search hit as answered to the front end.
    pub fn into_result(self) -> (r: SearchTranscriptResult)
        ensures
            r.id == self.id,
            r.recording_id == self.recording_id,
            r.title == self.title,
            r.text == self.text,
            r.start_ms == self.start_ms,
    {
        SearchTranscriptResult {
            id: self.id,
            recording_id: self.recording_id,
            title: self.title,
            text: self.text,
            start_ms: self.start_ms,
        }
    }
}

// ── Answers to updates ────────────────────────────────────────────────────────

fn with_id(prefix: &str, id: &str) -> (r: String)
    ensures
        r@ == prefix@ + id@,
{
    let mut v: Vec<char> = Vec::new();
    push_str(&mut v, prefix);
    push_str(&mut v, id);
    string_of(&v)
}

/// Answer to a deletion: an error naming the recording when nothing was
/// deleted.
pub fn deletion_result(deleted: bool, recording_id: &str) -> (r: Result<(), String>)
    ensures
        deleted ==> r is Ok,
        !deleted ==> (r matches Err(e) && e@ == "Recording not found or could not be deleted: "@
            + recording_id@),
{
    if deleted {
        Ok(())
    } else {
        Err(with_id("Recording not found or could not be deleted: ", recording_id))
    }
}

/// Answer to a rename: an error naming the recording when none was found.
pub fn title_update_result(updated: bool, recording_id: &str) -> (r: Result<(), String>)
    ensures
        updated ==> r is Ok,
        !updated ==> (r matches Err(e) && e@ == "No recording found with id "@ + recording_id@),
{
    if updated {
        Ok(())
    } else {
        Err(with_id("No recording found with id ", recording_id))
    }
}

/// Answer to a segment edit: an error naming the segment when none was
/// found.
pub fn segment_update_result(updated: bool, segment_id: &str) -> (r: Result<(), String>)
    ensures
        updated ==> r is Ok,
        !updated ==> (r matches Err(e) && e@ == "Segment not found: "@ + segment_id@),
{
    if updated {
        Ok(())
    } else {
        Err(with_id("Segment not found: ", segment_id))
    }
}

/// Error when a recording does not exist.
pub fn recording_not_found(recording_id: &str) -> (r: String)
    ensures
        r@ == "Recording not found: "@ + recording_id@,
{
    with_id("Recording not found: ", recording_id)
}

} // verus!
