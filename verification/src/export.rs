//! Export of a recording's transcript as TXT, SRT or Markdown: which
//! segments go out, how each format is written, where the file goes and how
//! it is named.
use vstd::prelude::*;

use crate::records::{
    clock_text, opt_view, push_clock_text, push_srt_text, same_segment, same_segments, srt_time_text,
    RecordingSegment,
};
use crate::text::{
    chars_of, decimal, decimal_of, is_blank, is_control, is_ctrl, lowercase_str, push_all, push_str,
    str_eq, str_lowercase, string_of, trim, trimmed,
};

verus! {

// ── Which segments are exported ───────────────────────────────────────────────

/// Source tag of segments from offline re-transcription.
pub const OFFLINE_SOURCE: &'static str = "offline_asr";

/// Whether a segment goes into an export for `source`: `realtime` takes all
/// but offline re-transcription segments, `offline_asr` only those, anything
/// else all segments.
pub open spec fn exported(seg: RecordingSegment, source: Option<Seq<char>>) -> bool {
    if source == Some("realtime"@) {
        opt_view(seg.source) != Some(OFFLINE_SOURCE@)
    } else if source == Some(OFFLINE_SOURCE@) {
        opt_view(seg.source) == Some(OFFLINE_SOURCE@)
    } else {
        true
    }
}

/// The exported segments of `segs`, in order.
pub open spec fn exported_segments(segs: Seq<RecordingSegment>, source: Option<Seq<char>>) -> Seq<RecordingSegment>
    decreases segs.len(),
{
    if segs.len() == 0 {
        seq![]
    } else {
        let r = exported_segments(segs.drop_last(), source);
        if exported(segs.last(), source) {
            r.push(segs.last())
        } else {
            r
        }
    }
}

/// Error when no segment is left to export.
pub const NOTHING_TO_EXPORT: &'static str = "No segments to export for the selected source";

fn is_offline(seg: &RecordingSegment) -> (r: bool)
    ensures
        r == (opt_view(seg.source) == Some(OFFLINE_SOURCE@)),
{
    match &seg.source {
        Some(s) => str_eq(s.as_str(), OFFLINE_SOURCE),
        None => false,
    }
}

/// The segments to export for `source` ([`exported_segments`]), or
/// [`NOTHING_TO_EXPORT`] when none is left.
pub fn export_segments(segments: &Vec<RecordingSegment>, source: &Option<String>) -> (r: Result<
    Vec<RecordingSegment>,
    String,
>)
    ensures
        match r {
            Ok(v) => exported_segments(segments@, opt_view(*source)).len() > 0 && same_segments(
                v@,
                exported_segments(segments@, opt_view(*source)),
            ),
            Err(e) => exported_segments(segments@, opt_view(*source)).len() == 0 && e@
                == NOTHING_TO_EXPORT@,
        },
{
    let realtime = match source {
        Some(s) => str_eq(s.as_str(), "realtime"),
        None => false,
    };
    let offline = match source {
        Some(s) => str_eq(s.as_str(), OFFLINE_SOURCE),
        None => false,
    };
    let ghost src = opt_view(*source);
    let mut kept: Vec<RecordingSegment> = Vec::new();
    let mut i: usize = 0;
    assert(segments@.take(0) =~= Seq::<RecordingSegment>::empty());
    while i < segments.len()
        invariant
            i <= segments@.len(),
            src == opt_view(*source),
            realtime == (src == Some("realtime"@)),
            offline == (src == Some(OFFLINE_SOURCE@)),
            same_segments(kept@, exported_segments(segments@.take(i as int), src)),
        decreases segments@.len() - i,
    {
        assert(segments@.take(i + 1).drop_last() =~= segments@.take(i as int));
        let take = if realtime {
            !is_offline(&segments[i])
        } else if offline {
            is_offline(&segments[i])
        } else {
            true
        };
        let ghost before = kept@;
        if take {
            kept.push(segments[i].duplicate());
            assert(same_segments(kept@, exported_segments(segments@.take(i + 1), src))) by {
                let g = exported_segments(segments@.take(i + 1), src);
                assert forall|j: int| 0 <= j < kept@.len() implies same_segment(#[trigger] kept@[j], g[j]) by {
                    if j < before.len() {
                        assert(kept@[j] == before[j]);
                    }
                }
            }
        }
        i += 1;
    }
    assert(segments@.take(segments@.len() as int) =~= segments@);
    if kept.len() == 0 {
        let e = chars_of(NOTHING_TO_EXPORT);
        return Err(string_of(&e));
    }
    Ok(kept)
}

// ── Formats ───────────────────────────────────────────────────────────────────

/// File format of an export.
#[derive(PartialEq, Eq, Structural, Clone, Copy, Debug)]
pub enum ExportFormat {
    Txt,
    Srt,
    Markdown,
}

/// The format named by `f` once lowercased: `txt`, `srt`, `markdown` or `md`.
pub open spec fn format_named(f: Seq<char>) -> Option<ExportFormat> {
    if f == "txt"@ {
        Some(ExportFormat::Txt)
    } else if f == "srt"@ {
        Some(ExportFormat::Srt)
    } else if f == "markdown"@ || f == "md"@ {
        Some(ExportFormat::Markdown)
    } else {
        None
    }
}

/// Error for a format that is not one of the three.
pub open spec fn unsupported_format_error(lowered: Seq<char>) -> Seq<char> {
    "Unsupported export format: "@ + lowered + ". Use txt, srt or markdown."@
}

/// The export format asked for by `format`, compared in lowercase
/// ([`format_named`]); the error quotes the lowercased name.
pub fn export_format(format: &str) -> (r: Result<ExportFormat, String>)
    ensures
        match format_named(str_lowercase(format@)) {
            Some(f) => r == Ok::<ExportFormat, String>(f),
            None => r matches Err(e) && e@ == unsupported_format_error(str_lowercase(format@)),
        },
{
    let low = lowercase_str(format);
    let s = low.as_str();
    if str_eq(s, "txt") {
        Ok(ExportFormat::Txt)
    } else if str_eq(s, "srt") {
        Ok(ExportFormat::Srt)
    } else if str_eq(s, "markdown") || str_eq(s, "md") {
        Ok(ExportFormat::Markdown)
    } else {
        let mut e: Vec<char> = Vec::new();
        push_str(&mut e, "Unsupported export format: ");
        push_str(&mut e, s);
        push_str(&mut e, ". Use txt, srt or markdown.");
        Err(string_of(&e))
    }
}

impl ExportFormat {
    /// File extension of the format.
    pub open spec fn ext_spec(self) -> Seq<char> {
        match self {
            ExportFormat::Txt => "txt"@,
            ExportFormat::Srt => "srt"@,
            ExportFormat::Markdown => "md"@,
        }
    }

    /// File extension of the format (`txt`, `srt`, `md`).
    pub fn extension(&self) -> (r: &'static str)
        ensures
            r@ == self.ext_spec(),
    {
        match self {
            ExportFormat::Txt => "txt",
            ExportFormat::Srt => "srt",
            ExportFormat::Markdown => "md",
        }
    }
}

/// A segment has a speaker worth naming.
pub open spec fn named_speaker(seg: RecordingSegment) -> Option<Seq<char>> {
    match opt_view(seg.speaker) {
        Some(sp) => if sp.len() > 0 { Some(sp) } else { None },
        None => None,
    }
}

/// TXT line of a segment: `[time] speaker: text` or `[time] text`.
pub open spec fn txt_line(seg: RecordingSegment) -> Seq<char> {
    match named_speaker(seg) {
        Some(sp) => "["@ + clock_text(seg.start_ms as int) + "] "@ + sp + ": "@ + seg.text@ + "\n"@,
        None => "["@ + clock_text(seg.start_ms as int) + "] "@ + seg.text@ + "\n"@,
    }
}

/// Markdown line of a segment: `- **[time] speaker**：text` or
/// `- **[time]** text`.
pub open spec fn md_line(seg: RecordingSegment) -> Seq<char> {
    match named_speaker(seg) {
        Some(sp) => "- **["@ + clock_text(seg.start_ms as int) + "] "@ + sp + "**："@ + seg.text@
            + "\n"@,
        None => "- **["@ + clock_text(seg.start_ms as int) + "]** "@ + seg.text@ + "\n"@,
    }
}

/// End of an SRT cue: the segment's end, or two seconds after its start.
pub open spec fn cue_end(seg: RecordingSegment) -> int {
    match seg.end_ms {
        Some(e) => e as int,
        None => seg.start_ms + 2000,
    }
}

/// SRT cue `n` of a segment.
pub open spec fn srt_cue(n: nat, seg: RecordingSegment) -> Seq<char> {
    decimal(n) + "\n"@ + srt_time_text(seg.start_ms as int) + " --> "@ + srt_time_text(cue_end(seg))
        + "\n"@ + seg.text@ + "\n\n"@
}

/// The lines of the segments in one of the line formats, in order.
pub open spec fn body_of(segs: Seq<RecordingSegment>, markdown: bool) -> Seq<char>
    decreases segs.len(),
{
    if segs.len() == 0 {
        seq![]
    } else {
        body_of(segs.drop_last(), markdown) + if markdown {
            md_line(segs.last())
        } else {
            txt_line(segs.last())
        }
    }
}

/// The SRT cues of the segments, numbered from 1.
pub open spec fn srt_of(segs: Seq<RecordingSegment>) -> Seq<char>
    decreases segs.len(),
{
    if segs.len() == 0 {
        seq![]
    } else {
        srt_of(segs.drop_last()) + srt_cue(segs.len(), segs.last())
    }
}

/// The segments can be written as SRT: a segment without an end has room
/// for the two-second default.
pub open spec fn srt_ready(segs: Seq<RecordingSegment>) -> bool {
    forall|i: int| 0 <= i < segs.len() ==> (#[trigger] segs[i]).end_ms is Some || segs[i].start_ms
        <= i64::MAX - 2000
}

/// A TXT export: the title, a blank line, one line per segment.
pub open spec fn txt_export(title: Seq<char>, segs: Seq<RecordingSegment>) -> Seq<char> {
    title + "\n\n"@ + body_of(segs, false)
}

/// A Markdown export: a heading with the title, the creation time and the
/// duration (or "未知"), a rule, one list item per segment.
pub open spec fn markdown_export(
    title: Seq<char>,
    created_at: Seq<char>,
    duration_ms: Option<i64>,
    segs: Seq<RecordingSegment>,
) -> Seq<char> {
    let d = match duration_ms {
        Some(ms) => clock_text(ms as int),
        None => "未知"@,
    };
    "# "@ + title + "\n\n- 创建时间："@ + created_at + "\n- 时长："@ + d + "\n\n---\n\n"@ + body_of(segs, true)
}

fn push_segment_line(out: &mut Vec<char>, seg: &RecordingSegment, markdown: bool)
    ensures
        final(out)@ == old(out)@ + if markdown {
            md_line(*seg)
        } else {
            txt_line(*seg)
        },
{
    let ghost start = out@;
    let speaker: Option<&String> = match &seg.speaker {
        Some(sp) => if chars_of(sp.as_str()).len() > 0 {
            Some(sp)
        } else {
            None
        },
        None => None,
    };
    if markdown {
        push_str(out, "- **[");
    } else {
        push_str(out, "[");
    }
    push_clock_text(out, seg.start_ms);
    match speaker {
        Some(sp) => {
            push_str(out, "] ");
            push_str(out, sp.as_str());
            if markdown {
                push_str(out, "**：");
            } else {
                push_str(out, ": ");
            }
        },
        None => {
            if markdown {
                push_str(out, "]** ");
            } else {
                push_str(out, "] ");
            }
        },
    }
    push_str(out, seg.text.as_str());
    push_str(out, "\n");
    assert(out@ =~= start + if markdown {
        md_line(*seg)
    } else {
        txt_line(*seg)
    });
}

fn push_body(out: &mut Vec<char>, segs: &Vec<RecordingSegment>, markdown: bool)
    ensures
        final(out)@ == old(out)@ + body_of(segs@, markdown),
{
    let ghost start = out@;
    let mut i: usize = 0;
    assert(segs@.take(0) =~= Seq::<RecordingSegment>::empty());
    while i < segs.len()
        invariant
            i <= segs@.len(),
            out@ == start + body_of(segs@.take(i as int), markdown),
        decreases segs@.len() - i,
    {
        assert(segs@.take(i + 1).drop_last() =~= segs@.take(i as int));
        push_segment_line(out, &segs[i], markdown);
        i += 1;
    }
    assert(segs@.take(segs@.len() as int) =~= segs@);
}

/// The TXT export ([`txt_export`]).
pub fn render_txt(title: &str, segments: &Vec<RecordingSegment>) -> (r: String)
    ensures
        r@ == txt_export(title@, segments@),
{
    let mut out: Vec<char> = Vec::new();
    push_str(&mut out, title);
    push_str(&mut out, "\n\n");
    push_body(&mut out, segments, false);
    string_of(&out)
}

/// The Markdown export ([`markdown_export`]); `created_at` is the creation
/// time already written as `YYYY-MM-DD HH:MM:SS`.
pub fn render_markdown(
    title: &str,
    created_at: &str,
    duration_ms: Option<i64>,
    segments: &Vec<RecordingSegment>,
) -> (r: String)
    ensures
        r@ == markdown_export(title@, created_at@, duration_ms, segments@),
{
    let mut out: Vec<char> = Vec::new();
    push_str(&mut out, "# ");
    push_str(&mut out, title);
    push_str(&mut out, "\n\n- 创建时间：");
    push_str(&mut out, created_at);
    push_str(&mut out, "\n- 时长：");
    match duration_ms {
        Some(ms) => push_clock_text(&mut out, ms),
        None => push_str(&mut out, "未知"),
    }
    push_str(&mut out, "\n\n---\n\n");
    push_body(&mut out, segments, true);
    string_of(&out)
}

fn push_srt_cue(out: &mut Vec<char>, n: u64, seg: &RecordingSegment)
    requires
        seg.end_ms is Some || seg.start_ms <= i64::MAX - 2000,
    ensures
        final(out)@ == old(out)@ + srt_cue(n as nat, *seg),
{
    let ghost start = out@;
    let end = match seg.end_ms {
        Some(e) => e,
        None => seg.start_ms + 2000,
    };
    let num = decimal_of(n);
    push_all(out, &num);
    push_str(out, "\n");
    push_srt_text(out, seg.start_ms);
    push_str(out, " --> ");
    push_srt_text(out, end);
    push_str(out, "\n");
    push_str(out, seg.text.as_str());
    push_str(out, "\n\n");
    assert(out@ =~= start + srt_cue(n as nat, *seg));
}

/// The SRT export: one numbered cue per segment ([`srt_of`]).
pub fn render_srt(segments: &Vec<RecordingSegment>) -> (r: String)
    requires
        srt_ready(segments@),
        segments@.len() < u64::MAX,
    ensures
        r@ == srt_of(segments@),
{
    let mut out: Vec<char> = Vec::new();
    let mut i: usize = 0;
    assert(segments@.take(0) =~= Seq::<RecordingSegment>::empty());
    while i < segments.len()
        invariant
            i <= segments@.len() < u64::MAX,
            srt_ready(segments@),
            out@ == srt_of(segments@.take(i as int)),
        decreases segments@.len() - i,
    {
        assert(segments@.take(i + 1).drop_last() =~= segments@.take(i as int));
        assert(segments@[i as int].end_ms is Some || segments@[i as int].start_ms <= i64::MAX - 2000);
        push_srt_cue(&mut out, (i + 1) as u64, &segments[i]);
        i += 1;
    }
    assert(segments@.take(segments@.len() as int) =~= segments@);
    string_of(&out)
}

/// The export of the segments in `format`.
pub open spec fn export_text(
    format: ExportFormat,
    title: Seq<char>,
    created_at: Seq<char>,
    duration_ms: Option<i64>,
    segs: Seq<RecordingSegment>,
) -> Seq<char> {
    match format {
        ExportFormat::Txt => txt_export(title, segs),
        ExportFormat::Srt => srt_of(segs),
        ExportFormat::Markdown => markdown_export(title, created_at, duration_ms, segs),
    }
}

/// The export of the segments in `format`.
pub fn render_export(
    format: ExportFormat,
    title: &str,
    created_at: &str,
    duration_ms: Option<i64>,
    segments: &Vec<RecordingSegment>,
) -> (r: String)
    requires
        format == ExportFormat::Srt ==> srt_ready(segments@) && segments@.len() < u64::MAX,
    ensures
        r@ == export_text(format, title@, created_at@, duration_ms, segments@),
{
    match format {
        ExportFormat::Txt => render_txt(title, segments),
        ExportFormat::Srt => render_srt(segments),
        ExportFormat::Markdown => render_markdown(title, created_at, duration_ms, segments),
    }
}

// ── File names and places ─────────────────────────────────────────────────────

/// Characters that may not stand in a file name.
pub open spec fn forbidden_in_name(c: char) -> bool {
    c == '<' || c == '>' || c == ':' || c == '"' || c == '/' || c == '\\' || c == '|' || c == '?'
        || c == '*' || is_ctrl(c)
}

/// `name` with every forbidden character replaced by `_`.
pub open spec fn name_chars_replaced(name: Seq<char>) -> Seq<char> {
    name.map_values(|c: char| if forbidden_in_name(c) { '_' } else { c })
}

/// A safe file name from a title: forbidden characters become `_`, the
/// result is trimmed, cut to 80 characters, and `recording` when blank.
pub open spec fn safe_name(name: Seq<char>) -> Seq<char> {
    let t = trim(name_chars_replaced(name));
    if t.len() == 0 {
        "recording"@
    } else if t.len() > 80 {
        t.take(80)
    } else {
        t
    }
}

/// A file name made safe for every platform ([`safe_name`]).
pub fn sanitize_filename(name: &str) -> (r: String)
    ensures
        r@ == safe_name(name@),
{
    let v = chars_of(name);
    let mut cleaned: Vec<char> = Vec::new();
    let mut i: usize = 0;
    while i < v.len()
        invariant
            v@ == name@,
            i <= v@.len(),
            cleaned@ == name_chars_replaced(name@.take(i as int)),
        decreases v@.len() - i,
    {
        let c = v[i];
        let bad = c == '<' || c == '>' || c == ':' || c == '"' || c == '/' || c == '\\' || c == '|'
            || c == '?' || c == '*' || is_control(c);
        cleaned.push(if bad { '_' } else { c });
        assert(name_chars_replaced(name@.take(i + 1)) =~= name_chars_replaced(name@.take(i as int)).push(
            if bad { '_' } else { c },
        ));
        i += 1;
    }
    assert(name@.take(v@.len() as int) =~= name@);
    let t = trimmed(&cleaned);
    if t.len() == 0 {
        let r = chars_of("recording");
        return string_of(&r);
    }
    if t.len() > 80 {
        let mut cut: Vec<char> = Vec::new();
        let mut k: usize = 0;
        while k < 80
            invariant
                k <= 80 < t@.len(),
                cut@ == t@.take(k as int),
            decreases 80 - k,
        {
            cut.push(t[k]);
            assert(t@.take(k + 1) =~= t@.take(k as int).push(t@[k as int]));
            k += 1;
        }
        return string_of(&cut);
    }
    string_of(&t)
}

/// Suffix of an export file for `source`, so that realtime and offline
/// exports do not overwrite each other.
pub open spec fn source_suffix(source: Option<Seq<char>>) -> Seq<char> {
    if source == Some("realtime"@) {
        "_realtime"@
    } else if source == Some(OFFLINE_SOURCE@) {
        "_offline"@
    } else {
        ""@
    }
}

/// File name of an export: safe title, source suffix, extension.
pub fn export_file_name(title: &str, source: &Option<String>, format: ExportFormat) -> (r: String)
    ensures
        r@ == safe_name(title@) + source_suffix(opt_view(*source)) + "."@ + format.ext_spec(),
{
    let base = sanitize_filename(title);
    let mut out = chars_of(base.as_str());
    let suffix: &str = match source {
        Some(s) => if str_eq(s.as_str(), "realtime") {
            "_realtime"
        } else if str_eq(s.as_str(), OFFLINE_SOURCE) {
            "_offline"
        } else {
            ""
        },
        None => "",
    };
    proof {
        reveal_strlit("");
    }
    assert(suffix@ == source_suffix(opt_view(*source)));
    push_str(&mut out, suffix);
    push_str(&mut out, ".");
    push_str(&mut out, format.extension());
    string_of(&out)
}

/// File name of an exported AI summary: `<safe title>_AI总结.md`.
pub fn summary_file_name(title: &str) -> (r: String)
    ensures
        r@ == safe_name(title@) + "_AI总结.md"@,
{
    let base = sanitize_filename(title);
    let mut out = chars_of(base.as_str());
    push_str(&mut out, "_AI总结.md");
    string_of(&out)
}

/// Error when no export directory can be found.
pub const NO_EXPORT_DIR: &'static str = "No export directory available: set one in Settings or pass output_dir";

/// The directory passed with the request, when it is not blank.
pub fn requested_export_dir(output_dir: Option<String>) -> (r: Option<String>)
    ensures
        match output_dir {
            Some(d) => if trim(d@).len() > 0 {
                r == Some(d)
            } else {
                r is None
            },
            None => r is None,
        },
{
    match output_dir {
        Some(d) => {
            let v = chars_of(d.as_str());
            if is_blank(&v) {
                None
            } else {
                Some(d)
            }
        },
        None => None,
    }
}

/// The export directory when none was passed: the configured default unless
/// blank, else the recording's own folder unless blank, else an error.
pub fn fallback_export_dir(setting_dir: String, folder_path: Option<&str>) -> (r: Result<String, String>)
    ensures
        trim(setting_dir@).len() > 0 ==> r == Ok::<String, String>(setting_dir),
        trim(setting_dir@).len() == 0 ==> match folder_path {
            Some(f) if trim(f@).len() > 0 => r matches Ok(d) && d@ == f@,
            _ => r matches Err(e) && e@ == NO_EXPORT_DIR@,
        },
{
    let sv = chars_of(setting_dir.as_str());
    if !is_blank(&sv) {
        return Ok(setting_dir);
    }
    match folder_path {
        Some(f) => {
            let fv = chars_of(f);
            if !is_blank(&fv) {
                return Ok(string_of(&fv));
            }
        },
        None => {},
    }
    let e = chars_of(NO_EXPORT_DIR);
    Err(string_of(&e))
}

} // verus!
