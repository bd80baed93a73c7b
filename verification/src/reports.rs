//! The Markdown documents written for each processed recording.
use vstd::prelude::*;
use crate::models::{SummaryDocument, TranscriptSegment};
use crate::text::{i64_to_decimal, owned, push_str, signed_decimal};

verus! {

/// One transcript segment: a heading with speaker and time span, then the text.
pub open spec fn segment_markdown(s: TranscriptSegment) -> Seq<char> {
    "## "@ + s.speaker_label@ + " ["@ + signed_decimal(s.start_ms as int) + " - "@ + signed_decimal(
        s.end_ms as int,
    ) + "]\n"@ + s.text@ + "\n\n"@
}

pub open spec fn segments_markdown(segments: Seq<TranscriptSegment>) -> Seq<char>
    decreases segments.len(),
{
    if segments.len() == 0 {
        Seq::empty()
    } else {
        segments_markdown(segments.drop_last()) + segment_markdown(segments.last())
    }
}

/// The heading lines naming the recording.
pub open spec fn file_header(audio_id: Seq<char>, file_name: Seq<char>) -> Seq<char> {
    "\n\n- 文件名: "@ + file_name + "\n- 音频 ID: "@ + audio_id + "\n\n"@
}

/// The transcript document of a recording.
pub open spec fn transcript_markdown(
    audio_id: Seq<char>,
    file_name: Seq<char>,
    segments: Seq<TranscriptSegment>,
) -> Seq<char> {
    "# 转写稿"@ + file_header(audio_id, file_name) + segments_markdown(segments)
}

pub open spec fn bullets_markdown(bullets: Seq<String>) -> Seq<char>
    decreases bullets.len(),
{
    if bullets.len() == 0 {
        Seq::empty()
    } else {
        bullets_markdown(bullets.drop_last()) + "- "@ + bullets.last()@ + "\n"@
    }
}

/// The summary document of a recording: the title (or `摘要`), the key points
/// when there are any, then the full summary.
pub open spec fn summary_markdown(
    audio_id: Seq<char>,
    file_name: Seq<char>,
    summary: SummaryDocument,
) -> Seq<char> {
    let title = match summary.title {
        Some(t) => t@,
        None => "摘要"@,
    };
    let points = if summary.bullets@.len() == 0 {
        Seq::empty()
    } else {
        "## 要点\n"@ + bullets_markdown(summary.bullets@) + "\n"@
    };
    "# "@ + title + file_header(audio_id, file_name) + points + "## 详细摘要\n"@ + summary.full_text@
        + "\n"@
}

/// The name of the documents of a recording: its identifier with `.md`.
pub open spec fn document_file_name(audio_id: Seq<char>) -> Seq<char> {
    audio_id + ".md"@
}

pub fn document_name(audio_id: &str) -> (r: String)
    ensures
        r@ == document_file_name(audio_id@),
{
    let mut s = owned(audio_id);
    push_str(&mut s, ".md");
    s
}

fn push_file_header(out: &mut String, audio_id: &str, file_name: &str)
    ensures
        final(out)@ == old(out)@ + file_header(audio_id@, file_name@),
{
    push_str(out, "\n\n- 文件名: ");
    push_str(out, file_name);
    push_str(out, "\n- 音频 ID: ");
    push_str(out, audio_id);
    push_str(out, "\n\n");
    assert(final(out)@ =~= old(out)@ + file_header(audio_id@, file_name@));
}

/// The transcript document of a recording.
pub fn render_transcript(audio_id: &str, file_name: &str, segments: &[TranscriptSegment]) -> (r:
    String)
    ensures
        r@ == transcript_markdown(audio_id@, file_name@, segments@),
{
    let mut out = owned("# 转写稿");
    push_file_header(&mut out, audio_id, file_name);
    let ghost head = out@;
    for i in 0..segments.len()
        invariant
            out@ == head + segments_markdown(segments@.take(i as int)),
    {
        assert(segments@.take(i + 1).drop_last() =~= segments@.take(i as int));
        let s = &segments[i];
        push_str(&mut out, "## ");
        push_str(&mut out, s.speaker_label.as_str());
        push_str(&mut out, " [");
        let start = i64_to_decimal(s.start_ms);
        push_str(&mut out, start.as_str());
        push_str(&mut out, " - ");
        let end = i64_to_decimal(s.end_ms);
        push_str(&mut out, end.as_str());
        push_str(&mut out, "]\n");
        push_str(&mut out, s.text.as_str());
        push_str(&mut out, "\n\n");
        assert(out@ =~= head + segments_markdown(segments@.take(i + 1)));
    }
    assert(segments@.take(segments@.len() as int) =~= segments@);
    out
}

/// The summary document of a recording.
pub fn render_summary(audio_id: &str, file_name: &str, summary: &SummaryDocument) -> (r: String)
    ensures
        r@ == summary_markdown(audio_id@, file_name@, *summary),
{
    let mut out = owned("# ");
    match &summary.title {
        Some(t) => push_str(&mut out, t.as_str()),
        None => push_str(&mut out, "摘要"),
    }
    push_file_header(&mut out, audio_id, file_name);
    let ghost head = out@;
    if summary.bullets.len() > 0 {
        push_str(&mut out, "## 要点\n");
        let ghost mid = out@;
        for i in 0..summary.bullets.len()
            invariant
                out@ == mid + bullets_markdown(summary.bullets@.take(i as int)),
        {
            assert(summary.bullets@.take(i + 1).drop_last() =~= summary.bullets@.take(i as int));
            push_str(&mut out, "- ");
            push_str(&mut out, summary.bullets[i].as_str());
            push_str(&mut out, "\n");
            assert(out@ =~= mid + bullets_markdown(summary.bullets@.take(i + 1)));
        }
        assert(summary.bullets@.take(summary.bullets@.len() as int) =~= summary.bullets@);
        push_str(&mut out, "\n");
    }
    push_str(&mut out, "## 详细摘要\n");
    push_str(&mut out, summary.full_text.as_str());
    push_str(&mut out, "\n");
    assert(out@ =~= summary_markdown(audio_id@, file_name@, *summary));
    out
}

} // verus!
