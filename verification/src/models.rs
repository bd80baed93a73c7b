//! Data model of recordings, settings and devices.
use vstd::prelude::*;
use crate::text::{owned, str_eq};

verus! {

/// Processing stage of one recording.
#[derive(Clone, Copy, Debug, PartialEq, Eq, Structural)]
pub enum AudioStatus {
    Imported,
    Transcribing,
    Transcribed,
    Summarizing,
    Completed,
    FailedTranscription,
    FailedSummary,
}

/// The text under which a status is stored.
pub open spec fn status_text(s: AudioStatus) -> Seq<char> {
    match s {
        AudioStatus::Imported => "imported"@,
        AudioStatus::Transcribing => "transcribing"@,
        AudioStatus::Transcribed => "transcribed"@,
        AudioStatus::Summarizing => "summarizing"@,
        AudioStatus::Completed => "completed"@,
        AudioStatus::FailedTranscription => "failed_transcription"@,
        AudioStatus::FailedSummary => "failed_summary"@,
    }
}

/// The status stored under `v`; unknown text reads as `Imported`.
pub open spec fn status_from_text(v: Seq<char>) -> AudioStatus {
    if v == "transcribing"@ {
        AudioStatus::Transcribing
    } else if v == "transcribed"@ {
        AudioStatus::Transcribed
    } else if v == "summarizing"@ {
        AudioStatus::Summarizing
    } else if v == "completed"@ {
        AudioStatus::Completed
    } else if v == "failed_transcription"@ {
        AudioStatus::FailedTranscription
    } else if v == "failed_summary"@ {
        AudioStatus::FailedSummary
    } else {
        AudioStatus::Imported
    }
}

impl AudioStatus {
    pub fn as_str(self) -> (r: &'static str)
        ensures
            r@ == status_text(self),
    {
        match self {
            AudioStatus::Imported => "imported",
            AudioStatus::Transcribing => "transcribing",
            AudioStatus::Transcribed => "transcribed",
            AudioStatus::Summarizing => "summarizing",
            AudioStatus::Completed => "completed",
            AudioStatus::FailedTranscription => "failed_transcription",
            AudioStatus::FailedSummary => "failed_summary",
        }
    }

    pub fn from_db(value: &str) -> (r: Self)
        ensures
            r == status_from_text(value@),
    {
        if str_eq(value, "transcribing") {
            AudioStatus::Transcribing
        } else if str_eq(value, "transcribed") {
            AudioStatus::Transcribed
        } else if str_eq(value, "summarizing") {
            AudioStatus::Summarizing
        } else if str_eq(value, "completed") {
            AudioStatus::Completed
        } else if str_eq(value, "failed_transcription") {
            AudioStatus::FailedTranscription
        } else if str_eq(value, "failed_summary") {
            AudioStatus::FailedSummary
        } else {
            AudioStatus::Imported
        }
    }
}

/// Two texts that differ at position `i` are different.
proof fn lemma_texts_differ(a: Seq<char>, b: Seq<char>, i: int)
    requires
        0 <= i < a.len(),
        i < b.len(),
        a[i] != b[i],
    ensures
        a != b,
{
}

/// Reading back the stored text of a status gives the status itself.
pub proof fn lemma_status_text_round_trip(s: AudioStatus)
    ensures
        status_from_text(status_text(s)) == s,
{
    reveal_strlit("imported");
    reveal_strlit("transcribing");
    reveal_strlit("transcribed");
    reveal_strlit("summarizing");
    reveal_strlit("completed");
    reveal_strlit("failed_transcription");
    reveal_strlit("failed_summary");
    match s {
        AudioStatus::Imported => {
            lemma_texts_differ("imported"@, "transcribing"@, 0);
            lemma_texts_differ("imported"@, "transcribed"@, 0);
            lemma_texts_differ("imported"@, "summarizing"@, 0);
            lemma_texts_differ("imported"@, "completed"@, 0);
            lemma_texts_differ("imported"@, "failed_transcription"@, 0);
            lemma_texts_differ("imported"@, "failed_summary"@, 0);
        },
        AudioStatus::Transcribing => {},
        AudioStatus::Transcribed => {
            lemma_texts_differ("transcribed"@, "transcribing"@, 9);
        },
        AudioStatus::Summarizing => {
            lemma_texts_differ("summarizing"@, "transcribing"@, 0);
            lemma_texts_differ("summarizing"@, "transcribed"@, 0);
        },
        AudioStatus::Completed => {
            lemma_texts_differ("completed"@, "transcribing"@, 0);
            lemma_texts_differ("completed"@, "transcribed"@, 0);
            lemma_texts_differ("completed"@, "summarizing"@, 0);
        },
        AudioStatus::FailedTranscription => {
            lemma_texts_differ("failed_transcription"@, "transcribing"@, 0);
            lemma_texts_differ("failed_transcription"@, "transcribed"@, 0);
            lemma_texts_differ("failed_transcription"@, "summarizing"@, 0);
            lemma_texts_differ("failed_transcription"@, "completed"@, 0);
        },
        AudioStatus::FailedSummary => {
            lemma_texts_differ("failed_summary"@, "transcribing"@, 0);
            lemma_texts_differ("failed_summary"@, "transcribed"@, 0);
            lemma_texts_differ("failed_summary"@, "summarizing"@, 0);
            lemma_texts_differ("failed_summary"@, "completed"@, 0);
            lemma_texts_differ("failed_summary"@, "failed_transcription"@, 7);
        },
    }
}

/// Distinct statuses are stored under distinct texts.
pub proof fn lemma_status_text_injective(s: AudioStatus, t: AudioStatus)
    requires
        s != t,
    ensures
        status_text(s) != status_text(t),
{
    lemma_status_text_round_trip(s);
    lemma_status_text_round_trip(t);
}

} // verus!

verus! {

/// A point in time: whole seconds since the Unix epoch (UTC) and the
/// nanoseconds past that second.
#[derive(Clone, Copy, Debug, PartialEq, Eq, Structural)]
pub struct Timestamp {
    pub seconds: i64,
    pub nanos: u32,
}

/// An extra HTTP header sent to a provider.
#[derive(Clone, Debug)]
pub struct HeaderEntry {
    pub key: String,
    pub value: String,
}

/// Where an HTTP service lives and how to authenticate to it.
#[derive(Clone, Debug)]
pub struct ProviderSettings {
    pub base_url: String,
    pub api_key: Option<String>,
    pub auth_header: Option<String>,
    pub extra_headers: Vec<HeaderEntry>,
}

/// Which removable drives count as the recorder.
#[derive(Clone, Debug)]
pub struct DeviceMatchRule {
    pub vid: Option<String>,
    pub pid: Option<String>,
    pub volume_label: Option<String>,
    pub path_hints: Vec<String>,
}

/// The user's settings.
#[derive(Clone, Debug)]
pub struct AppSettings {
    pub data_dir: String,
    pub output_dir: String,
    pub scan_directories: Vec<String>,
    pub allowed_extensions: Vec<String>,
    pub device_match_rule: DeviceMatchRule,
    pub transcription_provider: ProviderSettings,
    pub summary_provider: ProviderSettings,
    pub scan_interval_secs: u64,
    pub request_timeout_secs: u64,
    pub max_retries: u32,
    pub processing_concurrency: usize,
}

/// A recorder as shown in the status panel.
#[derive(Clone, Debug)]
pub struct DeviceInfo {
    pub identifier: String,
    pub volume_label: Option<String>,
    pub drive_letter: String,
    pub pnp_device_id: Option<String>,
    pub last_seen_at: Timestamp,
}

/// A recording whose processing failed.
#[derive(Clone, Debug)]
pub struct FailureItem {
    pub audio_id: String,
    pub file_name: String,
    pub status: AudioStatus,
    pub error_message: Option<String>,
    pub updated_at: Timestamp,
}

/// The overview shown on the dashboard.
#[derive(Clone, Debug)]
pub struct AppStatus {
    pub device_connected: bool,
    pub connected_devices: Vec<DeviceInfo>,
    pub last_scan_at: Option<Timestamp>,
    pub total_files: i64,
    pub completed_files: i64,
    pub in_flight_files: i64,
    pub failed_files: i64,
    pub recent_failures: Vec<FailureItem>,
}

/// One speaker turn of a transcript, with its time span in milliseconds.
#[derive(Clone, Debug)]
pub struct TranscriptSegment {
    pub speaker_label: String,
    pub start_ms: i64,
    pub end_ms: i64,
    pub text: String,
}

/// A generated summary.
#[derive(Clone, Debug)]
pub struct SummaryDocument {
    pub title: Option<String>,
    pub bullets: Vec<String>,
    pub full_text: String,
}

/// A stored recording.
#[derive(Clone, Debug)]
pub struct AudioRecord {
    pub id: String,
    pub device_identifier: String,
    pub file_name: String,
    pub relative_path: String,
    pub imported_path: String,
    pub transcript_path: Option<String>,
    pub summary_path: Option<String>,
    pub status: AudioStatus,
    pub error_message: Option<String>,
    pub synced_at: Timestamp,
    pub updated_at: Timestamp,
}

/// A recording with its transcript and summary.
#[derive(Clone, Debug)]
pub struct AudioRecordDetail {
    pub record: AudioRecord,
    pub transcript_segments: Vec<TranscriptSegment>,
    pub summary: Option<SummaryDocument>,
}

/// The filter of the recording list.
#[derive(Clone, Debug)]
pub struct AudioRecordQuery {
    pub search: Option<String>,
    pub status: Option<String>,
}

/// One line of the application log.
#[derive(Clone, Debug)]
pub struct LogEntry {
    pub id: i64,
    pub level: String,
    pub scope: String,
    pub message: String,
    pub created_at: Timestamp,
}

/// A drive that matched the recorder rule during a scan.
#[derive(Clone, Debug)]
pub struct DetectedDevice {
    pub identifier: String,
    pub drive_letter: String,
    pub volume_label: Option<String>,
    pub pnp_device_id: Option<String>,
    pub path_hints_matched: bool,
    pub last_seen_at: Timestamp,
}

/// A recording about to be stored.
#[derive(Clone, Debug)]
pub struct NewAudioRecord {
    pub id: String,
    pub device_identifier: String,
    pub file_name: String,
    pub relative_path: String,
    pub imported_path: String,
    pub fingerprint: String,
    pub synced_at: Timestamp,
}

/// A recording waiting for the worker.
#[derive(Clone, Debug)]
pub struct PendingAudioJob {
    pub id: String,
    pub imported_path: String,
    pub file_name: String,
    pub status: AudioStatus,
}

/// One drive as the system reports it, before the recorder rule is applied.
#[derive(Clone, Debug)]
pub struct RawDeviceRecord {
    pub drive_letter: String,
    pub volume_label: Option<String>,
    pub pnp_device_id: Option<String>,
}

} // verus!

verus! {

impl Default for HeaderEntry {
    fn default() -> (r: Self)
        ensures
            r.key@.len() == 0,
            r.value@.len() == 0,
    {
        HeaderEntry { key: String::new(), value: String::new() }
    }
}

impl Default for ProviderSettings {
    fn default() -> (r: Self)
        ensures
            r.base_url@.len() == 0,
            r.api_key is None,
            r.auth_header is None,
            r.extra_headers@.len() == 0,
    {
        ProviderSettings {
            base_url: String::new(),
            api_key: None,
            auth_header: None,
            extra_headers: Vec::new(),
        }
    }
}

impl Default for DeviceMatchRule {
    fn default() -> (r: Self)
        ensures
            r.vid is None,
            r.pid is None,
            r.volume_label is None,
            r.path_hints@.len() == 0,
    {
        DeviceMatchRule { vid: None, pid: None, volume_label: None, path_hints: Vec::new() }
    }
}

impl Default for SummaryDocument {
    fn default() -> (r: Self)
        ensures
            r.title is None,
            r.bullets@.len() == 0,
            r.full_text@.len() == 0,
    {
        SummaryDocument { title: None, bullets: Vec::new(), full_text: String::new() }
    }
}

impl Default for AudioRecordQuery {
    fn default() -> (r: Self)
        ensures
            r.search is None,
            r.status is None,
    {
        AudioRecordQuery { search: None, status: None }
    }
}

/// The texts of a list of strings.
pub open spec fn texts(v: Seq<String>) -> Seq<Seq<char>> {
    v.map_values(|s: String| s@)
}

/// The directories on the recorder scanned by default.
pub open spec fn default_scan_dir_texts() -> Seq<Seq<char>> {
    seq!["Record"@]
}

/// The audio file extensions imported by default.
pub open spec fn default_extension_texts() -> Seq<Seq<char>> {
    seq!["wav"@, "mp3"@, "m4a"@, "aac"@]
}

pub fn default_scan_dirs() -> (r: Vec<String>)
    ensures
        texts(r@) == default_scan_dir_texts(),
{
    let mut v: Vec<String> = Vec::new();
    v.push(owned("Record"));
    assert(texts(v@) =~= default_scan_dir_texts());
    v
}

pub fn default_extensions() -> (r: Vec<String>)
    ensures
        texts(r@) == default_extension_texts(),
{
    let mut v: Vec<String> = Vec::new();
    v.push(owned("wav"));
    v.push(owned("mp3"));
    v.push(owned("m4a"));
    v.push(owned("aac"));
    assert(texts(v@) =~= default_extension_texts());
    v
}

pub fn default_scan_interval() -> (r: u64)
    ensures
        r == 15,
{
    15
}

pub fn default_timeout_secs() -> (r: u64)
    ensures
        r == 90,
{
    90
}

pub fn default_retries() -> (r: u32)
    ensures
        r == 3,
{
    3
}

pub fn default_concurrency() -> (r: usize)
    ensures
        r == 2,
{
    2
}

/// An empty provider: no URL, no key, no extra headers.
pub open spec fn is_empty_provider(p: ProviderSettings) -> bool {
    &&& p.base_url@.len() == 0
    &&& p.api_key is None
    &&& p.auth_header is None
    &&& p.extra_headers@.len() == 0
}

/// The settings written on first start.
pub open spec fn is_default_settings(s: AppSettings) -> bool {
    &&& s.data_dir@ == "D:\\VoicesSummary\\data"@
    &&& s.output_dir@ == "D:\\VoicesSummary\\output"@
    &&& texts(s.scan_directories@) == default_scan_dir_texts()
    &&& texts(s.allowed_extensions@) == default_extension_texts()
    &&& s.device_match_rule.vid is None
    &&& s.device_match_rule.pid is None
    &&& s.device_match_rule.volume_label is None
    &&& s.device_match_rule.path_hints@.len() == 0
    &&& is_empty_provider(s.transcription_provider)
    &&& is_empty_provider(s.summary_provider)
    &&& s.scan_interval_secs == 15
    &&& s.request_timeout_secs == 90
    &&& s.max_retries == 3
    &&& s.processing_concurrency == 2
}

impl Default for AppSettings {
    fn default() -> (r: Self)
        ensures
            is_default_settings(r),
    {
        AppSettings {
            data_dir: owned("D:\\VoicesSummary\\data"),
            output_dir: owned("D:\\VoicesSummary\\output"),
            scan_directories: default_scan_dirs(),
            allowed_extensions: default_extensions(),
            device_match_rule: DeviceMatchRule::default(),
            transcription_provider: ProviderSettings::default(),
            summary_provider: ProviderSettings::default(),
            scan_interval_secs: default_scan_interval(),
            request_timeout_secs: default_timeout_secs(),
            max_retries: default_retries(),
            processing_concurrency: default_concurrency(),
        }
    }
}

} // verus!
