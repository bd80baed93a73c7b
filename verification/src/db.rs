//! What the store of recordings computes around its SQL: the text of the
//! listing query, how stored rows read back as records, and the dashboard
//! overview.
use vstd::prelude::*;
use crate::errors::AppError;
use crate::ingestion::hex_digit;
use crate::jobs::is_pending;
use crate::models::{
    texts, status_from_text, status_text, AppStatus, AudioRecord, AudioRecordQuery, AudioStatus,
    DetectedDevice, DeviceInfo, FailureItem, LogEntry, PendingAudioJob, SummaryDocument, Timestamp,
};
use crate::text::{is_blank, is_blank_str, is_ws, lemma_trim_empty_iff_blank, owned, push_str, str_eq, trim};

verus! {

/// Where the recordings are stored.
#[derive(Clone, Debug)]
pub struct Database {
    path: String,
}

impl Database {
    pub closed spec fn location(&self) -> Seq<char> {
        self.path@
    }

    /// The store kept in the file at `path`.
    pub fn from_path(path: String) -> (r: Self)
        ensures
            r.location() == path@,
    {
        Database { path }
    }

    pub fn path(&self) -> (r: &str)
        ensures
            r@ == self.location(),
    {
        self.path.as_str()
    }
}

/// The instant written in `text` in RFC 3339 form, as whole seconds since the
/// Unix epoch and nanoseconds, or `None` when the text is not RFC 3339.
pub uninterp spec fn rfc3339_instant(text: Seq<char>) -> Option<(i64, u32)>;

pub open spec fn instant_of(text: Seq<char>) -> Option<Timestamp> {
    match rfc3339_instant(text) {
        Some((s, n)) => Some(Timestamp { seconds: s, nanos: n }),
        None => None,
    }
}

/// Whether the instant `seconds` after the Unix epoch falls in a year written
/// with four digits (0000 to 9999).
pub open spec fn four_digit_year(seconds: i64) -> bool {
    -62167219200 <= seconds < 253402300800
}

/// `chrono::DateTime::parse_from_rfc3339`, taken to UTC: the instant the text
/// names, or `None` when it does not parse. The claim: it returns an instant
/// exactly when `rfc3339_instant` gives one, with the same seconds and
/// nanoseconds; and a text that `to_rfc3339` wrote for an instant in a
/// four-digit year is read back as that instant (the parser takes a four-digit
/// year, the `+00:00` offset, a second of 60 as a leap second, and any number
/// of fraction digits). Years written with a sign and more digits do not parse.
#[verifier::external_body]
fn parse_rfc3339(text: &str) -> (r: Option<Timestamp>)
    ensures
        r is Some <==> rfc3339_instant(text@) is Some,
        r matches Some(t) ==> rfc3339_instant(text@) == Some((t.seconds, t.nanos)),
        r matches Some(t) ==> forall|sec: i64, nanos: u32|
            #[trigger] rfc3339_text(sec, nanos) == Some(text@) && four_digit_year(sec) ==> t.seconds == sec
                && t.nanos == nanos,
        r is None ==> forall|sec: i64, nanos: u32|
            #[trigger] rfc3339_text(sec, nanos) == Some(text@) ==> !four_digit_year(sec),
{
    match chrono::DateTime::parse_from_rfc3339(text) {
        Ok(t) => {
            let u = t.with_timezone(&chrono::Utc);
            Some(Timestamp { seconds: u.timestamp(), nanos: u.timestamp_subsec_nanos() })
        },
        Err(_) => None,
    }
}

/// The RFC 3339 text of the instant `seconds` after the Unix epoch plus
/// `nanos` nanoseconds, in UTC, or `None` when chrono cannot represent it.
pub uninterp spec fn rfc3339_text(seconds: i64, nanos: u32) -> Option<Seq<char>>;

/// `chrono::DateTime::<Utc>::from_timestamp` followed by `to_rfc3339`. The
/// claim: the text is what `rfc3339_text` names, and there is one whenever the
/// nanoseconds are under a second and the seconds lie within about 250 000
/// years of the epoch (chrono's dates span years -262143 to 262142).
#[verifier::external_body]
fn rfc3339_of(seconds: i64, nanos: u32) -> (r: Option<String>)
    ensures
        match r {
            Some(s) => rfc3339_text(seconds, nanos) == Some(s@),
            None => rfc3339_text(seconds, nanos) is None,
        },
        nanos < 1_000_000_000 && -8_000_000_000_000 <= seconds <= 8_000_000_000_000 ==> r is Some,
{
    match chrono::DateTime::<chrono::Utc>::from_timestamp(seconds, nanos) {
        Some(d) => Some(d.to_rfc3339()),
        None => None,
    }
}

/// How a time is written into the store: RFC 3339 in UTC, or `None` for an
/// instant out of the representable range.
pub fn format_timestamp(t: Timestamp) -> (r: Option<String>)
    ensures
        match r {
            Some(s) => rfc3339_text(t.seconds, t.nanos) == Some(s@),
            None => rfc3339_text(t.seconds, t.nanos) is None,
        },
        t.nanos < 1_000_000_000 && -8_000_000_000_000 <= t.seconds <= 8_000_000_000_000 ==> r is Some,
{
    rfc3339_of(t.seconds, t.nanos)
}

/// `chrono::Utc::now`: the current time, as the system clock gives it.
/// Nothing is claimed of it.
#[verifier::external_body]
fn current_time() -> (r: Timestamp) {
    let u = chrono::Utc::now();
    Timestamp { seconds: u.timestamp(), nanos: u.timestamp_subsec_nanos() }
}

/// A stored time: the instant the text names, or the current time when the
/// text is not RFC 3339.
pub fn parse_datetime(value: &str) -> (r: Timestamp)
    ensures
        instant_of(value@) matches Some(t) ==> r == t,
        forall|sec: i64, nanos: u32|
            #[trigger] rfc3339_text(sec, nanos) == Some(value@) && four_digit_year(sec) ==> r.seconds == sec
                && r.nanos == nanos,
{
    match parse_rfc3339(value) {
        Some(t) => t,
        None => current_time(),
    }
}

/// The time of the last scan, from the stored value when there is one and it parses.
pub fn last_scan_from_state(value: Option<String>) -> (r: Option<Timestamp>)
    ensures
        r == match value {
            Some(text) => instant_of(text@),
            None => None,
        },
        forall|t: Timestamp|
            (value matches Some(text) && #[trigger] rfc3339_text(t.seconds, t.nanos) == Some(text@))
                && four_digit_year(t.seconds) ==> r == Some(t),
{
    match value {
        Some(text) => {
            let r = parse_rfc3339(text.as_str());
            assert(r == instant_of(text@));
            r
        },
        None => None,
    }
}

/// A row of the recordings table, as stored.
pub struct AudioRow {
    pub id: String,
    pub device_identifier: String,
    pub file_name: String,
    pub relative_path: String,
    pub imported_path: String,
    pub transcript_path: Option<String>,
    pub summary_path: Option<String>,
    pub status: String,
    pub error_message: Option<String>,
    pub synced_at: String,
    pub updated_at: String,
}

/// The record a stored row reads as: texts as stored, the status read from
/// its text, and each time parsed (a time that does not parse reads as the
/// moment of reading).
pub fn audio_record_from_row(row: AudioRow) -> (r: AudioRecord)
    ensures
        r.id == row.id,
        r.device_identifier == row.device_identifier,
        r.file_name == row.file_name,
        r.relative_path == row.relative_path,
        r.imported_path == row.imported_path,
        r.transcript_path == row.transcript_path,
        r.summary_path == row.summary_path,
        r.status == status_from_text(row.status@),
        r.error_message == row.error_message,
        instant_of(row.synced_at@) matches Some(t) ==> r.synced_at == t,
        instant_of(row.updated_at@) matches Some(t) ==> r.updated_at == t,
{
    let status = AudioStatus::from_db(row.status.as_str());
    let synced_at = parse_datetime(row.synced_at.as_str());
    let updated_at = parse_datetime(row.updated_at.as_str());
    AudioRecord {
        id: row.id,
        device_identifier: row.device_identifier,
        file_name: row.file_name,
        relative_path: row.relative_path,
        imported_path: row.imported_path,
        transcript_path: row.transcript_path,
        summary_path: row.summary_path,
        status,
        error_message: row.error_message,
        synced_at,
        updated_at,
    }
}

/// A job waiting for the worker, from its stored row.
pub fn pending_job_from_row(id: String, imported_path: String, file_name: String, status: &str) -> (r: PendingAudioJob)
    ensures
        r.id == id,
        r.imported_path == imported_path,
        r.file_name == file_name,
        r.status == status_from_text(status@),
{
    PendingAudioJob { id, imported_path, file_name, status: AudioStatus::from_db(status) }
}

/// A failed recording shown on the dashboard, from its stored row.
pub fn failure_from_row(
    audio_id: String,
    file_name: String,
    status: &str,
    error_message: Option<String>,
    updated_at: &str,
) -> (r: FailureItem)
    ensures
        r.audio_id == audio_id,
        r.file_name == file_name,
        r.status == status_from_text(status@),
        r.error_message == error_message,
        instant_of(updated_at@) matches Some(t) ==> r.updated_at == t,
{
    FailureItem {
        audio_id,
        file_name,
        status: AudioStatus::from_db(status),
        error_message,
        updated_at: parse_datetime(updated_at),
    }
}

/// A log line, from its stored row.
pub fn log_entry_from_row(id: i64, level: String, scope: String, message: String, created_at: &str) -> (r: LogEntry)
    ensures
        r.id == id,
        r.level == level,
        r.scope == scope,
        r.message == message,
        instant_of(created_at@) matches Some(t) ==> r.created_at == t,
{
    LogEntry { id, level, scope, message, created_at: parse_datetime(created_at) }
}

} // verus!

verus! {

/// The listing query: the SQL text and its parameters, bound in order as `?1`, `?2`.
pub struct RecordListQuery {
    pub sql: String,
    pub params: Vec<String>,
}

pub open spec fn text_or_empty(v: Option<String>) -> Seq<char> {
    match v {
        Some(s) => s@,
        None => Seq::empty(),
    }
}

/// The listing is filtered by name: the search text is not blank.
pub open spec fn filters_by_search(q: AudioRecordQuery) -> bool {
    !is_blank(text_or_empty(q.search))
}

/// The listing is filtered by status: the status text is not blank and not `all`.
pub open spec fn filters_by_status(q: AudioRecordQuery) -> bool {
    !is_blank(text_or_empty(q.status)) && text_or_empty(q.status) != "all"@
}

pub open spec fn list_select() -> Seq<char> {
    "SELECT id, device_identifier, file_name, relative_path, imported_path, transcript_path, summary_path, status, error_message, synced_at, updated_at FROM audio_files WHERE 1=1"@
}

/// The SQL of the listing: every recording, or those whose file name or
/// relative path contains the search text, or those in the given status, or
/// both; newest first.
pub open spec fn list_sql(q: AudioRecordQuery) -> Seq<char> {
    list_select() + (if filters_by_search(q) {
        " AND (file_name LIKE ?1 OR relative_path LIKE ?1)"@
    } else {
        Seq::empty()
    }) + (if filters_by_status(q) {
        if filters_by_search(q) {
            " AND status = ?2"@
        } else {
            " AND status = ?1"@
        }
    } else {
        Seq::empty()
    }) + " ORDER BY synced_at DESC"@
}

/// The parameters of the listing: the search text wrapped in `%` for `LIKE`,
/// then the status text, each only when it filters.
pub open spec fn list_params(q: AudioRecordQuery) -> Seq<Seq<char>> {
    (if filters_by_search(q) {
        seq!["%"@ + text_or_empty(q.search) + "%"@]
    } else {
        Seq::empty()
    }) + (if filters_by_status(q) {
        seq![text_or_empty(q.status)]
    } else {
        Seq::empty()
    })
}

fn text_of(v: &Option<String>) -> (r: String)
    ensures
        r@ == text_or_empty(*v),
{
    match v {
        Some(s) => s.clone(),
        None => String::new(),
    }
}

/// Choosing the status `all` lists recordings of every status, whatever the
/// search text: the query and its parameters are those of a listing with no
/// status chosen.
pub proof fn lemma_all_statuses_listed(search: Option<String>, status: String)
    requires
        status@ == "all"@,
    ensures
        list_sql((AudioRecordQuery { search, status: Some(status) })) == list_sql(
            (AudioRecordQuery { search, status: None }),
        ),
        list_params((AudioRecordQuery { search, status: Some(status) })) == list_params(
            (AudioRecordQuery { search, status: None }),
        ),
{
    reveal_strlit("all");
    assert(!is_ws(status@[0]));
    let q = AudioRecordQuery { search, status: Some(status) };
    assert(!filters_by_status(q));
    let none: Seq<char> = Seq::empty();
    assert(is_blank(none));
}

/// A status text that trims to nothing chooses no status: the query and its
/// parameters are those of a listing with no status chosen.
pub proof fn lemma_blank_status_ignored(search: Option<String>, status: String)
    requires
        trim(status@).len() == 0,
    ensures
        list_sql((AudioRecordQuery { search, status: Some(status) })) == list_sql(
            (AudioRecordQuery { search, status: None }),
        ),
        list_params((AudioRecordQuery { search, status: Some(status) })) == list_params(
            (AudioRecordQuery { search, status: None }),
        ),
{
    lemma_trim_empty_iff_blank(status@);
    let none: Seq<char> = Seq::empty();
    assert(is_blank(none));
}

/// Any other status, chosen with any search text, is bound as one more
/// parameter after those of the same listing with no status chosen.
pub proof fn lemma_status_bound_last(search: Option<String>, status: String)
    requires
        trim(status@).len() > 0,
        status@ != "all"@,
    ensures
        list_params((AudioRecordQuery { search, status: Some(status) })) == list_params(
            (AudioRecordQuery { search, status: None }),
        ).push(status@),
{
    lemma_trim_empty_iff_blank(status@);
    let none: Seq<char> = Seq::empty();
    assert(is_blank(none));
    let q = AudioRecordQuery { search, status: Some(status) };
    let q0 = AudioRecordQuery { search, status: None };
    assert(filters_by_search(q) == filters_by_search(q0));
    assert(list_params(q) =~= list_params(q0).push(status@));
}

/// The query that lists the recordings under a filter.
pub fn list_records_query(query: &AudioRecordQuery) -> (r: RecordListQuery)
    ensures
        r.sql@ == list_sql(*query),
        texts(r.params@) == list_params(*query),
{
    let search = text_of(&query.search);
    let status = text_of(&query.status);
    let has_search = !is_blank_str(search.as_str());
    let has_status = !is_blank_str(status.as_str()) && !str_eq(status.as_str(), "all");
    let mut sql = owned(
        "SELECT id, device_identifier, file_name, relative_path, imported_path, transcript_path, summary_path, status, error_message, synced_at, updated_at FROM audio_files WHERE 1=1",
    );
    let mut params: Vec<String> = Vec::new();
    if has_search {
        push_str(&mut sql, " AND (file_name LIKE ?1 OR relative_path LIKE ?1)");
        let mut pattern = owned("%");
        push_str(&mut pattern, search.as_str());
        push_str(&mut pattern, "%");
        params.push(pattern);
    }
    if has_status {
        if has_search {
            push_str(&mut sql, " AND status = ?2");
        } else {
            push_str(&mut sql, " AND status = ?1");
        }
        params.push(status);
    }
    push_str(&mut sql, " ORDER BY synced_at DESC");
    assert(""@ =~= Seq::<char>::empty()) by {
        reveal_strlit("");
    }
    assert(sql@ =~= list_sql(*query));
    assert(texts(params@) =~= list_params(*query));
    RecordListQuery { sql, params }
}

/// The statuses the worker picks recordings up in.
pub open spec fn pending_statuses() -> Seq<AudioStatus> {
    seq![AudioStatus::Imported, AudioStatus::Transcribed]
}

/// The statuses of recordings being processed.
pub open spec fn in_flight_statuses() -> Seq<AudioStatus> {
    seq![AudioStatus::Transcribing, AudioStatus::Summarizing]
}

/// The statuses of recordings whose processing failed.
pub open spec fn failed_statuses() -> Seq<AudioStatus> {
    seq![AudioStatus::FailedTranscription, AudioStatus::FailedSummary]
}

pub fn pending_status_list() -> (r: Vec<AudioStatus>)
    ensures
        r@ == pending_statuses(),
{
    let mut v = Vec::new();
    v.push(AudioStatus::Imported);
    v.push(AudioStatus::Transcribed);
    assert(v@ =~= pending_statuses());
    v
}

pub fn in_flight_status_list() -> (r: Vec<AudioStatus>)
    ensures
        r@ == in_flight_statuses(),
{
    let mut v = Vec::new();
    v.push(AudioStatus::Transcribing);
    v.push(AudioStatus::Summarizing);
    assert(v@ =~= in_flight_statuses());
    v
}

pub fn failed_status_list() -> (r: Vec<AudioStatus>)
    ensures
        r@ == failed_statuses(),
{
    let mut v = Vec::new();
    v.push(AudioStatus::FailedTranscription);
    v.push(AudioStatus::FailedSummary);
    assert(v@ =~= failed_statuses());
    v
}

/// One status as an SQL string literal.
pub open spec fn quoted_status(s: AudioStatus) -> Seq<char> {
    "'"@ + status_text(s) + "'"@
}

/// Statuses as the list of an SQL `IN (...)`: quoted texts separated by `, `.
pub open spec fn status_sql_list(statuses: Seq<AudioStatus>) -> Seq<char>
    decreases statuses.len(),
{
    if statuses.len() == 0 {
        Seq::empty()
    } else if statuses.len() == 1 {
        quoted_status(statuses[0])
    } else {
        status_sql_list(statuses.drop_last()) + ", "@ + quoted_status(statuses.last())
    }
}

pub fn status_list_sql(statuses: &[AudioStatus]) -> (r: String)
    ensures
        r@ == status_sql_list(statuses@),
{
    let mut out = String::new();
    for i in 0..statuses.len()
        invariant
            out@ == status_sql_list(statuses@.take(i as int)),
    {
        assert(statuses@.take(i + 1).drop_last() =~= statuses@.take(i as int));
        if i > 0 {
            push_str(&mut out, ", ");
        }
        push_str(&mut out, "'");
        push_str(&mut out, statuses[i].as_str());
        push_str(&mut out, "'");
        assert(out@ =~= status_sql_list(statuses@.take(i + 1)));
    }
    assert(statuses@.take(statuses@.len() as int) =~= statuses@);
    out
}

/// The recordings the store hands to the worker are exactly those the worker
/// picks up; the in-progress and failed groups do not overlap with them nor
/// with each other.
pub proof fn lemma_status_groups(s: AudioStatus)
    ensures
        pending_statuses().contains(s) <==> is_pending(s),
        !(pending_statuses().contains(s) && in_flight_statuses().contains(s)),
        !(pending_statuses().contains(s) && failed_statuses().contains(s)),
        !(in_flight_statuses().contains(s) && failed_statuses().contains(s)),
{
    assert(pending_statuses()[0] == AudioStatus::Imported);
    assert(pending_statuses()[1] == AudioStatus::Transcribed);
    assert(in_flight_statuses()[0] == AudioStatus::Transcribing);
    assert(in_flight_statuses()[1] == AudioStatus::Summarizing);
    assert(failed_statuses()[0] == AudioStatus::FailedTranscription);
    assert(failed_statuses()[1] == AudioStatus::FailedSummary);
}

/// How many of `rows` have a status in `group`.
pub open spec fn count_in(rows: Seq<AudioStatus>, group: Seq<AudioStatus>) -> nat
    decreases rows.len(),
{
    if rows.len() == 0 {
        0
    } else {
        count_in(rows.drop_last(), group) + if group.contains(rows.last()) { 1nat } else { 0nat }
    }
}

/// Every stored recording counts in exactly one dashboard group: completed,
/// in progress, failed, or waiting for the worker. So the completed,
/// in-progress and failed counts never add up to more than the total, and
/// what they leave over is the number of recordings still to be processed.
pub proof fn lemma_status_counts_partition(rows: Seq<AudioStatus>)
    ensures
        count_in(rows, seq![AudioStatus::Completed]) + count_in(rows, in_flight_statuses())
            + count_in(rows, failed_statuses()) + count_in(rows, pending_statuses()) == rows.len(),
    decreases rows.len(),
{
    if rows.len() > 0 {
        lemma_status_counts_partition(rows.drop_last());
        let s = rows.last();
        let done = seq![AudioStatus::Completed];
        assert(done[0] == AudioStatus::Completed);
        assert(pending_statuses()[0] == AudioStatus::Imported);
        assert(pending_statuses()[1] == AudioStatus::Transcribed);
        assert(in_flight_statuses()[0] == AudioStatus::Transcribing);
        assert(in_flight_statuses()[1] == AudioStatus::Summarizing);
        assert(failed_statuses()[0] == AudioStatus::FailedTranscription);
        assert(failed_statuses()[1] == AudioStatus::FailedSummary);
        lemma_status_groups(s);
        assert(done.contains(s) <==> s == AudioStatus::Completed);
        assert(in_flight_statuses().contains(s) <==> (s == AudioStatus::Transcribing || s
            == AudioStatus::Summarizing));
        assert(failed_statuses().contains(s) <==> (s == AudioStatus::FailedTranscription || s
            == AudioStatus::FailedSummary));
        assert(pending_statuses().contains(s) <==> (s == AudioStatus::Imported || s
            == AudioStatus::Transcribed));
    }
}

/// The counts shown on the dashboard.
pub struct StatusCounts {
    pub total_files: i64,
    pub completed_files: i64,
    pub in_flight_files: i64,
    pub failed_files: i64,
}

/// The device as listed on the dashboard.
pub open spec fn shown_device(d: DetectedDevice, i: DeviceInfo) -> bool {
    &&& i.identifier == d.identifier
    &&& i.volume_label == d.volume_label
    &&& i.drive_letter == d.drive_letter
    &&& i.pnp_device_id == d.pnp_device_id
    &&& i.last_seen_at == d.last_seen_at
}

/// The dashboard overview: a device is connected when any recorder was found
/// by the last scan; each found recorder is listed as found.
pub fn assemble_status(
    connected_devices: Vec<DetectedDevice>,
    last_scan_at: Option<Timestamp>,
    counts: StatusCounts,
    recent_failures: Vec<FailureItem>,
) -> (r: AppStatus)
    ensures
        r.device_connected == (connected_devices@.len() > 0),
        r.connected_devices@.len() == connected_devices@.len(),
        forall|i: int| 0 <= i < connected_devices@.len() ==> shown_device(
            #[trigger] connected_devices@[i],
            r.connected_devices@[i],
        ),
        r.last_scan_at == last_scan_at,
        r.total_files == counts.total_files,
        r.completed_files == counts.completed_files,
        r.in_flight_files == counts.in_flight_files,
        r.failed_files == counts.failed_files,
        r.recent_failures@ == recent_failures@,
{
    let mut shown: Vec<DeviceInfo> = Vec::new();
    for i in 0..connected_devices.len()
        invariant
            shown@.len() == i,
            forall|j: int| 0 <= j < i ==> shown_device(
                #[trigger] connected_devices@[j],
                shown@[j],
            ),
    {
        let d = &connected_devices[i];
        shown.push(
            DeviceInfo {
                identifier: d.identifier.clone(),
                volume_label: d.volume_label.clone(),
                drive_letter: d.drive_letter.clone(),
                pnp_device_id: d.pnp_device_id.clone(),
                last_seen_at: d.last_seen_at,
            },
        );
    }
    AppStatus {
        device_connected: connected_devices.len() > 0,
        connected_devices: shown,
        last_scan_at,
        total_files: counts.total_files,
        completed_files: counts.completed_files,
        in_flight_files: counts.in_flight_files,
        failed_files: counts.failed_files,
        recent_failures,
    }
}

} // verus!

verus! {

/// The error type of `serde_json`, carried through unopened.
#[verifier::external_type_specification]
#[verifier::external_body]
pub struct ExJsonError(serde_json::Error);

/// One character inside a JSON string as `serde_json` writes it: a quote and a
/// backslash behind a backslash; backspace, tab, line feed, form feed and
/// carriage return as `\b`, `\t`, `\n`, `\f`, `\r`; any other character below
/// U+0020 as `\u00` and two lower-case hex digits; every other character as
/// itself.
pub open spec fn json_char(c: char) -> Seq<char> {
    if c == '"' {
        seq!['\\', '"']
    } else if c == '\\' {
        seq!['\\', '\\']
    } else if c == '\u{8}' {
        seq!['\\', 'b']
    } else if c == '\t' {
        seq!['\\', 't']
    } else if c == '\n' {
        seq!['\\', 'n']
    } else if c == '\u{c}' {
        seq!['\\', 'f']
    } else if c == '\r' {
        seq!['\\', 'r']
    } else if (c as u32) < 32 {
        seq!['\\', 'u', '0', '0', hex_digit(((c as u32) / 16) as nat), hex_digit(((c as u32) % 16) as nat)]
    } else {
        seq![c]
    }
}

/// The characters of `s` escaped for a JSON string.
pub open spec fn json_escaped(s: Seq<char>) -> Seq<char>
    decreases s.len(),
{
    if s.len() == 0 {
        Seq::empty()
    } else {
        json_escaped(s.drop_last()) + json_char(s.last())
    }
}

/// A JSON string: the escaped characters between double quotes.
pub open spec fn json_string(s: Seq<char>) -> Seq<char> {
    seq!['"'] + json_escaped(s) + seq!['"']
}

/// The JSON strings of `items`, separated by commas.
pub open spec fn json_elements(items: Seq<Seq<char>>) -> Seq<char>
    decreases items.len(),
{
    if items.len() == 0 {
        Seq::empty()
    } else if items.len() == 1 {
        json_string(items[0])
    } else {
        json_elements(items.drop_last()) + seq![','] + json_string(items.last())
    }
}

/// The compact JSON array of strings: `[`, the strings separated by commas,
/// `]`, with no white space.
pub open spec fn json_text(items: Seq<Seq<char>>) -> Seq<char> {
    seq!['['] + json_elements(items) + seq![']']
}

/// The list of strings `serde_json` reads from `text`, or `None` when the text
/// is not a JSON array of strings.
pub uninterp spec fn strings_of_json(text: Seq<char>) -> Option<Seq<Seq<char>>>;

/// `serde_json::to_string` on a list of strings. The claim: it succeeds (its
/// documentation names only a failing `Serialize` impl or a map with
/// non-string keys as causes of failure, and a list of strings has neither),
/// and the text is the compact array that `json_text` spells out, as the
/// compact formatter and its escape table write it.
#[verifier::external_body]
fn strings_to_json(items: &Vec<String>) -> (r: Result<String, serde_json::Error>)
    ensures
        r is Ok,
        r matches Ok(s) ==> s@ == json_text(texts(items@)),
{
    serde_json::to_string(items)
}

/// `serde_json::from_str` into a list of strings. The claim: it succeeds
/// exactly when `strings_of_json` gives a list, and then returns that list;
/// and a text written as `json_text` spells out is read back as the strings it
/// was written from (the reader undoes each escape that the writer uses).
#[verifier::external_body]
fn strings_from_json(text: &str) -> (r: Result<Vec<String>, serde_json::Error>)
    ensures
        r is Ok <==> strings_of_json(text@) is Some,
        r matches Ok(v) ==> strings_of_json(text@) == Some(texts(v@)),
        r matches Ok(v) ==> forall|items: Seq<Seq<char>>| #[trigger] json_text(items) == text@ ==> texts(v@) == items,
        r is Err ==> forall|items: Seq<Seq<char>>| #[trigger] json_text(items) != text@,
{
    serde_json::from_str::<Vec<String>>(text)
}

/// `ToString::to_string` on a `serde_json::Error`: its `Display` text.
/// Nothing is claimed of the text.
#[verifier::external_body]
fn json_error_text(e: &serde_json::Error) -> String {
    e.to_string()
}

/// The key points of a summary as they are stored: a JSON array of strings.
pub fn summary_bullets_json(summary: &SummaryDocument) -> (r: Result<String, AppError>)
    ensures
        r matches Ok(s) && s@ == json_text(texts(summary.bullets@)),
{
    match strings_to_json(&summary.bullets) {
        Ok(s) => Ok(s),
        Err(e) => Err(AppError::Json(json_error_text(&e))),
    }
}

/// A stored summary: its key points read back from their JSON text, none when
/// that text is not a JSON array of strings.
pub fn summary_from_row(title: Option<String>, bullets_json: &str, full_text: String) -> (r: SummaryDocument)
    ensures
        r.title == title,
        r.full_text == full_text,
        texts(r.bullets@) == match strings_of_json(bullets_json@) {
            Some(items) => items,
            None => Seq::empty(),
        },
        forall|items: Seq<Seq<char>>| #[trigger] json_text(items) == bullets_json@ ==> texts(r.bullets@) == items,
{
    let bullets = match strings_from_json(bullets_json) {
        Ok(v) => v,
        Err(_) => {
            let v: Vec<String> = Vec::new();
            assert(texts(v@) =~= Seq::empty());
            v
        },
    };
    SummaryDocument { title, bullets, full_text }
}

} // verus!
