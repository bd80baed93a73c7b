use voices_summary::commands::{record_file_path, resolve_open_target, OpenTarget, RecordFile};
use voices_summary::db::{
    assemble_status, audio_record_from_row, failed_status_list, format_timestamp, in_flight_status_list,
    last_scan_from_state, list_records_query, parse_datetime, pending_job_from_row,
    pending_status_list, status_list_sql, summary_bullets_json, summary_from_row, AudioRow,
    Database, StatusCounts,
};
use voices_summary::device::{hint_paths, match_device, read_device_listing, select_devices, DeviceListing};
use voices_summary::errors::AppError;
use voices_summary::ingestion::{
    compute_fingerprint, drive_path_text, extension_allowed, hex_encode, normalize_relative_path,
    plan_import, scan_failure_message, scan_interval, scan_roots, should_import_device, u64_le_bytes,
};
use voices_summary::models::{
    AppSettings, AudioRecord, AudioRecordQuery, AudioStatus, DetectedDevice, DeviceMatchRule,
    RawDeviceRecord, SummaryDocument, Timestamp,
};

const FIXED: Timestamp = Timestamp { seconds: 1704164645, nanos: 0 };

#[test]
fn fingerprint_value() {
    let f = compute_fingerprint("USB:1234:5678:REC", "Record/a.wav", 1024, 60);
    assert_eq!(f, "db82214c855020b541bcedab5a532b1f72a208f1fe387108a634e03c289d1489");
    assert_eq!(f.len(), 64);
    assert_ne!(f, compute_fingerprint("USB:1234:5678:REC", "Record/a.wav", 1025, 60));
}

#[test]
fn byte_helpers() {
    assert_eq!(u64_le_bytes(0x0102), vec![2, 1, 0, 0, 0, 0, 0, 0]);
    assert_eq!(hex_encode(&[0x00, 0xab, 0x0f]), "00ab0f");
}

#[test]
fn scan_roots_paths() {
    assert_eq!(scan_roots("E:", &vec![]), vec!["E:\\"]);
    assert_eq!(
        scan_roots("E:", &vec!["Record".to_string(), "VOICE".to_string()]),
        vec!["E:\\Record", "E:\\VOICE"]
    );
    assert_eq!(drive_path_text("F:", "A\\B"), "F:\\A\\B");
}

#[test]
fn extensions_and_paths() {
    let allowed = vec!["wav".to_string(), "MP3".to_string()];
    assert!(extension_allowed(&allowed, "mp3"));
    assert!(extension_allowed(&allowed, "WAV"));
    assert!(!extension_allowed(&allowed, "txt"));
    assert!(!extension_allowed(&vec![], "wav"));
    assert_eq!(normalize_relative_path("Record\\2024\\a.wav"), "Record/2024/a.wav");
}

#[test]
fn scan_interval_floor() {
    let mut s = AppSettings::default();
    assert_eq!(scan_interval(&s), 15);
    s.scan_interval_secs = 1;
    assert_eq!(scan_interval(&s), 5);
}

fn detected(hints: bool) -> DetectedDevice {
    DetectedDevice {
        identifier: "USB:a:b:c".to_string(),
        drive_letter: "E:".to_string(),
        volume_label: None,
        pnp_device_id: None,
        path_hints_matched: hints,
        last_seen_at: FIXED,
    }
}

#[test]
fn device_import_gate() {
    let mut rule = DeviceMatchRule::default();
    assert!(should_import_device(&detected(false), &rule));
    rule.path_hints = vec!["Record".to_string()];
    assert!(!should_import_device(&detected(false), &rule));
    assert!(should_import_device(&detected(true), &rule));
}

#[test]
fn import_plan() {
    let plan = plan_import("wav");
    assert_eq!(plan.audio_id.len(), 36);
    assert_eq!(plan.stored_file_name, format!("{}.wav", plan.audio_id));
    assert_ne!(plan_import("wav").audio_id, plan.audio_id);
}

#[test]
fn import_id_is_uuid_v4() {
    let id: Vec<char> = plan_import("mp3").audio_id.chars().collect();
    assert_eq!(id.len(), 36);
    for (i, c) in id.iter().enumerate() {
        if i == 8 || i == 13 || i == 18 || i == 23 {
            assert_eq!(*c, '-');
        } else {
            assert!(c.is_ascii_hexdigit() && !c.is_ascii_uppercase());
        }
    }
    assert_eq!(id[14], '4');
    assert!(matches!(id[19], '8' | '9' | 'a' | 'b'));
}

fn raw(label: Option<&str>, pnp: Option<&str>) -> RawDeviceRecord {
    RawDeviceRecord {
        drive_letter: "E:".to_string(),
        volume_label: label.map(|s| s.to_string()),
        pnp_device_id: pnp.map(|s| s.to_string()),
    }
}

#[test]
fn device_matching() {
    let rule = DeviceMatchRule {
        vid: Some("1a2b".to_string()),
        pid: Some("3C4D".to_string()),
        volume_label: Some("recorder".to_string()),
        path_hints: vec!["Record".to_string()],
    };
    let d = match_device(
        &rule,
        raw(Some("RECORDER"), Some("usbstor\\vid_1A2B&pid_3c4d\\0001")),
        &vec![false, true],
        FIXED,
    )
    .unwrap();
    assert_eq!(d.identifier, "USB:1a2b:3C4D:RECORDER");
    assert_eq!(d.drive_letter, "E:");
    assert!(d.path_hints_matched);
    assert_eq!(d.last_seen_at, FIXED);
    assert!(match_device(&rule, raw(Some("RECORDER"), Some("VID_1A2B&PID_9999")), &vec![], FIXED).is_none());
    assert!(match_device(&rule, raw(None, Some("VID_1A2B&PID_3C4D")), &vec![], FIXED).is_none());
    let any = DeviceMatchRule::default();
    let d = match_device(&any, raw(None, None), &vec![], FIXED).unwrap();
    assert_eq!(d.identifier, "USB:unknown:unknown:unknown");
    assert!(d.path_hints_matched);
    let hinted = DeviceMatchRule { path_hints: vec!["X".to_string()], ..DeviceMatchRule::default() };
    assert!(!match_device(&hinted, raw(None, None), &vec![false], FIXED).unwrap().path_hints_matched);
    assert_eq!(hint_paths("E:", &hinted), vec!["E:\\X"]);
}

#[test]
fn devices_selected_in_order() {
    let rule = DeviceMatchRule { vid: Some("1A2B".to_string()), ..DeviceMatchRule::default() };
    let drives = vec![
        (raw(Some("A"), Some("VID_1A2B&PID_0001")), vec![]),
        (raw(Some("B"), Some("VID_FFFF&PID_0001")), vec![]),
        (raw(None, None), vec![]),
        (raw(Some("C"), Some("USB\\VID_1a2b")), vec![true]),
    ];
    let found = select_devices(&rule, &drives, FIXED);
    assert_eq!(found.len(), 2);
    assert_eq!(found[0].identifier, "USB:1A2B:unknown:A");
    assert_eq!(found[1].identifier, "USB:1A2B:unknown:C");
    assert_eq!(found[1].pnp_device_id.as_deref(), Some("USB\\VID_1a2b"));
    assert!(found.iter().all(|d| d.last_seen_at == FIXED && d.path_hints_matched));
    assert!(select_devices(&rule, &vec![], FIXED).is_empty());
}

#[test]
fn device_listing() {
    assert!(matches!(read_device_listing(true, "  \r\n", ""), Ok(DeviceListing::Nothing)));
    assert!(matches!(read_device_listing(true, "null\n", ""), Ok(DeviceListing::Nothing)));
    match read_device_listing(true, " [{\"driveLetter\":\"E:\"}]\n", "") {
        Ok(DeviceListing::Many(t)) => assert_eq!(t, "[{\"driveLetter\":\"E:\"}]"),
        other => panic!("{:?}", other),
    }
    match read_device_listing(true, "{\"driveLetter\":\"E:\"}", "") {
        Ok(DeviceListing::One(t)) => assert_eq!(t, "{\"driveLetter\":\"E:\"}"),
        other => panic!("{:?}", other),
    }
    match read_device_listing(false, "", "  denied \n") {
        Err(AppError::System(m)) => assert_eq!(m, "denied"),
        other => panic!("{:?}", other),
    }
}

#[test]
fn database_path() {
    let db = Database::from_path("C:\\data\\voices-summary.db".to_string());
    assert_eq!(db.path(), "C:\\data\\voices-summary.db");
}

#[test]
fn times_read_back() {
    assert_eq!(parse_datetime("2024-01-02T03:04:05Z"), FIXED);
    assert_eq!(
        parse_datetime("2024-01-02T11:04:05.5+08:00"),
        Timestamp { seconds: 1704164645, nanos: 500_000_000 }
    );
    assert!(parse_datetime("not a time").seconds > 1704164645);
    assert_eq!(last_scan_from_state(Some("2024-01-02T03:04:05+00:00".to_string())), Some(FIXED));
    assert_eq!(last_scan_from_state(Some("yesterday".to_string())), None);
    assert_eq!(last_scan_from_state(None), None);
}

#[test]
fn rows_read_back() {
    let r = audio_record_from_row(AudioRow {
        id: "1".to_string(),
        device_identifier: "USB:a:b:c".to_string(),
        file_name: "a.wav".to_string(),
        relative_path: "Record/a.wav".to_string(),
        imported_path: "D:\\raw\\1.wav".to_string(),
        transcript_path: None,
        summary_path: Some("s.md".to_string()),
        status: "failed_summary".to_string(),
        error_message: Some("e".to_string()),
        synced_at: "2024-01-02T03:04:05Z".to_string(),
        updated_at: "2024-01-02T03:04:05Z".to_string(),
    });
    assert_eq!(r.status, AudioStatus::FailedSummary);
    assert_eq!(r.synced_at, FIXED);
    assert_eq!(r.summary_path.as_deref(), Some("s.md"));
    let j = pending_job_from_row("1".to_string(), "p".to_string(), "f".to_string(), "transcribed");
    assert_eq!(j.status, AudioStatus::Transcribed);
}

fn query(search: Option<&str>, status: Option<&str>) -> (String, Vec<String>) {
    let q = list_records_query(&AudioRecordQuery {
        search: search.map(|s| s.to_string()),
        status: status.map(|s| s.to_string()),
    });
    (q.sql, q.params)
}

const SELECT: &str = "SELECT id, device_identifier, file_name, relative_path, imported_path, transcript_path, summary_path, status, error_message, synced_at, updated_at FROM audio_files WHERE 1=1";

#[test]
fn listing_queries() {
    assert_eq!(query(None, None), (format!("{SELECT} ORDER BY synced_at DESC"), vec![]));
    assert_eq!(query(Some("  "), Some("all")), (format!("{SELECT} ORDER BY synced_at DESC"), vec![]));
    assert_eq!(
        query(Some("会议"), None),
        (
            format!("{SELECT} AND (file_name LIKE ?1 OR relative_path LIKE ?1) ORDER BY synced_at DESC"),
            vec!["%会议%".to_string()]
        )
    );
    assert_eq!(
        query(None, Some("completed")),
        (format!("{SELECT} AND status = ?1 ORDER BY synced_at DESC"), vec!["completed".to_string()])
    );
    assert_eq!(
        query(Some("a"), Some("completed")),
        (
            format!(
                "{SELECT} AND (file_name LIKE ?1 OR relative_path LIKE ?1) AND status = ?2 ORDER BY synced_at DESC"
            ),
            vec!["%a%".to_string(), "completed".to_string()]
        )
    );
}

#[test]
fn status_groups_sql() {
    assert_eq!(status_list_sql(&pending_status_list()), "'imported', 'transcribed'");
    assert_eq!(status_list_sql(&in_flight_status_list()), "'transcribing', 'summarizing'");
    assert_eq!(status_list_sql(&failed_status_list()), "'failed_transcription', 'failed_summary'");
    assert_eq!(status_list_sql(&[]), "");
}

#[test]
fn dashboard_overview() {
    let counts = StatusCounts { total_files: 5, completed_files: 2, in_flight_files: 1, failed_files: 1 };
    let s = assemble_status(vec![detected(true)], Some(FIXED), counts, vec![]);
    assert!(s.device_connected);
    assert_eq!(s.connected_devices.len(), 1);
    assert_eq!(s.connected_devices[0].identifier, "USB:a:b:c");
    assert_eq!(s.total_files, 5);
    assert_eq!(s.last_scan_at, Some(FIXED));
    let counts = StatusCounts { total_files: 0, completed_files: 0, in_flight_files: 0, failed_files: 0 };
    let s = assemble_status(vec![], None, counts, vec![]);
    assert!(!s.device_connected);
}

#[test]
fn summary_bullets_stored_as_json() {
    let s = SummaryDocument {
        title: None,
        bullets: vec!["a\"b".to_string(), "要点".to_string()],
        full_text: String::new(),
    };
    let json = summary_bullets_json(&s).unwrap();
    assert_eq!(json, "[\"a\\\"b\",\"要点\"]");
    let back = summary_from_row(Some("t".to_string()), &json, "full".to_string());
    assert_eq!(back.bullets, s.bullets);
    assert_eq!(back.title.as_deref(), Some("t"));
    assert!(summary_from_row(None, "not json", String::new()).bullets.is_empty());
}

fn record() -> AudioRecord {
    AudioRecord {
        id: "1".to_string(),
        device_identifier: "d".to_string(),
        file_name: "a.wav".to_string(),
        relative_path: "a.wav".to_string(),
        imported_path: "raw\\1.wav".to_string(),
        transcript_path: None,
        summary_path: Some("s.md".to_string()),
        status: AudioStatus::Transcribed,
        error_message: None,
        synced_at: FIXED,
        updated_at: FIXED,
    }
}

fn path_error(r: Result<String, AppError>) -> String {
    match r {
        Err(AppError::Path(m)) => m,
        other => panic!("{:?}", other),
    }
}

#[test]
fn open_targets() {
    assert!(matches!(resolve_open_target("data_dir", None), Ok(OpenTarget::DataDir)));
    assert!(matches!(resolve_open_target("output_dir", Some("x")), Ok(OpenTarget::OutputDir)));
    match resolve_open_target("transcript", Some("7")) {
        Ok(OpenTarget::Record { id, file }) => {
            assert_eq!(id, "7");
            assert_eq!(file, RecordFile::Transcript);
        }
        other => panic!("{:?}", other),
    }
    match resolve_open_target("audio", None) {
        Err(AppError::Path(m)) => assert_eq!(m, "缺少音频 ID"),
        other => panic!("{:?}", other),
    }
    match resolve_open_target("logs", None) {
        Err(AppError::Config(m)) => assert_eq!(m, "未知路径类型"),
        other => panic!("{:?}", other),
    }
    assert_eq!(record_file_path(RecordFile::Audio, Some(record())).unwrap(), "raw\\1.wav");
    assert_eq!(record_file_path(RecordFile::Summary, Some(record())).unwrap(), "s.md");
    assert_eq!(path_error(record_file_path(RecordFile::Transcript, Some(record()))), "转写稿尚未生成");
    let mut r = record();
    r.summary_path = None;
    assert_eq!(path_error(record_file_path(RecordFile::Summary, Some(r))), "摘要尚未生成");
    assert_eq!(path_error(record_file_path(RecordFile::Audio, None)), "找不到音频记录");
}

#[test]
fn timestamps_written_as_rfc3339() {
    assert_eq!(format_timestamp(FIXED).as_deref(), Some("2024-01-02T03:04:05+00:00"));
    assert_eq!(
        format_timestamp(Timestamp { seconds: 0, nanos: 500_000_000 }).as_deref(),
        Some("1970-01-01T00:00:00.500+00:00")
    );
    assert_eq!(format_timestamp(Timestamp { seconds: i64::MAX, nanos: 0 }), None);
    assert_eq!(parse_datetime(&format_timestamp(FIXED).unwrap()), FIXED);
}

#[test]
fn every_status_counts_in_one_group() {
    let all = [
        AudioStatus::Imported,
        AudioStatus::Transcribing,
        AudioStatus::Transcribed,
        AudioStatus::Summarizing,
        AudioStatus::Completed,
        AudioStatus::FailedTranscription,
        AudioStatus::FailedSummary,
    ];
    let groups = [pending_status_list(), in_flight_status_list(), failed_status_list(), vec![AudioStatus::Completed]];
    for s in all {
        assert_eq!(groups.iter().filter(|g| g.contains(&s)).count(), 1);
    }
    let rows = vec![AudioStatus::Completed, AudioStatus::Imported, AudioStatus::FailedSummary, AudioStatus::Transcribed];
    let count = |g: &Vec<AudioStatus>| rows.iter().filter(|s| g.contains(s)).count();
    let shown = count(&groups[3]) + count(&groups[1]) + count(&groups[2]);
    assert_eq!(shown, 2);
    assert_eq!(rows.len() - shown, count(&groups[0]));
}

#[test]
fn scan_failures_logged() {
    assert_eq!(scan_failure_message(true, "boom"), "首次设备扫描失败: boom");
    assert_eq!(scan_failure_message(false, "boom"), "周期设备扫描失败: boom");
}

#[test]
fn unchanged_file_keeps_fingerprint() {
    let a = compute_fingerprint("USB:1:2:R", "Record/a.wav", 10, 1_700_000_000);
    assert_eq!(a, compute_fingerprint("USB:1:2:R", "Record/a.wav", 10, 1_700_000_000));
    assert_ne!(a, compute_fingerprint("USB:1:2:R", "Record/a.wav", 10, 1_700_000_001));
    assert_ne!(a, compute_fingerprint("USB:1:2:R", "Record/a.wav", 11, 1_700_000_000));
}

#[test]
fn bullets_escaped_and_read_back() {
    let s = SummaryDocument {
        title: None,
        bullets: vec!["q\"b\\s".to_string(), "\u{8}\t\n\u{c}\r".to_string(), "\u{1}\u{1f}\u{7f}/é".to_string(), String::new()],
        full_text: String::new(),
    };
    let json = summary_bullets_json(&s).unwrap();
    assert_eq!(json, "[\"q\\\"b\\\\s\",\"\\b\\t\\n\\f\\r\",\"\\u0001\\u001f\u{7f}/é\",\"\"]");
    assert_eq!(summary_from_row(None, &json, String::new()).bullets, s.bullets);
    let empty = SummaryDocument { title: None, bullets: vec![], full_text: String::new() };
    assert_eq!(summary_bullets_json(&empty).unwrap(), "[]");
}

#[test]
fn last_scan_read_back_as_written() {
    for t in [FIXED, Timestamp { seconds: -62167219200, nanos: 0 }, Timestamp { seconds: 253402300799, nanos: 123_000 }] {
        let text = format_timestamp(t).unwrap();
        assert_eq!(last_scan_from_state(Some(text)), Some(t));
    }
    let far = format_timestamp(Timestamp { seconds: 253402300800, nanos: 0 }).unwrap();
    assert_eq!(last_scan_from_state(Some(far)), None);
}
