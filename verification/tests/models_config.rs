use voices_summary::config::validate_settings;
use voices_summary::errors::AppError;
use voices_summary::models::{
    default_concurrency, default_extensions, default_retries, default_scan_dirs,
    default_scan_interval, default_timeout_secs, AppSettings, AudioRecordQuery, AudioStatus,
    DeviceMatchRule, HeaderEntry, ProviderSettings, SummaryDocument,
};

const ALL: [AudioStatus; 7] = [
    AudioStatus::Imported,
    AudioStatus::Transcribing,
    AudioStatus::Transcribed,
    AudioStatus::Summarizing,
    AudioStatus::Completed,
    AudioStatus::FailedTranscription,
    AudioStatus::FailedSummary,
];

#[test]
fn status_texts() {
    assert_eq!(AudioStatus::Imported.as_str(), "imported");
    assert_eq!(AudioStatus::Transcribing.as_str(), "transcribing");
    assert_eq!(AudioStatus::Transcribed.as_str(), "transcribed");
    assert_eq!(AudioStatus::Summarizing.as_str(), "summarizing");
    assert_eq!(AudioStatus::Completed.as_str(), "completed");
    assert_eq!(AudioStatus::FailedTranscription.as_str(), "failed_transcription");
    assert_eq!(AudioStatus::FailedSummary.as_str(), "failed_summary");
}

#[test]
fn status_round_trip() {
    for s in ALL {
        assert_eq!(AudioStatus::from_db(s.as_str()), s);
    }
}

#[test]
fn unknown_status_reads_as_imported() {
    assert_eq!(AudioStatus::from_db("bogus"), AudioStatus::Imported);
    assert_eq!(AudioStatus::from_db(""), AudioStatus::Imported);
    assert_eq!(AudioStatus::from_db("Completed"), AudioStatus::Imported);
}

#[test]
fn defaults() {
    assert_eq!(default_scan_dirs(), vec!["Record".to_string()]);
    assert_eq!(
        default_extensions(),
        vec!["wav".to_string(), "mp3".to_string(), "m4a".to_string(), "aac".to_string()]
    );
    assert_eq!(default_scan_interval(), 15);
    assert_eq!(default_timeout_secs(), 90);
    assert_eq!(default_retries(), 3);
    assert_eq!(default_concurrency(), 2);
    let s = AppSettings::default();
    assert_eq!(s.data_dir, "D:\\VoicesSummary\\data");
    assert_eq!(s.output_dir, "D:\\VoicesSummary\\output");
    assert_eq!(s.scan_directories, default_scan_dirs());
    assert_eq!(s.allowed_extensions, default_extensions());
    assert!(s.device_match_rule.vid.is_none());
    assert!(s.device_match_rule.path_hints.is_empty());
    assert!(s.transcription_provider.base_url.is_empty());
    assert_eq!(s.max_retries, 3);
    assert_eq!(s.processing_concurrency, 2);
    let h = HeaderEntry::default();
    assert!(h.key.is_empty() && h.value.is_empty());
    let p = ProviderSettings::default();
    assert!(p.api_key.is_none() && p.auth_header.is_none() && p.extra_headers.is_empty());
    let r = DeviceMatchRule::default();
    assert!(r.pid.is_none() && r.volume_label.is_none());
    let d = SummaryDocument::default();
    assert!(d.title.is_none() && d.bullets.is_empty() && d.full_text.is_empty());
    let q = AudioRecordQuery::default();
    assert!(q.search.is_none() && q.status.is_none());
}

fn valid_settings() -> AppSettings {
    let mut s = AppSettings::default();
    s.transcription_provider.base_url = "http://asr.local/api".to_string();
    s.summary_provider.base_url = "http://sum.local/api".to_string();
    s
}

fn config_message(r: Result<(), AppError>) -> String {
    match r {
        Err(AppError::Config(m)) => m,
        other => panic!("expected a configuration error, got {:?}", other),
    }
}

#[test]
fn settings_accepted() {
    assert!(validate_settings(&valid_settings()).is_ok());
}

#[test]
fn default_settings_lack_service_urls() {
    assert_eq!(config_message(validate_settings(&AppSettings::default())), "转写服务 URL 不能为空");
}

#[test]
fn settings_rejected_in_order() {
    let mut s = valid_settings();
    s.data_dir = "  \t".to_string();
    s.output_dir = String::new();
    assert_eq!(config_message(validate_settings(&s)), "数据目录不能为空");
    let mut s = valid_settings();
    s.output_dir = " \u{3000} ".to_string();
    assert_eq!(config_message(validate_settings(&s)), "输出目录不能为空");
    let mut s = valid_settings();
    s.summary_provider.base_url = "\n".to_string();
    assert_eq!(config_message(validate_settings(&s)), "摘要服务 URL 不能为空");
    let mut s = valid_settings();
    s.processing_concurrency = 0;
    assert_eq!(config_message(validate_settings(&s)), "并发任务数至少为 1");
}

#[test]
fn error_texts() {
    assert_eq!(AppError::Config("x".to_string()).message(), "配置错误: x");
    assert_eq!(AppError::Database("locked".to_string()).message(), "数据库错误: locked");
    assert_eq!(AppError::Io("gone".to_string()).message(), "IO 错误: gone");
    assert_eq!(AppError::Http("timeout".to_string()).message(), "网络错误: timeout");
    assert_eq!(AppError::Json("eof".to_string()).message(), "序列化错误: eof");
    assert_eq!(AppError::Path("p".to_string()).message(), "路径错误: p");
    assert_eq!(AppError::Provider("q".to_string()).message(), "外部服务错误: q");
    assert_eq!(AppError::System("s".to_string()).message(), "系统错误: s");
    assert_eq!(AppError::UnsupportedPlatform.message(), "不支持当前平台");
}
