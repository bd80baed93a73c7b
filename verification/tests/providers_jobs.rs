use voices_summary::errors::AppError;
use voices_summary::jobs::{
    job_step, missing_record_error, retry_status_for_stage, start_job, ActiveJobs, EventStatus,
    JobAction, JobPhase, JobStage,
};
use voices_summary::models::{
    AudioStatus, HeaderEntry, PendingAudioJob, ProviderSettings, SummaryDocument, TranscriptSegment,
};
use voices_summary::providers::{
    backoff_delay, build_headers, is_retryable, render_transcript_text, retry_decision,
    status_error, validate_transcription, RetryDecision,
};
use voices_summary::reports::{document_name, render_summary, render_transcript};

fn seg(speaker: &str, start: i64, end: i64, text: &str) -> TranscriptSegment {
    TranscriptSegment {
        speaker_label: speaker.to_string(),
        start_ms: start,
        end_ms: end,
        text: text.to_string(),
    }
}

fn provider_message(e: AppError) -> String {
    match e {
        AppError::Provider(m) => m,
        other => panic!("expected a provider error, got {:?}", other),
    }
}

#[test]
fn status_error_text() {
    let e = status_error("转写服务", 503, "busy".to_string());
    assert_eq!(provider_message(e), "转写服务 返回 HTTP 503: busy");
}

#[test]
fn server_errors_retried_client_errors_not() {
    assert!(is_retryable(&status_error("摘要服务", 500, String::new())));
    assert!(is_retryable(&status_error("摘要服务", 599, "x".to_string())));
    assert!(!is_retryable(&status_error("摘要服务", 404, "missing".to_string())));
    assert!(!is_retryable(&status_error("摘要服务", 429, String::new())));
    assert!(is_retryable(&AppError::Http("connection reset".to_string())));
    assert!(!is_retryable(&AppError::Io("disk".to_string())));
    assert!(!is_retryable(&AppError::Config("HTTP 5".to_string())));
}

#[test]
fn backoff_values() {
    assert_eq!(backoff_delay(0), 2);
    assert_eq!(backoff_delay(1), 4);
    assert_eq!(backoff_delay(2), 8);
    assert_eq!(backoff_delay(62), 1u64 << 63);
    assert_eq!(backoff_delay(63), u64::MAX);
    assert_eq!(backoff_delay(u32::MAX - 1), u64::MAX);
}

#[test]
fn retry_decisions() {
    let http = AppError::Http("reset".to_string());
    assert_eq!(retry_decision(0, 3, &http), RetryDecision::Retry { delay_secs: 2, next_attempt: 1 });
    assert_eq!(retry_decision(2, 3, &http), RetryDecision::Retry { delay_secs: 8, next_attempt: 3 });
    assert_eq!(retry_decision(3, 3, &http), RetryDecision::GiveUp);
    assert_eq!(retry_decision(0, 0, &http), RetryDecision::GiveUp);
    let client = status_error("转写服务", 400, "bad".to_string());
    assert_eq!(retry_decision(0, 3, &client), RetryDecision::GiveUp);
}

#[test]
fn retry_loop_sends_at_most_max_plus_one_requests() {
    let max = 3;
    let mut attempt = 0;
    let mut sent = 0;
    loop {
        sent += 1;
        match retry_decision(attempt, max, &AppError::Http("down".to_string())) {
            RetryDecision::GiveUp => break,
            RetryDecision::Retry { next_attempt, .. } => attempt = next_attempt,
        }
    }
    assert_eq!(sent, 4);
}

#[test]
fn transcription_checks() {
    match validate_transcription(Vec::new()) {
        Err(e) => assert_eq!(provider_message(e), "转写服务未返回任何分段结果"),
        Ok(_) => panic!("empty transcription accepted"),
    }
    match validate_transcription(vec![seg("A", 0, 1, "x"), seg(" \t", 1, 2, "y")]) {
        Err(e) => assert_eq!(provider_message(e), "转写结果缺少说话人标记"),
        Ok(_) => panic!("blank speaker accepted"),
    }
    let ok = validate_transcription(vec![seg("Speaker 1", 0, 3200, "今天")]).unwrap();
    assert_eq!(ok.len(), 1);
    assert_eq!(ok[0].speaker_label, "Speaker 1");
}

#[test]
fn transcript_text_lines() {
    let t = render_transcript_text(&[seg("A", 0, 1, "hello"), seg("B", 1, 2, "world")]);
    assert_eq!(t, "A: hello\nB: world");
    assert_eq!(render_transcript_text(&[]), "");
}

fn provider(key: Option<&str>, auth: Option<&str>, extra: &[(&str, &str)]) -> ProviderSettings {
    ProviderSettings {
        base_url: "http://x".to_string(),
        api_key: key.map(|s| s.to_string()),
        auth_header: auth.map(|s| s.to_string()),
        extra_headers: extra
            .iter()
            .map(|(k, v)| HeaderEntry { key: k.to_string(), value: v.to_string() })
            .collect(),
    }
}

fn entries(m: &reqwest::header::HeaderMap) -> Vec<(String, String)> {
    let mut v: Vec<(String, String)> = m
        .iter()
        .map(|(k, v)| (k.as_str().to_string(), v.to_str().unwrap().to_string()))
        .collect();
    v.sort();
    v
}

fn config_text(r: Result<reqwest::header::HeaderMap, AppError>) -> String {
    match r {
        Err(AppError::Config(m)) => m,
        Err(other) => panic!("expected a configuration error, got {:?}", other),
        Ok(m) => panic!("expected a configuration error, got {:?}", entries(&m)),
    }
}

#[test]
fn headers_built() {
    let h = build_headers(&provider(Some("k1"), None, &[("X-A", "1")])).unwrap();
    assert_eq!(h.len(), 2);
    assert_eq!(h.get("authorization").unwrap(), "k1");
    assert_eq!(h.get("x-a").unwrap(), "1");
    let h = build_headers(&provider(Some("Bearer k"), None, &[("X-Team", "a b")])).unwrap();
    assert_eq!(
        entries(&h),
        vec![
            ("authorization".to_string(), "Bearer k".to_string()),
            ("x-team".to_string(), "a b".to_string())
        ]
    );
    let h = build_headers(&provider(Some("k"), Some("X-Api-Key"), &[])).unwrap();
    assert_eq!(entries(&h), vec![("x-api-key".to_string(), "k".to_string())]);
    let h = build_headers(&provider(Some("   "), Some("bad name"), &[])).unwrap();
    assert!(h.is_empty());
    assert!(build_headers(&provider(None, None, &[])).unwrap().is_empty());
}

#[test]
fn later_header_replaces_earlier() {
    let h = build_headers(&provider(Some("k"), None, &[("X-A", "1"), ("x-a", "2"), ("AUTHORIZATION", "z")]))
        .unwrap();
    assert_eq!(
        entries(&h),
        vec![("authorization".to_string(), "z".to_string()), ("x-a".to_string(), "2".to_string())]
    );
}

#[test]
fn headers_rejected() {
    assert_eq!(
        config_text(build_headers(&provider(Some("k"), Some("bad name"), &[]))),
        "无效的鉴权 header 名称"
    );
    assert_eq!(
        config_text(build_headers(&provider(Some("k\n"), None, &[]))),
        "无效的鉴权 header 值"
    );
    assert_eq!(
        config_text(build_headers(&provider(None, None, &[("ok", "1"), ("", "2")]))),
        "无效的 header 名称: "
    );
    assert_eq!(
        config_text(build_headers(&provider(None, None, &[("X-A", "a\u{7f}")]))),
        "无效的 header 值: X-A"
    );
}

fn drive(status: AudioStatus, outcomes: Vec<Result<(), AppError>>) -> Vec<String> {
    let (mut phase, mut action) = start_job(status);
    let mut seen = vec![describe(&action)];
    for o in outcomes {
        if let JobAction::Finish(_) = action {
            break;
        }
        let (p, a) = job_step(phase, o);
        phase = p;
        action = a;
        seen.push(describe(&action));
    }
    seen
}

fn describe(a: &JobAction) -> String {
    match a {
        JobAction::SetStatus { status, error_message } => {
            format!("status {} {:?}", status.as_str(), error_message)
        }
        JobAction::RecordEvent { stage, outcome, attempt, error_message } => {
            format!("event {} {} {} {:?}", stage.as_str(), outcome.as_str(), attempt, error_message)
        }
        JobAction::Finish(Ok(())) => "finish ok".to_string(),
        JobAction::Finish(Err(e)) => format!("finish err {}", e.message()),
        other => format!("{:?}", other),
    }
}

#[test]
fn job_runs_to_completion() {
    let seen = drive(AudioStatus::Imported, (0..20).map(|_| Ok(())).collect());
    assert_eq!(
        seen,
        vec![
            "status transcribing None",
            "event transcription started 1 None",
            "Transcribe",
            "SaveTranscript",
            "WriteTranscriptFile",
            "AttachTranscriptPath",
            "status transcribed None",
            "event transcription completed 1 None",
            "status summarizing None",
            "event summary started 1 None",
            "Summarize",
            "SaveSummary",
            "WriteSummaryFile",
            "AttachSummaryPath",
            "status completed None",
            "event summary completed 1 None",
            "finish ok",
        ]
    );
}

#[test]
fn transcribed_job_only_summarises() {
    let seen = drive(AudioStatus::FailedSummary, (0..20).map(|_| Ok(())).collect());
    assert_eq!(seen[0], "LoadTranscript");
    assert_eq!(seen[1], "status summarizing None");
    assert_eq!(seen.last().unwrap(), "finish ok");
    assert!(!seen.iter().any(|s| s == "Transcribe"));
}

#[test]
fn transcription_failure_is_recorded() {
    let e = status_error("转写服务", 400, "bad".to_string());
    let seen = drive(AudioStatus::Imported, vec![Ok(()), Ok(()), Err(e), Ok(()), Ok(())]);
    let text = "外部服务错误: 转写服务 返回 HTTP 400: bad";
    assert_eq!(
        seen,
        vec![
            "status transcribing None".to_string(),
            "event transcription started 1 None".to_string(),
            "Transcribe".to_string(),
            format!("status failed_transcription Some({:?})", text),
            format!("event transcription failed 1 Some({:?})", text),
            format!("finish err {}", text),
        ]
    );
}

#[test]
fn store_failure_stops_job() {
    let seen = drive(AudioStatus::Imported, vec![Err(AppError::Database("locked".to_string()))]);
    assert_eq!(seen, vec!["status transcribing None", "finish err 数据库错误: locked"]);
    let missing = missing_record_error("abc");
    match &missing {
        AppError::Path(m) => assert_eq!(m, "找不到音频记录 abc"),
        other => panic!("{:?}", other),
    }
    let seen = drive(AudioStatus::Transcribed, vec![Err(missing)]);
    assert_eq!(seen, vec!["LoadTranscript", "finish err 路径错误: 找不到音频记录 abc"]);
}

#[test]
fn settled_jobs_left_alone() {
    for s in [AudioStatus::Completed, AudioStatus::Transcribing, AudioStatus::Summarizing] {
        assert_eq!(drive(s, vec![Ok(())]), vec!["finish ok"]);
    }
    let (phase, _) = start_job(AudioStatus::Completed);
    assert!(matches!(phase, JobPhase::Finished));
    let (_, a) = job_step(JobPhase::Finished, Ok(()));
    assert!(matches!(a, JobAction::Finish(Ok(()))));
}

#[test]
fn retry_stages() {
    assert_eq!(retry_status_for_stage("transcription").unwrap(), AudioStatus::Imported);
    assert_eq!(retry_status_for_stage("summary").unwrap(), AudioStatus::Transcribed);
    match retry_status_for_stage("upload") {
        Err(AppError::Config(m)) => assert_eq!(m, "无效的重试阶段"),
        other => panic!("{:?}", other),
    }
    assert_eq!(JobStage::Transcription.as_str(), "transcription");
    assert_eq!(EventStatus::Failed.as_str(), "failed");
}

fn job(id: &str) -> PendingAudioJob {
    PendingAudioJob {
        id: id.to_string(),
        imported_path: format!("D:\\data\\raw\\{id}.wav"),
        file_name: format!("{id}.wav"),
        status: AudioStatus::Imported,
    }
}

#[test]
fn active_jobs_claim_and_release() {
    let mut active = ActiveJobs::new();
    assert!(active.mark_active("a"));
    assert!(!active.mark_active("a"));
    assert!(active.contains("a"));
    active.unmark_active("a");
    assert!(!active.contains("a"));
    assert!(active.mark_active("a"));
    active.unmark_active("zzz");
    assert!(active.contains("a"));
}

#[test]
fn claim_round_skips_busy_and_repeated() {
    let mut active = ActiveJobs::new();
    active.mark_active("b");
    let claimed = active.claim_round(&vec![job("a"), job("b"), job("c"), job("a")]);
    let ids: Vec<String> = claimed.into_iter().map(|j| j.id).collect();
    assert_eq!(ids, vec!["a", "c"]);
    assert!(active.contains("a") && active.contains("b") && active.contains("c"));
}

#[test]
fn transcript_document() {
    let doc = render_transcript("id1", "a.wav", &[seg("S1", 0, 3200, "你好"), seg("S2", -5, 7, "x")]);
    assert_eq!(
        doc,
        "# 转写稿\n\n- 文件名: a.wav\n- 音频 ID: id1\n\n## S1 [0 - 3200]\n你好\n\n## S2 [-5 - 7]\nx\n\n"
    );
    assert_eq!(document_name("id1"), "id1.md");
}

#[test]
fn summary_document() {
    let s = SummaryDocument {
        title: Some("会议摘要".to_string()),
        bullets: vec!["确认同步状态".to_string(), "安排后续处理".to_string()],
        full_text: "全文".to_string(),
    };
    assert_eq!(
        render_summary("id1", "a.wav", &s),
        "# 会议摘要\n\n- 文件名: a.wav\n- 音频 ID: id1\n\n## 要点\n- 确认同步状态\n- 安排后续处理\n\n## 详细摘要\n全文\n"
    );
    let plain = SummaryDocument { title: None, bullets: vec![], full_text: "t".to_string() };
    assert_eq!(
        render_summary("i", "f", &plain),
        "# 摘要\n\n- 文件名: f\n- 音频 ID: i\n\n## 详细摘要\nt\n"
    );
}
