//! Checks on the settings before they are saved.
use vstd::prelude::*;
use crate::errors::AppError;
use crate::models::AppSettings;
use crate::text::{is_blank, is_blank_str, owned};

verus! {

/// The complaint about the first setting that is unusable, if any. The
/// settings are checked in order: data directory, output directory,
/// transcription URL, summary URL, concurrency.
pub open spec fn settings_complaint(s: AppSettings) -> Option<Seq<char>> {
    if is_blank(s.data_dir@) {
        Some("数据目录不能为空"@)
    } else if is_blank(s.output_dir@) {
        Some("输出目录不能为空"@)
    } else if is_blank(s.transcription_provider.base_url@) {
        Some("转写服务 URL 不能为空"@)
    } else if is_blank(s.summary_provider.base_url@) {
        Some("摘要服务 URL 不能为空"@)
    } else if s.processing_concurrency == 0 {
        Some("并发任务数至少为 1"@)
    } else {
        None
    }
}

/// Accepts the settings, or names the first unusable one as a configuration error.
pub fn validate_settings(settings: &AppSettings) -> (r: Result<(), AppError>)
    ensures
        r is Ok <==> settings_complaint(*settings) is None,
        settings_complaint(*settings) matches Some(m) ==> (r matches Err(AppError::Config(x))
            && x@ == m),
{
    if is_blank_str(settings.data_dir.as_str()) {
        return Err(AppError::Config(owned("数据目录不能为空")));
    }
    if is_blank_str(settings.output_dir.as_str()) {
        return Err(AppError::Config(owned("输出目录不能为空")));
    }
    if is_blank_str(settings.transcription_provider.base_url.as_str()) {
        return Err(AppError::Config(owned("转写服务 URL 不能为空")));
    }
    if is_blank_str(settings.summary_provider.base_url.as_str()) {
        return Err(AppError::Config(owned("摘要服务 URL 不能为空")));
    }
    if settings.processing_concurrency == 0 {
        return Err(AppError::Config(owned("并发任务数至少为 1")));
    }
    Ok(())
}

} // verus!
