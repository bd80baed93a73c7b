//! What the user interface asks for, decided before the store is read.
use vstd::prelude::*;
use crate::errors::AppError;
use crate::models::AudioRecord;
use crate::text::{owned, str_eq};

verus! {

/// A file of a recording.
#[derive(Clone, Copy, Debug, PartialEq, Eq, Structural)]
pub enum RecordFile {
    Audio,
    Transcript,
    Summary,
}

/// What an "open" request points at.
#[derive(Debug)]
pub enum OpenTarget {
    DataDir,
    OutputDir,
    Record { id: String, file: RecordFile },
}

/// What an "open" request of a kind names.
#[derive(Clone, Copy, Debug, PartialEq, Eq, Structural)]
pub enum OpenRequest {
    DataDir,
    OutputDir,
    Record(RecordFile),
    Unknown,
}

/// The two directories by name; the audio, transcript or summary of a
/// recording; anything else is unknown.
pub open spec fn open_request(kind: Seq<char>) -> OpenRequest {
    if kind == "data_dir"@ {
        OpenRequest::DataDir
    } else if kind == "output_dir"@ {
        OpenRequest::OutputDir
    } else if kind == "audio"@ {
        OpenRequest::Record(RecordFile::Audio)
    } else if kind == "transcript"@ {
        OpenRequest::Record(RecordFile::Transcript)
    } else if kind == "summary"@ {
        OpenRequest::Record(RecordFile::Summary)
    } else {
        OpenRequest::Unknown
    }
}

/// Reads an "open" request. A recording's file needs the recording's
/// identifier: without one it is a path error; an unknown kind is a
/// configuration error.
pub fn resolve_open_target(kind: &str, id: Option<&str>) -> (r: Result<OpenTarget, AppError>)
    ensures
        open_request(kind@) == OpenRequest::DataDir ==> r matches Ok(OpenTarget::DataDir),
        open_request(kind@) == OpenRequest::OutputDir ==> r matches Ok(OpenTarget::OutputDir),
        open_request(kind@) matches OpenRequest::Record(f) ==> match id {
            Some(x) => r matches Ok(OpenTarget::Record { id: y, file }) && y@ == x@ && file == f,
            None => r matches Err(AppError::Path(m)) && m@ == "缺少音频 ID"@,
        },
        open_request(kind@) == OpenRequest::Unknown ==> (r matches Err(AppError::Config(m)) && m@
            == "未知路径类型"@),
{
    if str_eq(kind, "data_dir") {
        return Ok(OpenTarget::DataDir);
    }
    if str_eq(kind, "output_dir") {
        return Ok(OpenTarget::OutputDir);
    }
    let file = if str_eq(kind, "audio") {
        RecordFile::Audio
    } else if str_eq(kind, "transcript") {
        RecordFile::Transcript
    } else if str_eq(kind, "summary") {
        RecordFile::Summary
    } else {
        return Err(AppError::Config(owned("未知路径类型")));
    };
    match id {
        Some(x) => Ok(OpenTarget::Record { id: owned(x), file }),
        None => Err(AppError::Path(owned("缺少音频 ID"))),
    }
}

/// The path of a recording's file, when the recording exists and the file was written.
pub open spec fn record_file(file: RecordFile, record: Option<AudioRecord>) -> Result<Seq<char>, Seq<char>> {
    match record {
        None => Err("找不到音频记录"@),
        Some(r) => match file {
            RecordFile::Audio => Ok(r.imported_path@),
            RecordFile::Transcript => match r.transcript_path {
                Some(p) => Ok(p@),
                None => Err("转写稿尚未生成"@),
            },
            RecordFile::Summary => match r.summary_path {
                Some(p) => Ok(p@),
                None => Err("摘要尚未生成"@),
            },
        },
    }
}

/// The path to open for a recording's file; a path error when the recording
/// or its file does not exist.
pub fn record_file_path(file: RecordFile, record: Option<AudioRecord>) -> (r: Result<String, AppError>)
    ensures
        record_file(file, record) matches Ok(p) ==> (r matches Ok(x) && x@ == p),
        record_file(file, record) matches Err(m) ==> (r matches Err(AppError::Path(x)) && x@ == m),
{
    match record {
        None => Err(AppError::Path(owned("找不到音频记录"))),
        Some(r) => match file {
            RecordFile::Audio => Ok(r.imported_path),
            RecordFile::Transcript => match r.transcript_path {
                Some(p) => Ok(p),
                None => Err(AppError::Path(owned("转写稿尚未生成"))),
            },
            RecordFile::Summary => match r.summary_path {
                Some(p) => Ok(p),
                None => Err(AppError::Path(owned("摘要尚未生成"))),
            },
        },
    }
}

} // verus!
