//! The library's error type and the text that each error reads as.
use vstd::prelude::*;
use crate::text::push_str;

verus! {

/// Everything that can go wrong. Errors raised by the database, the file
/// system, the HTTP client or the JSON codec carry the text of that error.
#[derive(Debug)]
pub enum AppError {
    Config(String),
    Database(String),
    Io(String),
    Http(String),
    Json(String),
    Path(String),
    Provider(String),
    System(String),
    UnsupportedPlatform,
}

/// `Result` with the library's error.
pub type AppResult<T> = Result<T, AppError>;

/// The label that heads the text of each kind of error.
pub open spec fn error_label(e: AppError) -> Seq<char> {
    match e {
        AppError::Config(_) => "配置错误: "@,
        AppError::Database(_) => "数据库错误: "@,
        AppError::Io(_) => "IO 错误: "@,
        AppError::Http(_) => "网络错误: "@,
        AppError::Json(_) => "序列化错误: "@,
        AppError::Path(_) => "路径错误: "@,
        AppError::Provider(_) => "外部服务错误: "@,
        AppError::System(_) => "系统错误: "@,
        AppError::UnsupportedPlatform => "不支持当前平台"@,
    }
}

/// The detail that an error carries, empty for `UnsupportedPlatform`.
pub open spec fn error_detail(e: AppError) -> Seq<char> {
    match e {
        AppError::Config(m) => m@,
        AppError::Database(m) => m@,
        AppError::Io(m) => m@,
        AppError::Http(m) => m@,
        AppError::Json(m) => m@,
        AppError::Path(m) => m@,
        AppError::Provider(m) => m@,
        AppError::System(m) => m@,
        AppError::UnsupportedPlatform => Seq::empty(),
    }
}

/// The text an error is shown and stored as: its label, then its detail.
pub open spec fn error_text(e: AppError) -> Seq<char> {
    error_label(e) + error_detail(e)
}

impl AppError {
    /// The text of the error, as it is shown to the user and stored with a failed job.
    pub fn message(&self) -> (r: String)
        ensures
            r@ == error_text(*self),
    {
        let mut s = String::new();
        match self {
            AppError::Config(m) => {
                push_str(&mut s, "配置错误: ");
                push_str(&mut s, m.as_str());
            },
            AppError::Database(m) => {
                push_str(&mut s, "数据库错误: ");
                push_str(&mut s, m.as_str());
            },
            AppError::Io(m) => {
                push_str(&mut s, "IO 错误: ");
                push_str(&mut s, m.as_str());
            },
            AppError::Http(m) => {
                push_str(&mut s, "网络错误: ");
                push_str(&mut s, m.as_str());
            },
            AppError::Json(m) => {
                push_str(&mut s, "序列化错误: ");
                push_str(&mut s, m.as_str());
            },
            AppError::Path(m) => {
                push_str(&mut s, "路径错误: ");
                push_str(&mut s, m.as_str());
            },
            AppError::Provider(m) => {
                push_str(&mut s, "外部服务错误: ");
                push_str(&mut s, m.as_str());
            },
            AppError::System(m) => {
                push_str(&mut s, "系统错误: ");
                push_str(&mut s, m.as_str());
            },
            AppError::UnsupportedPlatform => {
                push_str(&mut s, "不支持当前平台");
            },
        }
        assert(s@ =~= error_text(*self));
        s
    }
}

} // verus!
