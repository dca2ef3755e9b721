//! The library's error type and the codes it is reported with.
use vstd::prelude::*;

verus! {

/// An error, with the text it is reported with.
#[derive(Debug, Clone)]
pub enum AppError {
    /// A file or network operation failed.
    IOError(String),
    /// The database refused an operation.
    DbError(String),
    /// A JSON value could not be read or written.
    JsonError(String),
    /// The input was refused.
    ValidationError(String),
    /// A resource was not found.
    NotFoundError(String),
    /// Anything else.
    UnknownError(String),
}

/// The numeric code of each kind of error.
pub open spec fn code_of(e: AppError) -> i32 {
    match e {
        AppError::IOError(_) => 10001,
        AppError::DbError(_) => 10002,
        AppError::JsonError(_) => 10003,
        AppError::ValidationError(_) => 10004,
        AppError::NotFoundError(_) => 10005,
        AppError::UnknownError(_) => 19999,
    }
}

/// The text carried by an error.
pub open spec fn detail_of(e: AppError) -> Seq<char> {
    match e {
        AppError::IOError(m) => m@,
        AppError::DbError(m) => m@,
        AppError::JsonError(m) => m@,
        AppError::ValidationError(m) => m@,
        AppError::NotFoundError(m) => m@,
        AppError::UnknownError(m) => m@,
    }
}

/// The message an error is displayed with.
pub open spec fn message_of(e: AppError) -> Seq<char> {
    match e {
        AppError::ValidationError(m) => "数据验证错误: "@ + m@,
        AppError::NotFoundError(m) => "资源未找到: "@ + m@,
        AppError::UnknownError(m) => "未知错误: "@ + m@,
        _ => detail_of(e),
    }
}

impl AppError {
    /// The numeric code reported for this error.
    pub fn error_code(&self) -> (r: i32)
        ensures
            r == code_of(*self),
    {
        match self {
            AppError::IOError(_) => 10001,
            AppError::DbError(_) => 10002,
            AppError::JsonError(_) => 10003,
            AppError::ValidationError(_) => 10004,
            AppError::NotFoundError(_) => 10005,
            AppError::UnknownError(_) => 19999,
        }
    }

    pub fn new_validation_error(msg: &str) -> (r: AppError)
        ensures
            r matches AppError::ValidationError(m) && m@ == msg@,
    {
        AppError::ValidationError(String::from_str(msg))
    }

    pub fn new_not_found(resource: &str) -> (r: AppError)
        ensures
            r matches AppError::NotFoundError(m) && m@ == resource@,
    {
        AppError::NotFoundError(String::from_str(resource))
    }

    pub fn new_unknown(msg: &str) -> (r: AppError)
        ensures
            r matches AppError::UnknownError(m) && m@ == msg@,
    {
        AppError::UnknownError(String::from_str(msg))
    }

    /// The message this error is displayed with: the underlying text for
    /// errors that come from elsewhere, a labelled text for the others.
    pub fn message(&self) -> (r: String)
        ensures
            r@ == message_of(*self),
    {
        match self {
            AppError::IOError(m) => m.clone(),
            AppError::DbError(m) => m.clone(),
            AppError::JsonError(m) => m.clone(),
            AppError::ValidationError(m) => String::from_str("数据验证错误: ").concat(m.as_str()),
            AppError::NotFoundError(m) => String::from_str("资源未找到: ").concat(m.as_str()),
            AppError::UnknownError(m) => String::from_str("未知错误: ").concat(m.as_str()),
        }
    }
}

} // verus!
