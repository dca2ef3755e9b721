//! The checks made on configured-window records before they are stored.
use vstd::prelude::*;
use crate::error::AppError;
use crate::curd_proxies::{changed, pick};
use crate::text::{chars_of, decimal, i32_decimal, string_from_chars};
use crate::types::{UpdateWindowRequest, WindowInfo};

verus! {

/// Reads configured-window records.
pub struct Query;

/// Adds configured-window records.
pub struct Insert;

/// Changes configured-window records.
pub struct Update;

/// Removes configured-window records.
pub struct Delete;

impl Query {
    /// The error for a window id that names no record.
    pub fn not_found(id: i32) -> (r: AppError)
        ensures
            r matches AppError::NotFoundError(m) && m@ == "找不到ID为"@ + decimal(id as int) + "的窗口"@,
    {
        let d = i32_decimal(id);
        let digits = string_from_chars(d.as_slice());
        let m = String::from_str("找不到ID为").concat(digits.as_str()).concat("的窗口");
        AppError::NotFoundError(m)
    }
}

impl Insert {
    /// A new window needs a title and a URL, checked in that order.
    pub fn validate(title: &str, url: &str) -> (r: Result<(), AppError>)
        ensures
            r is Ok <==> (title@.len() > 0 && url@.len() > 0),
            r matches Err(e) ==> (e matches AppError::ValidationError(m) && m@ == (if title@.len() == 0 {
                "窗口标题不能为空"@
            } else {
                "窗口URL不能为空"@
            })),
    {
        if chars_of(title).len() == 0 {
            return Err(AppError::new_validation_error("窗口标题不能为空"));
        }
        if chars_of(url).len() == 0 {
            return Err(AppError::new_validation_error("窗口URL不能为空"));
        }
        Ok(())
    }
}

impl Update {
    /// A change may leave the title or URL out; those it gives are checked
    /// as for a new window.
    pub fn validate(title: &Option<String>, url: &Option<String>) -> (r: Result<(), AppError>)
        ensures
            ({
                let bad_title = title matches Some(t) && t@.len() == 0;
                let bad_url = url matches Some(u) && u@.len() == 0;
                &&& r is Ok <==> !(bad_title || bad_url)
                &&& r matches Err(e) ==> (e matches AppError::ValidationError(m) && m@ == (if bad_title {
                    "窗口标题不能为空"@
                } else {
                    "窗口URL不能为空"@
                }))
            }),
    {
        if let Some(t) = title {
            if chars_of(t.as_str()).len() == 0 {
                return Err(AppError::new_validation_error("窗口标题不能为空"));
            }
        }
        if let Some(u) = url {
            if chars_of(u.as_str()).len() == 0 {
                return Err(AppError::new_validation_error("窗口URL不能为空"));
            }
        }
        Ok(())
    }
}

impl Update {
    /// A stored window after a change is applied at time `now`: the change
    /// is checked first; each field it gives replaces the stored one, and the
    /// time of the change is recorded.
    pub fn apply(current: WindowInfo, request: UpdateWindowRequest, now: String) -> (r: Result<WindowInfo, AppError>)
        ensures
            ({
                let bad_title = request.title matches Some(t) && t@.len() == 0;
                let bad_url = request.url matches Some(u) && u@.len() == 0;
                &&& r is Ok <==> !(bad_title || bad_url)
                &&& r matches Err(e) ==> (e matches AppError::ValidationError(m) && m@ == (if bad_title {
                    "窗口标题不能为空"@
                } else {
                    "窗口URL不能为空"@
                }))
                &&& r matches Ok(w) ==> w == (WindowInfo {
                    title: changed(current.title, request.title),
                    url: changed(current.url, request.url),
                    icon: changed(current.icon, request.icon),
                    sort_order: changed(current.sort_order, request.sort_order),
                    proxy_id: changed(current.proxy_id, request.proxy_id),
                    shortcut: changed(current.shortcut, request.shortcut),
                    is_default: changed(current.is_default, request.is_default),
                    updated_at: now,
                    ..current
                })
            }),
    {
        match Self::validate(&request.title, &request.url) {
            Err(e) => Err(e),
            Ok(()) => Ok(WindowInfo {
                id: current.id,
                title: pick(current.title, request.title),
                url: pick(current.url, request.url),
                icon: pick(current.icon, request.icon),
                sort_order: pick(current.sort_order, request.sort_order),
                proxy_id: pick(current.proxy_id, request.proxy_id),
                shortcut: pick(current.shortcut, request.shortcut),
                is_default: pick(current.is_default, request.is_default),
                created_at: current.created_at,
                updated_at: now,
            }),
        }
    }
}

impl Delete {
    /// A deletion took effect when it touched at least one row.
    pub fn deleted(rows_affected: u64) -> (r: bool)
        ensures
            r == (rows_affected > 0),
    {
        rows_affected > 0
    }
}

} // verus!
