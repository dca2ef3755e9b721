//! The checks made on proxy records before they are stored, and the
//! messages of the errors they give.
use vstd::prelude::*;
use crate::error::AppError;
use crate::text::{chars_of, decimal, i32_decimal, string_from_chars};
use crate::types::{ProxyInfo, UpdateProxyRequest};

verus! {

/// Reads proxy records.
pub struct Query;

/// Adds proxy records.
pub struct Insert;

/// Changes proxy records.
pub struct Update;

/// Removes proxy records.
pub struct Delete;

/// A port in 1..=65535.
pub open spec fn port_valid(port: i32) -> bool {
    0 < port <= 65535
}

impl Query {
    /// The error for a proxy id that names no record.
    pub fn not_found(id: i32) -> (r: AppError)
        ensures
            r matches AppError::NotFoundError(m) && m@ == "找不到ID为"@ + decimal(id as int) + "的代理"@,
    {
        let d = i32_decimal(id);
        let digits = string_from_chars(d.as_slice());
        let m = String::from_str("找不到ID为").concat(digits.as_str()).concat("的代理");
        AppError::NotFoundError(m)
    }
}

impl Insert {
    /// A new proxy needs a type, a host and a port in 1..=65535, checked in
    /// that order.
    pub fn validate(proxy_type: &str, host: &str, port: i32) -> (r: Result<(), AppError>)
        ensures
            r is Ok <==> (proxy_type@.len() > 0 && host@.len() > 0 && port_valid(port)),
            r matches Err(e) ==> (e matches AppError::ValidationError(m) && m@ == (if proxy_type@.len() == 0 {
                "代理类型不能为空"@
            } else if host@.len() == 0 {
                "代理主机地址不能为空"@
            } else {
                "无效的端口号(1-65535)"@
            })),
    {
        if chars_of(proxy_type).len() == 0 {
            return Err(AppError::new_validation_error("代理类型不能为空"));
        }
        if chars_of(host).len() == 0 {
            return Err(AppError::new_validation_error("代理主机地址不能为空"));
        }
        if port <= 0 || port > 65535 {
            return Err(AppError::new_validation_error("无效的端口号(1-65535)"));
        }
        Ok(())
    }

    /// The title a proxy gets: the given one, or `host:port`.
    pub fn title_or_default(title: Option<String>, host: &str, port: i32) -> (r: String)
        ensures
            r@ == (match title {
                Some(t) => t@,
                None => host@ + ":"@ + decimal(port as int),
            }),
    {
        match title {
            Some(t) => t,
            None => {
                let d = i32_decimal(port);
                let digits = string_from_chars(d.as_slice());
                String::from_str(host).concat(":").concat(digits.as_str())
            },
        }
    }
}

impl Update {
    /// A change may leave any field out; the fields it gives are checked as
    /// for a new proxy, in the same order.
    pub fn validate(proxy_type: &Option<String>, host: &Option<String>, port: Option<i32>) -> (r: Result<(), AppError>)
        ensures
            ({
                let bad_type = proxy_type matches Some(t) && t@.len() == 0;
                let bad_host = host matches Some(h) && h@.len() == 0;
                let bad_port = port matches Some(p) && !port_valid(p);
                &&& r is Ok <==> !(bad_type || bad_host || bad_port)
                &&& r matches Err(e) ==> (e matches AppError::ValidationError(m) && m@ == (if bad_type {
                    "代理类型不能为空"@
                } else if bad_host {
                    "代理主机地址不能为空"@
                } else {
                    "无效的端口号(1-65535)"@
                }))
            }),
    {
        if let Some(t) = proxy_type {
            if chars_of(t.as_str()).len() == 0 {
                return Err(AppError::new_validation_error("代理类型不能为空"));
            }
        }
        if let Some(h) = host {
            if chars_of(h.as_str()).len() == 0 {
                return Err(AppError::new_validation_error("代理主机地址不能为空"));
            }
        }
        if let Some(p) = port {
            if p <= 0 || p > 65535 {
                return Err(AppError::new_validation_error("无效的端口号(1-65535)"));
            }
        }
        Ok(())
    }
}

/// A field after a change: the new value when one is given.
pub open spec fn changed<T>(old: T, new: Option<T>) -> T {
    match new {
        Some(v) => v,
        None => old,
    }
}

pub(crate) fn pick<T>(old: T, new: Option<T>) -> (r: T)
    ensures
        r == changed(old, new),
{
    match new {
        Some(v) => v,
        None => old,
    }
}

impl Update {
    /// A stored proxy after a change is applied at time `now`: the change is
    /// checked first; each field it gives replaces the stored one, and the
    /// time of the change is recorded.
    pub fn apply(current: ProxyInfo, request: UpdateProxyRequest, now: String) -> (r: Result<ProxyInfo, AppError>)
        ensures
            ({
                let bad_type = request.proxy_type matches Some(t) && t@.len() == 0;
                let bad_host = request.host matches Some(h) && h@.len() == 0;
                let bad_port = request.port matches Some(p) && !port_valid(p);
                &&& r is Ok <==> !(bad_type || bad_host || bad_port)
                &&& r matches Err(e) ==> (e matches AppError::ValidationError(m) && m@ == (if bad_type {
                    "代理类型不能为空"@
                } else if bad_host {
                    "代理主机地址不能为空"@
                } else {
                    "无效的端口号(1-65535)"@
                }))
                &&& r matches Ok(p) ==> p == (ProxyInfo {
                    proxy_type: changed(current.proxy_type, request.proxy_type),
                    host: changed(current.host, request.host),
                    port: changed(current.port, request.port),
                    username: changed(current.username, request.username),
                    password: changed(current.password, request.password),
                    updated_at: now,
                    ..current
                })
            }),
    {
        match Self::validate(&request.proxy_type, &request.host, request.port) {
            Err(e) => Err(e),
            Ok(()) => Ok(ProxyInfo {
                id: current.id,
                proxy_type: pick(current.proxy_type, request.proxy_type),
                host: pick(current.host, request.host),
                port: pick(current.port, request.port),
                username: pick(current.username, request.username),
                password: pick(current.password, request.password),
                created_at: current.created_at,
                updated_at: now,
            }),
        }
    }
}

impl Delete {
    /// A deletion took effect when it touched at least one row.
    pub fn deleted(rows_affected: u64) -> (r: bool)
        ensures
            r == (rows_affected > 0),
    {
        rows_affected > 0
    }
}

} // verus!
