//! Records exchanged with the settings pages: proxies and configured windows.
use vstd::prelude::*;

verus! {

/// A proxy as the settings pages show it.
#[derive(Debug, Clone)]
pub struct ProxyInfo {
    pub id: i32,
    /// The proxy protocol (`http` or `socks5`).
    pub proxy_type: String,
    pub host: String,
    pub port: i32,
    pub username: Option<String>,
    pub password: Option<String>,
    pub created_at: String,
    pub updated_at: String,
}

/// A request to create a proxy.
#[derive(Debug)]
pub struct CreateProxyRequest {
    pub proxy_type: String,
    pub host: String,
    pub port: i32,
    pub username: Option<String>,
    pub password: Option<String>,
}

/// A request to change a proxy; absent fields stay as they are.
#[derive(Debug)]
pub struct UpdateProxyRequest {
    pub id: i32,
    pub proxy_type: Option<String>,
    pub host: Option<String>,
    pub port: Option<i32>,
    pub username: Option<Option<String>>,
    pub password: Option<Option<String>>,
}

/// A configured window as the settings pages show it.
#[derive(Debug, Clone)]
pub struct WindowInfo {
    pub id: i32,
    pub title: String,
    pub url: String,
    pub icon: Option<String>,
    pub sort_order: i32,
    pub proxy_id: Option<i32>,
    pub shortcut: Option<String>,
    pub is_default: bool,
    pub created_at: String,
    pub updated_at: String,
}

/// A request to create a configured window.
#[derive(Debug)]
pub struct CreateWindowRequest {
    pub title: String,
    pub url: String,
    pub icon: Option<String>,
    pub proxy_id: Option<i32>,
    pub shortcut: Option<String>,
    pub is_default: Option<bool>,
}

/// A request to change a configured window; absent fields stay as they are.
#[derive(Debug)]
pub struct UpdateWindowRequest {
    pub id: i32,
    pub title: Option<String>,
    pub url: Option<String>,
    pub icon: Option<Option<String>>,
    pub sort_order: Option<i32>,
    pub proxy_id: Option<Option<i32>>,
    pub shortcut: Option<Option<String>>,
    pub is_default: Option<bool>,
}

} // verus!
