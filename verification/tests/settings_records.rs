use quick::curd_proxies;
use quick::curd_windows;
use quick::error::AppError;
use quick::migration::{migration_version, parse_i64};
use quick::proxy::{build_proxy_url, proxy_base_url};
use quick::screen::{monitor_at, position_on_monitor, position_on_screen, MonitorArea};
use quick::services::{ProxyInfoService, WindowInfoService, WindowManagerService};
use quick::settings::{default_open_window, open_method_name};
use quick::types::{CreateProxyRequest, ProxyInfo, UpdateProxyRequest, WindowInfo};

fn validation_text(r: Result<(), AppError>) -> String {
    match r {
        Err(AppError::ValidationError(m)) => m,
        other => panic!("expected a validation error, got {:?}", other),
    }
}

fn proxy(kind: &str, user: Option<&str>, pass: Option<&str>) -> ProxyInfo {
    ProxyInfo {
        id: 1,
        proxy_type: kind.to_string(),
        host: "127.0.0.1".to_string(),
        port: 7890,
        username: user.map(|s| s.to_string()),
        password: pass.map(|s| s.to_string()),
        created_at: String::new(),
        updated_at: String::new(),
    }
}

fn window(id: i32, order: i32) -> WindowInfo {
    WindowInfo {
        id,
        title: format!("w{}", id),
        url: format!("https://w{}.example", id),
        icon: None,
        sort_order: order,
        proxy_id: Some(id),
        shortcut: None,
        is_default: id == 2,
        created_at: String::new(),
        updated_at: String::new(),
    }
}

#[test]
fn error_codes_and_messages() {
    let e = AppError::new_validation_error("bad");
    assert_eq!(e.error_code(), 10004);
    assert_eq!(e.message(), "数据验证错误: bad");
    let e = AppError::new_not_found("x");
    assert_eq!(e.error_code(), 10005);
    assert_eq!(e.message(), "资源未找到: x");
    let e = AppError::new_unknown("y");
    assert_eq!(e.error_code(), 19999);
    assert_eq!(e.message(), "未知错误: y");
    assert_eq!(AppError::IOError("disk".to_string()).error_code(), 10001);
    assert_eq!(AppError::DbError("db".to_string()).message(), "db");
    assert_eq!(AppError::JsonError("js".to_string()).error_code(), 10003);
}

#[test]
fn proxy_urls() {
    assert_eq!(proxy_base_url("http", "h", 80), "http://h:80");
    assert_eq!(proxy_base_url("socks5", "h", -1), "socks5://h:-1");
    assert_eq!(proxy_base_url("ftp", "h", 80), "");
    assert_eq!(build_proxy_url(&proxy("http", None, None)), Some("http://127.0.0.1:7890/".to_string()));
    assert_eq!(
        build_proxy_url(&proxy("socks5", Some("u"), Some("p"))),
        Some("socks5://u:p@127.0.0.1:7890".to_string())
    );
    assert_eq!(
        build_proxy_url(&proxy("http", Some("u"), None)),
        Some("http://127.0.0.1:7890/".to_string())
    );
    assert_eq!(build_proxy_url(&proxy("ftp", Some("u"), Some("p"))), None);
    let mut bad = proxy("http", None, None);
    bad.host = "exa mple".to_string();
    assert_eq!(build_proxy_url(&bad), None);
}

#[test]
fn proxy_validation() {
    assert!(curd_proxies::Insert::validate("http", "h", 1).is_ok());
    assert!(curd_proxies::Insert::validate("http", "h", 65535).is_ok());
    assert_eq!(validation_text(curd_proxies::Insert::validate("", "", 0)), "代理类型不能为空");
    assert_eq!(validation_text(curd_proxies::Insert::validate("http", "", 0)), "代理主机地址不能为空");
    assert_eq!(validation_text(curd_proxies::Insert::validate("http", "h", 65536)), "无效的端口号(1-65535)");
    assert_eq!(validation_text(curd_proxies::Insert::validate("http", "h", 0)), "无效的端口号(1-65535)");
    assert!(curd_proxies::Update::validate(&None, &None, None).is_ok());
    assert_eq!(
        validation_text(curd_proxies::Update::validate(&None, &Some(String::new()), Some(0))),
        "代理主机地址不能为空"
    );
    assert_eq!(validation_text(curd_proxies::Update::validate(&None, &None, Some(-3))), "无效的端口号(1-65535)");
    assert_eq!(curd_proxies::Insert::title_or_default(None, "h", 8080), "h:8080");
    assert_eq!(curd_proxies::Insert::title_or_default(Some("t".to_string()), "h", 8080), "t");
    match curd_proxies::Query::not_found(12) {
        AppError::NotFoundError(m) => assert_eq!(m, "找不到ID为12的代理"),
        _ => panic!("wrong error"),
    }
    assert!(curd_proxies::Delete::deleted(1));
    assert!(!curd_proxies::Delete::deleted(0));

    let create = CreateProxyRequest {
        proxy_type: "http".to_string(),
        host: "h".to_string(),
        port: 99999,
        username: None,
        password: None,
    };
    assert!(ProxyInfoService::check_create(&create).is_err());
    let update = UpdateProxyRequest {
        id: 1,
        proxy_type: Some("socks5".to_string()),
        host: None,
        port: Some(1080),
        username: None,
        password: Some(None),
    };
    assert!(ProxyInfoService::check_update(&update).is_ok());
}

#[test]
fn window_validation() {
    assert!(curd_windows::Insert::validate("t", "u").is_ok());
    assert_eq!(validation_text(curd_windows::Insert::validate("", "")), "窗口标题不能为空");
    assert_eq!(validation_text(curd_windows::Insert::validate("t", "")), "窗口URL不能为空");
    assert_eq!(
        validation_text(curd_windows::Update::validate(&Some("t".to_string()), &Some(String::new()))),
        "窗口URL不能为空"
    );
    assert!(curd_windows::Update::validate(&None, &None).is_ok());
    match curd_windows::Query::not_found(-4) {
        AppError::NotFoundError(m) => assert_eq!(m, "找不到ID为-4的窗口"),
        _ => panic!("wrong error"),
    }
    assert!(curd_windows::Delete::deleted(3));
    match WindowInfoService::missing_proxy(5) {
        AppError::ValidationError(m) => assert_eq!(m, "ID为5的代理不存在"),
        _ => panic!("wrong error"),
    }
}

#[test]
fn windows_sort_stably_by_order() {
    let sorted = WindowInfoService::sort_by_order(vec![window(1, 3), window(2, 1), window(3, 3), window(4, 0)]);
    let ids: Vec<i32> = sorted.iter().map(|w| w.id).collect();
    assert_eq!(ids, vec![4, 2, 1, 3]);
    assert!(WindowInfoService::sort_by_order(Vec::new()).is_empty());
    assert_eq!(WindowInfoService::next_sort_order(&[]), 1);
    assert_eq!(WindowInfoService::next_sort_order(&[3, 9, -2]), 10);
}

#[test]
fn window_configs_follow_the_order() {
    let configs = WindowManagerService::load_window_configs(vec![window(1, 5), window(2, 1)]);
    assert_eq!(configs.len(), 2);
    assert_eq!(configs[0].title, "w2");
    assert!(configs[0].is_default);
    assert_eq!(configs[0].proxy_id, Some(2));
    assert_eq!(configs[1].url, "https://w1.example");
    let c = WindowManagerService::config_from_info(&window(7, 0));
    assert_eq!(c.title, "w7");
    assert_eq!(c.shortcut, None);
}

#[test]
fn default_open_window_setting() {
    let d = default_open_window(None, None);
    assert_eq!(d.shortcut, "alt+g");
    assert!(d.open_default);
    let d = default_open_window(Some(String::new()), Some("last".to_string()));
    assert_eq!(d.shortcut, "alt+g");
    assert!(!d.open_default);
    let d = default_open_window(Some("ctrl+k".to_string()), Some("default".to_string()));
    assert_eq!(d.shortcut, "ctrl+k");
    assert!(d.open_default);
    assert!(default_open_window(None, Some("other".to_string())).open_default);
    assert_eq!(open_method_name(true), "default");
    assert_eq!(open_method_name(false), "last");
}

#[test]
fn migration_versions() {
    assert_eq!(migration_version("m20250307_104412_window_proxy_manager"), Some(20250307104412));
    assert_eq!(migration_version("m20220101_000001_create_table"), Some(20220101000001));
    assert_eq!(migration_version("x20250307_104412"), None);
    assert_eq!(migration_version("m20250307"), None);
    assert_eq!(migration_version("mabc_def"), None);
    assert_eq!(migration_version(""), None);
    assert_eq!(parse_i64(&['-', '4', '2']), Some(-42));
    assert_eq!(parse_i64(&['+', '7']), Some(7));
    assert_eq!(parse_i64(&[]), None);
    assert_eq!(parse_i64(&['-']), None);
    let max: Vec<char> = "9223372036854775807".chars().collect();
    assert_eq!(parse_i64(&max), Some(i64::MAX));
    let min: Vec<char> = "-9223372036854775808".chars().collect();
    assert_eq!(parse_i64(&min), Some(i64::MIN));
    let over: Vec<char> = "9223372036854775808".chars().collect();
    assert_eq!(parse_i64(&over), None);
}

#[test]
fn window_placement() {
    let monitors = [
        MonitorArea { x: 0, y: 0, width: 1920, height: 1080 },
        MonitorArea { x: 1920, y: 0, width: 1280, height: 1024 },
    ];
    assert_eq!(monitor_at(&monitors, 10, 10), Some(0));
    assert_eq!(monitor_at(&monitors, 1920, 5), Some(1));
    assert_eq!(monitor_at(&monitors, 5000, 5), None);
    assert_eq!(monitor_at(&monitors, -1, 5), None);
    assert_eq!(position_on_monitor(monitors[1], 3000, 900, 400, 300), (2800, 724));
    assert_eq!(position_on_monitor(monitors[0], -50, -50, 400, 300), (0, 0));
    assert_eq!(position_on_screen(1700, 900, 1920, 1080, 400, 300), (1520, 700));
    assert_eq!(position_on_screen(-5, 10, 1920, 1080, 400, 300), (0, 10));
    assert_eq!(position_on_screen(100, 100, 200, 200, 400, 300), (0, 0));
}

#[test]
fn settings_cache_reads_back_writes() {
    let mut cache = quick::setup::SetupService::new();
    assert_eq!(cache.cached_value("theme"), None);
    cache.remember("theme", "\"dark\"".to_string());
    cache.remember("size", "3".to_string());
    assert_eq!(cache.cached_value("theme"), Some("\"dark\"".to_string()));
    cache.remember("theme", "\"light\"".to_string());
    assert_eq!(cache.cached_value("theme"), Some("\"light\"".to_string()));
    assert_eq!(cache.cached_value("size"), Some("3".to_string()));
    cache.init_setup(vec![
        ("size".to_string(), Some("5".to_string()), "1".to_string()),
        ("lang".to_string(), None, "\"en\"".to_string()),
    ]);
    assert_eq!(cache.cached_value("size"), Some("5".to_string()));
    assert_eq!(cache.cached_value("lang"), Some("\"en\"".to_string()));
    assert_eq!(cache.cached_value("theme"), Some("\"light\"".to_string()));
}

#[test]
fn changes_replace_only_the_given_fields() {
    let current = proxy("http", Some("u"), Some("p"));
    let change = UpdateProxyRequest {
        id: 1,
        proxy_type: None,
        host: Some("10.0.0.1".to_string()),
        port: None,
        username: Some(None),
        password: None,
    };
    let p = curd_proxies::Update::apply(current, change, "later".to_string()).unwrap();
    assert_eq!(p.host, "10.0.0.1");
    assert_eq!(p.proxy_type, "http");
    assert_eq!(p.port, 7890);
    assert_eq!(p.username, None);
    assert_eq!(p.password, Some("p".to_string()));
    assert_eq!(p.updated_at, "later");
    let bad = UpdateProxyRequest {
        id: 1,
        proxy_type: None,
        host: None,
        port: Some(0),
        username: None,
        password: None,
    };
    assert_eq!(
        validation_text(curd_proxies::Update::apply(proxy("http", None, None), bad, String::new()).map(|_| ())),
        "无效的端口号(1-65535)"
    );

    let w = curd_windows::Update::apply(
        window(3, 7),
        quick::types::UpdateWindowRequest {
            id: 3,
            title: Some("T".to_string()),
            url: None,
            icon: Some(Some("i.png".to_string())),
            sort_order: Some(1),
            proxy_id: Some(None),
            shortcut: None,
            is_default: Some(true),
        },
        "now".to_string(),
    )
    .unwrap();
    assert_eq!(w.title, "T");
    assert_eq!(w.url, "https://w3.example");
    assert_eq!(w.icon, Some("i.png".to_string()));
    assert_eq!(w.sort_order, 1);
    assert_eq!(w.proxy_id, None);
    assert!(w.is_default);
    assert_eq!(w.updated_at, "now");
    let empty_title = quick::types::UpdateWindowRequest {
        id: 3,
        title: Some(String::new()),
        url: None,
        icon: None,
        sort_order: None,
        proxy_id: None,
        shortcut: None,
        is_default: None,
    };
    assert!(curd_windows::Update::apply(window(3, 7), empty_title, String::new()).is_err());
}
