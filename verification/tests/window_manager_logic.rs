use quick::manager::{WindowManager, DEFAULT_UPDATE_LOCK_DURATION};
use quick::models::{find_window, WindowConfig, WindowStatus};

fn config(title: &str, url: &str, is_default: bool) -> WindowConfig {
    WindowConfig {
        title: title.to_string(),
        url: url.to_string(),
        icon: None,
        shortcut: Some("Alt+1".to_string()),
        proxy_id: None,
        is_default,
    }
}

#[test]
fn config_labels_are_derived_from_title_and_url() {
    let mut m: WindowManager<(i32, i32)> = WindowManager::new();
    let labels = m.set_window_configs(&[config("Chat", "https://example.com", false)]);
    assert_eq!(labels, vec!["quick_Chat_baagiaadfegcegafhhfe".to_string()]);
    let w = m.get_window_info(&labels[0]).unwrap();
    assert_eq!(w.title, "Chat");
    assert_eq!(w.url, "https://example.com");
    assert_eq!(w.status, WindowStatus::Background);
    assert!(!w.loaded);
    assert!(w.position.is_none());
    assert_eq!(w.shortcut, Some("Alt+1".to_string()));
    // The first configured window becomes the active one.
    assert_eq!(m.get_active_window().unwrap().label, labels[0]);
}

#[test]
fn reconfiguring_keeps_state_of_known_windows() {
    let mut m: WindowManager<(i32, i32)> = WindowManager::new();
    let labels = m.set_window_configs(&[config("A", "https://a.example", false)]);
    // Already the active window: switching to it changes nothing.
    assert!(m.switch_to_window(&labels[0]));
    assert!(m.mark_window_loaded(&labels[0]));
    assert!(m.update_window_manager_position(&labels[0], (5, 6), false, false));
    let mut c = config("A", "https://a.example", true);
    c.shortcut = None;
    let again = m.set_window_configs(&[c, config("B", "https://b.example", false)]);
    assert_eq!(again[0], labels[0]);
    assert_eq!(m.get_windows().len(), 2);
    let a = m.get_window_info(&labels[0]).unwrap();
    assert_eq!(a.status, WindowStatus::Background);
    assert!(a.loaded);
    assert_eq!(a.position, Some((5, 6)));
    assert!(a.is_default);
    assert_eq!(a.shortcut, None);
    assert_eq!(m.get_default_window().unwrap().label, labels[0]);
    assert_eq!(m.get_active_window().unwrap().label, labels[0]);
}

#[test]
fn switching_moves_the_previous_window_back() {
    let mut m: WindowManager<(i32, i32)> = WindowManager::new();
    let l = m.set_window_configs(&[
        config("A", "https://a.example", false),
        config("B", "https://b.example", false),
    ]);
    assert!(m.switch_to_window(&l[1]));
    assert_eq!(m.get_active_window().unwrap().label, l[1]);
    assert_eq!(m.get_previous_active_window().unwrap().label, l[0]);
    assert_eq!(m.get_window_info(&l[1]).unwrap().status, WindowStatus::Foreground);
    assert_eq!(m.get_window_info(&l[0]).unwrap().status, WindowStatus::Background);
    assert!(m.get_window_info(&l[1]).unwrap().loaded);
    // Switching to the active window changes nothing.
    assert!(m.switch_to_window(&l[1]));
    assert_eq!(m.get_previous_active_window().unwrap().label, l[0]);
    assert!(!m.switch_to_window("quick_missing"));
}

#[test]
fn marking_loaded_happens_once() {
    let mut m: WindowManager<(i32, i32)> = WindowManager::new();
    let l = m.set_window_configs(&[config("A", "https://a.example", false)]);
    assert!(m.mark_window_loaded(&l[0]));
    assert!(!m.mark_window_loaded(&l[0]));
    assert!(!m.mark_window_loaded("nope"));
    assert!(m.get_window_info(&l[0]).unwrap().loaded);
}

#[test]
fn positions_and_the_shared_position() {
    let mut m: WindowManager<(i32, i32)> = WindowManager::new();
    let l = m.set_window_configs(&[config("A", "https://a.example", false)]);
    assert_eq!(m.get_quick_common_position(), None);
    assert!(m.update_window_manager_position(&l[0], (1, 2), false, false));
    assert_eq!(m.get_quick_common_position(), Some((1, 2)));
    // Close to the stored position: refused, nothing changes.
    assert!(!m.update_window_manager_position(&l[0], (1, 3), true, false));
    assert_eq!(m.get_window_info(&l[0]).unwrap().position, Some((1, 2)));
    // Stored, but close to the shared one: the shared one stays.
    assert!(m.update_window_manager_position(&l[0], (9, 9), false, true));
    assert_eq!(m.get_window_info(&l[0]).unwrap().position, Some((9, 9)));
    assert_eq!(m.get_quick_common_position(), Some((1, 2)));
    assert!(!m.update_window_manager_position("unknown", (0, 0), false, false));
    assert!(m.update_quick_common_position((7, 7), false));
    assert!(!m.update_quick_common_position((7, 8), true));
    assert_eq!(m.get_quick_common_position(), Some((7, 7)));
}

#[test]
fn update_lock_lets_one_window_drive() {
    let mut m: WindowManager<(i32, i32)> = WindowManager::new();
    let lock = DEFAULT_UPDATE_LOCK_DURATION as u128 * 1_000_000;
    assert!(m.can_update_at("quick_a", 0));
    // The holder goes on, and each accepted update restarts the lock.
    assert!(m.can_update_at("quick_a", 10));
    assert!(!m.can_update_at("quick_b", 10 + 10_000_000));
    assert!(!m.can_update_at("quick_b", 10 + lock));
    assert!(m.can_update_at("quick_b", 10 + lock + 1));
    assert!(!m.can_update_at("quick_a", 10 + lock + 1));
    // A refused request does not restart the lock.
    assert!(m.can_update_at("quick_a", 10 + 2 * lock + 2));
    assert!(m.can_update("quick_a"));
}

#[test]
fn clearing_the_active_window() {
    let mut m: WindowManager<(i32, i32)> = WindowManager::new();
    let l = m.set_window_configs(&[config("A", "https://a.example", false)]);
    m.clear_active_window();
    assert!(m.get_active_window().is_none());
    assert_eq!(m.get_previous_active_window().unwrap().label, l[0]);
    assert!(m.get_default_window().is_none());
}

#[test]
fn empty_configuration_leaves_no_active_window() {
    let mut m: WindowManager<(i32, i32)> = WindowManager::new();
    let l = m.set_window_configs(&[]);
    assert!(l.is_empty());
    assert!(m.get_active_window().is_none());
    assert!(m.get_windows().is_empty());
    let w = m.get_windows();
    assert_eq!(find_window(&w, "x"), None);
}

#[test]
fn show_previous_prefers_the_previous_window() {
    let mut m: WindowManager<(i32, i32)> = WindowManager::new();
    assert_eq!(m.window_to_show_previous(), None);
    let l = m.set_window_configs(&[
        config("A", "https://a.example", false),
        config("B", "https://b.example", false),
    ]);
    // Nothing was active before: the first window other than the control window.
    assert_eq!(m.window_to_show_previous(), Some(l[0].clone()));
    assert!(m.switch_to_window(&l[1]));
    assert_eq!(m.window_to_show_previous(), Some(l[0].clone()));
    assert!(m.switch_to_window(&l[0]));
    assert_eq!(m.window_to_show_previous(), Some(l[1].clone()));
}

#[test]
fn switch_outcome_names_what_to_hide() {
    let mut m: WindowManager<(i32, i32)> = WindowManager::new();
    let l = m.set_window_configs(&[
        config("A", "https://a.example", false),
        config("B", "https://b.example", false),
    ]);
    assert!(m.update_quick_common_position((4, 4), false));
    let o = m.switch_outcome(&l[1]).unwrap();
    assert_eq!(o.hide, Some(l[0].clone()));
    assert_eq!(o.position, Some((4, 4)));
    assert_eq!(m.get_active_window().unwrap().label, l[1]);
    match m.switch_outcome("quick_nowhere") {
        Err(quick::error::AppError::IOError(msg)) => assert_eq!(msg, "窗口 quick_nowhere 不存在"),
        _ => panic!("unknown window accepted"),
    }
}

#[test]
fn hiding_or_closing_the_active_window_clears_it() {
    let mut m: WindowManager<(i32, i32)> = WindowManager::new();
    let l = m.set_window_configs(&[
        config("A", "https://a.example", false),
        config("B", "https://b.example", false),
    ]);
    assert!(m.switch_to_window(&l[1]));
    m.window_hidden(&l[0]);
    assert_eq!(m.get_active_window().unwrap().label, l[1]);
    m.window_hidden(&l[1]);
    assert!(m.get_active_window().is_none());
    assert_eq!(m.get_previous_active_window().unwrap().label, l[1]);
    assert!(m.switch_to_window(&l[0]));
    m.window_closed(&l[1]);
    assert_eq!(m.get_active_window().unwrap().label, l[0]);
    m.window_closed(&l[0]);
    assert!(m.get_active_window().is_none());
}

#[test]
fn reapplying_the_same_configuration_changes_nothing() {
    let mut m: WindowManager<(i32, i32)> = WindowManager::new();
    let cs = [
        config("A", "https://a.example", false),
        config("B", "https://b.example", true),
        config("A", "https://a.example", true),
    ];
    let l = m.set_window_configs(&cs);
    assert_eq!(l[0], l[2]);
    let before: Vec<String> = m.get_windows().iter().map(|w| format!("{:?}", w)).collect();
    let again = m.set_window_configs(&cs);
    let after: Vec<String> = m.get_windows().iter().map(|w| format!("{:?}", w)).collect();
    assert_eq!(l, again);
    assert_eq!(before, after);
    assert_eq!(before.len(), 2);
    assert!(m.get_window_info(&l[0]).unwrap().is_default);
}

#[test]
fn window_to_create_needs_a_configuration() {
    let mut m: WindowManager<(i32, i32)> = WindowManager::new();
    let l = m.set_window_configs(&[config("A", "https://a.example", false)]);
    assert_eq!(m.window_to_create(&l[0]).unwrap().url, "https://a.example");
    match m.window_to_create("quick_x") {
        Err(quick::error::AppError::IOError(msg)) => assert_eq!(msg, "窗口 quick_x 的配置信息未找到"),
        _ => panic!("unknown window accepted"),
    }
}
