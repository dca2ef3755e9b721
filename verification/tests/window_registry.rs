use quick::app_window;
use quick::labels::{letters_of_digest, url_label_letters};
use quick::manager;
use quick::quick_window;
use quick::window_manager::{generate_window_label, ControlMove, WindowConfig, WindowManager};
use quick::models::WindowStatus;

#[test]
fn labels_follow_the_url_digest() {
    assert_eq!(generate_window_label("https://example.com"), "quick_baagiaadfegcegafhhfe");
    assert_eq!(quick_window::generate_window_label("https://chat.openai.com"), "quick_fcjhbebhecaaeeeheeee");
    assert_eq!(generate_window_label(""), "quick_edbaceecjifcbcbejafb");
    assert_eq!(app_window::generate_window_label("https://example.com"), "baagiaadfegcegafhhfe");
    assert_eq!(manager::generate_window_label("https://example.com", "Mail"), "quick_Mail_baagiaadfegcegafhhfe");
    let letters = url_label_letters("https://example.com");
    assert_eq!(letters.len(), 20);
    assert!(letters.iter().all(|c| ('a'..='j').contains(c)));
}

#[test]
fn adding_windows_makes_the_newest_active() {
    let mut m: WindowManager<(i32, i32)> = WindowManager::new();
    m.add_window("quick_a".to_string(), "A".to_string(), "https://a".to_string());
    m.add_window("quick_b".to_string(), "B".to_string(), "https://b".to_string());
    assert_eq!(m.get_active_window().unwrap().label, "quick_b");
    assert_eq!(m.get_previous_active_window().unwrap().label, "quick_a");
    assert_eq!(m.get_window_info("quick_a").unwrap().status, WindowStatus::Background);
    let b = m.get_window_info("quick_b").unwrap();
    assert_eq!(b.status, WindowStatus::Foreground);
    assert!(!b.loaded);
    assert_eq!(m.get_windows().len(), 2);
    assert_eq!(m.background_windows_except("quick_b"), vec!["quick_a".to_string()]);
}

#[test]
fn removing_the_active_window_falls_back_to_the_previous() {
    let mut m: WindowManager<(i32, i32)> = WindowManager::new();
    m.add_window("quick_a".to_string(), "A".to_string(), "https://a".to_string());
    m.add_window("quick_b".to_string(), "B".to_string(), "https://b".to_string());
    m.remove_window("quick_b");
    assert_eq!(m.get_active_window().unwrap().label, "quick_a");
    assert_eq!(m.get_window_info("quick_a").unwrap().status, WindowStatus::Foreground);
    assert!(m.get_window_info("quick_b").is_none());
    m.remove_window("quick_a");
    assert!(m.get_active_window().is_none());
    assert!(m.get_windows().is_empty());
    m.remove_window("nothing");
    assert!(m.get_windows().is_empty());
}

#[test]
fn registry_switch_and_load() {
    let mut m: WindowManager<(i32, i32)> = WindowManager::new();
    m.add_window("quick_a".to_string(), "A".to_string(), "https://a".to_string());
    m.add_window("quick_b".to_string(), "B".to_string(), "https://b".to_string());
    assert!(m.switch_to_window("quick_a"));
    assert_eq!(m.get_active_window().unwrap().label, "quick_a");
    assert!(m.get_window_info("quick_a").unwrap().loaded);
    assert!(!m.switch_to_window("quick_c"));
    assert!(m.mark_window_loaded("quick_b"));
    assert!(m.get_window_info("quick_b").unwrap().loaded);
    assert!(!m.mark_window_loaded("quick_c"));
}

#[test]
fn control_position_updates() {
    let mut m: WindowManager<(i32, i32)> = WindowManager::new();
    assert_eq!(m.update_control_position((0, 0), false, false), ControlMove::Stored);
    assert_eq!(m.update_control_position((0, 1), true, true), ControlMove::Ignored);
    assert_eq!(m.update_control_position((0, 1), false, false), ControlMove::Ignored);
    assert_eq!(m.update_control_position((20, 1), false, true), ControlMove::StoredAndSync);
    assert_eq!(m.get_control_position(), Some((20, 1)));
    m.set_updating(true);
    assert_eq!(m.update_control_position((50, 50), false, true), ControlMove::Ignored);
    m.set_updating(false);
    assert_eq!(m.get_control_position(), Some((20, 1)));
}

#[test]
fn window_position_updates() {
    let mut m: WindowManager<(i32, i32)> = WindowManager::new();
    m.add_window("quick_a".to_string(), "A".to_string(), "https://a".to_string());
    assert!(m.update_window_position("quick_a", (3, 4), false));
    assert!(!m.update_window_position("quick_a", (3, 5), true));
    assert_eq!(m.get_window_position("quick_a"), Some((3, 4)));
    assert!(!m.update_window_position("quick_x", (3, 5), false));
    assert_eq!(m.get_window_position("quick_x"), None);
    m.set_updating(true);
    assert!(!m.update_window_position("quick_a", (8, 8), false));
}

#[test]
fn switch_plans_look_up_configured_windows() {
    let mut m: WindowManager<(i32, i32)> = WindowManager::new();
    m.set_window_configs(vec![WindowConfig { title: "Ex".to_string(), url: "https://example.com".to_string() }]);
    assert_eq!(m.get_window_configs().len(), 1);
    let plan = m.prepare_switch("quick_baagiaadfegcegafhhfe");
    assert!(!plan.window_exists);
    assert_eq!(plan.config.unwrap().url, "https://example.com");
    let plan = m.prepare_switch("quick_unknown");
    assert!(!plan.window_exists && plan.config.is_none());

    let (label, hide) = m.prepare_create_or_switch("https://example.com", "Ex", false);
    assert_eq!(label, "quick_baagiaadfegcegafhhfe");
    assert!(hide.is_empty());
    let (label2, _) = m.prepare_create_or_switch("https://b.example", "B", false);
    let plan = m.prepare_switch(&label);
    assert!(plan.window_exists);
    assert_eq!(plan.to_hide, vec![label2]);
    assert_eq!(m.get_active_window().unwrap().label, label);
}

#[test]
fn quick_window_registry_opens_and_switches() {
    let mut m: quick_window::WindowManager = quick_window::WindowManager::new();
    let (label, known, hide) = quick_window::prepare_create_or_switch(&mut m, "https://example.com", "Ex");
    assert_eq!(label, "quick_baagiaadfegcegafhhfe");
    assert!(!known);
    assert!(hide.is_empty());
    let (_, known, _) = quick_window::prepare_create_or_switch(&mut m, "https://example.com", "Ex");
    assert!(known);

    m.set_window_configs(vec![quick_window::WindowConfig {
        title: "Chat".to_string(),
        url: "https://chat.openai.com".to_string(),
    }]);
    let plan = quick_window::prepare_switch(&mut m, "quick_fcjhbebhecaaeeeheeee");
    assert!(!plan.window_exists);
    assert_eq!(plan.to_create, Some(("Chat".to_string(), "https://chat.openai.com".to_string())));
    assert_eq!(plan.to_hide, vec![label.clone()]);
    assert_eq!(m.get_active_window().unwrap().label, "quick_fcjhbebhecaaeeeheeee");
    let plan = quick_window::prepare_switch(&mut m, "quick_none");
    assert!(!plan.window_exists && plan.to_create.is_none());
    let plan = quick_window::prepare_switch(&mut m, &label);
    assert!(plan.window_exists);
    assert_eq!(m.get_active_window().unwrap().label, label);
}

#[test]
fn digest_letters_replace_digits() {
    let digest = [0x10u8, 0x06, 0x80, 0xad, 0x54, 0x6c, 0xe6, 0xa5, 0x77, 0xf4, 0xff, 0x00];
    let letters: String = letters_of_digest(&digest).into_iter().collect();
    assert_eq!(letters, "baagiaadfegcegafhhfe");
    let short: String = letters_of_digest(&[0x9a, 0x0f]).into_iter().collect();
    assert_eq!(short, "jaaf");
    assert!(letters_of_digest(&[]).is_empty());
}

#[test]
fn loaded_windows_follow_the_control_window() {
    let mut m: WindowManager<(i32, i32)> = WindowManager::new();
    m.add_window("quick_a".to_string(), "A".to_string(), "https://a".to_string());
    m.add_window("quick_b".to_string(), "B".to_string(), "https://b".to_string());
    assert!(m.mark_window_loaded("quick_b"));
    assert!(m.windows_to_sync().is_empty());
    m.update_control_position((0, 0), false, true);
    assert_eq!(m.windows_to_sync(), vec!["quick_b".to_string()]);
    assert!(m.mark_window_loaded("quick_a"));
    assert_eq!(m.windows_to_sync(), vec!["quick_a".to_string(), "quick_b".to_string()]);
}
