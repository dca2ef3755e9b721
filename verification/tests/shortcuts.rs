use quick::error::AppError;
use quick::shortcut::{
    open_control_window_shortcut, parse_key_code, runs_on, toggles_control_window, KeyCode,
    Modifiers, RegisterStep, Shortcut, ShortcutConfig, ShortcutManager,
};

fn alt() -> Modifiers {
    Modifiers { alt: true, control: false, shift: false, super_key: false }
}

#[test]
fn key_codes_are_read() {
    assert_eq!(parse_key_code("G").unwrap(), KeyCode::KeyG);
    assert_eq!(parse_key_code("KEYX").unwrap(), KeyCode::KeyX);
    assert_eq!(parse_key_code("DIGIT7").unwrap(), KeyCode::Digit7);
    assert_eq!(parse_key_code("7").unwrap(), KeyCode::Digit7);
    assert_eq!(parse_key_code("F12").unwrap(), KeyCode::F12);
    assert_eq!(parse_key_code("SPACE").unwrap(), KeyCode::Space);
    assert_eq!(parse_key_code("ESC").unwrap(), KeyCode::Escape);
    match parse_key_code("g") {
        Err(AppError::ValidationError(m)) => assert_eq!(m, "不支持的按键: g"),
        _ => panic!("lower-case token accepted"),
    }
    assert!(parse_key_code("F13").is_err());
}

#[test]
fn shortcut_text_is_read() {
    let c = ShortcutConfig::from_string("alt+g", "open").unwrap();
    assert_eq!(c.shortcut, Shortcut { mods: alt(), key: KeyCode::KeyG });
    assert_eq!(c.description, "open");
    let c = ShortcutConfig::from_string(" Shift + ctrl + KeyX ", "x").unwrap();
    assert_eq!(
        c.shortcut.mods,
        Modifiers { alt: false, control: true, shift: true, super_key: false }
    );
    assert_eq!(c.shortcut.key, KeyCode::KeyX);
    let c = ShortcutConfig::from_string("option+cmd+v", "v").unwrap();
    assert_eq!(c.shortcut.mods, Modifiers { alt: true, control: false, shift: false, super_key: true });
    let c = ShortcutConfig::from_string("a+b", "last key wins").unwrap();
    assert_eq!(c.shortcut.key, KeyCode::KeyB);
    assert!(c.shortcut.mods.is_empty());
}

#[test]
fn bad_shortcut_texts_are_refused() {
    match ShortcutConfig::from_string("alt+hyper", "d") {
        Err(AppError::ValidationError(m)) => assert_eq!(m, "无法识别的按键: HYPER"),
        _ => panic!("unknown token accepted"),
    }
    match ShortcutConfig::from_string("alt+shift", "d") {
        Err(AppError::ValidationError(m)) => assert_eq!(m, "快捷键格式无效，必须包含一个有效的按键"),
        _ => panic!("text without a key accepted"),
    }
    match ShortcutConfig::from_string("", "d") {
        Err(AppError::ValidationError(m)) => assert_eq!(m, "无法识别的按键: "),
        _ => panic!("empty text accepted"),
    }
}

#[test]
fn registry_refuses_a_shortcut_held_by_another_id() {
    let mut m = ShortcutManager::new();
    let sc = Shortcut::new(Some(alt()), KeyCode::Digit1);
    assert_eq!(
        m.plan_registration("w1", &sc, "first").unwrap(),
        RegisterStep { unregister: None, register: true }
    );
    m.commit("w1", ShortcutConfig::new(Some(alt()), KeyCode::Digit1, "first"));
    assert_eq!(m.len(), 1);
    match m.plan_registration("w2", &sc, "second") {
        Err(AppError::ValidationError(msg)) => {
            assert_eq!(msg, "快捷键冲突: 当前设置的快捷键与 'first(w1)' 冲突")
        }
        _ => panic!("conflict accepted"),
    }
    assert_eq!(m.check_conflict(&sc, "w2"), Some(("w1".to_string(), "first".to_string())));
    assert_eq!(m.check_conflict(&sc, "w1"), None);
}

#[test]
fn registry_replaces_and_removes() {
    let mut m = ShortcutManager::new();
    let one = Shortcut::new(Some(alt()), KeyCode::Digit1);
    let two = Shortcut::new(Some(alt()), KeyCode::Digit2);
    m.commit("w1", ShortcutConfig::new(Some(alt()), KeyCode::Digit1, "first"));
    assert_eq!(
        m.plan_registration("w1", &one, "first").unwrap(),
        RegisterStep { unregister: None, register: false }
    );
    assert_eq!(
        m.plan_registration("w1", &one, "renamed").unwrap(),
        RegisterStep { unregister: None, register: true }
    );
    assert_eq!(
        m.plan_registration("w1", &two, "first").unwrap(),
        RegisterStep { unregister: Some(one), register: true }
    );
    m.commit("w1", ShortcutConfig::new(Some(alt()), KeyCode::Digit2, "first"));
    assert_eq!(m.len(), 1);
    assert_eq!(m.handle_shortcut(&two), Some("w1".to_string()));
    assert_eq!(m.handle_shortcut(&one), None);
    let all = m.get_all_shortcuts();
    assert_eq!(all, vec![("w1".to_string(), two, "first".to_string())]);
    let removed = m.remove_shortcut("w1").unwrap();
    assert_eq!(removed.shortcut, two);
    assert_eq!(m.len(), 0);
    assert!(m.remove_shortcut("w1").is_none());
}

#[test]
fn control_window_toggle() {
    let sc = open_control_window_shortcut();
    assert_eq!(sc, Shortcut { mods: alt(), key: KeyCode::KeyC });
    assert!(toggles_control_window(&sc, true));
    assert!(!toggles_control_window(&sc, false));
    assert!(!toggles_control_window(&Shortcut::new(None, KeyCode::KeyC), true));
    assert!(runs_on(true));
    assert!(!runs_on(false));
}

#[test]
fn words_are_read_as_given() {
    let words = vec!["CTRL".to_string(), "KEYQ".to_string()];
    let c = ShortcutConfig::from_words(&words, "q").unwrap();
    assert_eq!(c.shortcut.key, KeyCode::KeyQ);
    assert!(c.shortcut.mods.control);
    // Words are not upper-cased here.
    match ShortcutConfig::from_words(&["ctrl".to_string()], "q") {
        Err(AppError::ValidationError(m)) => assert_eq!(m, "无法识别的按键: ctrl"),
        _ => panic!("lower-case word accepted"),
    }
    match ShortcutConfig::from_words(&[], "q") {
        Err(AppError::ValidationError(m)) => assert_eq!(m, "快捷键格式无效，必须包含一个有效的按键"),
        _ => panic!("no key accepted"),
    }
}
