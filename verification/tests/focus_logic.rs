use quick::focus::WindowFocusState;
use quick::focus_events::{
    classify_label, focus_to_restore, hide_all_managed, hide_if_due, on_window_focused, on_window_moved,
    on_window_resized, settle_drag, should_hide_windows, FocusFollowUp, MoveFollowUp, WindowKind,
};

const SETTLED: u128 = 150_000_000;

#[test]
fn labels_are_classified() {
    assert_eq!(classify_label("control"), WindowKind::Control);
    assert_eq!(classify_label("quick_abc"), WindowKind::Quick);
    assert_eq!(classify_label("quick_"), WindowKind::Quick);
    assert_eq!(classify_label("quick"), WindowKind::Other);
    assert_eq!(classify_label("controls"), WindowKind::Other);
    assert_eq!(classify_label("main"), WindowKind::Other);
}

#[test]
fn fresh_state() {
    let s = WindowFocusState::new();
    assert!(s.all_windows_unfocused());
    assert!(!s.is_hide_pending());
    assert!(!s.is_pinned());
    assert!(!s.is_dragging());
    assert!(!s.is_showing_quick_window());
    assert_eq!(s.get_current_quick_window(), None);
    assert!(s.is_latest_focus_restore_id(0));
}

#[test]
fn restore_ids_only_latest_counts() {
    let mut s = WindowFocusState::new();
    let a = s.next_focus_restore_id();
    let b = s.next_focus_restore_id();
    assert_eq!(a, 1);
    assert_eq!(b, 2);
    assert!(!s.is_latest_focus_restore_id(a));
    assert!(s.is_latest_focus_restore_id(b));
}

#[test]
fn quick_window_focus_becomes_current() {
    let mut s = WindowFocusState::new();
    assert_eq!(on_window_focused(&mut s, "quick_a", true), FocusFollowUp::Done);
    assert_eq!(s.get_current_quick_window(), Some("quick_a".to_string()));
    assert!(!s.all_windows_unfocused());
    assert!(!s.is_hide_pending());
    assert_eq!(on_window_focused(&mut s, "quick_a", false), FocusFollowUp::CheckHide);
    assert!(s.is_hide_pending());
    assert!(s.all_windows_unfocused());
    assert!(should_hide_windows(&s, SETTLED));
    assert!(!should_hide_windows(&s, 99_999_999));
}

#[test]
fn control_focus_asks_for_a_restore() {
    let mut s = WindowFocusState::new();
    on_window_focused(&mut s, "quick_a", true);
    let r = on_window_focused(&mut s, "control", true);
    assert_eq!(r, FocusFollowUp::RestoreFocus(1));
    assert_eq!(focus_to_restore(&s, 1), Some("quick_a".to_string()));
    on_window_focused(&mut s, "control", true);
    assert_eq!(focus_to_restore(&s, 1), None);
    assert_eq!(focus_to_restore(&s, 2), Some("quick_a".to_string()));
}

#[test]
fn control_focus_during_drag_is_skipped() {
    let mut s = WindowFocusState::new();
    assert_eq!(on_window_moved(&mut s, "control"), MoveFollowUp::SyncFromControl);
    assert!(s.is_dragging());
    assert_eq!(on_window_focused(&mut s, "control", true), FocusFollowUp::Skip);
    assert!(s.all_windows_unfocused());
    assert_eq!(focus_to_restore(&s, 1), None);
}

#[test]
fn pinned_or_dragging_is_never_hidden() {
    let mut s = WindowFocusState::new();
    on_window_focused(&mut s, "quick_a", false);
    assert!(should_hide_windows(&s, SETTLED));
    s.set_pinned(true);
    assert!(!should_hide_windows(&s, SETTLED));
    s.set_pinned(false);
    s.set_dragging(true);
    assert!(!should_hide_windows(&s, SETTLED));
    s.set_dragging(false);
    on_window_focused(&mut s, "other", true);
    assert!(!s.is_hide_pending());
    assert!(!should_hide_windows(&s, SETTLED));
}

#[test]
fn hiding_forgets_the_current_window() {
    let mut s = WindowFocusState::new();
    on_window_focused(&mut s, "quick_a", true);
    s.set_showing_quick_window(true);
    assert_eq!(hide_all_managed(&mut s), Some("quick_a".to_string()));
    assert_eq!(s.get_current_quick_window(), None);
    assert!(!s.is_showing_quick_window());
    assert_eq!(hide_all_managed(&mut s), None);
}

#[test]
fn moves_and_drags() {
    let mut s = WindowFocusState::new();
    assert_eq!(on_window_moved(&mut s, "quick_a"), MoveFollowUp::PlaceControlBelow);
    assert_eq!(s.get_current_quick_window(), Some("quick_a".to_string()));
    assert_eq!(on_window_moved(&mut s, "control"), MoveFollowUp::SyncFromControl);
    assert_eq!(s.get_current_quick_window(), Some("quick_a".to_string()));
    assert_eq!(on_window_resized(&mut s, "main"), MoveFollowUp::Nothing);
    assert!(s.is_dragging());
    assert!(!settle_drag(&mut s, 100_000_000));
    assert!(s.is_dragging());
    assert!(settle_drag(&mut s, 200_000_000));
    assert!(!s.is_dragging());
    s.update_move_time();
    assert!(s.time_since_last_move() < 5_000_000_000);
    assert!(s.time_since_last_focus_change() < 5_000_000_000);
}

#[test]
fn setters_read_back() {
    let mut s = WindowFocusState::new();
    s.register_quick_window("quick_z".to_string());
    s.set_control_focused(true);
    assert!(!s.all_windows_unfocused());
    s.set_control_focused(false);
    s.set_quick_window_focused(true);
    assert!(!s.all_windows_unfocused());
    s.set_hide_pending(true);
    assert!(s.is_hide_pending());
    s.set_current_quick_window(Some("quick_z".to_string()));
    assert_eq!(s.get_current_quick_window(), Some("quick_z".to_string()));
}

#[test]
fn hide_when_due_resets_the_state() {
    let mut s = WindowFocusState::new();
    on_window_focused(&mut s, "quick_a", true);
    on_window_focused(&mut s, "quick_a", false);
    s.set_showing_quick_window(true);
    assert_eq!(hide_if_due(&mut s, 10), (false, None));
    assert!(s.is_hide_pending());
    assert_eq!(hide_if_due(&mut s, SETTLED), (true, Some("quick_a".to_string())));
    assert!(!s.is_hide_pending());
    assert!(!s.is_showing_quick_window());
    assert_eq!(s.get_current_quick_window(), None);
    assert_eq!(hide_if_due(&mut s, SETTLED), (false, None));
}

fn wait_ms(ms: u64) {
    let start = std::time::Instant::now();
    while start.elapsed() < std::time::Duration::from_millis(ms) {}
}

#[test]
fn clock_readings_restart_where_the_setters_say() {
    let mut s = WindowFocusState::new();
    wait_ms(30);
    let before = s.time_since_last_focus_change();
    assert!(before >= 30_000_000);
    // Setters that do not change the focus keep the focus-change time.
    s.set_hide_pending(true);
    s.set_pinned(true);
    s.set_dragging(false);
    assert!(s.time_since_last_focus_change() >= before);
    // A focus change restarts it.
    s.set_control_focused(false);
    assert!(s.time_since_last_focus_change() < before);
    // Ending a drag keeps the move time; starting one restarts it.
    let moved = s.time_since_last_move();
    assert!(moved >= 30_000_000);
    s.set_dragging(false);
    assert!(s.time_since_last_move() >= moved);
    s.set_dragging(true);
    assert!(s.time_since_last_move() < moved);
    wait_ms(30);
    let dragged = s.time_since_last_move();
    s.update_move_time();
    assert!(s.is_dragging());
    assert!(s.time_since_last_move() < dragged);
}
