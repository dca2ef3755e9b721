//! Decisions taken on window events: what a focus change, a move or a resize
//! does to the focus state, and what the caller is to do next (restore the
//! focus to a quick window, check whether every window should be hidden,
//! reposition windows).
use vstd::prelude::*;
use crate::focus::{focus_restarted, move_restarted, opt_text, FocusView, WindowFocusState};
use crate::text::{starts_with_seq, text_equals, text_starts_with};

verus! {

/// What kind of window a label names.
#[derive(Debug, Clone, Copy, PartialEq, Eq, Structural)]
pub enum WindowKind {
    /// The window labelled `control`.
    Control,
    /// A window whose label starts with `quick_`.
    Quick,
    /// Any other window.
    Other,
}

pub open spec fn kind_of(label: Seq<char>) -> WindowKind {
    if label == "control"@ {
        WindowKind::Control
    } else if starts_with_seq(label, "quick_"@) {
        WindowKind::Quick
    } else {
        WindowKind::Other
    }
}

/// The kind of window a label names.
pub fn classify_label(label: &str) -> (r: WindowKind)
    ensures
        r == kind_of(label@),
{
    if text_equals(label, "control") {
        WindowKind::Control
    } else if text_starts_with(label, "quick_") {
        WindowKind::Quick
    } else {
        WindowKind::Other
    }
}

/// What the caller does after a focus event has been recorded.
#[derive(Debug, Clone, Copy, PartialEq, Eq, Structural)]
pub enum FocusFollowUp {
    /// The control window gained the focus during a drag: nothing else happens.
    Skip,
    /// The control window gained the focus: after the debounce delay, give
    /// the focus back to the current quick window if this id is still the latest.
    RestoreFocus(u64),
    /// A window lost the focus: after a short delay, check whether every
    /// window should be hidden.
    CheckHide,
    /// Nothing more to do.
    Done,
}

/// The focus state after a focus event of a window of the given kind.
pub open spec fn focus_recorded(s: FocusView, label: Seq<char>, focused: bool) -> FocusView {
    let k = kind_of(label);
    let s2 = if k == WindowKind::Quick {
        FocusView { quick_window_labels: s.quick_window_labels.insert(label), ..s }
    } else {
        s
    };
    let s3 = if k == WindowKind::Control {
        FocusView { control_focused: focused, ..s2 }
    } else if k == WindowKind::Quick {
        FocusView {
            quick_windows_focused: focused,
            quick_window_current: if focused {
                Some(label)
            } else {
                s2.quick_window_current
            },
            ..s2
        }
    } else {
        s2
    };
    FocusView { hide_pending: !focused, ..s3 }
}

/// The control window gains the focus: a focus-restore request is made.
pub open spec fn asks_restore(label: Seq<char>, focused: bool) -> bool {
    kind_of(label) == WindowKind::Control && focused
}

/// The state once the restore counter moved for a focus event.
pub open spec fn counted(s: FocusView, label: Seq<char>, focused: bool) -> FocusView {
    if asks_restore(label, focused) {
        FocusView { control_focus_restore_id: (s.control_focus_restore_id + 1) as u64, ..s }
    } else {
        s
    }
}

/// The state after a focus event: during a drag the control window's focus
/// only moves the counter; otherwise the event is recorded.
pub open spec fn after_focus_event(s: FocusView, label: Seq<char>, focused: bool) -> FocusView {
    let s1 = counted(s, label, focused);
    if asks_restore(label, focused) && s1.is_dragging {
        s1
    } else {
        focus_recorded(s1, label, focused)
    }
}

/// What the caller does after a focus event.
pub open spec fn focus_follow_up(s: FocusView, label: Seq<char>, focused: bool) -> FocusFollowUp {
    let s1 = counted(s, label, focused);
    if asks_restore(label, focused) && s1.is_dragging {
        FocusFollowUp::Skip
    } else if asks_restore(label, focused) {
        FocusFollowUp::RestoreFocus(s1.control_focus_restore_id)
    } else if !focused {
        FocusFollowUp::CheckHide
    } else {
        FocusFollowUp::Done
    }
}

/// The quick window that gets the focus back for restore request `id`: the
/// current one, while the request is the latest and nothing is dragged.
pub open spec fn restore_target(s: FocusView, id: u64) -> Option<Seq<char>> {
    if s.control_focus_restore_id == id && !s.is_dragging {
        s.quick_window_current
    } else {
        None
    }
}

/// Records that the window `label` gained or lost the focus.
///
/// When the control window gains the focus, the focus-restore counter is
/// advanced first; during a drag nothing else is recorded. Otherwise a quick
/// window is registered, the focus flag of its kind is set (a quick window
/// that gains the focus becomes the current one), and a hide becomes pending
/// exactly when the focus was lost.
pub fn on_window_focused(state: &mut WindowFocusState, label: &str, focused: bool) -> (r:
    FocusFollowUp)
    requires
        old(state)@.control_focus_restore_id < u64::MAX,
    ensures
        final(state)@ == after_focus_event(old(state)@, label@, focused),
        r == focus_follow_up(old(state)@, label@, focused),
        !focused ==> r == FocusFollowUp::CheckHide && final(state)@.hide_pending,
        if r == FocusFollowUp::Skip || kind_of(label@) == WindowKind::Other {
            final(state).clock() == old(state).clock()
        } else {
            focus_restarted(old(state).clock(), final(state).clock())
        },
{
    let kind = classify_label(label);
    let takes = kind == WindowKind::Control && focused;
    let restore_id = if takes {
        state.next_focus_restore_id()
    } else {
        0
    };
    if takes && state.is_dragging() {
        return FocusFollowUp::Skip;
    }
    if kind == WindowKind::Quick {
        state.register_quick_window(String::from_str(label));
    }
    match kind {
        WindowKind::Control => state.set_control_focused(focused),
        WindowKind::Quick => {
            state.set_quick_window_focused(focused);
            if focused {
                state.set_current_quick_window(Some(String::from_str(label)));
            }
        },
        WindowKind::Other => {},
    }
    state.set_hide_pending(!focused);
    if takes {
        FocusFollowUp::RestoreFocus(restore_id)
    } else if !focused {
        FocusFollowUp::CheckHide
    } else {
        FocusFollowUp::Done
    }
}

/// The quick window that gets the focus back for restore request
/// `restore_id`: the current one, when the request is still the latest and
/// no window is being dragged.
pub fn focus_to_restore(state: &WindowFocusState, restore_id: u64) -> (r: Option<String>)
    ensures
        opt_text(r) == restore_target(state@, restore_id),
{
    if !state.is_latest_focus_restore_id(restore_id) || state.is_dragging() {
        return None;
    }
    state.get_current_quick_window()
}

/// Every window is to be hidden: the focus settled at least 100 ms ago, a
/// hide is pending, no window has the focus, nothing is pinned and nothing
/// is being dragged.
pub open spec fn hide_due(s: FocusView, since_focus_change_nanos: u128) -> bool {
    &&& since_focus_change_nanos >= 100_000_000
    &&& s.hide_pending
    &&& !s.control_focused && !s.quick_windows_focused
    &&& !s.is_pinned
    &&& !s.is_dragging
}

/// Whether every window is to be hidden, given the time since the focus
/// last changed.
pub fn should_hide_windows(state: &WindowFocusState, since_focus_change_nanos: u128) -> (r: bool)
    ensures
        r == hide_due(state@, since_focus_change_nanos),
{
    since_focus_change_nanos >= 100_000_000 && state.is_hide_pending()
        && state.all_windows_unfocused() && !state.is_pinned() && !state.is_dragging()
}

/// Forgets the current quick window once every window has been hidden, and
/// returns it so that the caller hides it.
pub fn hide_all_managed(state: &mut WindowFocusState) -> (r: Option<String>)
    ensures
        opt_text(r) == old(state)@.quick_window_current,
        final(state)@ == (FocusView {
            quick_window_current: None,
            is_showing_quick_window: false,
            ..old(state)@
        }),
        final(state).clock() == old(state).clock(),
{
    let current = state.get_current_quick_window();
    state.set_current_quick_window(None);
    state.set_showing_quick_window(false);
    current
}

/// After a window lost the focus and the delay passed: when every window is
/// to be hidden, the current quick window is forgotten (and returned, for the
/// caller to hide along with the control window), nothing is shown and no
/// hide is pending any more. Otherwise nothing changes.
pub fn hide_if_due(state: &mut WindowFocusState, since_focus_change_nanos: u128) -> (r: (bool, Option<String>))
    ensures
        r.0 == hide_due(old(state)@, since_focus_change_nanos),
        r.0 ==> opt_text(r.1) == old(state)@.quick_window_current && final(state)@ == (FocusView {
            quick_window_current: None,
            is_showing_quick_window: false,
            hide_pending: false,
            ..old(state)@
        }),
        !r.0 ==> r.1 is None && final(state)@ == old(state)@,
        final(state).clock() == old(state).clock(),
{
    if !should_hide_windows(state, since_focus_change_nanos) {
        return (false, None);
    }
    let current = hide_all_managed(state);
    state.set_hide_pending(false);
    state.set_showing_quick_window(false);
    (true, current)
}

/// What the caller does after a window moved or was resized.
#[derive(Debug, Clone, Copy, PartialEq, Eq, Structural)]
pub enum MoveFollowUp {
    /// The control window moved: bring the active quick window along.
    SyncFromControl,
    /// A quick window moved: record its position and place the control
    /// window below it.
    PlaceControlBelow,
    /// Any other window: nothing to do.
    Nothing,
}

pub open spec fn move_follow_up(label: Seq<char>) -> MoveFollowUp {
    match kind_of(label) {
        WindowKind::Control => MoveFollowUp::SyncFromControl,
        WindowKind::Quick => MoveFollowUp::PlaceControlBelow,
        WindowKind::Other => MoveFollowUp::Nothing,
    }
}

fn follow_up_for(label: &str) -> (r: MoveFollowUp)
    ensures
        r == move_follow_up(label@),
{
    match classify_label(label) {
        WindowKind::Control => MoveFollowUp::SyncFromControl,
        WindowKind::Quick => MoveFollowUp::PlaceControlBelow,
        WindowKind::Other => MoveFollowUp::Nothing,
    }
}

/// A window moved: the move time restarts and a drag starts; a quick window
/// that moved becomes the current one.
pub fn on_window_moved(state: &mut WindowFocusState, label: &str) -> (r: MoveFollowUp)
    ensures
        r == move_follow_up(label@),
        final(state)@ == (FocusView {
            is_dragging: true,
            quick_window_current: if kind_of(label@) == WindowKind::Quick {
                Some(label@)
            } else {
                old(state)@.quick_window_current
            },
            ..old(state)@
        }),
        move_restarted(old(state).clock(), final(state).clock()),
{
    state.update_move_time();
    state.set_dragging(true);
    let r = follow_up_for(label);
    if r == MoveFollowUp::PlaceControlBelow {
        state.set_current_quick_window(Some(String::from_str(label)));
    }
    r
}

/// A window was resized: the move time restarts.
pub fn on_window_resized(state: &mut WindowFocusState, label: &str) -> (r: MoveFollowUp)
    ensures
        r == move_follow_up(label@),
        final(state)@ == old(state)@,
        move_restarted(old(state).clock(), final(state).clock()),
{
    state.update_move_time();
    follow_up_for(label)
}

/// After the settle delay, the drag ends if no move came in the last 200 ms.
pub fn settle_drag(state: &mut WindowFocusState, since_move_nanos: u128) -> (ended: bool)
    ensures
        ended == (since_move_nanos >= 200_000_000),
        final(state)@ == (if ended {
            FocusView { is_dragging: false, ..old(state)@ }
        } else {
            old(state)@
        }),
        final(state).clock() == old(state).clock(),
{
    if since_move_nanos >= 200_000_000 {
        state.set_dragging(false);
        true
    } else {
        false
    }
}

} // verus!
