//! Focus bookkeeping for the control window and the quick windows: which of
//! them has the focus, whether a hide is pending, pinning, dragging, and the
//! counter that lets only the latest focus-restore request act.
use vstd::prelude::*;
use std::time::{Duration, Instant};

verus! {

#[verifier::external_type_specification]
#[verifier::external_body]
pub struct ExInstant(std::time::Instant);

/// `Instant::now`: a reading of the monotonic clock. Nothing is stated of it.
#[verifier::external_body]
pub(crate) fn instant_now() -> (r: Instant) {
    Instant::now()
}

/// `Instant::duration_since`: the time from `earlier` to `later`, zero when
/// `earlier` is the later one. Nothing is stated of it: both readings come
/// from the clock.
#[verifier::external_body]
pub(crate) fn duration_since(later: &Instant, earlier: &Instant) -> (r: Duration) {
    later.duration_since(*earlier)
}

/// `Duration::as_nanos`: the length of a duration in nanoseconds. Nothing
/// is stated of it: the library holds durations only as they come from the clock.
#[verifier::external_body]
pub(crate) fn duration_as_nanos(d: &Duration) -> (r: u128) {
    d.as_nanos()
}

/// The labels of a list of strings, as a set of texts.
pub open spec fn label_set(v: Seq<String>) -> Set<Seq<char>> {
    Set::new(|t: Seq<char>| exists|i: int| 0 <= i < v.len() && #[trigger] v[i]@ == t)
}

pub open spec fn opt_text(o: Option<String>) -> Option<Seq<char>> {
    match o {
        Some(s) => Some(s@),
        None => None,
    }
}

/// The state of a `WindowFocusState`, without its clock readings (see `FocusClock`).
pub struct FocusView {
    pub control_focused: bool,
    pub quick_windows_focused: bool,
    pub quick_window_labels: Set<Seq<char>>,
    pub hide_pending: bool,
    pub is_pinned: bool,
    pub quick_window_current: Option<Seq<char>>,
    pub is_showing_quick_window: bool,
    pub control_focus_restore_id: u64,
    pub is_dragging: bool,
}

/// The clock readings a `WindowFocusState` keeps, in nanoseconds since it
/// was made.
pub struct FocusClock {
    /// When the focus last changed.
    pub focus_changed_at: u128,
    /// When a window last moved.
    pub moved_at: u128,
    /// The latest reading taken; no reading is ever earlier than it.
    pub latest: u128,
}

/// `a - b`, or zero when `b` is the later one.
pub open spec fn elapsed(a: u128, b: u128) -> u128 {
    if a >= b {
        (a - b) as u128
    } else {
        0
    }
}

/// A new reading was taken and the focus change restarted at it; the move
/// time is kept.
pub open spec fn focus_restarted(before: FocusClock, after: FocusClock) -> bool {
    after.latest >= before.latest && after == (FocusClock {
        focus_changed_at: after.latest,
        latest: after.latest,
        ..before
    })
}

/// A new reading was taken and the move time restarted at it; the focus
/// change time is kept.
pub open spec fn move_restarted(before: FocusClock, after: FocusClock) -> bool {
    after.latest >= before.latest && after == (FocusClock {
        moved_at: after.latest,
        latest: after.latest,
        ..before
    })
}

/// A new reading was taken; the recorded times are kept.
pub open spec fn only_read(before: FocusClock, after: FocusClock) -> bool {
    after.latest >= before.latest && after == (FocusClock { latest: after.latest, ..before })
}

/// Tracks the focus of the control window and of the quick windows.
pub struct WindowFocusState {
    control_focused: bool,
    quick_windows_focused: bool,
    quick_window_labels: Vec<String>,
    hide_pending: bool,
    is_pinned: bool,
    quick_window_current: Option<String>,
    is_showing_quick_window: bool,
    control_focus_restore_id: u64,
    is_dragging: bool,
    clock_origin: Instant,
    focus_changed_at: u128,
    moved_at: u128,
    latest_reading: u128,
}

impl View for WindowFocusState {
    type V = FocusView;

    closed spec fn view(&self) -> FocusView {
        FocusView {
            control_focused: self.control_focused,
            quick_windows_focused: self.quick_windows_focused,
            quick_window_labels: label_set(self.quick_window_labels@),
            hide_pending: self.hide_pending,
            is_pinned: self.is_pinned,
            quick_window_current: opt_text(self.quick_window_current),
            is_showing_quick_window: self.is_showing_quick_window,
            control_focus_restore_id: self.control_focus_restore_id,
            is_dragging: self.is_dragging,
        }
    }
}

impl WindowFocusState {
    /// The clock readings kept.
    pub closed spec fn clock(&self) -> FocusClock {
        FocusClock {
            focus_changed_at: self.focus_changed_at,
            moved_at: self.moved_at,
            latest: self.latest_reading,
        }
    }

    /// Reads the monotonic clock, in nanoseconds since the state was made. A
    /// reading is never taken as earlier than the latest one kept.
    fn read_clock(&mut self) -> (r: u128)
        ensures
            r >= old(self).clock().latest,
            final(self)@ == old(self)@,
            final(self).clock() == (FocusClock { latest: r, ..old(self).clock() }),
    {
        let now = instant_now();
        let since = duration_since(&now, &self.clock_origin);
        let n = duration_as_nanos(&since);
        let r = if n >= self.latest_reading {
            n
        } else {
            self.latest_reading
        };
        self.latest_reading = r;
        r
    }
}

fn clone_opt_string(o: &Option<String>) -> (r: Option<String>)
    ensures
        opt_text(r) == opt_text(*o),
{
    match o {
        Some(s) => Some(s.clone()),
        None => None,
    }
}

impl WindowFocusState {
    /// Nothing focused, nothing pending, no labels, counter at zero.
    pub fn new() -> (r: WindowFocusState)
        ensures
            r@ == (FocusView {
                control_focused: false,
                quick_windows_focused: false,
                quick_window_labels: Set::empty(),
                hide_pending: false,
                is_pinned: false,
                quick_window_current: None,
                is_showing_quick_window: false,
                control_focus_restore_id: 0,
                is_dragging: false,
            }),
            r.clock() == (FocusClock { focus_changed_at: 0, moved_at: 0, latest: 0 }),
    {
        let r = WindowFocusState {
            control_focused: false,
            quick_windows_focused: false,
            quick_window_labels: Vec::new(),
            hide_pending: false,
            is_pinned: false,
            quick_window_current: None,
            is_showing_quick_window: false,
            control_focus_restore_id: 0,
            is_dragging: false,
            clock_origin: instant_now(),
            focus_changed_at: 0,
            moved_at: 0,
            latest_reading: 0,
        };
        assert(label_set(r.quick_window_labels@) =~= Set::empty());
        r
    }

    /// Adds a quick-window label to the registered ones.
    pub fn register_quick_window(&mut self, label: String)
        ensures
            final(self)@ == (FocusView {
                quick_window_labels: old(self)@.quick_window_labels.insert(label@),
                ..old(self)@
            }),
            final(self).clock() == old(self).clock(),
    {
        let ghost before = self.quick_window_labels@;
        let mut i: usize = 0;
        while i < self.quick_window_labels.len()
            invariant
                self.quick_window_labels@ == before,
                i <= before.len(),
                forall|j: int| 0 <= j < i ==> before[j]@ != label@,
            decreases before.len() - i,
        {
            if self.quick_window_labels[i] == label {
                assert(label_set(before).insert(label@) =~= label_set(before));
                return;
            }
            i = i + 1;
        }
        self.quick_window_labels.push(label);
        assert(label_set(self.quick_window_labels@) =~= label_set(before).insert(label@)) by {
            assert forall|t: Seq<char>| label_set(before).insert(label@).contains(t) implies
                label_set(self.quick_window_labels@).contains(t) by {
                if t == label@ {
                    assert(self.quick_window_labels@[before.len() as int]@ == t);
                } else {
                    let j = choose|j: int| 0 <= j < before.len() && #[trigger] before[j]@ == t;
                    assert(self.quick_window_labels@[j]@ == t);
                }
            }
            assert forall|t: Seq<char>| label_set(self.quick_window_labels@).contains(t) implies
                label_set(before).insert(label@).contains(t) by {
                let j = choose|j: int|
                    0 <= j < self.quick_window_labels@.len()
                        && #[trigger] self.quick_window_labels@[j]@ == t;
                if j < before.len() {
                    assert(before[j]@ == t);
                }
            }
        }
    }

    /// Records the focus of the control window and the time of the change.
    pub fn set_control_focused(&mut self, focused: bool)
        ensures
            final(self)@ == (FocusView { control_focused: focused, ..old(self)@ }),
            focus_restarted(old(self).clock(), final(self).clock()),
    {
        let now = self.read_clock();
        self.control_focused = focused;
        self.focus_changed_at = now;
    }

    /// Records the focus of the quick windows and the time of the change.
    pub fn set_quick_window_focused(&mut self, focused: bool)
        ensures
            final(self)@ == (FocusView { quick_windows_focused: focused, ..old(self)@ }),
            focus_restarted(old(self).clock(), final(self).clock()),
    {
        let now = self.read_clock();
        self.quick_windows_focused = focused;
        self.focus_changed_at = now;
    }

    pub fn set_hide_pending(&mut self, pending: bool)
        ensures
            final(self)@ == (FocusView { hide_pending: pending, ..old(self)@ }),
            final(self).clock() == old(self).clock(),
    {
        self.hide_pending = pending;
    }

    /// Neither the control window nor a quick window has the focus.
    pub fn all_windows_unfocused(&self) -> (r: bool)
        ensures
            r == (!self@.control_focused && !self@.quick_windows_focused),
    {
        !self.control_focused && !self.quick_windows_focused
    }

    pub fn is_hide_pending(&self) -> (r: bool)
        ensures
            r == self@.hide_pending,
    {
        self.hide_pending
    }

    /// Nanoseconds elapsed since the focus last changed, read now on the
    /// clock (the reading is kept as the latest one).
    pub fn time_since_last_focus_change(&mut self) -> (r: u128)
        ensures
            final(self)@ == old(self)@,
            only_read(old(self).clock(), final(self).clock()),
            r == elapsed(final(self).clock().latest, final(self).clock().focus_changed_at),
    {
        let now = self.read_clock();
        if now >= self.focus_changed_at {
            now - self.focus_changed_at
        } else {
            0
        }
    }

    /// Nanoseconds elapsed since a window last moved, read now on the clock
    /// (the reading is kept as the latest one).
    pub fn time_since_last_move(&mut self) -> (r: u128)
        ensures
            final(self)@ == old(self)@,
            only_read(old(self).clock(), final(self).clock()),
            r == elapsed(final(self).clock().latest, final(self).clock().moved_at),
    {
        let now = self.read_clock();
        if now >= self.moved_at {
            now - self.moved_at
        } else {
            0
        }
    }

    pub fn set_pinned(&mut self, pinned: bool)
        ensures
            final(self)@ == (FocusView { is_pinned: pinned, ..old(self)@ }),
            final(self).clock() == old(self).clock(),
    {
        self.is_pinned = pinned;
    }

    pub fn is_pinned(&self) -> (r: bool)
        ensures
            r == self@.is_pinned,
    {
        self.is_pinned
    }

    pub fn set_current_quick_window(&mut self, label: Option<String>)
        ensures
            final(self)@ == (FocusView { quick_window_current: opt_text(label), ..old(self)@ }),
            final(self).clock() == old(self).clock(),
    {
        self.quick_window_current = label;
    }

    pub fn get_current_quick_window(&self) -> (r: Option<String>)
        ensures
            opt_text(r) == self@.quick_window_current,
    {
        clone_opt_string(&self.quick_window_current)
    }

    pub fn set_showing_quick_window(&mut self, showing: bool)
        ensures
            final(self)@ == (FocusView { is_showing_quick_window: showing, ..old(self)@ }),
            final(self).clock() == old(self).clock(),
    {
        self.is_showing_quick_window = showing;
    }

    pub fn is_showing_quick_window(&self) -> (r: bool)
        ensures
            r == self@.is_showing_quick_window,
    {
        self.is_showing_quick_window
    }

    /// Advances the focus-restore counter and returns its new value.
    pub fn next_focus_restore_id(&mut self) -> (r: u64)
        requires
            old(self)@.control_focus_restore_id < u64::MAX,
        ensures
            r == old(self)@.control_focus_restore_id + 1,
            final(self)@ == (FocusView { control_focus_restore_id: r, ..old(self)@ }),
            final(self).clock() == old(self).clock(),
    {
        self.control_focus_restore_id = self.control_focus_restore_id + 1;
        self.control_focus_restore_id
    }

    /// Whether `id` is the value the counter last reached.
    pub fn is_latest_focus_restore_id(&self, id: u64) -> (r: bool)
        ensures
            r == (id == self@.control_focus_restore_id),
    {
        id == self.control_focus_restore_id
    }

    /// Records whether a window is being dragged; starting a drag also
    /// restarts the move time, ending one keeps it.
    pub fn set_dragging(&mut self, dragging: bool)
        ensures
            final(self)@ == (FocusView { is_dragging: dragging, ..old(self)@ }),
            dragging ==> move_restarted(old(self).clock(), final(self).clock()),
            !dragging ==> final(self).clock() == old(self).clock(),
    {
        self.is_dragging = dragging;
        if dragging {
            let now = self.read_clock();
            self.moved_at = now;
        }
    }

    /// Restarts the move time; the drag state is kept.
    pub fn update_move_time(&mut self)
        ensures
            final(self)@ == old(self)@,
            move_restarted(old(self).clock(), final(self).clock()),
    {
        let now = self.read_clock();
        self.moved_at = now;
    }

    pub fn is_dragging(&self) -> (r: bool)
        ensures
            r == self@.is_dragging,
    {
        self.is_dragging
    }
}

} // verus!
