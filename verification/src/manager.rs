//! The window manager: the configured quick windows, which of them is
//! active and which was active before, the position shared by the quick
//! windows, and a short lock that lets one window at a time drive position
//! updates.
use vstd::prelude::*;
use std::time::Instant;
use crate::focus::{duration_as_nanos, duration_since, elapsed, instant_now};
use crate::labels::{url_label_letters, url_letters};
use crate::models::{
    copy_opt_string, find_window, has_label, index_of, labels_unique, lemma_index_of, lookup,
    opt_text, views_of, WindowConfig, WindowConfigView, WindowInfo, WindowInfoView, WindowStatus,
};
use crate::error::AppError;
use crate::text::{string_from_chars, text_equals};

verus! {

/// Default length of the update lock, in milliseconds.
pub const DEFAULT_UPDATE_LOCK_DURATION: u64 = 50;

/// The state of a `WindowManager`, without its clock reading.
pub struct ManagerView<P> {
    pub windows: Seq<WindowInfoView<P>>,
    pub active_window: Option<Seq<char>>,
    pub previous_active_window: Option<Seq<char>>,
    pub quick_common_position: Option<P>,
    pub is_updating: bool,
    pub updating_source: Option<Seq<char>>,
    pub update_lock_duration: u64,
    /// When the last accepted update was made, in nanoseconds since the
    /// manager was made.
    pub last_update_at: u128,
}

/// The windows the launcher manages and which of them is active.
pub struct WindowManager<P> {
    windows: Vec<WindowInfo<P>>,
    active_window: Option<String>,
    previous_active_window: Option<String>,
    quick_common_position: Option<P>,
    is_updating: bool,
    updating_source: Option<String>,
    clock_origin: Instant,
    last_update_at: u128,
    update_lock_duration: u64,
}

impl<P> View for WindowManager<P> {
    type V = ManagerView<P>;

    closed spec fn view(&self) -> ManagerView<P> {
        ManagerView {
            windows: views_of(self.windows@),
            active_window: opt_text(self.active_window),
            previous_active_window: opt_text(self.previous_active_window),
            quick_common_position: self.quick_common_position,
            is_updating: self.is_updating,
            updating_source: opt_text(self.updating_source),
            update_lock_duration: self.update_lock_duration,
            last_update_at: self.last_update_at,
        }
    }
}

pub open spec fn opt_info<P>(o: Option<WindowInfo<P>>) -> Option<WindowInfoView<P>> {
    match o {
        Some(w) => Some(w@),
        None => None,
    }
}

/// The window a label names, if the label is given and names one.
pub open spec fn lookup_opt<P>(s: Seq<WindowInfoView<P>>, l: Option<Seq<char>>) -> Option<
    WindowInfoView<P>,
> {
    match l {
        Some(t) => lookup(s, t),
        None => None,
    }
}

/// The label a configuration gets: `quick_`, its title, `_`, then the
/// letters derived from its URL.
pub open spec fn config_label(c: WindowConfigView) -> Seq<char> {
    "quick_"@ + c.title + "_"@ + url_letters(c.url)
}

/// A configured window seen for the first time: in the background, not
/// loaded, without a position.
pub open spec fn fresh_window<P>(c: WindowConfigView) -> WindowInfoView<P> {
    WindowInfoView {
        label: config_label(c),
        title: c.title,
        url: c.url,
        status: WindowStatus::Background,
        loaded: false,
        position: None,
        icon: c.icon,
        shortcut: c.shortcut,
        proxy_id: c.proxy_id,
        is_default: c.is_default,
    }
}

/// One configuration applied: a window already known keeps its status,
/// load flag and position and takes the rest from the configuration; an
/// unknown one is added.
pub open spec fn apply_config<P>(s: Seq<WindowInfoView<P>>, c: WindowConfigView) -> Seq<
    WindowInfoView<P>,
> {
    let l = config_label(c);
    if has_label(s, l) {
        let i = index_of(s, l);
        s.update(
            i,
            WindowInfoView {
                title: c.title,
                url: c.url,
                icon: c.icon,
                shortcut: c.shortcut,
                proxy_id: c.proxy_id,
                is_default: c.is_default,
                ..s[i]
            },
        )
    } else {
        s.push(fresh_window(c))
    }
}

/// Configurations applied one after the other.
pub open spec fn configs_applied<P>(s: Seq<WindowInfoView<P>>, cs: Seq<WindowConfigView>) -> Seq<
    WindowInfoView<P>,
>
    decreases cs.len(),
{
    if cs.len() == 0 {
        s
    } else {
        apply_config(configs_applied(s, cs.drop_last()), cs.last())
    }
}

pub open spec fn config_views(cs: Seq<WindowConfig>) -> Seq<WindowConfigView> {
    Seq::new(cs.len(), |i: int| cs[i]@)
}

/// The active window after configurations were applied: it stays when it
/// still names a window; otherwise, when there are windows, the first
/// configured one (or, with no configuration given, the first window) becomes active.
pub open spec fn active_after_configs<P>(
    active: Option<Seq<char>>,
    w: Seq<WindowInfoView<P>>,
    cs: Seq<WindowConfigView>,
) -> Option<Seq<char>> {
    let fallback = if cs.len() > 0 {
        Some(config_label(cs[0]))
    } else if w.len() > 0 {
        Some(w[0].label)
    } else {
        None
    };
    match active {
        Some(a) => if has_label(w, a) {
            Some(a)
        } else {
            fallback
        },
        None => if w.len() > 0 {
            fallback
        } else {
            None
        },
    }
}

/// The state after switching to window `l`.
pub open spec fn switched<P>(s: ManagerView<P>, l: Seq<char>) -> ManagerView<P> {
    if !has_label(s.windows, l) || s.active_window == Some(l) {
        s
    } else {
        let w1 = match s.active_window {
            Some(a) => if has_label(s.windows, a) {
                let i = index_of(s.windows, a);
                s.windows.update(i, WindowInfoView { status: WindowStatus::Background, ..s.windows[i] })
            } else {
                s.windows
            },
            None => s.windows,
        };
        let j = index_of(s.windows, l);
        let w2 = w1.update(j, WindowInfoView { status: WindowStatus::Foreground, loaded: true, ..w1[j] });
        ManagerView {
            windows: w2,
            active_window: Some(l),
            previous_active_window: match s.active_window {
                Some(a) => Some(a),
                None => s.previous_active_window,
            },
            ..s
        }
    }
}

proof fn lemma_views_update<P>(v: Seq<WindowInfo<P>>, i: int, w: WindowInfo<P>)
    requires
        0 <= i < v.len(),
    ensures
        views_of(v.update(i, w)) == views_of(v).update(i, w@),
{
    assert(views_of(v.update(i, w)) =~= views_of(v).update(i, w@));
}

proof fn lemma_views_push<P>(v: Seq<WindowInfo<P>>, w: WindowInfo<P>)
    ensures
        views_of(v.push(w)) == views_of(v).push(w@),
{
    assert(views_of(v.push(w)) =~= views_of(v).push(w@));
}

pub proof fn lemma_apply_config_unique<P>(s: Seq<WindowInfoView<P>>, c: WindowConfigView)
    requires
        labels_unique(s),
    ensures
        labels_unique(apply_config(s, c)),
        has_label(apply_config(s, c), config_label(c)),
        forall|l: Seq<char>| has_label(s, l) ==> has_label(apply_config(s, c), l),
{
    let l = config_label(c);
    let r = apply_config(s, c);
    if has_label(s, l) {
        let i = index_of(s, l);
        assert(r[i].label == l);
        assert forall|m: Seq<char>| has_label(s, m) implies has_label(r, m) by {
            let k = choose|k: int| 0 <= k < s.len() && #[trigger] s[k].label == m;
            assert(r[k].label == m);
        }
    } else {
        assert(r[s.len() as int].label == l);
        assert forall|m: Seq<char>| has_label(s, m) implies has_label(r, m) by {
            let k = choose|k: int| 0 <= k < s.len() && #[trigger] s[k].label == m;
            assert(r[k].label == m);
        }
        assert forall|a: int, b: int|
            0 <= a < r.len() && 0 <= b < r.len() && a != b implies #[trigger] r[a].label
            != #[trigger] r[b].label by {
            if a == s.len() {
                assert(s[b].label != l);
            } else if b == s.len() {
                assert(s[a].label != l);
            }
        }
    }
}

impl<P: Copy> WindowManager<P> {
    /// Labels are unique.
    pub closed spec fn wf(&self) -> bool {
        labels_unique(views_of(self.windows@))
    }

    /// A well-formed manager holds no label twice.
    pub proof fn lemma_wf_labels_unique(&self)
        requires
            self.wf(),
        ensures
            labels_unique(self@.windows),
    {
    }

    /// No window, nothing active, no shared position, no update under way.
    pub fn new() -> (r: WindowManager<P>)
        ensures
            r.wf(),
            r@.windows == Seq::<WindowInfoView<P>>::empty(),
            r@.active_window is None,
            r@.previous_active_window is None,
            r@.quick_common_position is None,
            !r@.is_updating,
            r@.updating_source is None,
            r@.update_lock_duration == DEFAULT_UPDATE_LOCK_DURATION,
            r@.last_update_at == 0,
    {
        let r = WindowManager {
            windows: Vec::new(),
            active_window: None,
            previous_active_window: None,
            quick_common_position: None,
            is_updating: false,
            updating_source: None,
            clock_origin: instant_now(),
            last_update_at: 0,
            update_lock_duration: DEFAULT_UPDATE_LOCK_DURATION,
        };
        assert(views_of(r.windows@) =~= Seq::<WindowInfoView<P>>::empty());
        r
    }

    /// Copies of all windows.
    pub fn get_windows(&self) -> (r: Vec<WindowInfo<P>>)
        ensures
            views_of(r@) == self@.windows,
    {
        let mut r: Vec<WindowInfo<P>> = Vec::new();
        let mut i: usize = 0;
        while i < self.windows.len()
            invariant
                i <= self.windows@.len(),
                views_of(r@) == views_of(self.windows@).subrange(0, i as int),
            decreases self.windows@.len() - i,
        {
            let w = self.windows[i].duplicate();
            proof {
                lemma_views_push(r@, w);
            }
            r.push(w);
            i = i + 1;
            assert(views_of(r@) =~= views_of(self.windows@).subrange(0, i as int));
        }
        assert(views_of(self.windows@).subrange(0, i as int) =~= views_of(self.windows@));
        r
    }

    /// The position shared by the quick windows.
    pub fn get_quick_common_position(&self) -> (r: Option<P>)
        ensures
            r == self@.quick_common_position,
    {
        self.quick_common_position
    }

    /// Takes `position` as the shared position unless it is close to the
    /// current one (`similar_to_current`, which the caller measures).
    pub fn update_quick_common_position(&mut self, position: P, similar_to_current: bool) -> (r:
        bool)
        requires
            old(self).wf(),
        ensures
            final(self).wf(),
            r == !(old(self)@.quick_common_position is Some && similar_to_current),
            final(self)@ == (if r {
                ManagerView { quick_common_position: Some(position), ..old(self)@ }
            } else {
                old(self)@
            }),
    {
        if self.quick_common_position.is_some() && similar_to_current {
            return false;
        }
        self.quick_common_position = Some(position);
        true
    }

    /// The window labelled `label`.
    pub fn get_window_info(&self, label: &str) -> (r: Option<WindowInfo<P>>)
        requires
            self.wf(),
        ensures
            opt_info(r) == lookup(self@.windows, label@),
    {
        match find_window(&self.windows, label) {
            Some(i) => {
                let w = self.windows[i].duplicate();
                assert(views_of(self.windows@)[i as int] == self.windows@[i as int]@);
                Some(w)
            },
            None => None,
        }
    }

    fn lookup_opt_label(&self, label: &Option<String>) -> (r: Option<WindowInfo<P>>)
        requires
            self.wf(),
        ensures
            opt_info(r) == lookup_opt(self@.windows, opt_text(*label)),
    {
        match label {
            Some(l) => self.get_window_info(l.as_str()),
            None => None,
        }
    }

    /// The active window.
    pub fn get_active_window(&self) -> (r: Option<WindowInfo<P>>)
        requires
            self.wf(),
        ensures
            opt_info(r) == lookup_opt(self@.windows, self@.active_window),
    {
        self.lookup_opt_label(&self.active_window)
    }

    /// The window that was active before the current one.
    pub fn get_previous_active_window(&self) -> (r: Option<WindowInfo<P>>)
        requires
            self.wf(),
        ensures
            opt_info(r) == lookup_opt(self@.windows, self@.previous_active_window),
    {
        self.lookup_opt_label(&self.previous_active_window)
    }

    /// A window marked as the default one, if there is any.
    pub fn get_default_window(&self) -> (r: Option<WindowInfo<P>>)
        ensures
            r is None <==> (forall|i: int|
                0 <= i < self@.windows.len() ==> !(#[trigger] self@.windows[i]).is_default),
            r matches Some(w) ==> exists|i: int|
                0 <= i < self@.windows.len() && #[trigger] self@.windows[i] == w@ && w@.is_default && forall|j: int|
                    0 <= j < i ==> !(#[trigger] self@.windows[j]).is_default,
    {
        let mut i: usize = 0;
        while i < self.windows.len()
            invariant
                i <= self.windows@.len(),
                forall|j: int| 0 <= j < i ==> !(#[trigger] views_of(self.windows@)[j]).is_default,
            decreases self.windows@.len() - i,
        {
            if self.windows[i].is_default {
                let w = self.windows[i].duplicate();
                assert(views_of(self.windows@)[i as int] == w@);
                return Some(w);
            }
            i = i + 1;
        }
        None
    }

    /// Applies window configurations: each one names the window labelled
    /// by `quick_`, its title, `_` and letters derived from its URL; a known
    /// window takes the new configuration and keeps its status, load flag
    /// and position, an unknown one is added in the background. The active
    /// window is then made to name a window when there is one. Returns the
    /// labels, one per configuration, in order.
    pub fn set_window_configs(&mut self, configs: &[WindowConfig]) -> (labels: Vec<String>)
        requires
            old(self).wf(),
        ensures
            final(self).wf(),
            labels@.len() == configs@.len(),
            forall|k: int| 0 <= k < configs@.len() ==> #[trigger] labels@[k]@ == config_label(configs@[k]@),
            final(self)@.windows == configs_applied(old(self)@.windows, config_views(configs@)),
            final(self)@.active_window == active_after_configs(
                old(self)@.active_window,
                final(self)@.windows,
                config_views(configs@),
            ),
            final(self)@.previous_active_window == old(self)@.previous_active_window,
            final(self)@.quick_common_position == old(self)@.quick_common_position,
            final(self)@.is_updating == old(self)@.is_updating,
            final(self)@.updating_source == old(self)@.updating_source,
            final(self)@.update_lock_duration == old(self)@.update_lock_duration,
            final(self)@.last_update_at == old(self)@.last_update_at,
    {
        let ghost cv = config_views(configs@);
        let ghost start = views_of(self.windows@);
        let mut labels: Vec<String> = Vec::new();
        let mut k: usize = 0;
        while k < configs.len()
            invariant
                cv == config_views(configs@),
                k <= configs@.len(),
                self.active_window == old(self).active_window,
                self.previous_active_window == old(self).previous_active_window,
                self.quick_common_position == old(self).quick_common_position,
                self.is_updating == old(self).is_updating,
                self.updating_source == old(self).updating_source,
                self.update_lock_duration == old(self).update_lock_duration,
                self.last_update_at == old(self).last_update_at,
                labels_unique(views_of(self.windows@)),
                views_of(self.windows@) == configs_applied(start, cv.subrange(0, k as int)),
                labels@.len() == k,
                forall|j: int| 0 <= j < k ==> #[trigger] labels@[j]@ == config_label(cv[j]),
            decreases configs@.len() - k,
        {
            let c = &configs[k];
            let ghost cw = views_of(self.windows@);
            let label = generate_window_label(c.url.as_str(), c.title.as_str());
            assert(label@ == config_label(cv[k as int]));
            assert(cv.subrange(0, k + 1).drop_last() =~= cv.subrange(0, k as int));
            assert(cv.subrange(0, k + 1).last() == cv[k as int]);
            proof {
                lemma_apply_config_unique(cw, cv[k as int]);
            }
            match find_window(&self.windows, label.as_str()) {
                Some(i) => {
                    let status = self.windows[i].status;
                    let loaded = self.windows[i].loaded;
                    let position = self.windows[i].position;
                    let w = WindowInfo {
                        label: label.clone(),
                        title: c.title.clone(),
                        url: c.url.clone(),
                        status,
                        loaded,
                        position,
                        icon: copy_opt_string(&c.icon),
                        shortcut: copy_opt_string(&c.shortcut),
                        proxy_id: c.proxy_id,
                        is_default: c.is_default,
                    };
                    proof {
                        lemma_views_update(self.windows@, i as int, w);
                        assert(cw[i as int] == self.windows@[i as int]@);
                    }
                    self.windows.set(i, w);
                },
                None => {
                    let w = WindowInfo {
                        label: label.clone(),
                        title: c.title.clone(),
                        url: c.url.clone(),
                        status: WindowStatus::Background,
                        loaded: false,
                        position: None,
                        icon: copy_opt_string(&c.icon),
                        shortcut: copy_opt_string(&c.shortcut),
                        proxy_id: c.proxy_id,
                        is_default: c.is_default,
                    };
                    proof {
                        lemma_views_push(self.windows@, w);
                    }
                    self.windows.push(w);
                },
            }
            labels.push(label);
            k = k + 1;
        }
        assert(cv.subrange(0, configs@.len() as int) =~= cv);
        let ghost w = views_of(self.windows@);
        let fallback: Option<String> = if labels.len() > 0 {
            Some(labels[0].clone())
        } else if self.windows.len() > 0 {
            assert(w[0] == self.windows@[0]@);
            Some(self.windows[0].label.clone())
        } else {
            None
        };
        let keep = match &self.active_window {
            Some(a) => find_window(&self.windows, a.as_str()).is_some(),
            None => false,
        };
        if !keep {
            if self.active_window.is_some() || self.windows.len() > 0 {
                self.active_window = fallback;
            }
        }
        labels
    }

    /// Makes window `label` the active one: the window that was active goes
    /// to the background and becomes the previous one, the new one comes to
    /// the foreground and counts as loaded. False when no window has the label.
    pub fn switch_to_window(&mut self, label: &str) -> (r: bool)
        requires
            old(self).wf(),
        ensures
            final(self).wf(),
            r == has_label(old(self)@.windows, label@),
            final(self)@ == switched(old(self)@, label@),
    {
        let target = match find_window(&self.windows, label) {
            Some(i) => i,
            None => return false,
        };
        let ghost s = self@;
        let same = match &self.active_window {
            Some(a) => text_equals(a.as_str(), label),
            None => false,
        };
        if same {
            return true;
        }
        let previous = copy_opt_string(&self.active_window);
        if let Some(a) = &self.active_window {
            match find_window(&self.windows, a.as_str()) {
                Some(i) => {
                    let mut w = self.windows[i].duplicate();
                    w.status = WindowStatus::Background;
                    proof {
                        lemma_views_update(self.windows@, i as int, w);
                    }
                    self.windows.set(i, w);
                },
                None => {},
            }
        }
        if previous.is_some() {
            self.previous_active_window = previous;
        }
        let mut w = self.windows[target].duplicate();
        w.status = WindowStatus::Foreground;
        w.loaded = true;
        proof {
            lemma_views_update(self.windows@, target as int, w);
        }
        self.windows.set(target, w);
        self.active_window = Some(String::from_str(label));
        proof {
            assert(labels_unique(views_of(self.windows@))) by {
                assert forall|a: int, b: int|
                    0 <= a < views_of(self.windows@).len() && 0 <= b < views_of(self.windows@).len()
                        && a != b implies #[trigger] views_of(self.windows@)[a].label
                    != #[trigger] views_of(self.windows@)[b].label by {
                    assert(views_of(self.windows@)[a].label == s.windows[a].label);
                    assert(views_of(self.windows@)[b].label == s.windows[b].label);
                }
            }
        }
        assert(self@.windows =~= switched(s, label@).windows);
        true
    }

    /// Marks window `label` as loaded; true when it was known and not yet loaded.
    pub fn mark_window_loaded(&mut self, label: &str) -> (r: bool)
        requires
            old(self).wf(),
        ensures
            final(self).wf(),
            r == (has_label(old(self)@.windows, label@) && !lookup(old(self)@.windows, label@)->0.loaded),
            final(self)@ == (if r {
                ManagerView {
                    windows: old(self)@.windows.update(
                        index_of(old(self)@.windows, label@),
                        WindowInfoView { loaded: true, ..lookup(old(self)@.windows, label@)->0 },
                    ),
                    ..old(self)@
                }
            } else {
                old(self)@
            }),
    {
        match find_window(&self.windows, label) {
            Some(i) => {
                if self.windows[i].loaded {
                    assert(views_of(self.windows@)[i as int] == self.windows@[i as int]@);
                    return false;
                }
                let ghost s = self@;
                let mut w = self.windows[i].duplicate();
                w.loaded = true;
                proof {
                    lemma_views_update(self.windows@, i as int, w);
                    assert(s.windows[i as int] == self.windows@[i as int]@);
                }
                self.windows.set(i, w);
                proof {
                    assert forall|a: int, b: int|
                        0 <= a < views_of(self.windows@).len() && 0 <= b < views_of(self.windows@).len()
                            && a != b implies #[trigger] views_of(self.windows@)[a].label
                        != #[trigger] views_of(self.windows@)[b].label by {
                        assert(views_of(self.windows@)[a].label == s.windows[a].label);
                        assert(views_of(self.windows@)[b].label == s.windows[b].label);
                    }
                }
                true
            },
            None => false,
        }
    }

    /// Stores `position` for window `label` unless it is close to the stored
    /// one (`similar_to_stored`, measured by the caller). For a window other
    /// than the control window, the shared quick-window position follows,
    /// unless it is close to the new one (`similar_to_common`).
    pub fn update_window_manager_position(
        &mut self,
        label: &str,
        position: P,
        similar_to_stored: bool,
        similar_to_common: bool,
    ) -> (r: bool)
        requires
            old(self).wf(),
        ensures
            final(self).wf(),
            r == (has_label(old(self)@.windows, label@) && !(lookup(old(self)@.windows, label@)->0.position is Some
                && similar_to_stored)),
            !r ==> final(self)@ == old(self)@,
            r ==> ({
                let s = old(self)@;
                let i = index_of(s.windows, label@);
                let w = s.windows.update(i, WindowInfoView { position: Some(position), ..s.windows[i] });
                let common = if label@ != "control"@ && !(s.quick_common_position is Some
                    && similar_to_common) {
                    Some(position)
                } else {
                    s.quick_common_position
                };
                final(self)@ == (ManagerView { windows: w, quick_common_position: common, ..s })
            }),
    {
        let i = match find_window(&self.windows, label) {
            Some(i) => i,
            None => return false,
        };
        let ghost s = self@;
        assert(s.windows[i as int] == self.windows@[i as int]@);
        if self.windows[i].position.is_some() && similar_to_stored {
            return false;
        }
        let mut w = self.windows[i].duplicate();
        w.position = Some(position);
        proof {
            lemma_views_update(self.windows@, i as int, w);
        }
        self.windows.set(i, w);
        proof {
            assert forall|a: int, b: int|
                0 <= a < views_of(self.windows@).len() && 0 <= b < views_of(self.windows@).len()
                    && a != b implies #[trigger] views_of(self.windows@)[a].label
                != #[trigger] views_of(self.windows@)[b].label by {
                assert(views_of(self.windows@)[a].label == s.windows[a].label);
                assert(views_of(self.windows@)[b].label == s.windows[b].label);
            }
        }
        if !text_equals(label, "control") {
            self.update_quick_common_position(position, similar_to_common);
        }
        true
    }

    /// Whether window `label` may drive a position update at time `now`
    /// (nanoseconds since the manager was made). When no update is under way
    /// or the lock has expired, `label` takes the lock; the window holding
    /// the lock may go on; any other is refused. An accepted update records `now`.
    pub fn can_update_at(&mut self, label: &str, now: u128) -> (r: bool)
        requires
            old(self).wf(),
        ensures
            final(self).wf(),
            (r, final(self)@) == update_decision(old(self)@, label@, now),
    {
        let lock: u128 = self.update_lock_duration as u128 * 1_000_000;
        let elapsed: u128 = if now >= self.last_update_at {
            now - self.last_update_at
        } else {
            0
        };
        if !self.is_updating || elapsed > lock {
            self.is_updating = true;
            self.updating_source = Some(String::from_str(label));
            self.last_update_at = now;
            return true;
        }
        let same = match &self.updating_source {
            Some(src) => text_equals(src.as_str(), label),
            None => false,
        };
        if same {
            self.last_update_at = now;
            return true;
        }
        false
    }

    /// Whether window `label` may drive a position update now, reading the
    /// monotonic clock (never earlier than the last accepted update).
    pub fn can_update(&mut self, label: &str) -> (r: bool)
        requires
            old(self).wf(),
        ensures
            final(self).wf(),
            exists|now: u128|
                now >= old(self)@.last_update_at && (r, final(self)@) == #[trigger] update_decision(
                    old(self)@,
                    label@,
                    now,
                ),
            !old(self)@.is_updating ==> r,
            old(self)@.updating_source == Some(label@) ==> r,
    {
        let now = instant_now();
        let since = duration_since(&now, &self.clock_origin);
        let n = duration_as_nanos(&since);
        let reading = if n >= self.last_update_at {
            n
        } else {
            self.last_update_at
        };
        let r = self.can_update_at(label, reading);
        assert((r, self@) == update_decision(old(self)@, label@, reading));
        r
    }

    /// The active window becomes the previous one, and none is active.
    pub fn clear_active_window(&mut self)
        requires
            old(self).wf(),
        ensures
            final(self).wf(),
            final(self)@ == cleared(old(self)@),
    {
        if self.active_window.is_some() {
            let a = copy_opt_string(&self.active_window);
            self.previous_active_window = a;
        }
        self.active_window = None;
    }

    /// The window shown when the previous one is asked for: the previous
    /// active window while it is registered, otherwise the first window
    /// other than the control window.
    pub fn window_to_show_previous(&self) -> (r: Option<String>)
        requires
            self.wf(),
        ensures
            opt_text(r) == previous_to_show(self@),
    {
        match self.get_previous_active_window() {
            Some(w) => Some(w.label),
            None => {
                let ghost all = views_of(self.windows@);
                let mut i: usize = 0;
                assert(all.subrange(0, all.len() as int) =~= all);
                while i < self.windows.len()
                    invariant
                        i <= self.windows@.len(),
                        all == views_of(self.windows@),
                        self.wf(),
                        lookup_opt(self@.windows, self@.previous_active_window) is None,
                        first_non_control(all) == first_non_control(all.subrange(i as int, all.len() as int)),
                    decreases self.windows@.len() - i,
                {
                    let ghost t = all.subrange(i as int, all.len() as int);
                    assert(t[0] == self.windows@[i as int]@);
                    assert(t.drop_first() =~= all.subrange(i + 1, all.len() as int));
                    if !text_equals(self.windows[i].label.as_str(), "control") {
                        return Some(self.windows[i].label.clone());
                    }
                    i = i + 1;
                }
                None
            },
        }
    }

    /// Switches to window `label` and says what the caller does next: hide
    /// the window that was active before, and give the window the shared
    /// position. An unknown window is refused.
    pub fn switch_outcome(&mut self, label: &str) -> (r: Result<SwitchOutcome<P>, AppError>)
        requires
            old(self).wf(),
        ensures
            final(self).wf(),
            final(self)@ == switched(old(self)@, label@),
            r is Ok <==> has_label(old(self)@.windows, label@),
            r matches Ok(o) ==> opt_text(o.hide) == hide_after_switch(final(self)@, label@) && o.position == (
            if label@ != "control"@ {
                final(self)@.quick_common_position
            } else {
                None
            }),
            r matches Ok(o) ==> (o.hide matches Some(h) ==> h@ != label@),
            r matches Err(e) ==> (e matches AppError::IOError(m) && m@ == "窗口 "@ + label@ + " 不存在"@),
    {
        if !self.switch_to_window(label) {
            let m = String::from_str("窗口 ").concat(label).concat(" 不存在");
            return Err(AppError::IOError(m));
        }
        let hide = match self.get_previous_active_window() {
            Some(w) => if text_equals(w.label.as_str(), label) {
                None
            } else {
                Some(w.label)
            },
            None => None,
        };
        let position = if text_equals(label, "control") {
            None
        } else {
            self.quick_common_position
        };
        Ok(SwitchOutcome { hide, position })
    }

    /// The window to open for `label`: its registered information, or the
    /// error reported when no window has that label.
    pub fn window_to_create(&self, label: &str) -> (r: Result<WindowInfo<P>, AppError>)
        requires
            self.wf(),
        ensures
            match r {
                Ok(w) => lookup(self@.windows, label@) == Some(w@),
                Err(e) => lookup(self@.windows, label@) is None && (e matches AppError::IOError(m) && m@
                    == "窗口 "@ + label@ + " 的配置信息未找到"@),
            },
    {
        match self.get_window_info(label) {
            Some(w) => Ok(w),
            None => {
                let m = String::from_str("窗口 ").concat(label).concat(" 的配置信息未找到");
                Err(AppError::IOError(m))
            },
        }
    }

    /// A window was hidden: when it was in the foreground, no window is
    /// active any more.
    pub fn window_hidden(&mut self, label: &str)
        requires
            old(self).wf(),
        ensures
            final(self).wf(),
            final(self)@ == (match lookup(old(self)@.windows, label@) {
                Some(w) => if w.status == WindowStatus::Foreground {
                    cleared(old(self)@)
                } else {
                    old(self)@
                },
                None => old(self)@,
            }),
    {
        match self.get_window_info(label) {
            Some(w) => {
                if w.status == WindowStatus::Foreground {
                    self.clear_active_window();
                }
            },
            None => {},
        }
    }

    /// A window was closed: when it was the active one, no window is active
    /// any more.
    pub fn window_closed(&mut self, label: &str)
        requires
            old(self).wf(),
        ensures
            final(self).wf(),
            final(self)@ == (if old(self)@.active_window == Some(label@) && has_label(old(self)@.windows, label@) {
                cleared(old(self)@)
            } else {
                old(self)@
            }),
    {
        let is_active = match self.get_active_window() {
            Some(w) => text_equals(w.label.as_str(), label),
            None => false,
        };
        if is_active {
            self.clear_active_window();
        }
    }
}

/// What the caller does once the registry switched to a window.
pub struct SwitchOutcome<P> {
    /// The window that was active before, still registered and other than
    /// the new one: it is hidden.
    pub hide: Option<String>,
    /// The shared position, given to the window unless it is the control window.
    pub position: Option<P>,
}

/// The state once no window is active: the active one becomes the previous one.
pub open spec fn cleared<P>(s: ManagerView<P>) -> ManagerView<P> {
    ManagerView {
        active_window: None,
        previous_active_window: match s.active_window {
            Some(a) => Some(a),
            None => s.previous_active_window,
        },
        ..s
    }
}

/// The label of a configured window: `quick_`, its title, `_` and the 20
/// letters derived from its URL.
pub fn generate_window_label(url: &str, title: &str) -> (r: String)
    ensures
        r@ == "quick_"@ + title@ + "_"@ + url_letters(url@),
{
    let letters = url_label_letters(url);
    let tail = string_from_chars(letters.as_slice());
    let r = String::from_str("quick_");
    let r = r.concat(title);
    let r = r.concat("_");
    r.concat(tail.as_str())
}

/// The first window, in registry order, other than the control window.
pub open spec fn first_non_control<P>(s: Seq<WindowInfoView<P>>) -> Option<Seq<char>>
    decreases s.len(),
{
    if s.len() == 0 {
        None
    } else if s[0].label != "control"@ {
        Some(s[0].label)
    } else {
        first_non_control(s.drop_first())
    }
}

/// The window shown when the previous one is asked for.
pub open spec fn previous_to_show<P>(s: ManagerView<P>) -> Option<Seq<char>> {
    match lookup_opt(s.windows, s.previous_active_window) {
        Some(w) => Some(w.label),
        None => first_non_control(s.windows),
    }
}

/// The window hidden after a switch to `l`: the previous active window, when
/// it is registered and is not `l`.
pub open spec fn hide_after_switch<P>(s: ManagerView<P>, l: Seq<char>) -> Option<Seq<char>> {
    match lookup_opt(s.windows, s.previous_active_window) {
        Some(w) => if w.label != l {
            Some(w.label)
        } else {
            None
        },
        None => None,
    }
}

/// The time since the last accepted update has passed the lock's length.
pub open spec fn lock_expired<P>(s: ManagerView<P>, now: u128) -> bool {
    elapsed(now, s.last_update_at) > s.update_lock_duration as int * 1_000_000
}

/// Whether window `l` may drive a position update at `now`, and the state after.
pub open spec fn update_decision<P>(s: ManagerView<P>, l: Seq<char>, now: u128) -> (bool, ManagerView<P>) {
    if !s.is_updating || lock_expired(s, now) {
        (true, ManagerView { is_updating: true, updating_source: Some(l), last_update_at: now, ..s })
    } else if s.updating_source == Some(l) {
        (true, ManagerView { last_update_at: now, ..s })
    } else {
        (false, s)
    }
}

} // verus!
