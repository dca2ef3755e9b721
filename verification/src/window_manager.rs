//! A window registry that also tracks window positions and the position of
//! the control window. The tauri windows themselves are created, shown and
//! hidden by the caller, which tells this registry what it found and asks
//! it which windows to hide.
use vstd::prelude::*;
use crate::labels::{url_label_letters, url_letters};
use crate::models::{opt_text, WindowStatus};
use crate::text::{string_from_chars, text_equals};

verus! {

/// What the registry knows of a window.
#[derive(Debug, Clone)]
pub struct WindowInfo<P> {
    pub label: String,
    pub title: String,
    pub url: String,
    pub status: WindowStatus,
    pub loaded: bool,
    pub position: Option<P>,
}

pub struct InfoView<P> {
    pub label: Seq<char>,
    pub title: Seq<char>,
    pub url: Seq<char>,
    pub status: WindowStatus,
    pub loaded: bool,
    pub position: Option<P>,
}

impl<P> View for WindowInfo<P> {
    type V = InfoView<P>;

    open spec fn view(&self) -> InfoView<P> {
        InfoView {
            label: self.label@,
            title: self.title@,
            url: self.url@,
            status: self.status,
            loaded: self.loaded,
            position: self.position,
        }
    }
}

impl<P: Copy> WindowInfo<P> {
    pub fn duplicate(&self) -> (r: WindowInfo<P>)
        ensures
            r@ == self@,
    {
        WindowInfo {
            label: self.label.clone(),
            title: self.title.clone(),
            url: self.url.clone(),
            status: self.status,
            loaded: self.loaded,
            position: self.position,
        }
    }
}

/// A window to open: its title and URL.
#[derive(Debug, Clone)]
pub struct WindowConfig {
    pub title: String,
    pub url: String,
}

impl WindowConfig {
    pub fn duplicate(&self) -> (r: WindowConfig)
        ensures
            r.title@ == self.title@,
            r.url@ == self.url@,
    {
        WindowConfig { title: self.title.clone(), url: self.url.clone() }
    }
}

pub open spec fn views<P>(v: Seq<WindowInfo<P>>) -> Seq<InfoView<P>> {
    Seq::new(v.len(), |i: int| v[i]@)
}

pub open spec fn unique<P>(s: Seq<InfoView<P>>) -> bool {
    forall|i: int, j: int|
        0 <= i < s.len() && 0 <= j < s.len() && i != j ==> #[trigger] s[i].label != #[trigger] s[j].label
}

pub open spec fn present<P>(s: Seq<InfoView<P>>, l: Seq<char>) -> bool {
    exists|i: int| 0 <= i < s.len() && #[trigger] s[i].label == l
}

pub open spec fn position_of<P>(s: Seq<InfoView<P>>, l: Seq<char>) -> int {
    choose|i: int| 0 <= i < s.len() && #[trigger] s[i].label == l
}

pub open spec fn find<P>(s: Seq<InfoView<P>>, l: Seq<char>) -> Option<InfoView<P>> {
    if present(s, l) {
        Some(s[position_of(s, l)])
    } else {
        None
    }
}

pub open spec fn find_opt<P>(s: Seq<InfoView<P>>, l: Option<Seq<char>>) -> Option<InfoView<P>> {
    match l {
        Some(t) => find(s, t),
        None => None,
    }
}

pub open spec fn opt_view<P>(o: Option<WindowInfo<P>>) -> Option<InfoView<P>> {
    match o {
        Some(w) => Some(w@),
        None => None,
    }
}

/// The registry after the window with index `i` changed status.
pub open spec fn with_status<P>(s: Seq<InfoView<P>>, i: int, st: WindowStatus) -> Seq<InfoView<P>> {
    s.update(i, InfoView { status: st, ..s[i] })
}

proof fn lemma_views_update<P>(v: Seq<WindowInfo<P>>, i: int, w: WindowInfo<P>)
    requires
        0 <= i < v.len(),
    ensures
        views(v.update(i, w)) == views(v).update(i, w@),
{
    assert(views(v.update(i, w)) =~= views(v).update(i, w@));
}

proof fn lemma_unique_relabel_free<P>(a: Seq<InfoView<P>>, b: Seq<InfoView<P>>)
    requires
        unique(a),
        a.len() == b.len(),
        forall|i: int| 0 <= i < a.len() ==> #[trigger] b[i].label == a[i].label,
    ensures
        unique(b),
{
    assert forall|i: int, j: int|
        0 <= i < b.len() && 0 <= j < b.len() && i != j implies #[trigger] b[i].label
        != #[trigger] b[j].label by {
        assert(b[i].label == a[i].label);
        assert(b[j].label == a[j].label);
    }
}

proof fn lemma_position_of<P>(s: Seq<InfoView<P>>, l: Seq<char>, i: int)
    requires
        unique(s),
        0 <= i < s.len(),
        s[i].label == l,
    ensures
        present(s, l),
        position_of(s, l) == i,
{
    assert(present(s, l));
    let j = position_of(s, l);
    assert(s[j].label == l);
}

fn locate<P>(v: &Vec<WindowInfo<P>>, label: &str) -> (r: Option<usize>)
    requires
        unique(views(v@)),
    ensures
        match r {
            Some(i) => i < v@.len() && v@[i as int].label@ == label@ && present(views(v@), label@)
                && position_of(views(v@), label@) == i,
            None => !present(views(v@), label@),
        },
{
    let mut i: usize = 0;
    while i < v.len()
        invariant
            i <= v@.len(),
            unique(views(v@)),
            forall|j: int| 0 <= j < i ==> v@[j].label@ != label@,
        decreases v@.len() - i,
    {
        if text_equals(v[i].label.as_str(), label) {
            proof {
                assert(views(v@)[i as int].label == label@);
                lemma_position_of(views(v@), label@, i as int);
            }
            return Some(i);
        }
        i = i + 1;
    }
    assert forall|j: int| 0 <= j < views(v@).len() implies #[trigger] views(v@)[j].label
        != label@ by {
        assert(views(v@)[j] == v@[j]@);
    }
    None
}

/// The state of the registry.
pub struct RegistryView<P> {
    pub windows: Seq<InfoView<P>>,
    pub active_window: Option<Seq<char>>,
    pub previous_active_window: Option<Seq<char>>,
    pub window_configs: Seq<(Seq<char>, Seq<char>)>,
    pub control_position: Option<P>,
    pub is_updating: bool,
}

/// How an update of the control window's position was taken.
#[derive(Debug, Clone, Copy, PartialEq, Eq, Structural)]
pub enum ControlMove {
    /// The update was ignored.
    Ignored,
    /// The position was stored.
    Stored,
    /// The position was stored and the control window moved far enough for
    /// the other windows to be brought along.
    StoredAndSync,
}

/// Windows, the active and previous ones, configured windows, and positions.
pub struct WindowManager<P> {
    windows: Vec<WindowInfo<P>>,
    active_window: Option<String>,
    previous_active_window: Option<String>,
    window_configs: Vec<WindowConfig>,
    control_position: Option<P>,
    is_updating: bool,
}

impl<P> View for WindowManager<P> {
    type V = RegistryView<P>;

    closed spec fn view(&self) -> RegistryView<P> {
        RegistryView {
            windows: views(self.windows@),
            active_window: opt_text(self.active_window),
            previous_active_window: opt_text(self.previous_active_window),
            window_configs: Seq::new(
                self.window_configs@.len(),
                |i: int| (self.window_configs@[i].title@, self.window_configs@[i].url@),
            ),
            control_position: self.control_position,
            is_updating: self.is_updating,
        }
    }
}

/// The state after adding window `l`: the active window goes to the
/// background and becomes the previous one; the new window is active, in
/// the foreground, not loaded, without a position (a window with the same
/// label is replaced).
pub open spec fn added<P>(s: RegistryView<P>, l: Seq<char>, title: Seq<char>, url: Seq<char>) -> RegistryView<P> {
    let w1 = match s.active_window {
        Some(a) => if present(s.windows, a) {
            with_status(s.windows, position_of(s.windows, a), WindowStatus::Background)
        } else {
            s.windows
        },
        None => s.windows,
    };
    let info = InfoView {
        label: l,
        title,
        url,
        status: WindowStatus::Foreground,
        loaded: false,
        position: None,
    };
    let w2 = if present(w1, l) {
        w1.update(position_of(w1, l), info)
    } else {
        w1.push(info)
    };
    RegistryView {
        windows: w2,
        active_window: Some(l),
        previous_active_window: match s.active_window {
            Some(a) => Some(a),
            None => s.previous_active_window,
        },
        ..s
    }
}

/// The state after switching to window `l`.
pub open spec fn switched<P>(s: RegistryView<P>, l: Seq<char>) -> RegistryView<P> {
    if !present(s.windows, l) || s.active_window == Some(l) {
        s
    } else {
        let w1 = match s.active_window {
            Some(a) => if present(s.windows, a) {
                with_status(s.windows, position_of(s.windows, a), WindowStatus::Background)
            } else {
                s.windows
            },
            None => s.windows,
        };
        let j = position_of(s.windows, l);
        let w2 = w1.update(j, InfoView { status: WindowStatus::Foreground, loaded: true, ..w1[j] });
        RegistryView {
            windows: w2,
            active_window: Some(l),
            previous_active_window: match s.active_window {
                Some(a) => Some(a),
                None => s.previous_active_window,
            },
            ..s
        }
    }
}

/// The labels of the windows other than `l` and the control window that
/// are in the background, in registry order.
pub open spec fn background_others<P>(s: Seq<InfoView<P>>, l: Seq<char>) -> Seq<Seq<char>>
    decreases s.len(),
{
    if s.len() == 0 {
        Seq::empty()
    } else {
        let r = background_others(s.drop_last(), l);
        let w = s.last();
        if w.label != l && w.label != "control"@ && w.status == WindowStatus::Background {
            r.push(w.label)
        } else {
            r
        }
    }
}

impl<P: Copy> WindowManager<P> {
    pub closed spec fn wf(&self) -> bool {
        unique(views(self.windows@))
    }

    /// A well-formed registry holds no label twice.
    pub proof fn lemma_wf_labels_unique(&self)
        requires
            self.wf(),
        ensures
            unique(self@.windows),
    {
    }

    pub fn new() -> (r: WindowManager<P>)
        ensures
            r.wf(),
            r@.windows.len() == 0,
            r@.active_window is None,
            r@.previous_active_window is None,
            r@.window_configs.len() == 0,
            r@.control_position is None,
            !r@.is_updating,
    {
        let r = WindowManager {
            windows: Vec::new(),
            active_window: None,
            previous_active_window: None,
            window_configs: Vec::new(),
            control_position: None,
            is_updating: false,
        };
        assert(views(r.windows@).len() == 0);
        r
    }

    pub fn get_windows(&self) -> (r: Vec<WindowInfo<P>>)
        ensures
            views(r@) == self@.windows,
    {
        let mut r: Vec<WindowInfo<P>> = Vec::new();
        let mut i: usize = 0;
        while i < self.windows.len()
            invariant
                i <= self.windows@.len(),
                views(r@) == views(self.windows@).subrange(0, i as int),
            decreases self.windows@.len() - i,
        {
            let w = self.windows[i].duplicate();
            let ghost rb = r@;
            r.push(w);
            assert(views(r@) =~= views(rb).push(w@));
            i = i + 1;
            assert(views(r@) =~= views(self.windows@).subrange(0, i as int));
        }
        assert(views(self.windows@).subrange(0, i as int) =~= views(self.windows@));
        r
    }

    pub fn get_window_info(&self, label: &str) -> (r: Option<WindowInfo<P>>)
        requires
            self.wf(),
        ensures
            opt_view(r) == find(self@.windows, label@),
    {
        match locate(&self.windows, label) {
            Some(i) => {
                let w = self.windows[i].duplicate();
                assert(views(self.windows@)[i as int] == self.windows@[i as int]@);
                Some(w)
            },
            None => None,
        }
    }

    fn get_by_opt(&self, label: &Option<String>) -> (r: Option<WindowInfo<P>>)
        requires
            self.wf(),
        ensures
            opt_view(r) == find_opt(self@.windows, opt_text(*label)),
    {
        match label {
            Some(l) => self.get_window_info(l.as_str()),
            None => None,
        }
    }

    pub fn get_active_window(&self) -> (r: Option<WindowInfo<P>>)
        requires
            self.wf(),
        ensures
            opt_view(r) == find_opt(self@.windows, self@.active_window),
    {
        self.get_by_opt(&self.active_window)
    }

    pub fn get_previous_active_window(&self) -> (r: Option<WindowInfo<P>>)
        requires
            self.wf(),
        ensures
            opt_view(r) == find_opt(self@.windows, self@.previous_active_window),
    {
        self.get_by_opt(&self.previous_active_window)
    }

    /// Replaces the configured windows.
    pub fn set_window_configs(&mut self, configs: Vec<WindowConfig>)
        requires
            old(self).wf(),
        ensures
            final(self).wf(),
            final(self)@ == (RegistryView {
                window_configs: Seq::new(
                    configs@.len(),
                    |i: int| (configs@[i].title@, configs@[i].url@),
                ),
                ..old(self)@
            }),
    {
        self.window_configs = configs;
    }

    /// Copies of the configured windows.
    pub fn get_window_configs(&self) -> (r: Vec<WindowConfig>)
        ensures
            r@.len() == self@.window_configs.len(),
            forall|i: int|
                0 <= i < r@.len() ==> (#[trigger] r@[i].title@, r@[i].url@) == self@.window_configs[i],
    {
        let mut r: Vec<WindowConfig> = Vec::new();
        let mut i: usize = 0;
        while i < self.window_configs.len()
            invariant
                i <= self.window_configs@.len(),
                r@.len() == i,
                forall|j: int|
                    0 <= j < i ==> (#[trigger] r@[j].title@, r@[j].url@) == (
                        self.window_configs@[j].title@,
                        self.window_configs@[j].url@,
                    ),
            decreases self.window_configs@.len() - i,
        {
            let c = self.window_configs[i].duplicate();
            r.push(c);
            i = i + 1;
        }
        r
    }

    /// Adds window `label` and makes it the active one.
    pub fn add_window(&mut self, label: String, title: String, url: String)
        requires
            old(self).wf(),
        ensures
            final(self).wf(),
            final(self)@ == added(old(self)@, label@, title@, url@),
    {
        let ghost s = self@;
        if let Some(a) = &self.active_window {
            let prev = a.clone();
            match locate(&self.windows, a.as_str()) {
                Some(i) => {
                    let mut w = self.windows[i].duplicate();
                    w.status = WindowStatus::Background;
                    proof {
                        lemma_views_update(self.windows@, i as int, w);
                        lemma_unique_relabel_free(s.windows, views(self.windows@.update(i as int, w)));
                    }
                    self.windows.set(i, w);
                },
                None => {},
            }
            self.previous_active_window = Some(prev);
        }
        let ghost w1 = views(self.windows@);
        assert(w1 == match s.active_window {
            Some(a) => if present(s.windows, a) {
                with_status(s.windows, position_of(s.windows, a), WindowStatus::Background)
            } else {
                s.windows
            },
            None => s.windows,
        });
        let active = label.clone();
        let info = WindowInfo {
            label,
            title,
            url,
            status: WindowStatus::Foreground,
            loaded: false,
            position: None,
        };
        match locate(&self.windows, info.label.as_str()) {
            Some(i) => {
                proof {
                    lemma_views_update(self.windows@, i as int, info);
                    lemma_unique_relabel_free(w1, views(self.windows@.update(i as int, info)));
                }
                self.windows.set(i, info);
            },
            None => {
                let ghost before = self.windows@;
                self.windows.push(info);
                assert(views(self.windows@) =~= w1.push(info@));
                assert(unique(views(self.windows@))) by {
                    assert forall|a: int, b: int|
                        0 <= a < views(self.windows@).len() && 0 <= b < views(self.windows@).len()
                            && a != b implies #[trigger] views(self.windows@)[a].label
                        != #[trigger] views(self.windows@)[b].label by {
                        if a == before.len() {
                            assert(w1[b].label != info@.label);
                        } else if b == before.len() {
                            assert(w1[a].label != info@.label);
                        }
                    }
                }
            },
        }
        self.active_window = Some(active);
    }

    /// Removes window `label`. When it was the active one, the previous one
    /// becomes active if it is still there, otherwise the first remaining
    /// window (none when no window is left); the new active one comes to the
    /// foreground. When it was the previous one, none is previous any more.
    pub fn remove_window(&mut self, label: &str)
        requires
            old(self).wf(),
        ensures
            final(self).wf(),
            ({
                let s = old(self)@;
                let w0 = if present(s.windows, label@) {
                    s.windows.remove(position_of(s.windows, label@))
                } else {
                    s.windows
                };
                let r = final(self)@;
                &&& r.window_configs == s.window_configs
                &&& r.control_position == s.control_position
                &&& r.is_updating == s.is_updating
                &&& match s.active_window {
                    None => r.windows == w0 && r.active_window is None
                        && r.previous_active_window == s.previous_active_window,
                    Some(a) => if a == label@ {
                        r.previous_active_window == s.previous_active_window && match s.previous_active_window {
                            Some(p) if present(w0, p) => r.active_window == Some(p) && r.windows
                                == with_status(w0, position_of(w0, p), WindowStatus::Foreground),
                            _ => if w0.len() > 0 {
                                r.active_window == Some(w0[0].label) && r.windows == with_status(
                                    w0,
                                    0,
                                    WindowStatus::Foreground,
                                )
                            } else {
                                r.active_window is None && r.windows == w0
                            },
                        }
                    } else {
                        &&& r.windows == w0
                        &&& r.active_window == s.active_window
                        &&& r.previous_active_window == (if s.previous_active_window == Some(
                            label@,
                        ) {
                            None
                        } else {
                            s.previous_active_window
                        })
                    },
                }
            }),
    {
        let ghost s = self@;
        match locate(&self.windows, label) {
            Some(i) => {
                let ghost before = self.windows@;
                self.windows.remove(i);
                assert(views(self.windows@) =~= s.windows.remove(i as int));
                assert(unique(views(self.windows@))) by {
                    assert forall|a: int, b: int|
                        0 <= a < views(self.windows@).len() && 0 <= b < views(self.windows@).len()
                            && a != b implies #[trigger] views(self.windows@)[a].label
                        != #[trigger] views(self.windows@)[b].label by {
                        let a2 = if a < i { a } else { a + 1 };
                        let b2 = if b < i { b } else { b + 1 };
                        assert(views(self.windows@)[a] == s.windows[a2]);
                        assert(views(self.windows@)[b] == s.windows[b2]);
                    }
                }
            },
            None => {},
        }
        let ghost w0 = views(self.windows@);
        let is_active = match &self.active_window {
            Some(a) => text_equals(a.as_str(), label),
            None => false,
        };
        if is_active {
            let prev_target: Option<usize> = match &self.previous_active_window {
                Some(p) => locate(&self.windows, p.as_str()),
                None => None,
            };
            match prev_target {
                Some(j) => {
                    let p = self.windows[j].label.clone();
                    let mut w = self.windows[j].duplicate();
                    w.status = WindowStatus::Foreground;
                    proof {
                        lemma_views_update(self.windows@, j as int, w);
                        lemma_unique_relabel_free(w0, views(self.windows@.update(j as int, w)));
                    }
                    self.windows.set(j, w);
                    self.active_window = Some(p);
                    return;
                },
                None => {},
            }
            if self.windows.len() > 0 {
                let first = self.windows[0].label.clone();
                let mut w = self.windows[0].duplicate();
                w.status = WindowStatus::Foreground;
                proof {
                    assert(w0[0] == self.windows@[0]@);
                    lemma_views_update(self.windows@, 0, w);
                    lemma_unique_relabel_free(w0, views(self.windows@.update(0, w)));
                }
                self.windows.set(0, w);
                self.active_window = Some(first);
            } else {
                self.active_window = None;
            }
        } else {
            let clear_prev = match &self.previous_active_window {
                Some(p) => self.active_window.is_some() && text_equals(p.as_str(), label),
                None => false,
            };
            if clear_prev {
                self.previous_active_window = None;
            }
        }
    }

    /// Makes window `label` the active one; false when it is unknown.
    pub fn switch_to_window(&mut self, label: &str) -> (r: bool)
        requires
            old(self).wf(),
        ensures
            final(self).wf(),
            r == present(old(self)@.windows, label@),
            final(self)@ == switched(old(self)@, label@),
            r ==> final(self)@.active_window == Some(label@),
            old(self)@.active_window matches Some(a) ==> (r && a != label@ ==> final(self)@.previous_active_window
                == Some(a)),
    {
        let target = match locate(&self.windows, label) {
            Some(i) => i,
            None => return false,
        };
        let ghost s = self@;
        let same = match &self.active_window {
            Some(a) => text_equals(a.as_str(), label),
            None => false,
        };
        if same {
            return true;
        }
        if let Some(a) = &self.active_window {
            let prev = a.clone();
            match locate(&self.windows, a.as_str()) {
                Some(i) => {
                    let mut w = self.windows[i].duplicate();
                    w.status = WindowStatus::Background;
                    proof {
                        lemma_views_update(self.windows@, i as int, w);
                        lemma_unique_relabel_free(s.windows, views(self.windows@.update(i as int, w)));
                    }
                    self.windows.set(i, w);
                },
                None => {},
            }
            self.previous_active_window = Some(prev);
        }
        let ghost w1 = views(self.windows@);
        let mut w = self.windows[target].duplicate();
        w.status = WindowStatus::Foreground;
        w.loaded = true;
        proof {
            lemma_views_update(self.windows@, target as int, w);
            lemma_unique_relabel_free(w1, views(self.windows@.update(target as int, w)));
        }
        self.windows.set(target, w);
        self.active_window = Some(String::from_str(label));
        assert(self@.windows =~= switched(s, label@).windows);
        true
    }

    /// Marks window `label` as loaded; false when it is unknown.
    pub fn mark_window_loaded(&mut self, label: &str) -> (r: bool)
        requires
            old(self).wf(),
        ensures
            final(self).wf(),
            r == present(old(self)@.windows, label@),
            final(self)@ == (if r {
                RegistryView {
                    windows: old(self)@.windows.update(
                        position_of(old(self)@.windows, label@),
                        InfoView { loaded: true, ..find(old(self)@.windows, label@)->0 },
                    ),
                    ..old(self)@
                }
            } else {
                old(self)@
            }),
    {
        match locate(&self.windows, label) {
            Some(i) => {
                let ghost s = self@;
                let mut w = self.windows[i].duplicate();
                w.loaded = true;
                proof {
                    assert(s.windows[i as int] == self.windows@[i as int]@);
                    lemma_views_update(self.windows@, i as int, w);
                    lemma_unique_relabel_free(s.windows, views(self.windows@.update(i as int, w)));
                }
                self.windows.set(i, w);
                true
            },
            None => false,
        }
    }

    /// Marks whether the caller is itself moving windows, during which
    /// position reports are ignored.
    pub fn set_updating(&mut self, updating: bool)
        requires
            old(self).wf(),
        ensures
            final(self).wf(),
            final(self)@ == (RegistryView { is_updating: updating, ..old(self)@ }),
    {
        self.is_updating = updating;
    }

    /// Takes a new position of the control window. Ignored while the caller
    /// moves windows itself, when it is close to the stored one
    /// (`similar_to_stored`), or when it moved less than one unit along both
    /// axes (`shifted` false); the other windows follow when it moved.
    pub fn update_control_position(&mut self, position: P, similar_to_stored: bool, shifted: bool) -> (r: ControlMove)
        requires
            old(self).wf(),
        ensures
            final(self).wf(),
            ({
                let s = old(self)@;
                if s.is_updating || (s.control_position is Some && (similar_to_stored || !shifted)) {
                    r == ControlMove::Ignored && final(self)@ == s
                } else {
                    &&& final(self)@ == (RegistryView { control_position: Some(position), ..s })
                    &&& r == (if s.control_position is Some {
                        ControlMove::StoredAndSync
                    } else {
                        ControlMove::Stored
                    })
                }
            }),
    {
        if self.is_updating {
            return ControlMove::Ignored;
        }
        let had = self.control_position.is_some();
        if had && (similar_to_stored || !shifted) {
            return ControlMove::Ignored;
        }
        self.control_position = Some(position);
        if had {
            ControlMove::StoredAndSync
        } else {
            ControlMove::Stored
        }
    }

    /// Takes a new position of window `label`, unless the caller is moving
    /// windows itself, the window is unknown, or the position is close to
    /// the stored one (`similar_to_stored`).
    pub fn update_window_position(&mut self, label: &str, position: P, similar_to_stored: bool) -> (r: bool)
        requires
            old(self).wf(),
        ensures
            final(self).wf(),
            ({
                let s = old(self)@;
                r == (!s.is_updating && present(s.windows, label@) && !(find(s.windows, label@)->0.position is Some
                    && similar_to_stored))
            }),
            !r ==> final(self)@ == old(self)@,
            r ==> final(self)@ == (RegistryView {
                windows: old(self)@.windows.update(
                    position_of(old(self)@.windows, label@),
                    InfoView { position: Some(position), ..find(old(self)@.windows, label@)->0 },
                ),
                ..old(self)@
            }),
    {
        if self.is_updating {
            return false;
        }
        match locate(&self.windows, label) {
            Some(i) => {
                let ghost s = self@;
                assert(s.windows[i as int] == self.windows@[i as int]@);
                if self.windows[i].position.is_some() && similar_to_stored {
                    return false;
                }
                let mut w = self.windows[i].duplicate();
                w.position = Some(position);
                proof {
                    lemma_views_update(self.windows@, i as int, w);
                    lemma_unique_relabel_free(s.windows, views(self.windows@.update(i as int, w)));
                }
                self.windows.set(i, w);
                true
            },
            None => false,
        }
    }

    /// The stored position of window `label`.
    pub fn get_window_position(&self, label: &str) -> (r: Option<P>)
        requires
            self.wf(),
        ensures
            r == (match find(self@.windows, label@) {
                Some(w) => w.position,
                None => None,
            }),
    {
        match locate(&self.windows, label) {
            Some(i) => {
                assert(views(self.windows@)[i as int] == self.windows@[i as int]@);
                self.windows[i].position
            },
            None => None,
        }
    }

    /// The stored position of the control window.
    pub fn get_control_position(&self) -> (r: Option<P>)
        ensures
            r == self@.control_position,
    {
        self.control_position
    }

    /// The windows other than `label` and the control window that are in
    /// the background: those the caller hides after a switch.
    pub fn background_windows_except(&self, label: &str) -> (r: Vec<String>)
        ensures
            r@.len() == background_others(self@.windows, label@).len(),
            forall|k: int| 0 <= k < r@.len() ==> #[trigger] r@[k]@ == background_others(self@.windows, label@)[k],
    {
        let mut r: Vec<String> = Vec::new();
        let mut i: usize = 0;
        while i < self.windows.len()
            invariant
                i <= self.windows@.len(),
                r@.len() == background_others(views(self.windows@).subrange(0, i as int), label@).len(),
                forall|k: int| 0 <= k < r@.len() ==> #[trigger] r@[k]@ == background_others(
                    views(self.windows@).subrange(0, i as int),
                    label@,
                )[k],
            decreases self.windows@.len() - i,
        {
            let ghost pre = views(self.windows@).subrange(0, i as int);
            let ghost cur = views(self.windows@).subrange(0, i + 1);
            assert(cur.drop_last() =~= pre);
            assert(cur.last() == self.windows@[i as int]@);
            let w = &self.windows[i];
            if !text_equals(w.label.as_str(), label) && !text_equals(w.label.as_str(), "control")
                && w.status == WindowStatus::Background {
                r.push(w.label.clone());
            }
            i = i + 1;
        }
        assert(views(self.windows@).subrange(0, i as int) =~= views(self.windows@));
        r
    }

    /// The windows brought along when the control window moved: the loaded
    /// windows other than the control window, once the control window's
    /// position is known.
    pub fn windows_to_sync(&self) -> (r: Vec<String>)
        ensures
            r@.len() == sync_targets(self@).len(),
            forall|k: int| 0 <= k < r@.len() ==> #[trigger] r@[k]@ == sync_targets(self@)[k],
    {
        let mut r: Vec<String> = Vec::new();
        if self.control_position.is_none() {
            return r;
        }
        let mut i: usize = 0;
        while i < self.windows.len()
            invariant
                i <= self.windows@.len(),
                r@.len() == loaded_others(views(self.windows@).subrange(0, i as int)).len(),
                forall|k: int| 0 <= k < r@.len() ==> #[trigger] r@[k]@ == loaded_others(
                    views(self.windows@).subrange(0, i as int),
                )[k],
            decreases self.windows@.len() - i,
        {
            let ghost pre = views(self.windows@).subrange(0, i as int);
            let ghost cur = views(self.windows@).subrange(0, i + 1);
            assert(cur.drop_last() =~= pre);
            assert(cur.last() == self.windows@[i as int]@);
            let w = &self.windows[i];
            if !text_equals(w.label.as_str(), "control") && w.loaded {
                r.push(w.label.clone());
            }
            i = i + 1;
        }
        assert(views(self.windows@).subrange(0, i as int) =~= views(self.windows@));
        r
    }
}

/// The labels of the loaded windows other than the control window, in
/// registry order.
pub open spec fn loaded_others<P>(s: Seq<InfoView<P>>) -> Seq<Seq<char>>
    decreases s.len(),
{
    if s.len() == 0 {
        Seq::empty()
    } else {
        let r = loaded_others(s.drop_last());
        if s.last().label != "control"@ && s.last().loaded {
            r.push(s.last().label)
        } else {
            r
        }
    }
}

/// The windows that follow the control window: none while its position is unknown.
pub open spec fn sync_targets<P>(s: RegistryView<P>) -> Seq<Seq<char>> {
    if s.control_position is None {
        Seq::empty()
    } else {
        loaded_others(s.windows)
    }
}

/// The first configured window whose URL gives label `l`.
pub open spec fn config_for(cs: Seq<(Seq<char>, Seq<char>)>, l: Seq<char>) -> Option<(Seq<char>, Seq<char>)>
    decreases cs.len(),
{
    if cs.len() == 0 {
        None
    } else if "quick_"@ + url_letters(cs[0].1) == l {
        Some(cs[0])
    } else {
        config_for(cs.drop_first(), l)
    }
}

/// What the caller does to switch to a window.
pub struct SwitchPlan {
    /// The registry knew the window; it is now the active one.
    pub window_exists: bool,
    /// The window is unknown but configured: the caller opens it from this.
    pub config: Option<WindowConfig>,
    /// The windows the caller hides.
    pub to_hide: Vec<String>,
}

impl<P: Copy> WindowManager<P> {
    fn find_config(&self, label: &str) -> (r: Option<WindowConfig>)
        ensures
            match r {
                Some(c) => config_for(self@.window_configs, label@) == Some((c.title@, c.url@)),
                None => config_for(self@.window_configs, label@) is None,
            },
    {
        let ghost all = self@.window_configs;
        let mut i: usize = 0;
        assert(all.subrange(0, all.len() as int) =~= all);
        while i < self.window_configs.len()
            invariant
                i <= self.window_configs@.len(),
                all == self@.window_configs,
                config_for(all, label@) == config_for(all.subrange(i as int, all.len() as int), label@),
            decreases self.window_configs@.len() - i,
        {
            let ghost rest = all.subrange(i as int, all.len() as int);
            assert(rest[0] == (self.window_configs@[i as int].title@, self.window_configs@[i as int].url@));
            let candidate = generate_window_label(self.window_configs[i].url.as_str());
            if text_equals(candidate.as_str(), label) {
                return Some(self.window_configs[i].duplicate());
            }
            assert(rest.drop_first() =~= all.subrange(i + 1, all.len() as int));
            i = i + 1;
        }
        assert(all.subrange(i as int, all.len() as int).len() == 0);
        None
    }

    /// Prepares a switch to window `label`: a known window becomes the
    /// active one; an unknown one is looked up among the configured windows.
    /// Either way the caller learns which windows to hide.
    pub fn prepare_switch(&mut self, label: &str) -> (plan: SwitchPlan)
        requires
            old(self).wf(),
        ensures
            final(self).wf(),
            plan.window_exists == present(old(self)@.windows, label@),
            final(self)@ == switched(old(self)@, label@),
            match plan.config {
                Some(c) => !plan.window_exists && config_for(old(self)@.window_configs, label@)
                    == Some((c.title@, c.url@)),
                None => plan.window_exists || config_for(old(self)@.window_configs, label@) is None,
            },
            plan.to_hide@.len() == background_others(final(self)@.windows, label@).len(),
            forall|k: int| 0 <= k < plan.to_hide@.len() ==> #[trigger] plan.to_hide@[k]@
                == background_others(final(self)@.windows, label@)[k],
    {
        let exists = match locate(&self.windows, label) {
            Some(_) => true,
            None => false,
        };
        let config = if exists {
            None
        } else {
            self.find_config(label)
        };
        if exists {
            self.switch_to_window(label);
        } else {
            assert(switched(self@, label@) == self@);
        }
        let to_hide = self.background_windows_except(label);
        SwitchPlan { window_exists: exists, config, to_hide }
    }

    /// Prepares opening the window for `url`: when no such tauri window
    /// exists (`window_exists`), it is added as the active one; when it
    /// exists and is not active, the registry switches to it. Returns the
    /// label and the windows the caller hides.
    pub fn prepare_create_or_switch(&mut self, url: &str, title: &str, window_exists: bool) -> (r: (String, Vec<String>))
        requires
            old(self).wf(),
        ensures
            final(self).wf(),
            r.0@ == "quick_"@ + url_letters(url@),
            final(self)@ == (if !window_exists {
                added(old(self)@, r.0@, title@, url@)
            } else {
                switched(old(self)@, r.0@)
            }),
            r.1@.len() == background_others(final(self)@.windows, r.0@).len(),
            forall|k: int| 0 <= k < r.1@.len() ==> #[trigger] r.1@[k]@
                == background_others(final(self)@.windows, r.0@)[k],
    {
        let label = generate_window_label(url);
        if !window_exists {
            self.add_window(label.clone(), String::from_str(title), String::from_str(url));
        } else {
            self.switch_to_window(label.as_str());
        }
        let to_hide = self.background_windows_except(label.as_str());
        (label, to_hide)
    }
}

/// The label of a quick window opened for `url`: `quick_` and 20 letters
/// derived from the URL.
pub fn generate_window_label(url: &str) -> (r: String)
    ensures
        r@ == "quick_"@ + url_letters(url@),
{
    let letters = url_label_letters(url);
    let tail = string_from_chars(letters.as_slice());
    String::from_str("quick_").concat(tail.as_str())
}

} // verus!
