//! The records the window manager keeps: window status, window information
//! and window configuration. Positions are carried as an opaque type `P`:
//! the library stores and hands them back but never inspects them.
use vstd::prelude::*;
use crate::text::text_equals;

verus! {

/// Whether a window is the active one.
#[derive(Debug, Clone, Copy, PartialEq, Eq, Structural)]
pub enum WindowStatus {
    /// The active window.
    Foreground,
    /// Any other window.
    Background,
}

pub open spec fn opt_text(o: Option<String>) -> Option<Seq<char>> {
    match o {
        Some(s) => Some(s@),
        None => None,
    }
}

pub fn copy_opt_string(o: &Option<String>) -> (r: Option<String>)
    ensures
        opt_text(r) == opt_text(*o),
{
    match o {
        Some(s) => Some(s.clone()),
        None => None,
    }
}

/// What the manager knows of a window.
#[derive(Debug, Clone)]
pub struct WindowInfo<P> {
    pub label: String,
    pub title: String,
    pub url: String,
    pub status: WindowStatus,
    pub loaded: bool,
    pub position: Option<P>,
    pub icon: Option<String>,
    pub shortcut: Option<String>,
    pub proxy_id: Option<i32>,
    pub is_default: bool,
}

/// A `WindowInfo` with its texts taken as character sequences.
pub struct WindowInfoView<P> {
    pub label: Seq<char>,
    pub title: Seq<char>,
    pub url: Seq<char>,
    pub status: WindowStatus,
    pub loaded: bool,
    pub position: Option<P>,
    pub icon: Option<Seq<char>>,
    pub shortcut: Option<Seq<char>>,
    pub proxy_id: Option<i32>,
    pub is_default: bool,
}

impl<P> View for WindowInfo<P> {
    type V = WindowInfoView<P>;

    open spec fn view(&self) -> WindowInfoView<P> {
        WindowInfoView {
            label: self.label@,
            title: self.title@,
            url: self.url@,
            status: self.status,
            loaded: self.loaded,
            position: self.position,
            icon: opt_text(self.icon),
            shortcut: opt_text(self.shortcut),
            proxy_id: self.proxy_id,
            is_default: self.is_default,
        }
    }
}

impl<P: Copy> WindowInfo<P> {
    /// A copy with the same contents.
    pub fn duplicate(&self) -> (r: WindowInfo<P>)
        ensures
            r@ == self@,
    {
        WindowInfo {
            label: self.label.clone(),
            title: self.title.clone(),
            url: self.url.clone(),
            status: self.status,
            loaded: self.loaded,
            position: self.position,
            icon: copy_opt_string(&self.icon),
            shortcut: copy_opt_string(&self.shortcut),
            proxy_id: self.proxy_id,
            is_default: self.is_default,
        }
    }
}

/// A window as it is configured: what to open and how to reach it.
#[derive(Debug, Clone)]
pub struct WindowConfig {
    pub title: String,
    pub url: String,
    pub icon: Option<String>,
    pub shortcut: Option<String>,
    pub proxy_id: Option<i32>,
    pub is_default: bool,
}

pub struct WindowConfigView {
    pub title: Seq<char>,
    pub url: Seq<char>,
    pub icon: Option<Seq<char>>,
    pub shortcut: Option<Seq<char>>,
    pub proxy_id: Option<i32>,
    pub is_default: bool,
}

impl View for WindowConfig {
    type V = WindowConfigView;

    open spec fn view(&self) -> WindowConfigView {
        WindowConfigView {
            title: self.title@,
            url: self.url@,
            icon: opt_text(self.icon),
            shortcut: opt_text(self.shortcut),
            proxy_id: self.proxy_id,
            is_default: self.is_default,
        }
    }
}

impl WindowConfig {
    pub fn duplicate(&self) -> (r: WindowConfig)
        ensures
            r@ == self@,
    {
        WindowConfig {
            title: self.title.clone(),
            url: self.url.clone(),
            icon: copy_opt_string(&self.icon),
            shortcut: copy_opt_string(&self.shortcut),
            proxy_id: self.proxy_id,
            is_default: self.is_default,
        }
    }
}

/// No label occurs twice.
pub open spec fn labels_unique<P>(s: Seq<WindowInfoView<P>>) -> bool {
    forall|i: int, j: int|
        0 <= i < s.len() && 0 <= j < s.len() && i != j ==> #[trigger] s[i].label != #[trigger] s[j].label
}

pub open spec fn has_label<P>(s: Seq<WindowInfoView<P>>, l: Seq<char>) -> bool {
    exists|i: int| 0 <= i < s.len() && #[trigger] s[i].label == l
}

/// Where the window labelled `l` stands (meaningful when it is there).
pub open spec fn index_of<P>(s: Seq<WindowInfoView<P>>, l: Seq<char>) -> int {
    choose|i: int| 0 <= i < s.len() && #[trigger] s[i].label == l
}

/// The window labelled `l`, if any.
pub open spec fn lookup<P>(s: Seq<WindowInfoView<P>>, l: Seq<char>) -> Option<WindowInfoView<P>> {
    if has_label(s, l) {
        Some(s[index_of(s, l)])
    } else {
        None
    }
}

pub proof fn lemma_index_of<P>(s: Seq<WindowInfoView<P>>, l: Seq<char>, i: int)
    requires
        labels_unique(s),
        0 <= i < s.len(),
        s[i].label == l,
    ensures
        has_label(s, l),
        index_of(s, l) == i,
{
    assert(has_label(s, l));
    let j = index_of(s, l);
    assert(s[j].label == l);
}

/// The views of a list of windows.
pub open spec fn views_of<P>(v: Seq<WindowInfo<P>>) -> Seq<WindowInfoView<P>> {
    Seq::new(v.len(), |i: int| v[i]@)
}

/// Where the window labelled `label` stands in `v`.
pub fn find_window<P>(v: &Vec<WindowInfo<P>>, label: &str) -> (r: Option<usize>)
    requires
        labels_unique(views_of(v@)),
    ensures
        match r {
            Some(i) => i < v@.len() && v@[i as int].label@ == label@ && has_label(
                views_of(v@),
                label@,
            ) && index_of(
                views_of(v@),
                label@,
            ) == i,
            None => !has_label(views_of(v@), label@),
        },
{
    let mut i: usize = 0;
    while i < v.len()
        invariant
            i <= v@.len(),
            labels_unique(views_of(v@)),
            forall|j: int| 0 <= j < i ==> v@[j].label@ != label@,
        decreases v@.len() - i,
    {
        if text_equals(v[i].label.as_str(), label) {
            proof {
                assert(views_of(v@)[i as int].label == label@);
                lemma_index_of(views_of(v@), label@, i as int);
            }
            return Some(i);
        }
        i = i + 1;
    }
    assert forall|j: int| 0 <= j < views_of(v@).len() implies #[trigger] views_of(v@)[j].label
        != label@ by {
        assert(views_of(v@)[j] == v@[j]@);
    }
    None
}

} // verus!
