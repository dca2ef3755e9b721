//! The registry of quick windows without positions, and what opening or
//! switching to a quick window does to it. The tauri windows are created,
//! shown and hidden by the caller.
use vstd::prelude::*;
use crate::labels::{url_label_letters, url_letters};
use crate::text::string_from_chars;
use crate::window_manager::{
    added, background_others, config_for, present, switched, RegistryView,
};

verus! {

pub use crate::models::WindowStatus;
pub use crate::window_manager::WindowConfig;

/// The quick-window registry: the position-tracking registry with no positions.
pub type WindowManager = crate::window_manager::WindowManager<()>;

/// The label of a quick window opened for `url`.
pub fn generate_window_label(url: &str) -> (r: String)
    ensures
        r@ == "quick_"@ + url_letters(url@),
{
    let letters = url_label_letters(url);
    let tail = string_from_chars(letters.as_slice());
    String::from_str("quick_").concat(tail.as_str())
}

/// Prepares opening the quick window for `url`: a known window becomes the
/// active one, an unknown one is added as the active one. Returns the label,
/// whether the window was known, and the windows the caller hides.
pub fn prepare_create_or_switch(mgr: &mut WindowManager, url: &str, title: &str) -> (r: (String, bool, Vec<String>))
    requires
        old(mgr).wf(),
    ensures
        final(mgr).wf(),
        r.0@ == "quick_"@ + url_letters(url@),
        r.1 == present(old(mgr)@.windows, r.0@),
        final(mgr)@ == (if r.1 {
            switched(old(mgr)@, r.0@)
        } else {
            added(old(mgr)@, r.0@, title@, url@)
        }),
        r.2@.len() == background_others(final(mgr)@.windows, r.0@).len(),
        forall|k: int| 0 <= k < r.2@.len() ==> #[trigger] r.2@[k]@ == background_others(
            final(mgr)@.windows,
            r.0@,
        )[k],
{
    let label = generate_window_label(url);
    let known = mgr.get_window_info(label.as_str()).is_some();
    if known {
        mgr.switch_to_window(label.as_str());
    } else {
        mgr.add_window(label.clone(), String::from_str(title), String::from_str(url));
    }
    let to_hide = mgr.background_windows_except(label.as_str());
    (label, known, to_hide)
}

/// What the caller does to switch to a quick window.
pub struct QuickSwitch {
    /// The registry knew the window; it is now the active one.
    pub window_exists: bool,
    /// The window was unknown but configured: it was added as the active
    /// one and the caller opens it with this title and URL.
    pub to_create: Option<(String, String)>,
    /// The windows the caller hides.
    pub to_hide: Vec<String>,
}

/// Prepares a switch to quick window `label`: a known window becomes the
/// active one; an unknown but configured one is added as the active one;
/// otherwise nothing changes.
pub fn prepare_switch(mgr: &mut WindowManager, label: &str) -> (plan: QuickSwitch)
    requires
        old(mgr).wf(),
    ensures
        final(mgr).wf(),
        plan.window_exists == present(old(mgr)@.windows, label@),
        plan.window_exists ==> final(mgr)@ == switched(old(mgr)@, label@) && plan.to_create is None,
        !plan.window_exists ==> match config_for(old(mgr)@.window_configs, label@) {
            Some(c) => plan.to_create matches Some(tc) && tc.0@ == c.0 && tc.1@ == c.1
                && final(mgr)@ == added(old(mgr)@, label@, c.0, c.1),
            None => plan.to_create is None && final(mgr)@ == old(mgr)@,
        },
        plan.to_hide@.len() == background_others(final(mgr)@.windows, label@).len(),
        forall|k: int| 0 <= k < plan.to_hide@.len() ==> #[trigger] plan.to_hide@[k]@
            == background_others(final(mgr)@.windows, label@)[k],
{
    let plan = mgr.prepare_switch(label);
    if plan.window_exists {
        return QuickSwitch { window_exists: true, to_create: None, to_hide: plan.to_hide };
    }
    match plan.config {
        Some(c) => {
            let title = c.title.clone();
            let url = c.url.clone();
            mgr.add_window(String::from_str(label), c.title, c.url);
            let to_hide = mgr.background_windows_except(label);
            QuickSwitch { window_exists: false, to_create: Some((title, url)), to_hide }
        },
        None => QuickSwitch { window_exists: false, to_create: None, to_hide: plan.to_hide },
    }
}

} // verus!
