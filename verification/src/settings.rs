//! The default "open quick window" setting: its shortcut and whether the
//! default window or the last one is opened.
use vstd::prelude::*;
use crate::text::{chars_of, text_equals};

verus! {

/// The shortcut that opens a quick window, and whether it opens the default
/// window (rather than the last one).
#[derive(Debug, Clone)]
pub struct DefaultOpenWindow {
    pub shortcut: String,
    pub open_default: bool,
}

/// The stored shortcut, or `alt+g` when none (or an empty one) is stored.
pub open spec fn effective_shortcut(stored: Option<Seq<char>>) -> Seq<char> {
    match stored {
        Some(s) => if s.len() == 0 {
            "alt+g"@
        } else {
            s
        },
        None => "alt+g"@,
    }
}

/// Whether the stored opening method opens the default window: `last` does
/// not; `default`, anything else and nothing at all do.
pub open spec fn opens_default(method: Option<Seq<char>>) -> bool {
    match method {
        Some(m) => m != "last"@,
        None => true,
    }
}

pub open spec fn opt_chars(o: Option<String>) -> Option<Seq<char>> {
    match o {
        Some(s) => Some(s@),
        None => None,
    }
}

/// The setting as it is shown, from the stored shortcut and method.
pub fn default_open_window(shortcut: Option<String>, method: Option<String>) -> (r: DefaultOpenWindow)
    ensures
        r.shortcut@ == effective_shortcut(opt_chars(shortcut)),
        r.open_default == opens_default(opt_chars(method)),
{
    let shortcut_value = match shortcut {
        Some(s) => {
            let v = chars_of(s.as_str());
            if v.len() == 0 {
                String::from_str("alt+g")
            } else {
                s
            }
        },
        None => String::from_str("alt+g"),
    };
    let open_default = match &method {
        Some(m) => {
            if text_equals(m.as_str(), "default") {
                proof {
                    reveal_strlit("default");
                    reveal_strlit("last");
                    assert("default"@.len() != "last"@.len());
                    assert(m@ != "last"@);
                }
                true
            } else if text_equals(m.as_str(), "last") {
                false
            } else {
                true
            }
        },
        None => true,
    };
    DefaultOpenWindow { shortcut: shortcut_value, open_default }
}

/// The method stored for a choice: `default` or `last`.
pub fn open_method_name(open_default: bool) -> (r: String)
    ensures
        r@ == (if open_default {
            "default"@
        } else {
            "last"@
        }),
{
    if open_default {
        String::from_str("default")
    } else {
        String::from_str("last")
    }
}

} // verus!
