//! Labels of the windows opened directly for a URL.
use vstd::prelude::*;
use crate::labels::{url_label_letters, url_letters};
use crate::text::string_from_chars;

verus! {

/// The label of a window opened for `url`: the 20 letters derived from it.
pub fn generate_window_label(url: &str) -> (r: String)
    ensures
        r@ == url_letters(url@),
{
    let letters = url_label_letters(url);
    string_from_chars(letters.as_slice())
}

} // verus!
