//! The state kept between runs: the theme and the URL history.

use vstd::prelude::*;

use crate::theme::Theme;

verus! {

/// The state kept between runs.
#[derive(Debug)]
pub struct AppState {
    pub theme: Theme,
    /// Recently used URLs, most recent first.
    pub url_history: Vec<String>,
}

impl Default for AppState {
    fn default() -> (s: Self)
        ensures
            s.theme == Theme::Catalog,
            s.url_history@.len() == 0,
    {
        AppState { theme: Theme::Catalog, url_history: Vec::new() }
    }
}

/// A copy of a list of strings.
pub fn clone_strings(v: &Vec<String>) -> (r: Vec<String>)
    ensures
        r@ == v@,
{
    let r = v.clone();
    assert(r@ =~= v@) by {
        assert forall|i: int| 0 <= i < v.len() implies r@[i] == v@[i] by {
            assert(vstd::pervasive::cloned::<String>(v[i], r[i]));
        }
    }
    r
}

impl Clone for AppState {
    fn clone(&self) -> (s: Self)
        ensures
            s.theme == self.theme,
            s.url_history@ == self.url_history@,
    {
        AppState { theme: self.theme, url_history: clone_strings(&self.url_history) }
    }
}

} // verus!
