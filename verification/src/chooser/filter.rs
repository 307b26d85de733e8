//! File filters of the chooser: glob patterns matched without regard to
//! ASCII case.
use vstd::prelude::*;

verus! {

/// What the `glob` crate answers when the pattern text `pattern` is compiled
/// and matched against `name` without regard to ASCII case: `None` when the
/// pattern does not compile, else whether it matches.
pub uninterp spec fn glob_match_ci(pattern: Seq<char>, name: Seq<char>) -> Option<bool>;

/// Compiles `pattern` with `glob::Pattern::new` and, if it compiles, matches
/// `name` with `glob::Pattern::matches_with` and case-insensitive options.
///
/// Trusted: the result is only named (`glob_match_ci`), as a function of the
/// two texts; nothing else is claimed of the glob matcher.
#[verifier::external_body]
fn glob_matches(pattern: &str, name: &str) -> (r: Option<bool>)
    ensures
        r == glob_match_ci(pattern@, name@),
{
    let opts = glob::MatchOptions {
        case_sensitive: false,
        require_literal_separator: false,
        require_literal_leading_dot: false,
    };
    match glob::Pattern::new(pattern) {
        Ok(p) => Some(p.matches_with(name, opts)),
        Err(_) => None,
    }
}

/// An identifier for the filter.
///
/// That of the active filter is given back by the chooser, so you can
/// identify it. You can use the same value for several filters.
#[derive(Clone, Copy, PartialEq, Eq, Structural, Debug)]
pub struct FilterId(pub i32);

/// An entry in the "File filter" combo box.
#[derive(Debug)]
pub struct Filter {
    /// The identifier of the filter.
    pub id: FilterId,
    /// The text shown in the combo box.
    pub text: String,
    /// Glob patterns for this filter, such as `"*.txt"`, matched without
    /// regard to ASCII case.
    ///
    /// An empty list means "any file". A pattern that does not compile
    /// matches nothing.
    pub globs: Vec<String>,
}

/// The mathematical value of a [`Filter`].
pub struct FilterView {
    pub id: FilterId,
    pub text: Seq<char>,
    pub globs: Seq<Seq<char>>,
}

impl View for Filter {
    type V = FilterView;

    open spec fn view(&self) -> FilterView {
        FilterView {
            id: self.id,
            text: self.text@,
            globs: self.globs@.map_values(|g: String| g@),
        }
    }
}

/// A filter accepts a name when it has no patterns, or when one of its
/// patterns matches the name.
pub open spec fn filter_accepts(f: FilterView, name: Seq<char>) -> bool {
    f.globs.len() == 0 || exists|i: int|
        0 <= i < f.globs.len() && glob_match_ci(#[trigger] f.globs[i], name) == Some(true)
}

impl Filter {
    /// Checks whether a file name matches this filter.
    pub fn matches(&self, name: &str) -> (r: bool)
        ensures
            r == filter_accepts(self@, name@),
    {
        if self.globs.len() == 0 {
            return true;
        }
        let mut i: usize = 0;
        while i < self.globs.len()
            invariant
                i <= self.globs.len(),
                forall|k: int|
                    0 <= k < i ==> glob_match_ci(#[trigger] self@.globs[k], name@) != Some(true),
            decreases self.globs.len() - i,
        {
            assert(self@.globs[i as int] == self.globs@[i as int]@);
            if glob_matches(self.globs[i].as_str(), name) == Some(true) {
                return true;
            }
            i = i + 1;
        }
        false
    }
}

} // verus!
