//! Descriptions of what to search, and for what.

use vstd::prelude::*;
use crate::wide::Wide;

verus! {

/// A description of an input to run searches on.
#[derive(Clone, Copy, Debug)]
pub struct Input<T: Wide + 'static> {
    /// The wide character string to search.
    pub corpus: &'static [T],
    /// Distinct characters that never occur.
    pub never: &'static [SearchChar<T>],
    /// Distinct characters that occur very rarely (<0.1%).
    pub rare: &'static [SearchChar<T>],
    /// Distinct characters that are uncommon (~1%).
    pub uncommon: &'static [SearchChar<T>],
    /// Distinct characters that are common (~5%).
    pub common: &'static [SearchChar<T>],
    /// Distinct characters that are very common (~10%).
    pub very_common: &'static [SearchChar<T>],
    /// Distinct characters that are super common (>90%).
    pub super_common: &'static [SearchChar<T>],
}

/// A description of a search for a particular wide character.
#[derive(Clone, Copy, Debug)]
pub struct Search<T: Wide + 'static> {
    /// The wide character string to search.
    pub corpus: &'static [T],
    /// The wide character to search for.
    pub value: SearchChar<T>,
}

/// A description of a single wide character to search for.
#[derive(Clone, Copy, Debug)]
pub struct SearchChar<T: Wide> {
    /// A wide character.
    pub value: T,
    /// The number of times it is expected to occur.
    pub count: usize,
}

/// The search of `corpus` for the first of `values`, if there is one.
pub open spec fn first_search<T: Wide>(corpus: &'static [T], values: Seq<SearchChar<T>>) -> Option<
    Search<T>,
> {
    if values.len() == 0 {
        None
    } else {
        Some(Search { corpus, value: values[0] })
    }
}

impl<T: Wide> Input<T> {
    /// The search for the first character that never occurs.
    pub fn never(&self) -> (search: Option<Search<T>>)
        ensures
            search == first_search(self.corpus, self.never@),
    {
        if self.never.is_empty() {
            None
        } else {
            Some(Search { corpus: self.corpus, value: self.never[0] })
        }
    }

    /// The search for the first character that occurs very rarely.
    pub fn rare(&self) -> (search: Option<Search<T>>)
        ensures
            search == first_search(self.corpus, self.rare@),
    {
        if self.rare.is_empty() {
            None
        } else {
            Some(Search { corpus: self.corpus, value: self.rare[0] })
        }
    }

    /// The search for the first character that is uncommon.
    pub fn uncommon(&self) -> (search: Option<Search<T>>)
        ensures
            search == first_search(self.corpus, self.uncommon@),
    {
        if self.uncommon.is_empty() {
            None
        } else {
            Some(Search { corpus: self.corpus, value: self.uncommon[0] })
        }
    }

    /// The search for the first character that is common.
    pub fn common(&self) -> (search: Option<Search<T>>)
        ensures
            search == first_search(self.corpus, self.common@),
    {
        if self.common.is_empty() {
            None
        } else {
            Some(Search { corpus: self.corpus, value: self.common[0] })
        }
    }

    /// The search for the first character that is very common.
    pub fn very_common(&self) -> (search: Option<Search<T>>)
        ensures
            search == first_search(self.corpus, self.very_common@),
    {
        if self.very_common.is_empty() {
            None
        } else {
            Some(Search { corpus: self.corpus, value: self.very_common[0] })
        }
    }

    /// The search for the first character that is super common.
    pub fn super_common(&self) -> (search: Option<Search<T>>)
        ensures
            search == first_search(self.corpus, self.super_common@),
    {
        if self.super_common.is_empty() {
            None
        } else {
            Some(Search { corpus: self.corpus, value: self.super_common[0] })
        }
    }
}

} // verus!
