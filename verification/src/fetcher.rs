//! Sources of further properties. A rule names its sources; asking one is
//! the caller's work, the library says what to ask and uses the answer.

use vstd::prelude::*;
use crate::pattern::{render, Pattern};
use crate::props::PropertyMap;

verus! {

/// One set of properties that a source gave.
#[derive(Debug)]
pub struct FetchResult {
    pub props: PropertyMap,
}

/// A source of properties: the pattern of the address to ask, and a word
/// on how its answer is to be read.
#[derive(Debug)]
pub struct Fetcher {
    pub url: Pattern,
    pub returns: String,
}

/// A source as plain text.
pub struct FetcherView {
    pub url: Seq<char>,
    pub returns: Seq<char>,
}

impl View for Fetcher {
    type V = FetcherView;

    open spec fn view(&self) -> FetcherView {
        FetcherView { url: self.url.src@, returns: self.returns@ }
    }
}

/// The sources of a list as plain text, in order.
pub open spec fn fetcher_views(s: Seq<Fetcher>) -> Seq<FetcherView> {
    Seq::new(s.len(), |i: int| s[i]@)
}

/// The property maps of a source's answer, in order.
pub open spec fn fetched_maps(answer: Seq<FetchResult>) -> Seq<Map<Seq<char>, Seq<char>>> {
    Seq::new(answer.len(), |i: int| answer[i].props@)
}

impl Fetcher {
    /// The address to ask for a task with these properties: the source's
    /// pattern rendered against them.
    pub fn address(&self, props: &PropertyMap) -> (r: String)
        ensures
            r@ == render(self.url.src@, props@),
    {
        self.url.inject(props)
    }
}

} // verus!
