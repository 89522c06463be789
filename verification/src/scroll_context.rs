//! Which view's scroll position is active, and which saved positions may
//! be dropped when it is.

use vstd::prelude::*;

verus! {

/// The view whose scroll position is tracked.
#[derive(Clone, Copy, Debug, Eq, Hash, PartialEq, Structural)]
pub enum ScrollContext {
    NavPage,
    ExplorePage,
    SearchResults,
    DetailsPage,
}

impl ScrollContext {
    /// The contexts whose saved positions can be safely dropped while
    /// this one is active.
    pub fn unused_contexts(&self) -> (r: Vec<ScrollContext>)
        ensures
            *self is NavPage ==> r@ == seq![
                ScrollContext::DetailsPage,
                ScrollContext::SearchResults,
                ScrollContext::ExplorePage,
            ],
            *self is ExplorePage ==> r@ == seq![
                ScrollContext::DetailsPage,
                ScrollContext::SearchResults,
            ],
            *self is SearchResults ==> r@ == seq![ScrollContext::DetailsPage],
            *self is DetailsPage ==> r@ == Seq::<ScrollContext>::empty(),
    {
        let mut v: Vec<ScrollContext> = Vec::new();
        match self {
            Self::NavPage => {
                v.push(Self::DetailsPage);
                v.push(Self::SearchResults);
                v.push(Self::ExplorePage);
                proof {
                    assert(v@ =~= seq![
                        ScrollContext::DetailsPage,
                        ScrollContext::SearchResults,
                        ScrollContext::ExplorePage,
                    ]);
                }
            },
            Self::ExplorePage => {
                v.push(Self::DetailsPage);
                v.push(Self::SearchResults);
                proof {
                    assert(v@ =~= seq![ScrollContext::DetailsPage, ScrollContext::SearchResults]);
                }
            },
            Self::SearchResults => {
                v.push(Self::DetailsPage);
                proof {
                    assert(v@ =~= seq![ScrollContext::DetailsPage]);
                }
            },
            Self::DetailsPage => {
                proof {
                    assert(v@ =~= Seq::<ScrollContext>::empty());
                }
            },
        }
        v
    }
}

} // verus!
