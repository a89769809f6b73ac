//! Things that can be summed up in a line of text.

use vstd::prelude::*;

verus! {

/// A value that has a one-line summary.
pub trait Summary {
    /// The text that `summarize` returns.
    spec fn summary_text(&self) -> Seq<char>;

    /// The summary of this value.
    fn summarize(&self) -> (r: String)
        ensures
            r@ == self.summary_text(),
    ;
}

/// A post with its author.
pub struct Post {
    pub author: String,
    pub content: String,
}

impl Summary for Post {
    /// A post is summed up by naming its author.
    open spec fn summary_text(&self) -> Seq<char> {
        self.author@
    }

    fn summarize(&self) -> (r: String) {
        self.author.clone()
    }
}

} // verus!
