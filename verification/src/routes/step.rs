//! What a route does next, where it needs something done outside.
//!
//! A route that reads or writes a file is a function from what has come back so
//! far to what to do next. Nothing that has not come back yet is looked at.

use vstd::prelude::*;

use crate::routes::http::{Res, ResView};

verus! {

/// What to do next.
pub enum Next<A> {
    /// Do this, and ask again with what came back.
    Do(A),
    /// Answer this.
    Reply(Res),
}

/// What to do next, as contracts speak of it.
pub enum NextView<A> {
    Do(A),
    Reply(ResView),
}

impl<A> View for Next<A> {
    type V = NextView<A>;

    open spec fn view(&self) -> NextView<A> {
        match self {
            Next::Do(a) => NextView::Do(*a),
            Next::Reply(r) => NextView::Reply(r@),
        }
    }
}

} // verus!
