//! A typed client core for a page-oriented REST API.
//!
//! The crate builds request descriptions (paths, bodies, query strings) for
//! label and search endpoints, and turns a sequence of fetched pages into a
//! single ordered stream of items.  Transport is left to the caller: every
//! operation here is a pure computation from values to values.

use vstd::prelude::*;

pub mod encode;
pub mod labels;
pub mod query;
pub mod search;
pub mod stream;
pub mod users;

verus! {

/// Direction in which search results are sorted.
#[derive(Debug, PartialEq)]
pub enum SortDirection {
    /// Smallest first.
    Asc,
    /// Largest first.
    Desc,
}

/// The canonical query-string token for a sort direction.
pub open spec fn spec_direction_token(d: SortDirection) -> Seq<char> {
    match d {
        SortDirection::Asc => "asc"@,
        SortDirection::Desc => "desc"@,
    }
}

impl SortDirection {
    /// The canonical query-string token for this direction.
    pub fn token(&self) -> (r: &'static str)
        ensures
            r@ == spec_direction_token(*self),
    {
        match self {
            SortDirection::Asc => "asc",
            SortDirection::Desc => "desc",
        }
    }
}

} // verus!
