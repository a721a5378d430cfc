//! The root query of the database-backed GraphQL schema.

use vstd::prelude::*;

verus! {

/// The root query object.
pub struct Query;

impl Query {
    /// The root query object.
    pub fn new() -> (q: Query)
        ensures
            q == Query,
    {
        Query
    }
}

} // verus!
