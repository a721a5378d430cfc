//! The root query of the GraphQL schema that the server publishes.

use vstd::prelude::*;
use vstd::string::*;

verus! {

/// The root query object.
pub struct Query;

/// The answer of the `penis` field.
pub open spec fn greeting() -> Seq<char> {
    "penile world"@
}

impl Query {
    /// The root query object.
    pub fn new() -> (q: Query)
        ensures
            q == Query,
    {
        Query
    }

    /// The value of the `penis` field: `penile world`.
    pub fn penis() -> (r: String)
        ensures
            r@ == greeting(),
    {
        String::from_str("penile world")
    }
}

} // verus!
