//! Server-side rendering of React pages: the stream that a script writes
//! its HTML into, and how the renderer finds that stream among the
//! resources of the script's runtime.

pub mod resources;

use vstd::prelude::*;
use crate::error::{Error, err};
use crate::renderer::resources::{ByteStream, byte_stream_name};

verus! {

/// The resource id that a resource table gives to `name`: the id of the last
/// listed resource with that name (later entries replace earlier ones when
/// the list is collected into a map by name).
pub open spec fn last_id_named(names: Seq<(u32, Seq<char>)>, name: Seq<char>) -> Option<u32>
    decreases names.len(),
{
    if names.len() == 0 {
        None
    } else if names.last().1 == name {
        Some(names.last().0)
    } else {
        last_id_named(names.drop_last(), name)
    }
}

/// The `(id, name)` pairs of a resource table, by name.
pub open spec fn names_view(names: Seq<(u32, String)>) -> Seq<(u32, Seq<char>)> {
    names.map_values(|p: (u32, String)| (p.0, p.1@))
}

/// The id of the resource called `name` among the `(id, name)` pairs of a
/// resource table, as a map from names to ids built from the pairs in order
/// holds it.
pub fn resource_id(names: &Vec<(u32, String)>, name: &str) -> (r: Option<u32>)
    ensures
        r == last_id_named(names_view(names@), name@),
{
    let ghost v = names_view(names@);
    let mut i: usize = names.len();
    assert(v.subrange(0, i as int) =~= v);
    while i > 0
        invariant
            i <= names@.len(),
            v == names_view(names@),
            last_id_named(v, name@) == last_id_named(v.subrange(0, i as int), name@),
        decreases i,
    {
        let ghost w = v.subrange(0, i as int);
        assert(w.last() == (names@[i - 1].0, names@[i - 1].1@));
        assert(w.drop_last() =~= v.subrange(0, i - 1));
        if crate::text::str_eq(names[i - 1].1.as_str(), name) {
            return Some(names[i - 1].0);
        }
        i = i - 1;
    }
    None
}

/// Renders React pages by running a script that writes HTML into a
/// `ByteStream`.
pub struct ReactRenderer;

/// The message of the error for a script that opened no stream.
pub open spec fn missing_stream_message() -> Seq<char> {
    "RID not found for stream"@
}

impl ReactRenderer {
    /// The id of the stream that the script opened, found by the stream's
    /// name among the `(id, name)` pairs of its resource table; an error when
    /// there is none.
    pub fn stream_rid(names: &Vec<(u32, String)>) -> (r: Result<u32, Error>)
        ensures
            last_id_named(names_view(names@), byte_stream_name()) matches Some(id) ==> r == Ok::<u32, Error>(id),
            last_id_named(names_view(names@), byte_stream_name()) is None ==> (r matches Err(Error::Message(m)) && m@ == missing_stream_message()),
    {
        let name = ByteStream::name();
        match resource_id(names, name.as_str()) {
            Some(rid) => Ok(rid),
            None => Err(err("RID not found for stream")),
        }
    }
}

} // verus!
