//! Cache validators for the single-handler server: the same rules as for
//! static files of the routed server.

pub use crate::files::etag::{calculate, generate, if_none_match, FileMetadata, Modified};
