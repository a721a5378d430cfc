//! Static-file response headers: the content type and the cache validators.

pub mod content_type;
pub mod etag;
