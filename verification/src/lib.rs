//! Request and response logic of the seagull web server: content types,
//! cache validators (`Last-Modified`, `Cache-Control`, weak entity tags and
//! the not-modified status), the routing decisions of the request handlers,
//! and the byte stream that carries server-side rendered HTML.
//!
//! The server comes in two forms that share this logic: a routed server
//! (GraphQL routes and a fallback for pages and files; `files`, `handler`)
//! and a single-handler server that fills in the response of a whole
//! message (`content_type`, `etag`, `handler::dispatch`).
//!
//! The parts of HTTP messages that the logic reads are held as plain values
//! (`http`); the I/O around them (sockets, files, upstream fetches, the
//! database) is done by the application.

pub mod text;
pub mod error;
pub mod http;
pub mod message;
pub mod files;
pub mod content_type;
pub mod etag;
pub mod renderer;
pub mod graphql;
pub mod handler;
