//! Core of a small static-file HTTP server.
//!
//! The library holds the request-processing pipeline: resolving a request
//! path into a filesystem location confined beneath a server root, mapping
//! file extensions to content types, turning file bytes into a response
//! payload (optionally gzip-compressed), and translating typed failures into
//! HTTP status codes.  Listener binding, argument handling and the worker
//! pool that performs the actual disk reads live outside the library and
//! exchange plain values with it.

pub mod content_type;
pub mod error;
pub mod handler;
pub mod paths;
pub mod response;

pub use error::Error;
pub use handler::RequestPlan;
pub use paths::StaticServer;
pub use response::HttpResponse;
