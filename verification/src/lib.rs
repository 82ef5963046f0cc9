//! The request-assembly pipeline of a command-line HTTP client: folding
//! `key=value` arguments into a nested JSON body, merging header sources,
//! describing the request, tracing it through the middleware chain, and
//! deciding how the response is rendered.

pub mod error;
pub mod headers;
pub mod help;
pub mod json;
pub mod middleware;
pub mod pairs;
pub mod render;
pub mod request;
pub mod text;
pub mod tree;
pub mod tree_laws;

pub use crate::help::examples;
pub use crate::middleware::VerboseMiddleware;
pub use crate::pairs::split_pair;
pub use crate::tree::build_map;
