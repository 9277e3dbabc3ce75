//! A small HTTP/1.x engine: request parsing and path normalization, header
//! maps, response heads, the decisions of a connection's worker, and a
//! text-substitution template helper for building response bodies.
pub mod dispatch;
pub mod headers;
pub mod parse;
pub mod path;
pub mod respond;
pub mod template;
pub mod text;
pub mod types;
pub mod wire;
