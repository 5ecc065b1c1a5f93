//! Request-execution core of a bridge between a tool protocol and a SurrealDB
//! database: rate-limit identities, the value codec between JSON trees and
//! database values, target rendering, and the shape of query responses.

pub mod engine;
pub mod metrics;
pub mod resources;
pub mod server;
pub mod text;
pub mod utils;
pub mod value;
