//! What the HTTP front needs decided for it.

pub mod limit;
