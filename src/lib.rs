pub mod api;
pub mod chunk;
pub mod png;
pub mod laws;
