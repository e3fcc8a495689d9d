pub mod json;
pub mod laws;
