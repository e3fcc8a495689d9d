pub mod error;
pub mod grammar;
pub mod keyword;
pub mod laws;
pub mod parser;
pub mod scan;
