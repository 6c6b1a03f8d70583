pub mod ast;
pub mod generate;
pub mod languages;
pub mod laws;
pub mod parse;
