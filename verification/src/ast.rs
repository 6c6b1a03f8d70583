pub mod base;
pub mod import;
