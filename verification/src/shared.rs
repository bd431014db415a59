pub mod error;
pub mod text;
