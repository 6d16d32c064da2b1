//! What the rest of the library is written in: text, numbers, JSON, time.
pub mod decimal;
pub mod dict;
pub mod json;
pub mod laws;
pub mod list;
pub mod meta;
pub mod sort;
pub mod text;
pub mod time;
pub mod within;
