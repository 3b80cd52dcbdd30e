//! A banned-words filter for chat messages.
//!
//! The library decides: which banned word a message spells (`detect`), what is
//! shown of it (`censor`), what the engine is answered (`filter`), and how the
//! questions, the settings and the model review go on (`prompt`, `config`,
//! `review`). Its callers carry out what it decides.

pub mod censor;
pub mod config;
pub mod detect;
pub mod filter;
pub mod json;
pub mod list;
pub mod message;
pub mod prompt;
pub mod review;
pub mod score;
pub mod text;
