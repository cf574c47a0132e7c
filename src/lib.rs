//! Answers a question from Wikipedia: a language model derives a search
//! keyword, the encyclopedia is searched, the top extracts are fetched and a
//! model answers from them. The network work is done by the caller; this
//! library builds every request, reads every response and decides each step.
pub mod text;
pub mod config;
pub mod json;
pub mod wiki;
pub mod chat;
pub mod pipeline;
