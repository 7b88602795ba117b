//! Request planning, model lookup and response shaping for an Ollama-style
//! inference server.

pub mod text;
pub mod models;
pub mod config;
pub mod requests;
pub mod clock;
pub mod ids;
pub mod clean;
pub mod catalog;
pub mod replies;
