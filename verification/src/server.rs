//! The OpenAI-compatible server: what it accepts and what it answers.

pub mod app;
pub mod audio_input;
pub mod protocol;
pub mod settings;
