//! Core of an asynchronous client and OpenAI-compatible server for Doubao IME
//! speech recognition.

pub mod audio;
pub mod client;
pub mod clock;
pub mod config;
pub mod credentials;
pub mod enrollment;
pub mod error;
pub mod flow;
pub mod identity;
pub mod json;
pub mod provider;
pub mod sami;
pub mod server;
pub mod storage;
pub mod text;
pub mod urls;

pub use client::{Client, ClientBuilder, Transcript, PROVIDER};
pub use error::Error;
