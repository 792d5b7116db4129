//! Nimbox: a cross-provider AI API compatibility proxy.
//!
//! This crate holds the proxy's logic: the rotating key pool, the
//! provider-scoped configuration store, the provider registry, the retry
//! decisions around provider calls, and the translations between the
//! OpenAI, Anthropic and Gemini wire formats and the internal chat model.

mod clock;
pub mod ai_studio;
pub mod anthropic_api;
pub mod chat;
pub mod cli;
pub mod config;
pub mod executor;
pub mod gemini_api;
pub mod json;
pub mod key_manager;
pub mod openai_api;
pub mod providers;
pub mod status;
pub mod text;
pub mod upstream;
