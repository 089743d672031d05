//! Stability AI's Stable Image API as a backend of an MCP gateway: what is sent
//! for a request, what is made of an answer, and which bindings are registered.
//!
//! Everything here is pure but for making an HTTP client. Sending is left to
//! the caller: [`image_adapter::StabilityImageAdapter::prepare`] says what to
//! send, and [`image_adapter::conclude`] what became of it.

pub mod aspect;
pub mod config;
pub mod error;
pub mod image_adapter;
pub mod image_plugin;
pub mod outside;
pub mod response;
pub mod text;
