//! Core of a chat-driven bridge to a streaming AI coding agent.
//!
//! The library holds the verified logic of the bridge: the protocol
//! normalizer that turns backend JSON events into a closed event type, the
//! per-attempt and retry bookkeeping around one backend invocation, the
//! per-chat session state with its bounded history and admission control,
//! the reservation-based rate limiter, and the render-loop state machine
//! that accumulates streamed events into user-visible text.
//!
//! Process spawning, chat transport and file I/O live outside the library
//! and hand it plain values.

pub mod auth;
pub mod codex;
pub mod events;
pub mod i18n;
pub mod json;
pub mod render;
pub mod session;
pub mod state;
pub mod storage;
pub mod text;
pub mod tools;
