//! A capability-aware conversation orchestrator for a publish/subscribe
//! assistant bus.
//!
//! The library keeps per-user dialogue state across turns, aggregates the
//! capabilities advertised by other bus participants into the system prompt
//! sent to the language-model provider, routes inbound bus messages by topic
//! and message type, and names the lifecycle events that bracket each
//! provider call.  The bus transport and the provider HTTP calls themselves
//! live outside the library; callers hand in plain values and receive plain
//! values back.

pub mod chat;
pub mod config;
pub mod conversation;
pub mod dispatch;
pub mod errors;
pub mod message;
pub mod system_msg;
pub mod text;
