//! The error taxonomy of the orchestrator.
//!
//! Configuration errors are fatal at startup; routing errors mean the
//! offending message is dropped and the receive loop continues; provider
//! errors cover an empty or malformed provider response as well as a
//! transport failure reported by the caller; a reply-construction error
//! means the inbound message carried no topic to answer on.

use vstd::prelude::*;

verus! {

/// A required configuration key was absent at startup.
#[derive(Clone, Copy, PartialEq, Eq, Structural, Debug)]
pub enum ConfigError {
    /// The provider API key is required and was not configured.
    MissingApiKey,
}

/// Why an inbound bus message was dropped without being handled.
#[derive(Clone, Copy, PartialEq, Eq, Structural, Debug)]
pub enum DispatchError {
    /// The message's type is not accepted on the topic it arrived on.
    UnsupportedMessageType,
    /// The topic is none of the topics this module listens on.
    UnknownTopic,
}

/// A failure around one provider call.
///
/// `==` on this type is for callers outside the library; verified code
/// matches on the variants instead.
#[derive(Clone, PartialEq, Eq, Debug)]
pub enum ProviderError {
    /// The provider answered, but with no choices or no message content.
    EmptyResponse,
    /// The transport reported a failure; the text is the caller's account of it.
    Http(String),
}

/// An outbound reply could not be built: the inbound message carried no
/// topic to answer on.
#[derive(Clone, Copy, PartialEq, Eq, Structural, Debug)]
pub struct ReplyError;

} // verus!
