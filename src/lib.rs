//! A FIX session client: framing, message building, field lookup, credential
//! signing, the session state machines and a threshold strategy.
pub mod framing;
pub mod message;
pub mod strategy;
pub mod builders;
pub mod credentials;
pub mod session;
