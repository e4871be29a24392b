//! Core of a real-time message relay: a registry of peer groups, a handler
//! per connection, and the fan-out of each received message to the members
//! of the sender's group.
//!
//! Peers are named by an integer identity ([`registry::PeerId`]); the
//! transport that owns the actual connections performs the sends that a
//! [`dispatch::Broadcast`] lists and reports each outcome back to it.
pub mod registry;
pub mod dispatch;
pub mod handler;
pub mod laws;
