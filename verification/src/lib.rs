//! Core of a connection-multiplexing websocket backend: session-identity
//! extraction, a lazily-populated route registry that hands out addresses of
//! shared backend handlers, and the per-connection supervisor's heartbeat and
//! frame-relay decisions.
pub mod messages;
pub mod routing;
pub mod user;
pub mod websocket_actor;
