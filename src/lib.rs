//! A query/response streamed-data protocol for peer-to-peer connections, modelled as
//! verified state machines: a per-node behaviour that routes sessions to connections, and a
//! per-connection handler that owns the sessions' lifecycle.

pub mod session_id;
pub mod peer;
pub mod event;
pub mod queue;
pub mod inbound_session;
pub mod handler;
pub mod behaviour;
pub mod db;
