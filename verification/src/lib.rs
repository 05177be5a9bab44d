//! Coordination server core for threshold-ECDSA ceremonies.
//!
//! Clients taking part in a multi-party computation never talk to each
//! other directly: a relay server holds groups of connected clients,
//! sessions within each group, and party signups within each session,
//! and routes opaque round payloads between parties.  This crate is the
//! verified coordination engine of such a server: the data model, the
//! per-method request handling, the notification fan-out decisions and
//! the connection lifecycle.  The transport (websockets, JSON framing)
//! lives outside and hands the engine plain values.

#![verifier::loop_isolation(false)]

use vstd::prelude::*;

pub mod errors;
pub mod group;
mod ids;
pub mod laws;
pub mod notify;
pub mod params;
pub mod services;
pub mod session;
pub mod state;

pub use errors::ServiceError;
pub use group::Group;
pub use notify::{Event, Notification, Proposal, SessionInfo};
pub use params::Parameters;
pub use services::{handle_request, MethodCall, NotifyHandler, Reply, ServiceHandler};
pub use session::{Message, PartySignup, Session, SessionKind};
pub use state::State;
