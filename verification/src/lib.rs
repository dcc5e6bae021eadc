//! A two-party rendezvous. Callers that name the same correlation id are
//! brought together: each waits until a second caller comes with its id, or
//! until a fixed deadline has passed.
//!
//! - [`actor_party_matcher`] is the matching engine: one sequential actor
//!   that owns the [`table`] of waiting requests and takes check-ins and
//!   check-outs one at a time. [`history`] states what holds of the table
//!   after any run of messages.
//! - [`handlers`] is the life of one wait request, from check-in to reply.
//!   [`lifecycle`] states what holds of every such life.
//! - [`notify`] declares the one-shot handles by which the matcher wakes a
//!   waiting request.
//! - [`server`] gives the addresses under which the service is reached.
//!
//! Nothing here waits, sleeps or listens: the engine is told each message,
//! and a request says what is to be done next and is told what came of it.

pub mod actor_party_matcher;
pub mod handlers;
pub mod history;
pub mod lifecycle;
pub mod notify;
pub mod server;
pub mod table;

pub use actor_party_matcher::{ActorPartyMatcher, RequestMsg, RespMsg};
pub use handlers::{HandlerErr, PendingRequest};
pub use server::Server;
