//! Host-side core of an out-of-process service runtime.
//!
//! A blockchain execution engine hands service logic to a worker that runs in
//! another process. This crate holds everything on the host side that can be
//! decided without touching the operating system: the wire format, message
//! framing, request/response correlation, deployment bookkeeping, error
//! classification, the worker restart policy and the adapter that ties them
//! together. Spawning the worker and moving bytes is left to the embedding
//! program, which feeds events in and carries actions out.
//!
//! The modules, from the leaves up:
//!
//! - [`errors`]: the failure kinds and their translation for the host;
//! - [`types`] and [`messages`]: the data model and the messages;
//! - [`codec`], [`wire`] and [`protocol`]: the wire format, with the proof
//!   that decoding inverts encoding;
//! - [`framing`]: frames on a byte stream;
//! - [`channel`]: correlation of responses with requests;
//! - [`pending_deployment`]: the table of artifact deployments;
//! - [`supervisor`]: the worker's lifecycle and restart policy;
//! - [`runtime_model`] and [`runtime`]: the adapter as a state machine, and
//!   the executable adapter that follows it.

pub mod channel;
pub mod codec;
pub mod errors;
pub mod framing;
pub mod messages;
pub mod pending_deployment;
pub mod protocol;
pub mod runtime;
pub mod runtime_model;
pub mod supervisor;
pub mod types;
pub mod wire;
