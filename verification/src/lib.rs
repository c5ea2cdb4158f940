//! A multi-process event bus over shared memory, and the local event engine around it.
//!
//! The library holds the rules: the byte layout of the bus, the client table, the ring of
//! event slots, the publisher, subscriber and engine state machines, and the handler
//! registry.  It never touches the mapping, a thread or the clock.  Code that does hands the
//! library what it observed and carries out, in order, the stores and actions that the
//! library hands back.
pub mod access;
pub mod client_laws;
pub mod clients;
pub mod dispatch;
pub mod engine;
pub mod errors;
pub mod event;
pub mod handlers;
pub mod header;
pub mod image;
pub mod layout;
pub mod mem;
pub mod names;
pub mod open;
pub mod poll;
pub mod poll_laws;
pub mod publisher;
pub mod ring;
pub mod ring_laws;
pub mod subscriber;
pub mod teardown;
pub mod text;
pub mod timing;
pub mod workers;
