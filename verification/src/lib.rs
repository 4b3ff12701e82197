//! A single-instance command relay: the rules by which a running process
//! frames, queues and answers the commands that later invocations forward
//! to it over a local endpoint, and by which those invocations decide to
//! forward and classify what went wrong.
//!
//! Everything here works on plain values. Sockets, tasks and channels belong
//! to the program that embeds the library.

pub mod client;
pub mod error;
pub mod event;
pub mod forward;
pub mod framing;
pub mod server;
