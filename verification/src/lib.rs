//! A small industrial-integration kernel: actor lifecycle and supervision,
//! a broker emulator for an AMQP-style message bus, and the decision logic
//! of the HTTP, SSH, OPC UA, SQL, periodic and child-process endpoints.
//!
//! Everything here is synchronous and does no I/O. Each endpoint is a value
//! with verified transitions: a driver outside this crate owns the sockets,
//! the timers and the child processes, carries out what a transition asks
//! for, and tells the endpoint how it went.
//!
//! The few calls that leave the crate (the clock, random ids, base64 and
//! UTF-8 decoding) are gathered in [`outside`]; their contracts are
//! believed, everything else is proved.

pub mod amqp;
pub mod azure;
pub mod clock;
pub mod error;
pub mod http;
pub mod lifecycle;
pub mod logger;
pub mod link;
pub mod mailbox;
pub mod opcua;
pub mod outside;
pub mod periodic;
pub mod process;
pub mod registry;
pub mod runtime;
pub mod sql;
pub mod stopwatch;
pub mod ssh;
pub mod subscription;
pub mod tags;
pub mod text;
pub mod vis2d;
