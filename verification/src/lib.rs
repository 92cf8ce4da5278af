//! Observation of behaviour events inside a host process.
//!
//! The crate holds the decision logic of an in-process event listener:
//! locating a function in a loaded code image, keeping track of installed
//! call redirections, walking pointer chains through memory owned by the
//! host, filtering the recovered identifiers and shaping the datagrams that
//! report them. Everything that touches the host itself (raw memory, native
//! calls, sockets) is left to the caller, which is told what to do next and
//! reports back what it saw.
//!
//! * [`pattern`] and [`resolver`] find a function, by signature or by offset.
//! * [`functions`] names the functions of the host that are called or
//!   intercepted.
//! * [`hook`] keeps the record of the redirections.
//! * [`walker`], [`memory`] and [`text`] recover an identifier from memory.
//! * [`filter`] and [`telemetry`] decide what is reported and shape it.
//! * [`config`] and [`context`] hold the options and what interceptors share.
//! * [`intercept`] handles one intercepted call, [`bootstrap`] the start of
//!   the listener; [`dialogue`] and [`startup`] state what each amounts to
//!   as a whole.

pub mod bootstrap;
pub mod config;
pub mod context;
pub mod dialogue;
pub mod filter;
pub mod functions;
pub mod hook;
pub mod intercept;
pub mod memory;
pub mod pattern;
pub mod resolver;
pub mod startup;
pub mod telemetry;
pub mod text;
pub mod walker;
