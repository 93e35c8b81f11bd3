//! Request dispatch for a small HTTP/1.x server that rolls a twenty-sided
//! die, serves static files and stores one document.
//!
//! The crate holds the decisions of one connection: how the first bytes of
//! a request select a handler, which path a file request names, where the
//! body of a save request begins, how a response is laid out on the wire,
//! and in which order a connection reads, loads, locks, writes, answers
//! and closes. Sockets, files and the file lock belong to the caller, which
//! performs each [`connection::Action`] and reports what happened as an
//! [`connection::Event`].
//!
//! [`laws`] states what holds of every connection. [`world`] sets many
//! connections side by side over shared files, and shows that the lock
//! keeps the saved document whole. [`service`] states what each kind of
//! request is answered with.

pub mod ascii;
pub mod body;
pub mod buffer;
pub mod connection;
pub mod decimal;
pub mod dice;
pub mod laws;
pub mod path;
pub mod response;
pub mod route;
pub mod service;
pub mod world;
