//! The decision core of a small HTTP/1.1 server engine.
//!
//! Every rule the server follows lives here as a function from plain values
//! to plain values: how a request line is read, how a path is routed, what
//! bytes a response holds, which worker takes the next connection, and how
//! the cooperative loops react to what the sockets and channels report.
//! Sockets, threads and wakers belong to the program that drives these
//! functions.

pub mod connection;
pub mod executor;
pub mod io;
pub mod request;
pub mod response;
pub mod select;
pub mod server;
pub mod stream;
pub mod thread;
pub mod web;
