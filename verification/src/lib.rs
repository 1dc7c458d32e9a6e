//! A minimal HTTP/1.1 request/response protocol core.
//!
//! The library parses a constrained request subset from raw bytes, routes a
//! parsed request to one of a small set of built-in actions (echo, user-agent
//! reflection, file read/write under a served directory), and renders
//! responses back to wire bytes. All logic is verified; the surrounding
//! process (sockets, threads, filesystem) lives outside the library and
//! exchanges plain byte values with it.

pub mod scan;
pub mod request;
pub mod response;
pub mod dispatch;
pub mod laws;
