//! A log-structured page store: fixed-size pages appended to one commit log,
//! addressed by disk pointers, and the per-connection command protocol that
//! serializes appends and flushes into an asynchronous I/O ring.
//!
//! The crate performs no I/O itself. It decides what is to be done next and
//! what each completed operation means; a driver carries the operations out.

pub mod action;
pub mod command;
pub mod log;
pub mod pagecache;
pub mod system;
pub mod wire;
