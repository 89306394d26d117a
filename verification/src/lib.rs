//! Backend core of a small desktop application shell.
//!
//! The shell exposes two remote-invocable operations to a host GUI
//! runtime: one lists the open top-level windows (a stub that always
//! answers with an empty list), one asks the process to exit. This
//! crate holds the operations themselves and an explicit dispatch
//! table for them; the GUI runtime and the process exit live in the
//! surrounding binary.

pub mod dispatch;
pub mod window;
