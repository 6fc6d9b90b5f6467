//! Core of a local desktop shell: it resolves the port its embedded asset
//! server must bind from a configured URL, routes HTTP paths over a set of
//! mounted asset roots with single-page-application fallback, and drives the
//! window lifecycle as a small state machine. All I/O (sockets, filesystem,
//! windowing) lives outside this crate; the logic here is pure and verified.
pub mod bytes;
pub mod lifecycle;
pub mod port;
pub mod router;
