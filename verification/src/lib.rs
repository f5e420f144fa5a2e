//! Verified core of a UDP network-discovery client.
//!
//! A discovery round broadcasts a one-byte probe and then collects reply
//! datagrams until the socket read times out.  Each reply payload is decoded
//! as UTF-8 and split on `"\r\n"` into a device record.  This crate holds the
//! record parser and the per-event session decisions; the socket I/O around
//! them lives with the binary.

pub mod parser;
pub mod session;
