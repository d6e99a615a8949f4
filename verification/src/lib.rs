//! Discovery and control of smart lights on a local network.
//!
//! The library has two parts, used one after the other. The discovery engine
//! builds the multicast probe and turns the replies that arrived during the
//! collection window into an ordered, de-duplicated list of device records.
//! The control session frames a single command for one of those devices and
//! tracks the connect/write/read exchange as a small state machine.
//!
//! All network I/O (sockets, threads, timing) lives outside the library; the
//! functions here work on the plain values that the I/O layer hands in and
//! out.

pub mod control;
pub mod device;
pub mod discovery;
pub mod text;
