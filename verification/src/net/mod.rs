//! Networking: when a TCP operation waits, and when it is done.

pub mod tcp;
