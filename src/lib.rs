//! A covert channel that carries bytes in the low byte of the sequence
//! numbers of forged TCP SYN packets, sent directly to a friend or bounced
//! off an unrelated TCP service.
//!
//! The library holds the logic of the channel: the wire format of the forged
//! packets, the sender's choice of sequence numbers and of when to report
//! progress, and the receiver's filter, duplicate suppression and framing.
//! Sockets, timers and threads belong to the program that drives it.

pub mod packet;
pub mod config;
pub mod receiver;
pub mod sender;
pub mod laws;
