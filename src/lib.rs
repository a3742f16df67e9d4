//! Copies locally stored RFC 822 messages into a remote mailbox: which files are
//! taken, how a message's identifier header is replaced, and how a transfer run
//! reacts to each connection, read and append outcome.

pub mod config;
pub mod discovery;
pub mod message_id;
pub mod transfer;
