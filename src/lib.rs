//! An IMAP front end for a webmail-style message store: command framing
//! decisions, the session state machine, sequence sets, the mailbox
//! directory and the synthesis of RFC 822 messages.
pub mod auth;
pub mod fetch;
pub mod framing;
pub mod lsub;
pub mod mailbox;
pub mod message;
pub mod response;
pub mod sequence;
pub mod session;
pub mod status;
pub mod store;
pub mod text;
