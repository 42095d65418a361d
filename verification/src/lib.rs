//! A small actor runtime: actors own a FIFO mailbox, are addressed through
//! handles, and react to one message at a time.

pub mod actor;
pub mod mailbox;
pub mod message;
pub mod sample_actors;
pub mod stage;
pub mod system;
