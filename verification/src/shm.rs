//! Reader side of the shared-memory rings and the poller that drains them.

pub mod barrier;
pub mod image;
pub mod layout;
pub mod poller;
pub mod ring;
pub mod ring_laws;
