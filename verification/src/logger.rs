//! Records, their table rows, and the flusher that batches rows for the sink.

pub mod flusher_laws;
pub mod log_flusher;
pub mod reconnect;
pub mod row;
pub mod sink;
pub mod types;
