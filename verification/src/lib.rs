//! Bridge between a trading engine's event rings in shared memory and a
//! time-series store.
//!
//! `shm` holds the reader's side of a ring, the byte layout of segments and
//! records, an in-process image of a segment with the writer's step, and the
//! poller that hands records to bounded channels. `logger` holds the
//! records, their table rows, the buffer the rows wait in, the flusher that
//! decides when the rows are sent, and the pause between attempts to reach
//! a sink that is down. `channel` holds the two non-blocking channel
//! operations both sides use.
//!
//! Mapping shared memory, sending to the store, sleeping and reading the
//! clock are left to the caller: the poller is handed the bytes of the
//! segments and reads the next record of each; the flusher is told the time
//! and says what to send.

pub mod channel;
pub mod logger;
pub mod shm;
