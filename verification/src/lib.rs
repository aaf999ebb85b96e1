//! Building blocks for byte streams and datagram sockets: rate limits that can be nested, speed
//! statistics, adapters that run blocking work elsewhere, a copy loop in both directions with an
//! idle timeout, and dialogues with child processes.
//!
//! Nothing in here waits or performs I/O. Each type is a state machine: a call says what has to be
//! done next, and the caller reports how that went.

pub mod blocking;
pub mod buf;
pub mod copy_bidirectional;
pub mod error;
pub mod limit_datagram;
pub mod limit_stream;
pub mod offload;
pub mod poll;
pub mod qa_process;
pub mod read_buf;
pub mod simple_async_io;
pub mod speed_limiter;
pub mod speed_stat;
pub mod stat_stream;
