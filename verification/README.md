# sfo_io

Building blocks for asynchronous I/O:

- `speed_limiter`, `limit_stream`, `limit_datagram`: limits on how fast data goes through streams
  and datagram sockets, in chains of limiters that all have to agree;
- `speed_stat`, `stat_stream`: how much data went through a stream, and how fast;
- `copy_bidirectional`: copying between two streams until both ends are done, with timeouts;
- `buf`, `offload`, `blocking`, `simple_async_io`: readers and writers whose work is done elsewhere;
- `qa_process`: child processes that ask questions.

The library in `src/` is verified with Verus. It decides and keeps the accounts: what to do next is
handed out as a value, and what came of it is handed back in. `app/` does the I/O around it: tasks,
timers, sockets, threads and processes, and the traits of tokio. `tests/` runs the library, with the
calls that it makes into other crates.
