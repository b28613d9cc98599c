# stream_owl

Stream positions, stores and protocol logic of a seekable HTTP stream
downloader, verified with Verus.

- `src/` is the library. Every function in it carries a contract that Verus
  proves; calls into outside crates (`rangemap`, `socket2`, `http`) go
  through small trusted wrappers whose contracts say what those crates
  document.
  - `http_client`: reading response heads, the headers of range requests,
    cookies, following redirects, the known stream size, throttling
    decisions.
  - `store`: the limited and unlimited memory stores, the disk store's
    progress record, capacity bookkeeping, migration planning.
  - `stream`: the decisions of the task that streams into a store, pausing.
  - `reader`, `target`: where a reader and the writer are, seeks, prefetch.
  - `text`, `range_set`, `vecdeque`: byte strings, sets of ranges, ring
    buffers.
- `tests/` runs the library on concrete values.
- `app/` is the asynchronous I/O around the library: sockets, HTTP
  connections, files, the stream task, the blocking reader, the manager
  that runs many streams, and the servers that streams are tried against.
