# canopen_sdo

Sans-IO CANopen SDO (CiA 301) client and server, verified with Verus.

The state machines do no I/O: they are fed CAN frames and report which frame
to send next and when a timeout is due. Expedited and segmented transfers in
both directions, toggle handling, the standard abort codes and timeouts are
supported; block transfer is not.

## Layout

- `src/` — the verified library.
  - `frame.rs`, `wire.rs`, `abort.rs`, `error.rs` — COB-IDs, the shared wire
    codec, abort codes and the protocol error.
  - `client.rs` (+ `client/enc.rs`) — the client state machine, its model
    (`ClientModel`) and the transition functions its methods are proved
    against.
  - `server.rs` — the server state machine over a caller-provided
    `ObjectDictionary`, bounded by a fixed capacity `N`. The server keeps a
    ghost record of every call it makes into the dictionary, with its
    arguments and answer, and its contract states that record.
  - `loopback.rs` — proofs, over the client and server models, that the two
    agree on the wire: an upload delivers exactly the value the dictionary
    holds, a download hands the dictionary exactly the client's bytes, and a
    refusal reaches the client as the dictionary's abort code. Every call of
    the state machines is proved to be one model step (the server's with the
    dictionary's recorded answer), which is how these carry over to them.
  - `asynch.rs` — the decisions of the CAN glue: conversion to and from
    `can_transport` frames, the client configuration for a timeout, when to
    retry.
- `tests/` — unit and loopback tests.
- `app/` — the tokio glue (`upload_bytes`, `download_bytes` and their
  retrying variants) and the `Display` texts of the error types.

Time is a monotonic `u64` of the caller's unit (nanoseconds in the tokio
glue); `now` plus a timeout must fit in a `u64`.
