# jsonrpc-client

An asynchronous JSON-RPC 2.0 client whose decisions are verified with Verus.

* `src/` is the verified library. It hands out request IDs, writes requests and
  batches as text, and keeps track of calls, batches, subscriptions and
  notification handlers. The background task of a client is a state machine in
  `backend`: an event leads to an action, and what comes of the action leads to
  the next one. `step` says what each event leads to, `run` what any number of
  steps leaves as it was, and `laws` what holds from a call to its answer.
* `app/` is the client that a program uses: it spawns the background task, waits
  with a timeout, moves text between the transport and the library, and reads
  text with `serde`.
* `tests/` runs the library, together with `futures-channel` and `serde_json`.

What the library takes on trust is in `channel` and `reply` (the channels of
`futures-channel`), `json` (values and text of `serde_json`), `digest` (the sort
of the standard library) and `client` (`Duration::from_secs`).
