# adaptive_engine

A task-driven execution engine for stream-processing pipelines, with its
logic verified by Verus.

- `src/` is the verified library: pipeline graphs (building, validation,
  cycle detection, topological order), sequence numbers, task queues with
  four scheduling strategies, the executor's task handlers as transitions of
  an abstract executor state (`executor::model`), the query tracker that
  turns pipeline events into query events, and the engine's query registry.
  Calls into std channels and `rand` sit behind small trusted wrappers.
- `app/` is the threaded runtime around it: worker threads, the source
  message forwarder, the delayed-task timer, the query-event thread, the
  statistics receiver, thread-driven sources, and error types that implement
  `std::error::Error`.
- `tests/` exercises the library from outside.
