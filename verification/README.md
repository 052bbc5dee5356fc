# GaleMind

The batching and model-buffering core of an ML inference server, written in Verus:
every function in `src/` carries a contract that Verus proves.

- `src/circular_buffer.rs`: the per-model request buffer that keeps the most recent items.
- `src/model_buffers.rs`: one such buffer per model, found by model name.
- `src/container.rs`: batchable items and the combiners that join and split batches.
- `src/config.rs`, `src/error.rs`, `src/time.rs`: dispatcher configuration, its validation,
  errors, and durations in whole nanoseconds.
- `src/regression.rs`, `src/optimizer.rs`: the least-squares fit of processing time against
  batch size, the sample window, the token bucket that paces refreshes, and the optimizer.
- `src/dispatch.rs`: the decisions of the CORK dispatcher, one step at a time.
- `src/metrics.rs`: the metrics counters and the collector that records into them (`app/` shares it under a lock).
- `src/latency.rs`: success counts, sorted latencies, average and percentile picks of a run.
- `src/cnn.rs`, `src/server.rs`, `src/prediction.rs`, `src/text.rs`: the demo model's plain
  data, server texts and addresses, service metadata, and decimal formatting.

`app/` is the program around the library: the command line, the asynchronous dispatcher
loop, the REST server and the neural-network demo. `tests/` runs the library on concrete
values.
