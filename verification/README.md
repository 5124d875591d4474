# experiment_lib

A benchmark harness that compares asynchronous channel and executor
implementations by pushing numbered messages through lanes of forwarding stages
into a concentrator. The decisions of the harness are a library with machine-checked proofs;
the channels, executors and threads that carry them out are ordinary Rust.

- `src/config.rs` - verbosity levels and the default experiment configuration.
- `src/cmd_line_parser.rs` - the command line grammar (`get_config`), its errors and their texts.
- `src/grammar_laws.rs` - laws of the grammar: reading left to right, long and short keyword forms.
- `src/text.rs` - decimal text, and the standard library calls that parse and format it.
- `src/forwarder.rs` - the forwarder state machine: configuration, sequence checks, forwarding, notification.
- `src/async_forwarder.rs` - the forwarder of the earlier experiments, with non-wrapping counters.
- `src/concentrator.rs` - the concentrator of the relay experiments.
- `src/wiring.rs` - how each kind of experiment wires its lanes, stages and concentrator.
- `src/pipeline.rs` - laws over whole message streams: sequencing down a pipeline, notification, and a whole experiment.
- `app/` - the program: drivers, channels, executor pools and the command line entry point.
  Two of the six experiments that the command line names, `async_channel` and
  `forwarder`, are inferred from their names and from the other experiments, as no
  definition of them exists: `async_channel` is the relay experiment of `smol` over
  async-channel channels (smol's channels are those of async-channel), and `forwarder`
  is the forwarder experiment of `flume_async_executor` over async-channel channels.
- `tests/` - runtime tests, including whole experiments simulated synchronously.
