//! Verified core of a benchmark harness that compares asynchronous channel and
//! executor implementations: the experiment configuration, the command line
//! grammar, the forwarding state machines that make up a pipeline, and the
//! wiring plans that connect pipelines, lanes and the concentrator.
pub mod async_forwarder;
pub mod cmd_line_parser;
pub mod concentrator;
pub mod config;
pub mod forwarder;
pub mod grammar_laws;
pub mod pipeline;
pub mod text;
pub mod wiring;
