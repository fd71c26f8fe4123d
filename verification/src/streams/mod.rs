//! Streams: the pipeline part of stream manifests, its normalization and
//! validation, and the small request rules of the stream handlers.
pub mod manifest;
pub mod outputs;
pub mod pipeline;
pub mod pipeline_laws;
pub mod validation;
pub mod checks;
pub mod bindings;
pub mod media;
pub mod codecs;
pub mod normalize;
pub mod validate;
pub mod engine_reply;
pub mod calibration;
pub mod preview;
pub mod media_replay;
pub mod lifecycle;
pub mod controls;
pub mod grid;
pub mod edits;
pub mod autostart;
pub mod bench;
pub mod bench_run;
pub mod identity;
pub mod profiling;
pub mod wiring;
pub mod pumps;
pub mod starting;
pub mod records;
pub mod ports;
pub mod host_inputs;
