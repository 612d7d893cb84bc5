//! Standard MIDI File decoding and deterministic rendering.
//!
//! The crate decodes a raw byte buffer into a structured event timeline
//! (`decode`), derives per-track metadata such as channel sets and total
//! duration (`metadata`), and replays the timeline into either fixed-length
//! sample-range plans (`synth`) or absolute-time note descriptors
//! (`schedule`). All time bookkeeping is exact integer arithmetic over
//! nanoseconds; evaluating waveforms at those sample positions is left to
//! the embedding application.

pub mod decode;
pub mod metadata;
pub mod events;
pub mod reader;
pub mod schedule;
pub mod synth;
pub mod timing;
