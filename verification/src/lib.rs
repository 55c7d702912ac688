//! Connection-graph manager of a multichannel audio switcher.
//!
//! The library turns a configuration of logical stereo channels into the
//! port-to-port wiring of an audio client, keeps that wiring at hand while
//! ports appear in the live audio graph, and relays connect and disconnect
//! commands to the audio thread through a wait-free ring buffer.

pub mod channel;
pub mod command;
pub mod config;
pub mod connection;
pub mod control;
pub mod lifecycle;
pub mod naming;
pub mod stereo;
