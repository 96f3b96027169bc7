//! Core of a game-launcher backend: a bounded, FIFO-evicting log buffer per
//! session, a registry that shares buffers between uncoordinated owners, and
//! the batching state machine that moves captured output lines from a reader
//! into the buffer while notifying subscribers.
//!
//! Buffer and registry operations are short, sequential critical sections;
//! a concurrent embedding runs each under one mutual-exclusion lock, which
//! makes every append atomic with respect to readers. Around them sit the
//! sequential rules of the launcher: installation detection, path
//! resolution, game data assembly, and wine version management — with the
//! process spawns, file reads and network fetches kept outside, handing in
//! plain values.

pub mod diagnostics;
pub mod games;
pub mod log_buffer;
pub mod lutris_config;
pub mod paths;
pub mod pipeline;
pub mod proton;
pub mod strutil;
pub mod wine;
