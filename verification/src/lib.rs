//! Core logic of a voice-chat client's real-time voice pipeline.
//!
//! The library covers the parts of the pipeline that are pure data logic:
//! the single-producer/single-consumer sample ring with its drop-on-overflow
//! and silence-on-underflow discipline, frame assembly on the capture side,
//! sequence stamping of outgoing packets, the binary wire format of a voice
//! datagram, the per-speaker jitter channels with their stale-packet policy
//! and new-speaker detection, per-speaker volume scaling, and additive
//! clamped mixing.
//!
//! Audio samples are 16-bit PCM throughout, and per-speaker volume is a
//! fixed-point gain with 256 as unity, so every contract is stated in exact
//! integer arithmetic. Device callbacks, the opus codec, and the network
//! transport live outside the library and exchange plain values with it.

pub mod capture;
pub mod config;
pub mod messages;
pub mod mix;
pub mod output;
pub mod ring;
pub mod wire;
