//! Core of a soundboard's virtual-microphone routing subsystem.
//!
//! The library models and verifies the decisions of the subsystem: parsing the
//! sound server's device listings into records, selecting and labelling
//! routable application streams, building and tearing down the virtual device
//! graph all-or-nothing, bridging capture and render callbacks through a
//! bounded sample queue, tracking concurrently playing sessions, and keeping
//! the user's routing selection consistent with the polled device list.
//! Executing sound-server commands, opening audio devices and decoding files
//! is left to the surrounding application, which talks to this library in
//! plain values.
pub mod command;
pub mod audio_core;
pub mod device;
pub mod graph;
pub mod listing;
pub mod numstr;
pub mod ring;
pub mod selection;
pub mod sessions;
pub mod textscan;
