//! Core logic of a host audio capture backend: device cataloguing and
//! selection under virtualized environments, capture-session bookkeeping,
//! running signal statistics, and WAV container encoding.
//!
//! Samples are carried as quantized signed 16-bit PCM values, the form in
//! which they are ultimately written to the output container.

pub mod b64;
pub mod capture;
pub mod catalog;
pub mod envinfo;
pub mod errors;
pub mod hosts;
pub mod probe;
pub mod ring;
pub mod select;
pub mod stats;
pub mod text;
pub mod wav;

pub use errors::CaptureError;
