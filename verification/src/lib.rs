//! Recording configuration for an audio/video recording engine, with the
//! nul-terminated text encoding that the engine's native interface expects.

pub mod config;
pub mod text;

pub use config::{Config, ConfigView};
pub use text::{DecodeError, EncodeError};
