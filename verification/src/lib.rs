//! Wake-word listening and the Qwen3-ASR engine, with every decision proved.

pub mod detector;
pub mod digest;
pub mod download;
pub mod install;
pub mod installer;
pub mod json;
pub mod language;
pub mod machine;
pub mod runtime;
pub mod session;
pub mod settings;
pub mod sidecar;
pub mod text;
pub mod transcription;
