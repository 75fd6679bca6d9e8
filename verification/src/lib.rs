//! Verified core of the Amautum Transcriptor desktop agent.

pub mod amautum;
pub mod config;
pub mod delivery;
pub mod diarize;
pub mod ffmpeg;
pub mod models;
mod outside;
pub mod pending;
pub mod pipeline;
pub mod process;
pub mod progress;
pub mod server;
pub mod state;
pub mod text;
pub mod types;
pub mod updates;
pub mod whisper;
pub mod ws_hub;
