//! The rules of an audio extraction tool: which videos are accepted, where the
//! extracted audio goes, how FFmpeg is called, and what the local media server
//! answers while a video is previewed.

pub mod args;
pub mod direct;
pub mod error;
pub mod extract;
pub mod handlers;
pub mod mp4;
pub mod number;
pub mod output;
pub mod paths;
pub mod playlist;
pub mod probe;
pub mod range;
pub mod registry;
pub mod rules;
pub mod server;
pub mod task;
pub mod text;
pub mod transcode;
pub mod waveform;
