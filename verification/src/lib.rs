//! Whispr: the verified core of a push-to-talk dictation tool.

pub mod audio;
pub mod client;
pub mod config;
pub mod dictation;
pub mod dictionary;
pub mod gateway;
pub mod insert;
pub mod protocol;
pub mod text;
pub mod vad;
