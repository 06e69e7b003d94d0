//! Verified control domain of a multi mixing-unit vision mixer.

pub mod clock;
pub mod command;
pub mod decklink;
pub mod domain;
pub mod engine;
pub mod error;
pub mod event;
pub mod event_hub;
pub mod gpu;
pub mod guid;
pub mod ids;
pub mod lifecycle;
pub mod pool;
pub mod port;
pub mod live;
pub mod media_file;
pub mod query;
pub mod readback;
pub mod render;
pub mod service;
pub mod session;
pub mod text;
pub mod video_trigger;
