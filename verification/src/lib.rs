//! Capture, encoding, framing and control logic of the TurboCapture streaming tools.
pub mod args;
pub mod audio;
pub mod avcc;
pub mod bytes;
pub mod capture;
pub mod config;
pub mod device;
pub mod encoder;
pub mod events;
pub mod foreground;
pub mod frame;
pub mod geometry;
pub mod h264;
pub mod launch;
pub mod media;
pub mod metadata;
pub mod names;
pub mod observation;
pub mod patterns;
pub mod presets;
pub mod preview;
pub mod profiles;
pub mod proof_run;
pub mod publisher;
pub mod relay;
pub mod restart;
pub mod selector;
pub mod service;
pub mod shared_texture;
pub mod source;
pub mod status;
pub mod stream;
pub mod strings;
pub mod swap;
pub mod text;
pub mod texture;
pub mod video;
pub mod wire;
pub mod youtube_music;
