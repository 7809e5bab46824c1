//! A Flash movie player's machine, seen from its host: how often the movie is
//! stepped, what reaches it as input, which files it is given, and what the
//! host reads back.
pub mod buffer;
pub mod config;
pub mod digest;
pub mod exports;
pub mod input;
pub mod locale;
pub mod log;
pub mod machine;
pub mod native;
pub mod navigator;
pub mod pacing;
pub mod picture;
pub mod renderer;
pub mod settings;
pub mod sha1;
pub mod text;
