//! Verified core of a command-line tool that gives images and videos the
//! look of an analog VHS tape: path handling, orientation correction,
//! 4:3 framing, ffmpeg command lines, progress reporting and the integer
//! part of the audio effects.

pub mod raster;
pub mod text;
pub mod path;
pub mod progress;
pub mod ffmpeg;
pub mod video;
pub mod audio;
pub mod orientation;
pub mod image;
