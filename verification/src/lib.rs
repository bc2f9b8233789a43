//! Bitrate analysis of media files: decoding of the probe tool's JSON report,
//! aggregation of packet sizes into a time histogram, discovery of the probe
//! program, and a bounded list of recently opened files.

pub mod bitrate;
pub mod decode;
pub mod entry;
pub mod ffmpeg;
pub mod history;
pub mod json;
pub mod locate;
pub mod status;
pub mod text;
pub mod time;
