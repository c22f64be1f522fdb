//! FLV: the file header and the audio and video tags, legacy and enhanced (Enhanced RTMP).
pub mod common;
pub mod audio_enums;
pub mod video_enums;
pub mod error;
pub mod header;
pub mod audio_header;
pub mod audio_body;
pub mod video_header;
pub mod video_body;
pub mod script;
