//! Lyric retrieval core: key decryption, track alignment and the decisions of
//! the download pipeline.

pub mod audio;
pub mod lyric;
pub mod ncm;
pub mod pipeline;
pub mod text;
pub mod timing;
pub mod ttml;
