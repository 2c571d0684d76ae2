pub mod openai;
pub mod crypto;
pub mod gaze;
pub mod yt_server;
pub mod download;
