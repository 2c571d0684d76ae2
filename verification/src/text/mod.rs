pub mod chars;
pub mod normalize;
pub mod words;

pub use normalize::{is_noise_transcript, normalize};
pub mod replace;
pub mod number;
pub mod names;
