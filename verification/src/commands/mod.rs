pub mod voice;
