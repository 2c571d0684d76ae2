//! Verified logic of a voice-driven learning app for children: text
//! normalisation, wake-word and command handling, the voice session and
//! enrollment, question segments, search results, and the encryption of
//! stored voice embeddings.
pub mod commands;
pub mod handlers;
pub mod text;
pub mod utils;
pub mod voice;
