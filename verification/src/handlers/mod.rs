pub mod kids;
pub mod questions;
pub mod videos;
pub mod frames;
pub mod answers;
pub mod tags;
