pub mod intent;
pub mod wake_word;
pub mod session;
pub mod command;
pub mod onboarding;
pub mod vad;
pub mod pipeline;
pub mod moonshine;
