//! Machine learning: the decisions around local models (how long a
//! generation goes on, how audio is cut into windows) and around remote
//! providers and model repositories.
pub mod generation;
pub mod transcription;
pub mod remote;
pub mod repository;
