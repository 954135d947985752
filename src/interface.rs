//! What the host's input layer hands the engine.
pub mod input;
