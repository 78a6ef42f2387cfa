//! What the user asks for: the frames to load.

pub mod args;
