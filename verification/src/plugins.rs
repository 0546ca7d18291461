//! The handlers this bot registers.

pub mod anime;
pub mod bully;
pub mod fourchan;
pub mod meme;
