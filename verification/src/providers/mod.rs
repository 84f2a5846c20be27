//! Provider adapters kept independent from the interactive application.

pub mod openai_compatible;
pub mod openai_runtime;
pub mod reply_law;
