//! Finds the reply that steered a discussion thread off topic and composes
//! the reply that names it.

pub mod address;
pub mod data;
pub mod escape;
pub mod post;
pub mod prompt;
pub mod session;
pub mod text;
pub mod thread;
pub mod util;
