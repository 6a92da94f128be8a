//! `git las remote`: the global remotes.

pub mod add;
pub mod ls;
pub mod rm;
