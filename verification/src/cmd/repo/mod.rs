//! `git las repo`: the tracked repos.

pub mod remote;
pub mod rm;
pub mod status;
