//! `git las repo remote`: the remotes of the current repo.

pub mod add;
pub mod ls;
pub mod rm;
