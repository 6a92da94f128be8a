//! A workspace of git repositories that are mirrored across several
//! hosting providers: the configuration model, its validation, the
//! resolution of remotes into URLs, and the decisions of the commands.

pub mod strmap;
pub mod text;
pub mod types;
pub mod error;
pub mod validate;
pub mod constants;
pub mod resolve;
pub mod workspace;
pub mod laws;
pub mod report;
pub mod cmd;
pub mod secrets;
pub mod providers;
pub mod git;
