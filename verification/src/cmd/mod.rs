//! The decisions of each command: what it changes, what it runs, and what
//! it reports. Reading and writing files and running git is left to the
//! program around the library.

pub mod init;
pub mod pull;
pub mod push;
pub mod remote;
pub mod repo;
