//! Core logic of an SSH/SFTP terminal tool.
use vstd::prelude::*;

pub mod text;
pub mod path;
pub mod connection;
pub mod ssh_config;
pub mod config;
pub mod sftp;
pub mod app;
pub mod event;
pub mod resource;
pub mod ssh;
pub mod trusted;

verus! {

} // verus!
